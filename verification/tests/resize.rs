use comphwde::geometry::{Point, Rectangle, Size};
use comphwde::grabs::{
    GrabAction, MoveSurfaceGrab, ResizeEdge, ResizeSurfaceGrab, SizeLimits, Travel, X11ResizeEdge,
};
use comphwde::resize::{
    apply_resize, ClientKind, MoveGrab, ResizeEdges, ResizeGrab, ResizeOutcome, XdgEdge,
};

#[test]
fn xdg_single_edges_map_correctly() {
    assert_eq!(
        ResizeEdges::from(XdgEdge::Top),
        ResizeEdges { top: true, bottom: false, left: false, right: false }
    );
    assert_eq!(
        ResizeEdges::from(XdgEdge::Bottom),
        ResizeEdges { top: false, bottom: true, left: false, right: false }
    );
    assert_eq!(
        ResizeEdges::from(XdgEdge::Left),
        ResizeEdges { top: false, bottom: false, left: true, right: false }
    );
    assert_eq!(
        ResizeEdges::from(XdgEdge::Right),
        ResizeEdges { top: false, bottom: false, left: false, right: true }
    );
}

#[test]
fn xdg_corner_edges_set_two_flags() {
    assert_eq!(
        ResizeEdges::from(XdgEdge::TopLeft),
        ResizeEdges { top: true, left: true, bottom: false, right: false }
    );
    assert_eq!(
        ResizeEdges::from(XdgEdge::TopRight),
        ResizeEdges { top: true, right: true, bottom: false, left: false }
    );
    assert_eq!(
        ResizeEdges::from(XdgEdge::BottomLeft),
        ResizeEdges { bottom: true, left: true, top: false, right: false }
    );
    assert_eq!(
        ResizeEdges::from(XdgEdge::BottomRight),
        ResizeEdges { bottom: true, right: true, top: false, left: false }
    );
}

#[test]
fn xdg_none_edge_sets_no_flags() {
    assert_eq!(ResizeEdges::from(XdgEdge::Inside), ResizeEdges::default());
}

fn rectangle(x: i32, y: i32, w: i32, h: i32) -> Rectangle {
    Rectangle { loc: Point { x, y }, size: Size { w, h } }
}

#[test]
fn a_window_dragged_at_its_left_edge_keeps_its_right_edge() {
    let grab = ResizeGrab {
        window: 1,
        edges: ResizeEdges::from(XdgEdge::TopLeft),
        initial_window_location: Point { x: 100, y: 50 },
        initial_window_size: Size { w: 300, h: 200 },
    };
    assert_eq!(grab.motion(Point { x: 40, y: -10 }), rectangle(140, 40, 260, 210));
    assert_eq!(grab.motion(Point { x: 1000, y: 1000 }), rectangle(368, 218, 32, 32));
}

#[test]
fn a_window_dragged_at_its_right_edge_stays_in_place() {
    let grab = ResizeGrab {
        window: 1,
        edges: ResizeEdges::from(XdgEdge::BottomRight),
        initial_window_location: Point { x: 100, y: 50 },
        initial_window_size: Size { w: 300, h: 200 },
    };
    assert_eq!(grab.motion(Point { x: 40, y: -10 }), rectangle(100, 50, 340, 190));
    assert_eq!(grab.motion(Point { x: -1000, y: -1000 }), rectangle(100, 50, 32, 32));
}

#[test]
fn each_kind_of_client_is_told_in_its_own_way() {
    let geometry = rectangle(1, 2, 30, 40);
    let left = ResizeEdges::from(XdgEdge::Left);
    let right = ResizeEdges::from(XdgEdge::Right);
    assert_eq!(
        apply_resize(ClientKind::Wayland, geometry, left),
        ResizeOutcome {
            configure: Some(geometry.size),
            configure_x11: None,
            map_at: Some(geometry.loc)
        }
    );
    assert_eq!(apply_resize(ClientKind::Wayland, geometry, right).map_at, None);
    assert_eq!(
        apply_resize(ClientKind::X11, geometry, right),
        ResizeOutcome {
            configure: None,
            configure_x11: Some(geometry),
            map_at: Some(geometry.loc)
        }
    );
    assert_eq!(
        apply_resize(ClientKind::Gone, geometry, left),
        ResizeOutcome { configure: None, configure_x11: None, map_at: None }
    );
}

#[test]
fn a_moved_window_follows_the_pointer() {
    let grab = MoveGrab { window: 1, initial_window_location: Point { x: 5, y: 6 } };
    assert_eq!(grab.motion(Point { x: 10, y: -20 }), Point { x: 15, y: -14 });
    assert_eq!(
        grab.motion(Point { x: i32::MAX, y: 0 }),
        Point { x: i32::MAX, y: 6 }
    );

    let grab = MoveSurfaceGrab { window: 1, initial_window_location: Point { x: 5, y: 6 } };
    let target = Point { x: 7, y: 8 };
    assert_eq!(grab.motion(true, target), GrabAction::MoveTo { location: target });
    assert_eq!(grab.motion(false, target), GrabAction::Release);
    assert_eq!(grab.button(1), GrabAction::Keep);
    assert_eq!(grab.button(0), GrabAction::Release);
}

#[test]
fn protocol_numbers_stand_for_edges() {
    let corner = ResizeEdge::from_xdg(5);
    assert!(corner.top && corner.left && !corner.bottom && !corner.right);
    assert_eq!(ResizeEdge::from_xdg(10), ResizeEdge::from_x11(X11ResizeEdge::BottomRight));
    assert_eq!(ResizeEdge::from_xdg(16), ResizeEdge::empty());
}

fn travel(distance: f64) -> Travel {
    Travel { floor: distance.floor() as i32, ceil: distance.ceil() as i32 }
}

#[test]
fn a_resize_is_held_between_the_clients_limits() {
    let mut grab = ResizeSurfaceGrab {
        window: 1,
        edges: ResizeEdge::from_xdg(10),
        initial_window_location: Point { x: 0, y: 0 },
        initial_window_size: Size { w: 100, h: 100 },
        last_window_size: Size { w: 100, h: 100 },
    };
    let limits = SizeLimits { min: Size { w: 80, h: 0 }, max: Size { w: 0, h: 150 } };
    let action = grab.motion(true, travel(-50.5), travel(70.25), limits, false, None);
    assert_eq!(
        action,
        GrabAction::Configure { size: Size { w: 80, h: 150 }, resizing: true }
    );
    assert_eq!(
        grab.button(0, false),
        (GrabAction::Configure { size: Size { w: 80, h: 150 }, resizing: false }, true)
    );
    assert_eq!(grab.button(0, true), (GrabAction::Keep, true));
    assert_eq!(grab.button(2, false), (GrabAction::Keep, false));

    let here = Point { x: 9, y: 9 };
    let action = grab.motion(true, travel(10.9), travel(-10.9), limits, true, Some(here));
    assert_eq!(
        action,
        GrabAction::ConfigureX11 {
            geometry: Rectangle { loc: here, size: Size { w: 110, h: 89 } }
        }
    );
    assert_eq!(
        grab.motion(false, travel(1.0), travel(1.0), limits, false, None),
        GrabAction::Release
    );
}

#[test]
fn a_released_button_ends_the_grab() {
    let grab = MoveGrab { window: 1, initial_window_location: Point { x: 0, y: 0 } };
    assert!(grab.button(true));
    assert!(!grab.button(false));
}
