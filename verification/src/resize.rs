//! The desktop's own resize grab, which keeps the edge that is not held in place.
use vstd::prelude::*;

use crate::geometry::{at_least, sat, sat_i64, max_i32, Point, Rectangle, Size};
use crate::grabs::X11ResizeEdge;

verus! {

/// The least width and height of a window that is resized by hand.
pub const MIN_WINDOW_SIZE: i32 = 32;

#[derive(Debug, Clone, Copy, PartialEq, Eq, Structural)]
pub struct ResizeEdges {
    pub top: bool,
    pub bottom: bool,
    pub left: bool,
    pub right: bool,
}

impl Default for ResizeEdges {
    fn default() -> (r: ResizeEdges)
        ensures
            r == no_edges(),
    {
        ResizeEdges { top: false, bottom: false, left: false, right: false }
    }
}

/// An edge or corner as the xdg-shell protocol names it.
#[derive(Debug, Clone, Copy, PartialEq, Eq, Structural)]
pub enum XdgEdge {
    /// No edge.
    Inside,
    Top,
    Bottom,
    Left,
    Right,
    TopLeft,
    TopRight,
    BottomLeft,
    BottomRight,
}

pub open spec fn no_edges() -> ResizeEdges {
    ResizeEdges { top: false, bottom: false, left: false, right: false }
}

pub open spec fn xdg_edges(e: XdgEdge) -> ResizeEdges {
    ResizeEdges {
        top: e is Top || e is TopLeft || e is TopRight,
        bottom: e is Bottom || e is BottomLeft || e is BottomRight,
        left: e is Left || e is TopLeft || e is BottomLeft,
        right: e is Right || e is TopRight || e is BottomRight,
    }
}

pub open spec fn x11_edges(e: X11ResizeEdge) -> ResizeEdges {
    ResizeEdges {
        top: crate::grabs::touches_top(e),
        bottom: crate::grabs::touches_bottom(e),
        left: crate::grabs::touches_left(e),
        right: crate::grabs::touches_right(e),
    }
}

impl From<XdgEdge> for ResizeEdges {
    fn from(e: XdgEdge) -> (r: ResizeEdges) {
        let none = ResizeEdges { top: false, bottom: false, left: false, right: false };
        match e {
            XdgEdge::Inside => none,
            XdgEdge::Top => ResizeEdges { top: true, ..none },
            XdgEdge::Bottom => ResizeEdges { bottom: true, ..none },
            XdgEdge::Left => ResizeEdges { left: true, ..none },
            XdgEdge::Right => ResizeEdges { right: true, ..none },
            XdgEdge::TopLeft => ResizeEdges { top: true, left: true, ..none },
            XdgEdge::TopRight => ResizeEdges { top: true, right: true, ..none },
            XdgEdge::BottomLeft => ResizeEdges { bottom: true, left: true, ..none },
            XdgEdge::BottomRight => ResizeEdges { bottom: true, right: true, ..none },
        }
    }
}

impl vstd::std_specs::convert::FromSpecImpl<XdgEdge> for ResizeEdges {
    open spec fn obeys_from_spec() -> bool {
        true
    }

    open spec fn from_spec(e: XdgEdge) -> ResizeEdges {
        xdg_edges(e)
    }
}

impl From<X11ResizeEdge> for ResizeEdges {
    fn from(e: X11ResizeEdge) -> (r: ResizeEdges) {
        let none = ResizeEdges { top: false, bottom: false, left: false, right: false };
        match e {
            X11ResizeEdge::Top => ResizeEdges { top: true, ..none },
            X11ResizeEdge::Bottom => ResizeEdges { bottom: true, ..none },
            X11ResizeEdge::Left => ResizeEdges { left: true, ..none },
            X11ResizeEdge::Right => ResizeEdges { right: true, ..none },
            X11ResizeEdge::TopLeft => ResizeEdges { top: true, left: true, ..none },
            X11ResizeEdge::TopRight => ResizeEdges { top: true, right: true, ..none },
            X11ResizeEdge::BottomLeft => ResizeEdges { bottom: true, left: true, ..none },
            X11ResizeEdge::BottomRight => ResizeEdges { bottom: true, right: true, ..none },
        }
    }
}

impl vstd::std_specs::convert::FromSpecImpl<X11ResizeEdge> for ResizeEdges {
    open spec fn obeys_from_spec() -> bool {
        true
    }

    open spec fn from_spec(e: X11ResizeEdge) -> ResizeEdges {
        x11_edges(e)
    }
}

/// Start and length of a window along one axis after the pointer went `delta`.
/// The far edge wins where both are held; a window dragged at its near edge keeps
/// its far edge in place.
pub open spec fn stretched(start: int, len: int, near: bool, far: bool, delta: int) -> (int, int) {
    if far {
        (start, at_least(sat(len + delta), MIN_WINDOW_SIZE as int))
    } else if near {
        let n = at_least(sat(len - delta), MIN_WINDOW_SIZE as int);
        (sat(start + (len - n)), n)
    } else {
        (start, len)
    }
}

fn stretch(start: i32, len: i32, near: bool, far: bool, delta: i32) -> (r: (i32, i32))
    ensures
        r.0 == stretched(start as int, len as int, near, far, delta as int).0,
        r.1 == stretched(start as int, len as int, near, far, delta as int).1,
{
    if far {
        (start, max_i32(sat_i64(len as i64 + delta as i64), MIN_WINDOW_SIZE))
    } else if near {
        let n: i32 = max_i32(sat_i64(len as i64 - delta as i64), MIN_WINDOW_SIZE);
        (sat_i64(start as i64 + (len as i64 - n as i64)), n)
    } else {
        (start, len)
    }
}

/// A window that is being resized.
#[derive(Debug, Clone, Copy, PartialEq, Eq, Structural)]
pub struct ResizeGrab {
    pub window: u64,
    pub edges: ResizeEdges,
    pub initial_window_location: Point,
    pub initial_window_size: Size,
}

/// The kind of client behind a window.
#[derive(Debug, Clone, Copy, PartialEq, Eq, Structural)]
pub enum ClientKind {
    Wayland,
    X11,
    Gone,
}

/// What a resize asks of the rest of the compositor: the size or geometry to tell
/// the client, and the place to show the window at, if it moves.
#[derive(Debug, Clone, Copy, PartialEq, Eq, Structural)]
pub struct ResizeOutcome {
    pub configure: Option<Size>,
    pub configure_x11: Option<Rectangle>,
    pub map_at: Option<Point>,
}

pub open spec fn stretched_rectangle(grab: ResizeGrab, delta: Point) -> Rectangle {
    let x = stretched(
        grab.initial_window_location.x as int,
        grab.initial_window_size.w as int,
        grab.edges.left,
        grab.edges.right,
        delta.x as int,
    );
    let y = stretched(
        grab.initial_window_location.y as int,
        grab.initial_window_size.h as int,
        grab.edges.top,
        grab.edges.bottom,
        delta.y as int,
    );
    Rectangle {
        loc: Point { x: x.0 as i32, y: y.0 as i32 },
        size: Size { w: x.1 as i32, h: y.1 as i32 },
    }
}

/// How a new geometry reaches a client: a Wayland client is told its size, and its
/// window moves only where the upper or left edge is held; an X11 client is told
/// everything.
pub fn apply_resize(kind: ClientKind, geometry: Rectangle, edges: ResizeEdges) -> (r: ResizeOutcome)
    ensures
        r == (match kind {
            ClientKind::Wayland => ResizeOutcome {
                configure: Some(geometry.size),
                configure_x11: None,
                map_at: if edges.top || edges.left {
                    Some(geometry.loc)
                } else {
                    None
                },
            },
            ClientKind::X11 => ResizeOutcome {
                configure: None,
                configure_x11: Some(geometry),
                map_at: Some(geometry.loc),
            },
            ClientKind::Gone => ResizeOutcome {
                configure: None,
                configure_x11: None,
                map_at: None,
            },
        }),
{
    match kind {
        ClientKind::Wayland => {
            let map_at = if edges.top || edges.left {
                Some(geometry.loc)
            } else {
                None
            };
            ResizeOutcome { configure: Some(geometry.size), configure_x11: None, map_at }
        },
        ClientKind::X11 => ResizeOutcome {
            configure: None,
            configure_x11: Some(geometry),
            map_at: Some(geometry.loc),
        },
        ClientKind::Gone => ResizeOutcome { configure: None, configure_x11: None, map_at: None },
    }
}

impl ResizeGrab {
    /// The geometry after the pointer went `delta` from where the grab began.
    pub fn motion(&self, delta: Point) -> (r: Rectangle)
        ensures
            r == stretched_rectangle(*self, delta),
    {
        let (x, w) = stretch(
            self.initial_window_location.x,
            self.initial_window_size.w,
            self.edges.left,
            self.edges.right,
            delta.x,
        );
        let (y, h) = stretch(
            self.initial_window_location.y,
            self.initial_window_size.h,
            self.edges.top,
            self.edges.bottom,
            delta.y,
        );
        Rectangle { loc: Point { x, y }, size: Size { w, h } }
    }

    /// Whether a button ends the grab: any that is released does.
    pub fn button(&self, released: bool) -> (r: bool)
        ensures
            r == released,
    {
        released
    }
}

/// The desktop's move grab: the window goes where the pointer takes it.
#[derive(Debug, Clone, Copy, PartialEq, Eq, Structural)]
pub struct MoveGrab {
    pub window: u64,
    pub initial_window_location: Point,
}

impl MoveGrab {
    pub fn motion(&self, delta: Point) -> (r: Point)
        ensures
            r.x == sat(self.initial_window_location.x + delta.x),
            r.y == sat(self.initial_window_location.y + delta.y),
    {
        Point {
            x: sat_i64(self.initial_window_location.x as i64 + delta.x as i64),
            y: sat_i64(self.initial_window_location.y as i64 + delta.y as i64),
        }
    }

    /// Whether a button ends the grab: any that is released does.
    pub fn button(&self, released: bool) -> (r: bool)
        ensures
            r == released,
    {
        released
    }
}

/// A window dragged at its near edge keeps its far edge in place, as long as the
/// coordinates stay in range.
pub proof fn law_far_edge_stays(start: int, len: int, delta: int)
    requires
        sat(len - delta) == len - delta,
        sat(start + (len - at_least(len - delta, MIN_WINDOW_SIZE as int))) == start + (len
            - at_least(len - delta, MIN_WINDOW_SIZE as int)),
    ensures
        ({
            let r = stretched(start, len, true, false, delta);
            r.0 + r.1 == start + len
        }),
{
}

/// A window that is resized by hand never gets smaller than the least size.
pub proof fn law_least_size(start: int, len: int, near: bool, far: bool, delta: int)
    requires
        near || far,
    ensures
        stretched(start, len, near, far, delta).1 >= MIN_WINDOW_SIZE,
{
}

/// A held edge follows the pointer, and the edge opposite stays where it is, as long as
/// the window keeps its least size of 32 pixels. With the right edge held the window gets
/// wider by what the pointer goes to the right; with the left edge held it begins that
/// much further right and gets that much narrower; with neither it keeps its place and
/// its width. Likewise with the lower and the upper edge.
pub proof fn law_held_edges_follow_the_pointer(grab: ResizeGrab, delta: Point)
    ensures
        ({
            let at = grab.initial_window_location;
            let size = grab.initial_window_size;
            let r = stretched_rectangle(grab, delta);
            &&& grab.edges.right && 32 <= size.w + delta.x <= i32::MAX ==> r.loc.x == at.x
                && r.size.w == size.w + delta.x
            &&& grab.edges.left && !grab.edges.right && 32 <= size.w - delta.x <= i32::MAX
                && i32::MIN <= at.x + delta.x <= i32::MAX ==> r.loc.x == at.x + delta.x && r.size.w
                + delta.x == size.w
            &&& !grab.edges.left && !grab.edges.right ==> r.loc.x == at.x && r.size.w == size.w
            &&& grab.edges.bottom && 32 <= size.h + delta.y <= i32::MAX ==> r.loc.y == at.y
                && r.size.h == size.h + delta.y
            &&& grab.edges.top && !grab.edges.bottom && 32 <= size.h - delta.y <= i32::MAX
                && i32::MIN <= at.y + delta.y <= i32::MAX ==> r.loc.y == at.y + delta.y && r.size.h
                + delta.y == size.h
            &&& !grab.edges.top && !grab.edges.bottom ==> r.loc.y == at.y && r.size.h == size.h
        }),
{
}

/// No drag makes a window smaller than 32 pixels, and the edge that is not held stays even
/// then.
pub proof fn law_the_opposite_edge_stays(grab: ResizeGrab, delta: Point)
    requires
        grab.initial_window_size.w >= 32,
        grab.initial_window_size.h >= 32,
        0 <= grab.initial_window_location.x,
        0 <= grab.initial_window_location.y,
        grab.initial_window_location.x + grab.initial_window_size.w <= i32::MAX,
        grab.initial_window_location.y + grab.initial_window_size.h <= i32::MAX,
        -0x4000_0000 <= delta.x,
        -0x4000_0000 <= delta.y,
    ensures
        ({
            let at = grab.initial_window_location;
            let size = grab.initial_window_size;
            let r = stretched_rectangle(grab, delta);
            &&& r.size.w >= 32 && r.size.h >= 32
            &&& grab.edges.right && size.w + delta.x < 32 ==> r.loc.x == at.x && r.size.w == 32
            &&& grab.edges.left && !grab.edges.right && size.w - delta.x < 32 ==> r.size.w == 32
                && r.loc.x + r.size.w == at.x + size.w
            &&& grab.edges.bottom && size.h + delta.y < 32 ==> r.loc.y == at.y && r.size.h == 32
            &&& grab.edges.top && !grab.edges.bottom && size.h - delta.y < 32 ==> r.size.h == 32
                && r.loc.y + r.size.h == at.y + size.h
        }),
{
}

/// An edge holds its own side and no other, a corner its two sides, and the middle none.
pub proof fn law_corners_hold_two_sides(e: XdgEdge)
    ensures
        ({
            let s = xdg_edges(e);
            &&& !(s.top && s.bottom) && !(s.left && s.right)
            &&& e is Inside ==> !s.top && !s.bottom && !s.left && !s.right
            &&& e is Top ==> s.top && !s.left && !s.right
            &&& e is Bottom ==> s.bottom && !s.left && !s.right
            &&& e is Left ==> s.left && !s.top && !s.bottom
            &&& e is Right ==> s.right && !s.top && !s.bottom
            &&& e is TopLeft ==> s.top && s.left
            &&& e is TopRight ==> s.top && s.right
            &&& e is BottomLeft ==> s.bottom && s.left
            &&& e is BottomRight ==> s.bottom && s.right
        }),
{
}

} // verus!
