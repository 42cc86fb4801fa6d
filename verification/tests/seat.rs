use comphwde::actions::{
    action_named, decide_key, is_emergency_reset, Action, ActionRest, Candidate, KeyFate,
};
use comphwde::desk::{CompositorConfig, KeyboardLayout};
use comphwde::events::{InputEvent, SeatCall, TouchKind};
use comphwde::geometry::{Point, Rectangle, Size};
use comphwde::grabs::Travel;
use comphwde::hwde::HwdeState;
use comphwde::keybind::Modifiers;
use comphwde::input::{pointer_bounds, Popup, Under};
use comphwde::render_elements::{
    build_output_elements, cursor_elements, focus_border_elements, ssd_bar_geometry,
    ssd_close_geometry, ssd_hit_test, Drawn, RenderInputs, SsdHit,
};
use comphwde::window::{Effect, NewWindow};

fn point(x: i32, y: i32) -> Point {
    Point { x, y }
}

fn rectangle(x: i32, y: i32, w: i32, h: i32) -> Rectangle {
    Rectangle { loc: point(x, y), size: Size { w, h } }
}

/// A desktop with decorated windows, each 300 by 200, whose handles are their ids.
fn desktop(windows: u64) -> HwdeState {
    let config = CompositorConfig {
        workspace_count: 3,
        gaps: 0,
        border_width: 2,
        master_ratio: 0.5f32.to_bits(),
        idle_dim_timeout_secs: 0,
    };
    let mut state = HwdeState::new(config, KeyboardLayout::default(), String::new());
    for n in 1..=windows {
        state.place_new_window(
            NewWindow {
                window: n,
                surface: Some(n + 100),
                title: format!("window {n}"),
                app_id: String::from("app"),
                pid: None,
                is_x11: false,
                size: Size { w: 300, h: 200 },
            },
            true,
        );
        state.set_ssd_by_surface(n + 100, true);
    }
    state.take_effects();
    state
}

fn place(state: &HwdeState, handle: u64) -> Point {
    state.space.element_location(handle).unwrap()
}

#[test]
fn a_bar_lies_above_its_window() {
    let bar = ssd_bar_geometry(point(100, 200), 300);
    assert_eq!(bar, rectangle(100, 172, 300, 28));
    assert_eq!(ssd_close_geometry(bar), rectangle(376, 176, 20, 20));
}

#[test]
fn clicks_hit_the_bar_or_its_close_button() {
    let mut state = desktop(1);
    let at = place(&state, 1);
    assert_eq!(state.decoration_bars().len(), 1);
    assert_eq!(
        ssd_hit_test(&state, point(at.x + 5, at.y - 5)),
        Some(SsdHit::Bar(1))
    );
    assert_eq!(
        ssd_hit_test(&state, point(at.x + 290, at.y - 10)),
        Some(SsdHit::Close(1))
    );
    assert_eq!(ssd_hit_test(&state, point(at.x + 5, at.y + 5)), None);
    state.set_ssd_by_surface(101, false);
    assert_eq!(ssd_hit_test(&state, point(at.x + 5, at.y - 5)), None);
}

#[test]
fn the_cursor_is_drawn_slice_by_slice() {
    assert!(cursor_elements(false, point(0, 0)).is_empty());
    let drawn = cursor_elements(true, point(50, 60));
    assert_eq!(drawn.len(), 10);
    assert_eq!(drawn[0], Drawn::Cursor(rectangle(50, 60, 14, 2)));
    assert_eq!(drawn[1], Drawn::CursorOutline(rectangle(49, 59, 16, 4)));
    assert_eq!(drawn[8], Drawn::Cursor(rectangle(52, 68, 4, 2)));
}

#[test]
fn the_focused_window_has_a_border() {
    let mut state = desktop(1);
    assert!(focus_border_elements(&state).is_empty());
    state.focus_window_by_id(1);
    assert_eq!(focus_border_elements(&state).len(), 4);
    let at = place(&state, 1);
    let border = focus_border_elements(&state);
    assert!(border.contains(&rectangle(at.x - 2, at.y - 2, 304, 2)));
}

#[test]
fn the_cursor_is_in_front_and_the_wallpaper_behind() {
    let state = desktop(1);
    let inputs = RenderInputs {
        idle_dimmed: true,
        cursor_visible: true,
        cursor_location: point(0, 0),
        wallpaper_loaded: true,
    };
    let size = Size { w: 640, h: 480 };
    let drawn = build_output_elements(&state, inputs, size);
    assert!(matches!(drawn[0], Drawn::Cursor(_)));
    assert_eq!(drawn.last(), Some(&Drawn::Wallpaper(size)));
    assert!(drawn.contains(&Drawn::Dim(size)));
    assert!(drawn.contains(&Drawn::Space));
}

#[test]
fn emergency_can_not_be_bound_away() {
    let bound = || vec![Candidate { matches: true, action: Some(Action::Quit) }];
    assert!(matches!(decide_key(true, true, bound()), KeyFate::EmergencyReset));
    assert!(matches!(decide_key(true, false, bound()), KeyFate::Run(Action::Quit)));
    assert!(matches!(decide_key(false, false, bound()), KeyFate::Forward));
    assert!(matches!(decide_key(true, false, Vec::new()), KeyFate::Forward));
}

#[test]
fn the_first_binding_that_matches_decides() {
    let candidates = vec![
        Candidate { matches: false, action: Some(Action::Quit) },
        Candidate { matches: true, action: Some(Action::FocusNext) },
        Candidate { matches: true, action: Some(Action::FocusPrev) },
    ];
    assert!(matches!(
        decide_key(true, false, candidates),
        KeyFate::Run(Action::FocusNext)
    ));
}

#[test]
fn actions_are_run() {
    let mut state = desktop(2);
    state.focus_window_by_id(2);
    assert!(matches!(state.run_action(Action::FocusPrev), ActionRest::Nothing));
    assert_eq!(state.focused_window, Some(1));
    state.run_action(Action::ToggleMaximize);
    assert!(state.windows[0].is_maximized);
    state.run_action(Action::ToggleFloating);
    assert!(state.floating_windows.contains(&1));
    state.run_action(Action::ToggleTiling);
    assert!(state.tiling_enabled.contains(&0));
    state.run_action(Action::MoveToWorkspace(2));
    assert_eq!(state.windows[0].workspace, 1);
    state.run_action(Action::SwitchWorkspace(2));
    assert_eq!(state.active_workspace, 1);
    assert!(matches!(
        state.run_action(Action::Spawn(String::from("foot"))),
        ActionRest::Spawn(command) if command == "foot"
    ));
    assert!(matches!(state.run_action(Action::ReloadConfig), ActionRest::Reload));
    assert!(matches!(state.run_action(Action::DimNow), ActionRest::Dim));
    state.run_action(Action::Quit);
    assert!(!state.running);
}

#[test]
fn closing_goes_to_the_focused_window() {
    let mut state = desktop(2);
    state.run_action(Action::CloseWindow);
    assert!(state.take_effects().is_empty());
    state.focus_window_by_id(2);
    state.run_action(Action::CloseWindow);
    assert!(state.take_effects().contains(&Effect::Close { window: 2 }));
}

#[test]
fn popups_under_the_click_stay() {
    let mut state = desktop(1);
    let at = place(&state, 1);
    let popup = |popup: u64, is_xdg: bool| Popup {
        popup,
        window: 1,
        offset: point(10, 10),
        geometry: rectangle(0, 0, 50, 50),
        is_xdg,
    };
    let popups = vec![popup(7, true), popup(8, false)];
    state.dismiss_popups_outside(&popups, point(at.x + 20, at.y + 20));
    assert!(state.take_effects().is_empty());
    state.dismiss_popups_outside(&popups, point(at.x + 200, at.y + 20));
    assert_eq!(state.take_effects(), vec![Effect::DismissPopup { popup: 7 }]);
}

const NOTHING: Under = Under { surface: None, window: None };

#[test]
fn bars_take_their_clicks() {
    let mut state = desktop(2);
    let at = place(&state, 1);
    let bar = point(at.x + 5, at.y - 5);
    let under = Under { surface: Some(102), window: Some(2) };
    assert!(!state.pointer_pressed(bar, &Vec::new(), under));
    assert_eq!(state.focused_window, Some(1));
    assert!(state
        .take_effects()
        .contains(&Effect::StartMove { window: 1, location: at }));
    assert!(!state.pointer_pressed(point(at.x + 290, at.y - 10), &Vec::new(), NOTHING));
    assert_eq!(state.take_effects(), vec![Effect::Close { window: 1 }]);
}

#[test]
fn a_press_on_a_window_raises_it() {
    let mut state = desktop(2);
    let under = Under { surface: Some(101), window: Some(1) };
    assert!(state.pointer_pressed(point(900, 900), &Vec::new(), under));
    assert_eq!(
        state.take_effects(),
        vec![Effect::Focus { surface: 101 }, Effect::Raise { window: 1, activate: true }]
    );
    assert_eq!(state.space.elements.last().map(|m| m.window), Some(1));
}

fn travel(distance: f64) -> Travel {
    Travel { floor: distance.floor() as i32, ceil: distance.ceil() as i32 }
}

#[test]
fn swipes_switch_workspaces() {
    let mut state = desktop(0);
    state.swipe_ended(3, travel(-119.5), false);
    assert_eq!(state.active_workspace, 0);
    state.swipe_ended(3, travel(-120.0), false);
    assert_eq!(state.active_workspace, 1);
    state.swipe_ended(4, travel(-300.0), true);
    assert_eq!(state.active_workspace, 1);
    state.swipe_ended(2, travel(-300.0), false);
    assert_eq!(state.active_workspace, 1);
    state.swipe_ended(4, travel(120.25), false);
    assert_eq!(state.active_workspace, 0);
    state.swipe_ended(4, travel(500.0), false);
    assert_eq!(state.active_workspace, 0);
}

#[test]
fn the_pointer_stays_on_the_output() {
    let bounds = pointer_bounds(Some(rectangle(10, 20, 100, 50)));
    assert_eq!(bounds.low, point(10, 20));
    assert_eq!(bounds.high, point(109, 69));
    assert_eq!(pointer_bounds(None).high, point(1919, 1079));
}

#[test]
fn events_lead_to_calls_of_the_seat() {
    let mut state = desktop(1);
    let mut fingers = None;
    let mut take = |event| state.process_input_event(&mut fingers, event);
    assert!(matches!(
        take(InputEvent::PointerMotion),
        SeatCall::Motion { relative: true }
    ));
    assert!(matches!(
        take(InputEvent::PointerMotionAbsolute),
        SeatCall::Motion { relative: false }
    ));
    assert!(matches!(
        take(InputEvent::PointerAxis { horizontal: false, vertical: true }),
        SeatCall::Axis { horizontal: false, vertical: true }
    ));
    assert!(matches!(
        take(InputEvent::Touch { has_touch: true, kind: TouchKind::Up }),
        SeatCall::Touch(TouchKind::Up)
    ));
    assert!(matches!(
        take(InputEvent::Touch { has_touch: false, kind: TouchKind::Up }),
        SeatCall::Nothing
    ));
    assert!(matches!(
        take(InputEvent::TabletProximity { entering: true, has_surface: true }),
        SeatCall::ProximityIn
    ));
    assert!(matches!(
        take(InputEvent::TabletProximity { entering: false, has_surface: true }),
        SeatCall::ProximityOut
    ));
    assert!(matches!(
        take(InputEvent::TabletTip { has_tablet: true, has_tool: true, down: true }),
        SeatCall::TipDown
    ));
    assert!(matches!(
        take(InputEvent::TabletTip { has_tablet: true, has_tool: true, down: false }),
        SeatCall::TipUp
    ));
    assert!(matches!(
        take(InputEvent::TabletAxis { has_tablet: true, has_tool: false }),
        SeatCall::Nothing
    ));
    assert!(matches!(
        take(InputEvent::TabletButton { has_tool: true }),
        SeatCall::ToolButton
    ));
    assert!(matches!(take(InputEvent::Other), SeatCall::Nothing));
}

#[test]
fn releases_reach_the_client() {
    let mut state = desktop(1);
    let at = place(&state, 1);
    let event = |pressed: bool| InputEvent::PointerButton {
        pressed,
        at: point(at.x + 5, at.y - 5),
        popups: Vec::new(),
        under: NOTHING,
    };
    let mut fingers = None;
    assert!(matches!(
        state.process_input_event(&mut fingers, event(true)),
        SeatCall::Nothing
    ));
    assert!(matches!(
        state.process_input_event(&mut fingers, event(false)),
        SeatCall::Button
    ));
}

#[test]
fn a_swipe_runs_from_its_beginning_to_its_end() {
    let mut state = desktop(0);
    let mut fingers = None;
    let end = || InputEvent::SwipeEnd { travel: travel(-200.0), cancelled: false };
    state.process_input_event(&mut fingers, end());
    assert_eq!(state.active_workspace, 0);
    state.process_input_event(&mut fingers, InputEvent::SwipeBegin { fingers: 3 });
    assert_eq!(fingers, Some(3));
    state.process_input_event(&mut fingers, InputEvent::SwipeUpdate);
    state.process_input_event(&mut fingers, end());
    assert_eq!(fingers, None);
    assert_eq!(state.active_workspace, 1);
}

#[test]
fn keys_are_forwarded_unless_they_are_bound() {
    let mut state = desktop(0);
    let mut fingers = None;
    let key = |candidates: Vec<Candidate>| InputEvent::Keyboard {
        has_keyboard: true,
        pressed: true,
        emergency: false,
        candidates,
    };
    assert!(matches!(
        state.process_input_event(&mut fingers, key(Vec::new())),
        SeatCall::Key
    ));
    let bound = vec![Candidate { matches: true, action: Some(Action::Quit) }];
    assert!(matches!(
        state.process_input_event(&mut fingers, key(bound)),
        SeatCall::Acted(ActionRest::Nothing)
    ));
    assert!(!state.running);
}

#[test]
fn actions_have_names() {
    let named = |name: &str| action_named(name, String::from("term"));
    assert!(matches!(named("close_window"), Some(Action::CloseWindow)));
    assert!(matches!(named("toggle_floating"), Some(Action::ToggleFloating)));
    assert!(matches!(named("cycle_windows"), Some(Action::FocusNext)));
    assert!(matches!(named("launch_terminal"), Some(Action::Spawn(c)) if c == "term"));
    assert!(matches!(named("workspace_3"), Some(Action::SwitchWorkspace(3))));
    assert!(named("workspace_0").is_none());
    assert!(named("dance").is_none());
}

#[test]
fn the_emergency_combination_is_built_in() {
    let all = Modifiers { super_: false, shift: true, ctrl: true, alt: true };
    assert!(is_emergency_reset(all, 0xff1b));
    assert!(!is_emergency_reset(all, 0xff09));
    assert!(!is_emergency_reset(Modifiers { alt: false, ..all }, 0xff1b));
}
