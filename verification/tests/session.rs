use comphwde::blue::BlueState;
use comphwde::config::Config;
use comphwde::desktop::{
    DesktopOutput, Mode, PinnedEdge, Request, Shown, SizeHint, WallpaperState,
};
use comphwde::desktop_input::{
    choose_focus, keysym_name, output_bounds, swipe_counts, FocusChoice, KEY_1, KEY_ALT_L,
    KEY_DOWN, KEY_ESCAPE, KEY_F4, KEY_LEFT, KEY_PRINT, KEY_RIGHT, KEY_SUPER_L, KEY_T, KEY_TAB,
    KEY_UP,
};
use comphwde::events::TouchKind;
use comphwde::geometry::{Point, Rectangle, Size};
use comphwde::grabs::Travel;
use comphwde::keybind::Modifiers;
use comphwde::power::{Power, Screen};
use comphwde::scan::sole_fullscreen_hdr_surface;
use comphwde::session_events::{SessionCall, SessionEvent};

const OUTPUT: Rectangle =
    Rectangle { loc: Point { x: 0, y: 0 }, size: Size { w: 1000, h: 800 } };

fn window(n: u64) -> Shown {
    Shown {
        window: n,
        surface: Some(n + 100),
        id: n + 200,
        is_x11: false,
        size: Size { w: 300, h: 200 },
        location: Point { x: 0, y: 0 },
    }
}

fn session(windows: u64) -> BlueState {
    let mut config = Config::default();
    config.general.default_tiling = false;
    config.general.gaps_px = 0;
    let mut state =
        BlueState::new_with_extern_name(config, String::from("wayland-1"), None);
    state.outputs.push(DesktopOutput {
        name: String::from("DP-1"),
        geometry: Some(OUTPUT),
        mode: Some(Mode { size: OUTPUT.size, refresh: 60000 }),
        scale_bits: 1.0f64.to_bits(),
    });
    for n in 1..=windows {
        state.new_toplevel(window(n));
    }
    state.take_requests();
    state
}

const PLAIN: Modifiers = Modifiers { super_: false, shift: false, ctrl: false, alt: false };
const SUPER: Modifiers = Modifiers { super_: true, ..PLAIN };
const ALT: Modifiers = Modifiers { alt: true, ..PLAIN };

#[test]
fn a_session_begins_on_its_first_workspace() {
    let state = session(0);
    assert_eq!(state.socket_name(), "wayland-1");
    assert!(!state.should_exit());
    assert_eq!(state.current_workspace, 0);
    assert_eq!(state.workspace_count, 5);
    assert_eq!(state.primary_output_geometry(), Some(OUTPUT));
}

#[test]
fn new_windows_are_on_the_current_workspace() {
    let mut state = session(1);
    state.switch_workspace(2);
    state.take_requests();
    state.new_toplevel(window(2));
    assert_eq!(state.window_by_id(202).map(|w| w.location), Some(Point { x: 180, y: 110 }));
    assert_eq!(state.window_meta[1].meta.workspace, 2);
    let requests = state.take_requests();
    assert!(requests.contains(&Request::Mapped { id: 202 }));
    assert_eq!(BlueState::window_id(&window(2)), 202);
    assert_eq!(state.window_by_surface(102).map(|w| w.window), Some(2));
}

#[test]
fn destroyed_windows_are_forgotten() {
    let mut state = session(2);
    state.toplevel_destroyed(201, 101);
    assert!(state.window_by_id(201).is_none());
    assert_eq!(state.window_meta.len(), 1);
    assert_eq!(
        state.take_requests(),
        vec![Request::Unmapped { id: 201 }, Request::Hide { window: 1 }]
    );
}

#[test]
fn tiling_only_moves_the_windows_of_its_workspace() {
    let mut state = session(2);
    state.move_window_to_workspace(202, 1);
    let before = state.window_by_id(202).map(|w| w.location);
    state.set_tiling(0, true);
    assert!(state.is_tiling(0) && !state.is_tiling(1));
    assert_eq!(state.window_by_id(201).map(|w| w.location), Some(OUTPUT.loc));
    assert_eq!(state.window_by_id(202).map(|w| w.location), before);
    assert!(state
        .take_requests()
        .contains(&Request::Configure { window: 1, size: OUTPUT.size }));
}

#[test]
fn untiled_workspaces_stay_as_they_are() {
    let mut state = session(2);
    state.apply_tiling_layout(0);
    assert!(state.take_requests().is_empty());
}

#[test]
fn switching_stays_in_range() {
    let mut state = session(0);
    state.switch_workspace(99);
    assert_eq!(state.current_workspace, 4);
    assert_eq!(
        state.take_requests(),
        vec![Request::WorkspaceSwitched { from: 0, to: 4 }]
    );
    state.switch_workspace(4);
    assert!(state.take_requests().is_empty());
}

#[test]
fn the_switcher_wraps_around() {
    let mut state = session(3);
    state.advance_switcher();
    assert!(state.panels.show_switcher);
    let first = state.panels.switcher_index;
    state.cycle_switcher(true);
    state.cycle_switcher(true);
    state.cycle_switcher(true);
    assert_eq!(state.panels.switcher_index, first);
    state.cycle_switcher(false);
    state.cycle_switcher(true);
    assert_eq!(state.panels.switcher_index, first);
    state.apply_switcher_selection();
    assert!(!state.panels.show_switcher);
}

#[test]
fn menus_toggle() {
    let mut state = session(0);
    state.toggle_start_menu();
    assert!(state.panels.start_menu_visible);
    state.toggle_start_menu();
    assert!(!state.panels.start_menu_visible);
    state.toggle_fullscreen_menu();
    assert!(state.panels.fullscreen_menu_visible);
}

#[test]
fn session_windows_float_and_come_back() {
    let mut state = session(1);
    state.toggle_floating_by_id(201);
    assert!(state.window_meta[0].meta.is_floating);
    state.toggle_floating_by_id(201);
    assert!(!state.window_meta[0].meta.is_floating);
    state.minimize_window_by_id(201);
    assert!(state.window_meta[0].meta.is_minimized);
    state.unminimize_window_by_id(201);
    assert!(!state.window_meta[0].meta.is_minimized);
}

#[test]
fn maximized_windows_do_not_float() {
    let mut state = session(1);
    state.toggle_floating_by_id(201);
    state.maximize_window_by_id(201, true, Some(OUTPUT));
    assert!(!state.window_meta[0].meta.is_floating);
    assert!(state.window_meta[0].meta.is_maximized);
    assert!(state.take_requests().contains(&Request::Maximize {
        window: 1,
        maximized: true,
        size: SizeHint::To(OUTPUT.size)
    }));
    state.maximize_window_by_id(201, false, Some(OUTPUT));
    assert_eq!(
        state.take_requests(),
        vec![Request::Maximize { window: 1, maximized: false, size: SizeHint::Free }]
    );
}

#[test]
fn focusing_raises_a_window() {
    let mut state = session(2);
    state.focus_window_by_id(201);
    assert_eq!(
        state.take_requests(),
        vec![Request::Raise { window: 1 }, Request::Focus { surface: Some(101) }]
    );
    assert_eq!(state.shown.last().map(|w| w.window), Some(1));
    state.close_window_by_id(202);
    assert_eq!(state.take_requests(), vec![Request::Close { window: 2 }]);
}

#[test]
fn a_session_keeps_one_pin_for_an_application() {
    let mut state = session(0);
    state.pin_surface(String::from("panel"), PinnedEdge::Top, 30, Some(7));
    state.pin_surface(String::from("panel"), PinnedEdge::Bottom, 40, None);
    assert_eq!(state.pinned_surfaces.len(), 1);
    assert_eq!(state.pinned_surfaces[0].edge, PinnedEdge::Bottom);
    assert_eq!(state.pinned_surfaces[0].thickness_px, 40);
}

#[test]
fn a_wallpaper_has_a_path() {
    let mut w = WallpaperState { path: None };
    w.set_path(String::from("/w.png"));
    assert_eq!(w.path.as_deref(), Some("/w.png"));
}

#[test]
fn summaries_tell_what_is_there() {
    let mut state = session(2);
    state.move_window_to_workspace(202, 3);
    let windows = state.window_summaries();
    assert_eq!(windows.len(), 2);
    assert_eq!(windows.iter().filter(|w| w.workspace == 3).count(), 1);
    let workspaces = state.workspace_summaries();
    assert_eq!(workspaces.len(), 5);
    assert_eq!(workspaces.iter().map(|w| w.window_count).sum::<usize>(), 2);
    assert!(workspaces[0].is_active);
    let outputs = state.output_summaries();
    assert_eq!(outputs[0].name, "DP-1");
    assert_eq!(outputs[0].refresh_mhz, 60000);
    assert!(outputs[0].is_primary);
    let listed = state.ipc_windows();
    assert_eq!((listed[0].x, listed[0].y), (150, 80));
    assert_eq!((listed[0].width, listed[0].height), (300, 200));
    assert!(!state.is_fullscreen(201));
}

#[test]
fn keys_have_the_names_of_the_configuration() {
    assert_eq!(keysym_name(KEY_TAB).as_deref(), Some("tab"));
    assert_eq!(keysym_name(0x71).as_deref(), Some("q"));
    assert_eq!(keysym_name(KEY_F4).as_deref(), Some("f4"));
    assert_eq!(keysym_name(0xffffff), None);
}

#[test]
fn super_alone_opens_the_start_menu() {
    let mut state = session(0);
    assert!(state.handle_keyboard(PLAIN, KEY_SUPER_L, true, None));
    assert!(!state.panels.start_menu_visible);
    assert!(state.handle_keyboard(SUPER, KEY_SUPER_L, false, None));
    assert!(state.panels.start_menu_visible);

    state.handle_keyboard(PLAIN, KEY_SUPER_L, true, None);
    state.handle_keyboard(SUPER, KEY_1 + 2, true, None);
    assert_eq!(state.current_workspace, 2);
    state.handle_keyboard(SUPER, KEY_SUPER_L, false, None);
    assert!(state.panels.start_menu_visible);
}

#[test]
fn arrows_move_between_workspaces() {
    let mut state = session(0);
    assert!(state.handle_keyboard(SUPER, KEY_LEFT, true, None));
    assert_eq!(state.current_workspace, 0);
    state.handle_keyboard(SUPER, KEY_RIGHT, true, None);
    assert_eq!(state.current_workspace, 1);
    state.switch_workspace(4);
    state.handle_keyboard(SUPER, KEY_RIGHT, true, None);
    assert_eq!(state.current_workspace, 4);
    state.handle_keyboard(SUPER, KEY_LEFT, true, None);
    assert_eq!(state.current_workspace, 3);
}

#[test]
fn shift_turns_the_switcher_around() {
    let mut state = session(3);
    assert!(state.handle_keyboard(ALT, KEY_TAB, true, None));
    let first = state.panels.switcher_index;
    state.handle_keyboard(ALT, KEY_TAB, true, None);
    assert_ne!(state.panels.switcher_index, first);
    let back = Modifiers { shift: true, ..ALT };
    state.handle_keyboard(back, KEY_TAB, true, None);
    assert_eq!(state.panels.switcher_index, first);
    assert!(state.handle_keyboard(PLAIN, KEY_ESCAPE, true, None));
    assert!(!state.panels.show_switcher);
    state.handle_keyboard(ALT, KEY_TAB, true, None);
    assert!(state.handle_keyboard(PLAIN, KEY_ALT_L, false, None));
    assert!(!state.panels.show_switcher);
}

#[test]
fn built_in_keys_act_on_the_focused_window() {
    let mut state = session(1);
    let focus = Some(101);
    assert!(state.handle_keyboard(ALT, KEY_F4, true, focus));
    assert_eq!(state.take_requests(), vec![Request::Close { window: 1 }]);
    assert!(state.handle_keyboard(SUPER, KEY_UP, true, focus));
    assert_eq!(state.take_requests(), vec![Request::FlipMaximized { window: 1 }]);
    assert!(state.handle_keyboard(SUPER, KEY_DOWN, true, focus));
    assert!(state.window_meta[0].meta.is_minimized);
    assert!(state.handle_keyboard(Modifiers { ctrl: true, ..ALT }, KEY_T, true, focus));
    assert_eq!(state.take_requests(), vec![Request::LaunchTerminal]);
    assert!(state.handle_keyboard(PLAIN, KEY_PRINT, true, None));
    assert_eq!(state.take_requests(), vec![Request::TakeScreenshot]);
}

#[test]
fn configured_keys_run_their_actions() {
    let mut state = session(1);
    assert!(state.handle_keyboard(SUPER, 0x71, true, Some(101)));
    assert_eq!(state.take_requests(), vec![Request::Close { window: 1 }]);
    assert!(state.handle_keyboard(SUPER, 0x66, true, Some(101)));
    assert_eq!(state.take_requests(), vec![Request::FlipFullscreen { window: 1 }]);
    assert!(state.handle_keyboard(SUPER, KEY_1 + 4, true, None));
    assert_eq!(state.current_workspace, 4);
}

#[test]
fn forwarded_keys_change_nothing() {
    let mut state = session(1);
    assert!(!state.handle_keyboard(PLAIN, 0x71, true, Some(101)));
    assert!(!state.handle_keyboard(SUPER, 0x71, false, Some(101)));
    assert!(state.take_requests().is_empty());
}

#[test]
fn unknown_actions_are_not_run() {
    let mut state = session(1);
    assert!(!state.dispatch_keybind_action("dance", Some(101)));
    assert!(state.dispatch_keybind_action("workspace_3", None));
    assert_eq!(state.current_workspace, 2);
    assert!(state.dispatch_keybind_action("toggle_floating", Some(101)));
    assert!(state.window_meta[0].meta.is_floating);
    assert!(state.dispatch_keybind_action("cycle_windows", None));
    assert!(state.panels.show_switcher);
}

#[test]
fn a_locked_session_reaches_no_window() {
    let mut state = session(1);
    state.pointer_pressed(true, Some(500), Some(1));
    assert_eq!(state.take_requests(), vec![Request::Focus { surface: Some(500) }]);
    state.pointer_pressed(false, None, Some(1));
    assert!(state.take_requests().contains(&Request::Focus { surface: Some(101) }));
    state.pointer_pressed(false, None, None);
    assert_eq!(state.take_requests(), vec![Request::Focus { surface: None }]);
    assert_eq!(choose_focus(true, true, true), FocusChoice::Lock);
    assert_eq!(choose_focus(true, false, true), FocusChoice::Nobody);
    assert_eq!(choose_focus(false, true, true), FocusChoice::Window);
    assert_eq!(choose_focus(false, true, false), FocusChoice::Nobody);
}

#[test]
fn session_swipes_go_back() {
    let travel = |d: f64| Travel { floor: d.floor() as i32, ceil: d.ceil() as i32 };
    let mut state = session(0);
    assert!(swipe_counts(3) && !swipe_counts(2));
    state.swipe_ended(travel(-80.5), false);
    assert_eq!(state.current_workspace, 1);
    state.swipe_ended(travel(80.5), false);
    assert_eq!(state.current_workspace, 0);
    state.swipe_ended(travel(90.0), false);
    assert_eq!(state.current_workspace, 4);
    state.swipe_ended(travel(-500.0), true);
    assert_eq!(state.current_workspace, 4);
    state.swipe_ended(travel(10.0), false);
    assert_eq!(state.current_workspace, 4);
}

#[test]
fn the_pointer_of_a_session_stays_on_its_output() {
    let bounds = output_bounds(Some(OUTPUT));
    assert_eq!((bounds.min_x, bounds.min_y), (0, 0));
    assert_eq!((bounds.max_x, bounds.max_y), (1000, 800));
}

#[test]
fn one_bright_window_alone_is_shown_as_it_is() {
    let mut state = session(1);
    state.window_meta[0].meta.is_fullscreen = true;
    assert!(sole_fullscreen_hdr_surface(&state, &vec![true], &vec![101]));
    assert!(!sole_fullscreen_hdr_surface(&state, &vec![true], &Vec::new()));
    assert!(!sole_fullscreen_hdr_surface(&state, &vec![false], &vec![101]));
}

#[test]
fn every_event_wakes_the_session() {
    let mut state = session(0);
    let mut power = Power { is_idle: true, dpms_blanked: true, ..Power::default() };
    let mut swiping = false;
    let (call, screens) =
        state.handle_input(&mut power, &mut swiping, SessionEvent::PointerMotion);
    assert_eq!(call, SessionCall::Motion { relative: true });
    assert_eq!(screens, (Screen::Wake, Screen::Wake));
    assert_eq!(power, Power::default());
    let (_, screens) = state.handle_input(&mut power, &mut swiping, SessionEvent::Other);
    assert_eq!(screens, (Screen::Keep, Screen::Keep));
}

#[test]
fn session_events_lead_to_calls_of_the_seat() {
    let mut state = session(1);
    let mut power = Power::default();
    let mut swiping = false;
    let mut take = |event| state.handle_input(&mut power, &mut swiping, event).0;
    let key = |sym: u32, mods: Modifiers| SessionEvent::Keyboard {
        mods,
        sym,
        pressed: true,
        focus: Some(101),
    };
    assert_eq!(take(key(0x71, PLAIN)), SessionCall::Key);
    assert_eq!(take(key(0x71, SUPER)), SessionCall::Nothing);
    assert_eq!(take(SessionEvent::PointerAxis), SessionCall::Axis);
    assert_eq!(
        take(SessionEvent::Touch { has_touch: true, kind: TouchKind::Down }),
        SessionCall::Touch(TouchKind::Down)
    );
    assert_eq!(
        take(SessionEvent::TabletAxis { has_tablet: true, has_tool: false }),
        SessionCall::PenMotion { tool: false }
    );
    let near = |has_surface: bool| SessionEvent::TabletProximity {
        entering: true,
        has_tablet: true,
        has_tool: true,
        has_surface,
    };
    assert_eq!(take(near(true)), SessionCall::PenNear);
    assert_eq!(take(near(false)), SessionCall::PenMotion { tool: false });
    assert_eq!(
        take(SessionEvent::TabletButton { has_tool: true }),
        SessionCall::ToolButton
    );
    assert_eq!(
        take(SessionEvent::DeviceAdded { is_tablet: true }),
        SessionCall::AddTablet
    );
    assert_eq!(
        take(SessionEvent::DeviceRemoved { is_tablet: true, tablets_left: 0 }),
        SessionCall::RemoveTablet { clear_tools: true }
    );
}

#[test]
fn a_pen_does_not_unlock() {
    let mut state = session(1);
    let mut power = Power::default();
    let mut swiping = false;
    let tip = |locked: bool, lock_surface: Option<u64>| SessionEvent::TabletTip {
        has_tool: true,
        down: true,
        locked,
        lock_surface,
        surface: Some(101),
    };
    state.handle_input(&mut power, &mut swiping, tip(true, None));
    assert!(state.take_requests().is_empty());
    state.handle_input(&mut power, &mut swiping, tip(true, Some(500)));
    assert_eq!(state.take_requests(), vec![Request::Focus { surface: Some(500) }]);
    state.handle_input(&mut power, &mut swiping, tip(false, None));
    assert_eq!(state.take_requests(), vec![Request::Focus { surface: Some(101) }]);
}

#[test]
fn a_session_swipe_needs_three_fingers() {
    let mut state = session(0);
    let mut power = Power::default();
    let mut swiping = false;
    let end = SessionEvent::SwipeEnd { travel: Travel { floor: -90, ceil: -90 }, cancelled: false };
    for (fingers, workspace) in [(2, 0), (3, 1)] {
        state.handle_input(&mut power, &mut swiping, SessionEvent::SwipeBegin { fingers });
        let (call, _) = state.handle_input(&mut power, &mut swiping, SessionEvent::SwipeUpdate);
        assert_eq!(call == SessionCall::Swipe, fingers == 3);
        state.handle_input(&mut power, &mut swiping, end);
        assert_eq!(state.current_workspace, workspace);
        assert!(!swiping);
    }
}
