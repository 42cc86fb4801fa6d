use comphwde::desk::{CompositorConfig, KeyboardLayout, OutputState, PinnedEdge};
use comphwde::geometry::{Point, Rectangle, Size};
use comphwde::hwde::HwdeState;
use comphwde::window::{Effect, NewWindow};
use comphwde::x11::{configure_request, x11_move_start, ResizeStart};

fn rectangle(x: i32, y: i32, w: i32, h: i32) -> Rectangle {
    Rectangle { loc: Point { x, y }, size: Size { w, h } }
}

const OUTPUT: Rectangle =
    Rectangle { loc: Point { x: 0, y: 0 }, size: Size { w: 1000, h: 800 } };

fn desktop() -> HwdeState {
    let config = CompositorConfig {
        workspace_count: 4,
        gaps: 10,
        border_width: 2,
        master_ratio: 0.5f32.to_bits(),
        idle_dim_timeout_secs: 0,
    };
    let mut state = HwdeState::new(config, KeyboardLayout::default(), String::from("/w.png"));
    state.outputs.push(OutputState {
        name: String::from("DP-1"),
        geometry: Some(OUTPUT),
        scale_bits: 1.0f64.to_bits(),
        refresh_mhz: 60000,
    });
    state
}

fn new_window(handle: u64, app_id: &str) -> NewWindow {
    NewWindow {
        window: handle,
        surface: Some(handle + 100),
        title: format!("window {handle}"),
        app_id: String::from(app_id),
        pid: Some(handle as i32 + 1000),
        is_x11: false,
        size: Size { w: 300, h: 200 },
    }
}

fn with_windows(count: u64) -> HwdeState {
    let mut state = desktop();
    for n in 1..=count {
        let id = state.place_new_window(new_window(n, "app"), true);
        assert_eq!(id, n);
    }
    state
}

fn place(state: &HwdeState, handle: u64) -> Option<Point> {
    state.space.element_location(handle)
}

#[test]
fn new_windows_get_fresh_ids_and_are_shown() {
    let mut state = with_windows(2);
    assert_eq!(state.windows.len(), 2);
    assert_eq!(place(&state, 1), Some(Point { x: 80, y: 60 }));
    assert_eq!(place(&state, 2), Some(Point { x: 104, y: 84 }));
    let effects = state.take_effects();
    assert!(effects.iter().any(|e| matches!(e, Effect::Show { window: 2, .. })));
    assert!(state.take_effects().is_empty());
}

#[test]
fn tiled_windows_share_the_output() {
    let mut state = with_windows(3);
    state.take_effects();
    state.set_tiling(0, true);
    let sizes: Vec<(u64, Size)> = state
        .take_effects()
        .into_iter()
        .filter_map(|e| match e {
            Effect::Configure { window, size } => Some((window, size)),
            _ => None,
        })
        .collect();
    assert_eq!(place(&state, 1), Some(Point { x: 10, y: 10 }));
    assert_eq!(place(&state, 2), Some(Point { x: 505, y: 10 }));
    assert_eq!(place(&state, 3), Some(Point { x: 505, y: 405 }));
    assert_eq!(
        sizes,
        vec![
            (1, Size { w: 485, h: 780 }),
            (2, Size { w: 485, h: 385 }),
            (3, Size { w: 485, h: 385 })
        ]
    );
}

#[test]
fn a_lone_tiled_window_gets_the_whole_width() {
    let mut state = with_windows(1);
    state.take_effects();
    state.toggle_tiling();
    assert!(state
        .take_effects()
        .contains(&Effect::Configure { window: 1, size: Size { w: 990, h: 780 } }));
}

#[test]
fn floating_windows_are_not_tiled() {
    let mut state = with_windows(2);
    state.toggle_floating_by_id(2);
    let before = place(&state, 2);
    state.set_tiling(0, true);
    assert_eq!(place(&state, 2), before);
    assert_eq!(place(&state, 1), Some(Point { x: 10, y: 10 }));
    state.toggle_floating_by_id(2);
    assert!(state.floating_windows.is_empty());
}

#[test]
fn tiling_toggles_back() {
    let mut state = with_windows(1);
    state.toggle_tiling();
    assert!(state.tiling_enabled.contains(&0));
    state.toggle_tiling();
    assert!(state.tiling_enabled.is_empty());
}

#[test]
fn switching_workspaces_and_back_restores_places() {
    let mut state = with_windows(2);
    let before = (place(&state, 1), place(&state, 2));
    state.switch_workspace(1);
    assert_eq!(state.active_workspace, 1);
    assert_eq!((place(&state, 1), place(&state, 2)), (None, None));
    state.switch_workspace(0);
    assert_eq!((place(&state, 1), place(&state, 2)), before);
}

#[test]
fn switches_that_lead_nowhere_do_nothing() {
    let mut state = with_windows(1);
    state.take_effects();
    state.switch_workspace(0);
    state.switch_workspace(4);
    assert_eq!(state.active_workspace, 0);
    assert!(state.take_effects().is_empty());
}

#[test]
fn a_moved_window_leaves_its_workspace() {
    let mut state = with_windows(2);
    state.move_window_to_workspace(1, 2);
    assert_eq!(state.windows[0].workspace, 2);
    assert_eq!(place(&state, 1), None);
    assert!(place(&state, 2).is_some());
}

#[test]
fn restoring_undoes_maximizing() {
    let mut state = with_windows(1);
    let before = place(&state, 1);
    state.maximize_window_by_id(1, true, OUTPUT);
    assert!(state.windows[0].is_maximized);
    assert_eq!(place(&state, 1), Some(OUTPUT.loc));
    state.maximize_window_by_id(1, false, OUTPUT);
    assert!(!state.windows[0].is_maximized);
    assert_eq!(place(&state, 1), before);
}

#[test]
fn leaving_the_full_screen_restores() {
    let mut state = with_windows(1);
    let before = place(&state, 1);
    state.fullscreen_window_by_id(1, true, OUTPUT);
    assert!(state.windows[0].is_fullscreen);
    assert_eq!(place(&state, 1), Some(OUTPUT.loc));
    state.fullscreen_window_by_id(1, false, OUTPUT);
    assert!(!state.windows[0].is_fullscreen);
    assert_eq!(place(&state, 1), before);
}

#[test]
fn minimized_windows_are_hidden_until_they_are_wanted() {
    let mut state = with_windows(2);
    state.minimize_window_by_id(1);
    assert!(state.windows[0].is_minimized);
    assert_eq!(place(&state, 1), None);
    state.unminimize_window_by_id(1);
    assert!(!state.windows[0].is_minimized);
    assert!(place(&state, 1).is_some());
    assert_eq!(state.focused_window, Some(1));
}

#[test]
fn next_and_previous_are_inverse() {
    let mut state = with_windows(3);
    state.focus_window_by_id(2);
    state.focus_next_window();
    assert_eq!(state.focused_window, Some(3));
    state.focus_next_window();
    assert_eq!(state.focused_window, Some(1));
    state.focus_prev_window();
    assert_eq!(state.focused_window, Some(3));
}

#[test]
fn the_focused_window_can_become_the_master() {
    let mut state = with_windows(3);
    state.set_tiling(0, true);
    state.focus_window_by_id(3);
    state.swap_with_master();
    assert_eq!(place(&state, 3), Some(Point { x: 10, y: 10 }));
}

#[test]
fn the_master_ratio_is_held_between_a_tenth_and_nine_tenths() {
    let mut state = desktop();
    state.adjust_master_ratio(1.5f32.to_bits());
    assert_eq!(f32::from_bits(state.config.master_ratio), 0.9);
    state.adjust_master_ratio(0.0f32.to_bits());
    assert_eq!(f32::from_bits(state.config.master_ratio), 0.1);
    state.adjust_master_ratio(0.6f32.to_bits());
    assert_eq!(f32::from_bits(state.config.master_ratio), 0.6);
}

#[test]
fn pinned_applications_lie_along_an_edge() {
    let mut state = desktop();
    state.pin_surface(String::from("panel"), PinnedEdge::Bottom, 40, None);
    assert_eq!(state.pin_geometry(PinnedEdge::Bottom, 40), rectangle(0, 760, 1000, 40));
    assert_eq!(state.pin_geometry(PinnedEdge::Top, 30), rectangle(0, 0, 1000, 30));
    state.place_new_window(new_window(1, "panel"), true);
    assert_eq!(place(&state, 1), Some(Point { x: 0, y: 760 }));
}

#[test]
fn the_latest_pin_of_an_application_holds() {
    let mut state = desktop();
    state.pin_surface(String::from("panel"), PinnedEdge::Bottom, 40, None);
    state.pin_surface(String::from("panel"), PinnedEdge::Top, 24, None);
    assert_eq!(state.pinned_surfaces.len(), 1);
    state.place_new_window(new_window(1, "panel"), true);
    assert_eq!(place(&state, 1), Some(Point { x: 0, y: 0 }));
}

#[test]
fn a_window_of_the_process_that_pinned_is_pinned_too() {
    let mut state = desktop();
    state.pin_surface(String::from("panel"), PinnedEdge::Bottom, 40, Some(1007));
    state.place_new_window(new_window(7, "another name"), true);
    assert_eq!(place(&state, 7), Some(Point { x: 0, y: 760 }));
    state.place_new_window(new_window(8, "another name"), true);
    assert_ne!(place(&state, 8), Some(Point { x: 0, y: 760 }));
}

#[test]
fn forgotten_windows_leave_nothing_behind() {
    let mut state = with_windows(2);
    assert_eq!(state.window_id_for_surface(102), Some(2));
    state.forget_window_by_surface(102);
    assert_eq!(state.windows.len(), 1);
    assert_eq!(state.windows[0].id, 1);
    assert_eq!(state.window_id_for_surface(102), None);
    assert_eq!(place(&state, 2), None);
}

#[test]
fn unknown_windows_are_left_alone() {
    let mut state = with_windows(1);
    state.take_effects();
    state.focus_window_by_id(9);
    state.close_window_by_id(9);
    state.minimize_window_by_id(9);
    state.maximize_window_by_id(9, true, OUTPUT);
    state.move_window_to_workspace(9, 1);
    assert!(state.take_effects().is_empty());
}

#[test]
fn closing_asks_the_client() {
    let mut state = with_windows(1);
    state.take_effects();
    state.close_window_by_id(1);
    assert_eq!(state.take_effects(), vec![Effect::Close { window: 1 }]);
    assert_eq!(state.windows.len(), 1);
}

#[test]
fn without_outputs_a_full_hd_screen_is_taken() {
    let mut state = desktop();
    assert_eq!(state.primary_output_geometry(), OUTPUT);
    state.outputs.clear();
    assert_eq!(state.primary_output_geometry(), rectangle(0, 0, 1920, 1080));
    state.config.workspace_count = 0;
    assert_eq!(state.workspace_count(), 1);
}

#[test]
fn x11_requests_keep_what_they_do_not_name() {
    let geo = rectangle(1, 2, 30, 40);
    assert_eq!(configure_request(geo, None, None, None, None), geo);
    assert_eq!(
        configure_request(geo, Some(5), None, None, Some(60)),
        rectangle(5, 2, 30, 60)
    );
}

#[test]
fn a_maximized_x11_window_jumps_to_the_pointer() {
    let pointer = Point { x: 70, y: 80 };
    let here = Point { x: 3, y: 4 };
    assert_eq!(x11_move_start(Some(here), false, pointer), (here, false));
    assert_eq!(x11_move_start(Some(here), true, pointer), (pointer, true));
}

#[test]
fn clients_ask_through_their_surfaces() {
    let mut state = with_windows(1);
    assert!(state.maximize_request(101, true));
    assert!(state.windows[0].is_maximized);
    assert!(!state.maximize_request(999, true));
    assert!(state.maximize_request(101, false));
    assert!(state.fullscreen_request(101, true));
    assert!(state.windows[0].is_fullscreen);
    assert!(state.fullscreen_request(101, false));
    state.minimize_request(101, true);
    assert!(state.windows[0].is_minimized);
    state.minimize_request(101, false);
    assert!(!state.windows[0].is_minimized);

    assert_eq!(state.move_request(101, false), None);
    let start = state.move_request(101, true).unwrap();
    let location = place(&state, 1).unwrap();
    assert_eq!(start.window, 1);
    assert_eq!(
        state.resize_request(101, true),
        Some(ResizeStart { window: 1, location, size: Size { w: 300, h: 200 } })
    );
    assert_eq!(state.resize_request(101, false), None);
}

#[test]
fn decorations_follow_the_client() {
    let mut state = with_windows(1);
    state.set_ssd_by_surface(101, true);
    assert!(state.windows[0].is_ssd);
    state.set_ssd_by_surface(101, false);
    assert!(!state.windows[0].is_ssd);
}

#[test]
fn x11_windows_come_move_and_go() {
    let mut state = with_windows(1);
    state.mapped_override_redirect_window(9, Point { x: 12, y: 34 });
    assert_eq!(place(&state, 9), Some(Point { x: 12, y: 34 }));
    assert_eq!(state.windows.len(), 1);
    state.configure_notify(9, rectangle(50, 60, 10, 10));
    assert_eq!(place(&state, 9), Some(Point { x: 50, y: 60 }));
    state.configure_notify(8, rectangle(50, 60, 10, 10));
    assert_eq!(place(&state, 8), None);
    assert!(!state.unmapped_window(9, true));
    assert_eq!(place(&state, 9), None);
    assert!(state.unmapped_window(1, false));
    assert_eq!(place(&state, 1), None);
    assert_eq!(state.windows.len(), 1);
}

#[test]
fn a_changed_keyboard_layout_is_applied_on_reload() {
    let mut state = with_windows(1);
    state.take_effects();
    let config = state.config;
    let polish = KeyboardLayout { layout: String::from("pl"), ..KeyboardLayout::default() };
    state.reload_config(config, polish.clone());
    assert_eq!(state.keyboard.layout, "pl");
    assert_eq!(state.take_effects(), vec![Effect::SetKeyboardLayout]);
    state.reload_config(config, polish);
    assert!(state.take_effects().is_empty());
}

#[test]
fn a_workspace_that_is_gone_gives_way_to_the_last() {
    let mut state = with_windows(1);
    state.switch_workspace(3);
    let config = CompositorConfig { workspace_count: 2, ..state.config };
    state.reload_config(config, KeyboardLayout::default());
    assert_eq!(state.active_workspace, 1);
    assert_eq!(state.config.workspace_count, 2);
}

#[test]
fn a_round_visits_every_window_once() {
    let mut state = with_windows(3);
    state.focus_window_by_id(2);
    let mut seen = Vec::new();
    for _ in 0..3 {
        state.focus_next_window();
        seen.push(state.focused_window);
    }
    assert_eq!(seen, vec![Some(3), Some(1), Some(2)]);
    seen.clear();
    for _ in 0..3 {
        state.focus_prev_window();
        seen.push(state.focused_window);
    }
    assert_eq!(seen, vec![Some(1), Some(3), Some(2)]);
}

#[test]
fn the_picture_is_dimmed_after_five_minutes_by_default() {
    let config = CompositorConfig::default();
    assert_eq!(config.idle_dim_timeout_secs, 300);
    assert_eq!(f32::from_bits(config.master_ratio), 0.55);
    assert_eq!(config.workspace_count, 5);
}
