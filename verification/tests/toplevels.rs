use comphwde::desk::{CompositorConfig, KeyboardLayout};
use comphwde::ext_workspace::{init_ext_workspace, WorkspaceSent};
use comphwde::foreign_toplevel::{
    encode_states, ForeignToplevelManagerState, HandleRequest, Sent, ToplevelInfo,
    STATE_ACTIVATED, STATE_MAXIMIZED,
};
use comphwde::geometry::Size;
use comphwde::hwde::HwdeState;
use comphwde::window::NewWindow;

fn info(title: &str) -> ToplevelInfo {
    ToplevelInfo {
        title: String::from(title),
        app_id: String::from("app"),
        minimized: false,
        maximized: false,
        activated: false,
        fullscreen: false,
    }
}

#[test]
fn states_are_sent_in_their_order() {
    assert!(encode_states(&info("t")).is_empty());
    let busy = ToplevelInfo { maximized: true, activated: true, ..info("t") };
    assert_eq!(encode_states(&busy), vec![STATE_MAXIMIZED, STATE_ACTIVATED]);
    let all = ToplevelInfo { minimized: true, fullscreen: true, ..busy };
    assert_eq!(encode_states(&all), vec![0, 1, 2, 3]);
}

#[test]
fn a_new_window_is_told_of_in_full() {
    let mut state = ForeignToplevelManagerState::new(9);
    assert_eq!(state.global(), 9);
    assert!(state.bind(50, &Vec::new(), true, &Vec::new()).is_empty());
    let sent = state.toplevel_created(1, &info("one"), true, &vec![Some(70)]);
    assert!(matches!(sent[0], Sent::Toplevel { manager: 50, handle: 70 }));
    assert!(sent
        .iter()
        .any(|s| matches!(s, Sent::Title { handle: 70, title } if title == "one")));
    assert!(sent.iter().any(|s| matches!(s, Sent::Outputs { handle: 70 })));
    assert!(matches!(sent.last(), Some(Sent::Done { handle: 70 })));
}

#[test]
fn nothing_is_told_twice() {
    let mut state = ForeignToplevelManagerState::new(9);
    state.bind(50, &Vec::new(), false, &Vec::new());
    state.toplevel_created(1, &info("one"), false, &vec![Some(70)]);
    assert!(state.toplevel_changed(1, &info("one")).is_empty());
    let sent = state.toplevel_changed(1, &info("two"));
    assert!(matches!(&sent[0], Sent::Title { handle: 70, title } if title == "two"));
    assert!(matches!(sent.last(), Some(Sent::Done { handle: 70 })));
    assert!(state.toplevel_changed(1, &info("two")).is_empty());
}

#[test]
fn closed_windows_are_not_told_of() {
    let mut state = ForeignToplevelManagerState::new(9);
    state.bind(50, &Vec::new(), false, &Vec::new());
    state.toplevel_created(1, &info("one"), false, &vec![Some(70)]);
    let sent = state.toplevel_closed(1);
    assert!(matches!(sent[..], [Sent::Closed { handle: 70 }]));
    assert!(state.toplevel_changed(1, &info("two")).is_empty());
    assert!(state.toplevel_closed(1).is_empty());
}

#[test]
fn a_late_task_bar_learns_of_every_window() {
    let mut state = ForeignToplevelManagerState::new(9);
    let windows = vec![(1, info("one")), (2, info("two"))];
    let sent = state.bind(50, &windows, false, &vec![Some(70), Some(71)]);
    let made: Vec<u64> = sent
        .iter()
        .filter_map(|s| match s {
            Sent::Toplevel { handle, .. } => Some(*handle),
            _ => None,
        })
        .collect();
    assert_eq!(made, vec![70, 71]);
    let sent = state.toplevel_changed(2, &info("three"));
    assert!(sent.iter().all(|s| !matches!(s, Sent::Title { handle: 70, .. })));
    state.handle_destroyed(2, 71);
    assert!(state.toplevel_changed(2, &info("four")).is_empty());
    state.manager_destroyed(50);
    assert!(state.managers.is_empty());
}

#[test]
fn a_task_bar_can_ask_for_things() {
    let config = CompositorConfig {
        workspace_count: 2,
        gaps: 0,
        border_width: 1,
        master_ratio: 0.5f32.to_bits(),
        idle_dim_timeout_secs: 0,
    };
    let mut state = HwdeState::new(config, KeyboardLayout::default(), String::new());
    let id = state.place_new_window(
        NewWindow {
            window: 1,
            surface: Some(101),
            title: String::from("one"),
            app_id: String::from("app"),
            pid: None,
            is_x11: false,
            size: Size { w: 10, h: 10 },
        },
        true,
    );
    state.handle_request(id, HandleRequest::SetMaximized);
    assert!(state.windows[0].is_maximized);
    state.handle_request(id, HandleRequest::UnsetMaximized);
    state.handle_request(id, HandleRequest::SetMinimized);
    let snapshot = state.toplevel_snapshot();
    assert_eq!(snapshot.len(), 1);
    assert_eq!(snapshot[0].0, id);
    assert_eq!(snapshot[0].1.title, "one");
    assert!(snapshot[0].1.minimized && !snapshot[0].1.maximized);
    state.handle_request(id, HandleRequest::Activate);
    assert!(state.toplevel_snapshot()[0].1.activated);
    state.handle_request(99, HandleRequest::Close);
}

#[test]
fn one_workspace_is_active() {
    let mut state = init_ext_workspace(4);
    assert_eq!(state.global, Some(4));
    let sent = state.bind(1, 2, vec![Some(10), Some(11), None], 0);
    let active: Vec<u64> = sent
        .iter()
        .filter_map(|s| match s {
            WorkspaceSent::State { handle, active: true } => Some(*handle),
            _ => None,
        })
        .collect();
    assert_eq!(active, vec![10]);
    assert!(matches!(sent.last(), Some(WorkspaceSent::Done { manager: 1 })));

    let sent = state.notify_workspace_switched(&vec![true], 0, 1);
    let changes: Vec<(u64, bool)> = sent
        .iter()
        .filter_map(|s| match s {
            WorkspaceSent::State { handle, active } => Some((*handle, *active)),
            _ => None,
        })
        .collect();
    assert_eq!(changes, vec![(10, false), (11, true)]);

    let sent = state.stop(1);
    assert!(matches!(sent[..], [WorkspaceSent::Finished { manager: 1 }]));
    assert!(state.instances.is_empty());
}

#[test]
fn dead_managers_are_dropped() {
    let mut state = init_ext_workspace(4);
    state.bind(1, 2, vec![Some(10), Some(11)], 0);
    state.bind(5, 6, vec![Some(20), Some(21)], 0);
    let sent = state.notify_workspace_switched(&vec![false, true], 0, 1);
    assert!(sent.iter().all(|s| !matches!(s, WorkspaceSent::State { handle: 10, .. })));
    assert_eq!(state.instances.len(), 1);
    assert_eq!(state.instances[0].manager, 5);
}

#[test]
fn a_window_is_in_no_state_by_default() {
    let info = ToplevelInfo::default();
    assert!(info.title.is_empty() && info.app_id.is_empty());
    assert!(encode_states(&info).is_empty());
}
