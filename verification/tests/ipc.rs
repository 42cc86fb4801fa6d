use comphwde::desk::{CompositorConfig, KeyboardLayout, OutputState};
use comphwde::geometry::{Point, Rectangle, Size};
use comphwde::hackerland::{
    protocol_actions_covered, read_action, Command, Order, Reply,
};
use comphwde::hwde::HwdeState;
use comphwde::ipc::{accepts_peer, launch_environment, IpcRequest, IpcResponse, IpcStep};
use comphwde::sde::{PinnedEdge, SdeCall, SdeEvent, SdeOutcome, SdeRequest, SdeResult};
use comphwde::shell_ipc::{keeps_subscriber, LastBroadcast, SdeStep, Served, WriteOutcome};
use comphwde::window::NewWindow;

fn desktop(windows: u64) -> HwdeState {
    let config = CompositorConfig {
        workspace_count: 3,
        gaps: 0,
        border_width: 1,
        master_ratio: 0.5f32.to_bits(),
        idle_dim_timeout_secs: 0,
    };
    let mut state = HwdeState::new(config, KeyboardLayout::default(), String::from("/w.png"));
    state.outputs.push(OutputState {
        name: String::from("DP-1"),
        geometry: Some(Rectangle {
            loc: Point { x: 0, y: 0 },
            size: Size { w: 1000, h: 800 },
        }),
        scale_bits: 2.0f64.to_bits(),
        refresh_mhz: 59940,
    });
    for n in 1..=windows {
        state.place_new_window(
            NewWindow {
                window: n,
                surface: Some(n + 100),
                title: format!("window {n}"),
                app_id: String::from("app"),
                pid: None,
                is_x11: n % 2 == 0,
                size: Size { w: 300, h: 200 },
            },
            true,
        );
    }
    state.take_effects();
    state
}

#[test]
fn every_documented_action_has_a_dispatch_arm() {
    let documented = [
        ("focuswindow", "<id>"),
        ("closewindow", "<id>"),
        ("minimizewindow", "<id>"),
        ("unminimizewindow", "<id>"),
        ("maximizewindow", "<id> <on>"),
        ("togglefloating", "<id>"),
        ("workspace", "<n>"),
        ("movetoworkspace", "<id> <n>"),
        ("settiling", "<n> <on>"),
        ("setwallpaper", "<path>"),
        ("launch", "<command>"),
        ("reload", ""),
        ("exit", ""),
    ];
    for (name, _) in documented {
        assert!(
            protocol_actions_covered().contains(&name.to_string()),
            "`{name}` is documented in wm's usage text but dispatch_action() has no arm for it"
        );
    }
}

fn texts(args: &[&str]) -> Vec<String> {
    args.iter().map(|a| a.to_string()).collect()
}

#[test]
fn listed_actions_are_known() {
    for action in protocol_actions_covered() {
        let known = match read_action(&action, &texts(&["1", "1"])) {
            Ok(_) => true,
            Err(text) => !text.contains("unknown"),
        };
        assert!(known, "{action}");
    }
}

#[test]
fn actions_are_read_with_their_arguments() {
    assert!(matches!(
        read_action("focuswindow", &texts(&["7"])),
        Ok(Order::Focus { id: 7 })
    ));
    assert!(matches!(
        read_action("movetoworkspace", &texts(&["7", "2"])),
        Ok(Order::Move { id: 7, workspace: 2 })
    ));
    assert!(read_action("focuswindow", &texts(&["seven"])).is_err());
    assert!(read_action("focuswindow", &texts(&[])).is_err());
    assert!(read_action("dance", &texts(&[])).is_err());
}

#[test]
fn each_refusal_says_what_is_wrong() {
    let refusal = |action: &str, args: &[&str]| read_action(action, &texts(args)).unwrap_err();
    assert_eq!(refusal("closewindow", &[]), "usage: closewindow <id>");
    assert_eq!(refusal("closewindow", &["x"]), "`x` is not a valid id");
    assert_eq!(refusal("workspace", &["x"]), "`x` is not a valid number");
    assert_eq!(refusal("maximizewindow", &["1", "maybe"]), "`maybe` is not `on`/`off`");
    assert_eq!(refusal("settiling", &["1"]), "expected `on` or `off`");
    assert_eq!(refusal("setwallpaper", &[]), "usage: setwallpaper <path>");
    assert_eq!(refusal("launch", &[]), "usage: launch <command> [args...]");
    assert_eq!(
        refusal("dance", &[]),
        "unknown dispatch action `dance` (see `comphwde wm --help` for the full list)"
    );
}

#[test]
fn refused_actions_change_nothing() {
    let mut state = desktop(1);
    let reply = comphwde::hackerland::dispatch(
        Command::Dispatch { action: String::from("dance"), args: Vec::new() },
        &mut state,
    );
    assert!(matches!(reply, Reply::Line(text) if text.starts_with("error")));
    assert!(state.take_effects().is_empty());
    assert!(state.running);
}

#[test]
fn commands_are_answered() {
    let mut state = desktop(2);
    let mut ask = |cmd| comphwde::hackerland::dispatch(cmd, &mut state);
    assert!(matches!(ask(Command::Windows), Reply::Windows(v) if v.len() == 2));
    assert!(matches!(ask(Command::Workspaces), Reply::Workspaces(v) if v.len() == 3));
    assert!(matches!(ask(Command::Outputs), Reply::Outputs(v) if v.len() == 1));
    let launch = Command::Dispatch {
        action: String::from("launch"),
        args: texts(&["foot", "-e", "top"]),
    };
    match ask(launch) {
        Reply::Launch { command, args } => {
            assert_eq!(command, "foot");
            assert_eq!(args, vec!["-e", "top"]);
        }
        _ => panic!("a program should be started"),
    }
    let reload = Command::Dispatch { action: String::from("reload"), args: Vec::new() };
    assert!(matches!(ask(reload), Reply::Reload));
    let exit = Command::Dispatch { action: String::from("exit"), args: Vec::new() };
    assert!(matches!(ask(exit), Reply::Line(text) if text == "ok"));
    assert!(!state.running);
    assert_eq!(comphwde::hackerland::launched(Ok(())), "ok");
    assert!(comphwde::hackerland::launched(Err(String::from("gone"))).contains("gone"));
}

#[test]
fn requests_are_answered() {
    let mut state = desktop(2);
    let mut ask = |req| match comphwde::ipc::dispatch(req, &mut state) {
        IpcStep::Reply(r) => r,
        _ => panic!("a reply should come at once"),
    };
    assert!(matches!(ask(IpcRequest::Ping), IpcResponse::Pong));
    match ask(IpcRequest::ListWindows) {
        IpcResponse::Windows(v) => {
            assert_eq!(v.len(), 2);
            assert_eq!(v[0].title, "window 1");
            assert!(v[1].is_xwayland);
        }
        _ => panic!("windows should be listed"),
    }
    match ask(IpcRequest::ListWorkspaces) {
        IpcResponse::Workspaces(v) => {
            assert_eq!(v.len(), 3);
            assert_eq!(v[0].window_count, 2);
            assert!(v[0].is_active && !v[1].is_active);
        }
        _ => panic!("workspaces should be listed"),
    }
    match ask(IpcRequest::ListOutputs) {
        IpcResponse::Outputs(v) => {
            assert_eq!(v[0].name, "DP-1");
            assert_eq!((v[0].width, v[0].height), (1000, 800));
            assert_eq!(f64::from_bits(v[0].scale_bits), 2.0);
            assert!(v[0].is_primary);
        }
        _ => panic!("outputs should be listed"),
    }
    assert!(matches!(ask(IpcRequest::SetWallpaper { path: "/x".into() }), IpcResponse::Done));
    assert!(matches!(ask(IpcRequest::MinimizeWindow { id: 1 }), IpcResponse::Done));
    assert!(matches!(ask(IpcRequest::Shutdown), IpcResponse::Done));
    assert_eq!(state.wallpaper, "/x");
    assert!(state.pending_wallpaper_reload);
    assert!(state.windows[0].is_minimized);
    assert!(!state.running);
}

#[test]
fn programs_and_settings_are_left_to_the_caller() {
    let mut state = desktop(0);
    let launch = IpcRequest::LaunchApp { command: "foot".into(), args: Vec::new() };
    assert!(matches!(
        comphwde::ipc::dispatch(launch, &mut state),
        IpcStep::Launch { command, .. } if command == "foot"
    ));
    assert!(matches!(
        comphwde::ipc::dispatch(IpcRequest::ReloadConfig, &mut state),
        IpcStep::Reload
    ));
    assert!(matches!(comphwde::ipc::launched(Ok(())), IpcResponse::Done));
    assert!(matches!(
        comphwde::ipc::launched(Err("gone".into())),
        IpcResponse::Error(text) if text.contains("gone")
    ));
    assert!(matches!(
        comphwde::ipc::malformed("eof"),
        IpcResponse::Error(text) if text.contains("eof")
    ));
}

#[test]
fn programs_are_told_where_the_compositor_is() {
    let pair = |a: &str, b: &str| (String::from(a), String::from(b));
    assert_eq!(
        launch_environment(Some("wayland-1"), Some(3), Some("Adwaita")),
        vec![
            pair("WAYLAND_DISPLAY", "wayland-1"),
            pair("DISPLAY", ":3"),
            pair("XCURSOR_THEME", "Adwaita")
        ]
    );
    assert!(launch_environment(None, None, None).is_empty());
}

#[test]
fn only_the_same_user_is_served() {
    assert!(accepts_peer(Some(1000), 1000));
    assert!(!accepts_peer(Some(1001), 1000));
    assert!(!accepts_peer(None, 1000));
}

fn call(state: &mut HwdeState, call: SdeCall) -> SdeOutcome {
    match comphwde::shell_ipc::dispatch(call, Some(4242), state) {
        SdeStep::Outcome(o) => o,
        _ => panic!("the outcome should be known at once"),
    }
}

#[test]
fn shell_calls_are_answered() {
    let mut state = desktop(1);
    assert!(matches!(
        call(&mut state, SdeCall::Ping),
        SdeOutcome::Success { result: SdeResult::Pong }
    ));
    call(&mut state, SdeCall::SwitchWorkspace { id: 2 });
    assert_eq!(state.active_workspace, 2);
    call(&mut state, SdeCall::MoveWindowToWorkspace { id: 1, workspace: 2 });
    assert_eq!(state.windows[0].workspace, 2);
    call(&mut state, SdeCall::MaximizeWindow { id: 1, maximized: true });
    assert!(state.windows[0].is_maximized);
    call(&mut state, SdeCall::SetTiling { workspace: 1, enabled: true });
    assert!(state.tiling_enabled.contains(&1));
    call(
        &mut state,
        SdeCall::PinSurface {
            app_id: "panel".into(),
            edge: PinnedEdge::Top,
            thickness_px: 32,
        },
    );
    assert_eq!(state.pinned_surfaces.len(), 1);
    assert_eq!(state.pinned_surfaces[0].1.owner, Some(4242));
    call(&mut state, SdeCall::Shutdown);
    assert!(!state.running);
}

#[test]
fn a_subscription_keeps_its_connection() {
    let mut state = desktop(0);
    let request = SdeRequest { id: 8, call: SdeCall::Subscribe };
    match comphwde::shell_ipc::serve(request, None, &mut state) {
        Served::Subscribed(response) => assert_eq!(response.id, 8),
        _ => panic!("the connection should be kept"),
    }
    let request = SdeRequest { id: 9, call: SdeCall::Ping };
    match comphwde::shell_ipc::serve(request, None, &mut state) {
        Served::Respond(response) => assert_eq!(response.id, 9),
        Served::Step { id, .. } => assert_eq!(id, 9),
        Served::Subscribed(_) => panic!("a ping is no subscription"),
    }
    assert_eq!(comphwde::shell_ipc::malformed("bad").id, 0);
}

#[test]
fn an_unchanged_state_is_not_told_again() {
    let mut state = desktop(1);
    let mut last = LastBroadcast::new();
    let (w, s) = (state.sde_window_summaries(), state.sde_workspace_summaries());
    let events = last.update(1, w, s);
    assert_eq!(events.len(), 2);
    assert!(matches!(&events[0], SdeEvent::Windows(v) if v.len() == 1));
    let (w, s) = (state.sde_window_summaries(), state.sde_workspace_summaries());
    assert!(last.update(1, w, s).is_empty());
    state.switch_workspace(1);
    let (w, s) = (state.sde_window_summaries(), state.sde_workspace_summaries());
    let events = last.update(1, w, s);
    assert!(events.iter().any(|e| matches!(e, SdeEvent::Workspaces(_))));
    assert_eq!(state.sde_output_summaries().len(), 1);
}

#[test]
fn slow_subscribers_stay_and_broken_ones_go() {
    assert!(keeps_subscriber(WriteOutcome::Written));
    assert!(keeps_subscriber(WriteOutcome::WouldBlock));
    assert!(!keeps_subscriber(WriteOutcome::Failed));
}

#[test]
fn what_no_one_heard_is_told_later() {
    let state = desktop(2);
    let mut last = LastBroadcast::new();
    let (w, s) = (state.sde_window_summaries(), state.sde_workspace_summaries());
    assert!(last.update(0, w, s).is_empty());
    let (w, s) = (state.sde_window_summaries(), state.sde_workspace_summaries());
    assert_eq!(last.update(1, w, s).len(), 2);
}

#[test]
fn lines_are_read_as_commands() {
    assert!(matches!(Command::parse("ping\n"), Ok(Command::Ping)));
    assert!(matches!(Command::parse("  windows"), Ok(Command::Windows)));
    assert!(matches!(Command::parse("workspaces now"), Ok(Command::Workspaces)));
    assert!(matches!(Command::parse("outputs"), Ok(Command::Outputs)));
    match Command::parse("dispatch  exec \tfoot -e sh\n") {
        Ok(Command::Dispatch { action, args }) => {
            assert_eq!(action, "exec");
            assert_eq!(args, vec!["foot", "-e", "sh"]);
        }
        other => panic!("{other:?}"),
    }
    let usage = Command::parse("dispatch").unwrap_err();
    assert_eq!(usage, "usage: dispatch <action> [args...]");
    assert_eq!(Command::parse(" dance \n").unwrap_err(), "unknown command `dance`");
    assert_eq!(Command::parse("").unwrap_err(), "unknown command ``");
}
