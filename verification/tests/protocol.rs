use comphwde::paths::{join_path, runtime_dir, slug_of};
use comphwde::protocol::{SdeOutputInfo, SdeWindowInfo, SdeWorkspaceInfo};
use comphwde::sde::{
    accept_event, accept_response, is_running, open_call, sde_socket_path, socket_path_for,
    SdeCall, SdeEvent, SdeEventMessage, SdeIpcError, SdeOutcome, SdeResponse, SdeResult,
};
use comphwde::summaries::{OutputSummary, WindowSummary, WorkspaceSummary};

const RUNTIME: &str = "/run/user/1000";

#[test]
fn sde_socket_is_distinct_from_other_externs() {
    assert_ne!(socket_path_for(RUNTIME, "sde"), socket_path_for(RUNTIME, "otherde"));
}

#[test]
fn extern_name_is_normalized() {
    assert_eq!(socket_path_for(RUNTIME, "SDE"), socket_path_for(RUNTIME, "sde"));
    assert_eq!(
        socket_path_for(RUNTIME, "../../etc/passwd"),
        socket_path_for(RUNTIME, "etcpasswd")
    );
}

#[test]
fn socket_path_is_extern_name_specific() {
    let path = |name: &str| comphwde::protocol::socket_path_for("/run/user/1000/sde", name);
    assert_ne!(path("penetration-mode"), path("hacker-mode"));
    assert!(path("penetration-mode").ends_with("hackeros-comp-penetration-mode.sock"));
}

#[test]
fn window_summary_converts_field_for_field() {
    let w = WindowSummary {
        id: 1,
        title: "Terminal".into(),
        app_id: "blue-terminal".into(),
        workspace: 0,
        is_fullscreen: false,
        is_minimized: true,
        is_floating: false,
        is_maximized: false,
        is_xwayland: true,
    };
    let sde: SdeWindowInfo = w.clone().into();
    assert_eq!(sde.id, w.id);
    assert_eq!(sde.app_id, w.app_id);
    assert_eq!(sde.is_minimized, w.is_minimized);
    assert_eq!(sde.is_xwayland, w.is_xwayland);
}

#[test]
fn workspaces_and_outputs_convert_too() {
    let w = WorkspaceSummary { id: 2, window_count: 4, is_tiling: true, is_active: false };
    let info = SdeWorkspaceInfo::from_summary(w);
    assert_eq!(info.id, 2);
    assert_eq!(info.name, "3");
    assert_eq!(info.window_count, 4);
    assert!(info.tiling_enabled);
    assert!(!info.active);

    let o = OutputSummary {
        name: "DP-1".into(),
        x: 10,
        y: 20,
        width: 1920,
        height: 1080,
        refresh_mhz: 60000,
        scale_bits: 1.5f64.to_bits(),
        is_primary: true,
    };
    let info: SdeOutputInfo = o.into();
    assert_eq!(info.name, "DP-1");
    assert_eq!((info.width, info.height), (1920, 1080));
    assert_eq!(info.refresh_mhz, 60000);
    assert_eq!(f64::from_bits(info.scale_bits), 1.5);
    assert!(info.primary);
}

#[test]
fn the_shell_has_a_fixed_socket() {
    assert_eq!(sde_socket_path(RUNTIME), socket_path_for(RUNTIME, "sde"));
    assert_eq!(sde_socket_path(RUNTIME), "/run/user/1000/comphwde-sde.sock");
}

#[test]
fn paths_are_joined_with_one_slash() {
    assert_eq!(join_path("/run", "x"), "/run/x");
    assert_eq!(join_path("/run/", "x"), "/run/x");
    assert_eq!(slug_of("Hello, World-1"), "helloworld-1");
    assert_eq!(runtime_dir(Some("/run/user/7"), 1000), "/run/user/7/sde");
    assert_eq!(runtime_dir(Some(""), 1000), "/tmp/sde-1000");
    assert_eq!(runtime_dir(None, 1000), "/tmp/sde-1000");
}

#[test]
fn a_call_without_a_socket_is_not_sent() {
    let path = sde_socket_path(RUNTIME);
    let err = open_call(path.clone(), false, 5, SdeCall::Ping).unwrap_err();
    assert_eq!(
        err.message(),
        format!("comphwde is not running in --extern-sde mode (no socket at {path})")
    );
    let req = open_call(path, true, 5, SdeCall::Ping).unwrap();
    assert_eq!(req.id, 5);
    assert!(matches!(req.call, SdeCall::Ping));
}

#[test]
fn answers_are_matched_to_their_calls() {
    let pong = || SdeOutcome::Success { result: SdeResult::Pong };
    let answer = accept_response(3, Ok(SdeResponse { id: 3, outcome: pong() }));
    assert!(is_running(&answer));

    let err = accept_response(3, Ok(SdeResponse { id: 4, outcome: pong() })).unwrap_err();
    assert!(matches!(err, SdeIpcError::IdMismatch { expected: 3, got: 4 }));
    assert_eq!(err.message(), "response id 4 did not match request id 3");

    let err = accept_response(3, Err(String::from("bad line"))).unwrap_err();
    assert!(matches!(&err, SdeIpcError::Serde(text) if text == "bad line"));

    let refused = SdeOutcome::Failure { message: "no such window".into() };
    let answer = accept_response(3, Ok(SdeResponse { id: 3, outcome: refused }));
    assert!(!is_running(&answer));
    assert_eq!(
        answer.unwrap_err().message(),
        "comphwde rejected the request: no such window"
    );
}

#[test]
fn each_error_has_its_sentence() {
    assert_eq!(
        SdeIpcError::Io("broken pipe".into()).message(),
        "i/o error talking to comphwde: broken pipe"
    );
    assert_eq!(
        SdeIpcError::Serde("bad".into()).message(),
        "malformed response from comphwde: bad"
    );
}

#[test]
fn a_subscription_ends_with_its_connection() {
    let message = SdeEventMessage { event: SdeEvent::Workspaces(Vec::new()) };
    assert!(matches!(
        accept_event(Some(Ok(message))),
        Ok(SdeEvent::Workspaces(v)) if v.is_empty()
    ));
    let err = accept_event(Some(Err(String::from("bad")))).unwrap_err();
    assert_eq!(err.message(), "malformed response from comphwde: bad");
    let err = accept_event(None).unwrap_err();
    assert_eq!(
        err.message(),
        "i/o error talking to comphwde: sde-ipc subscription closed"
    );
}
