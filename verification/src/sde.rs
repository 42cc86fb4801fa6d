//! The protocol that an external shell speaks to the compositor: requests,
//! replies, events, and the client's side of one exchange.
use vstd::prelude::*;

use crate::paths::{join_path, slug, slug_of, socket_path_of};
use crate::text::{decimal, decimal_text, join2, join3};

verus! {

#[derive(Debug)]
pub struct SdeRequest {
    pub id: u64,
    pub call: SdeCall,
}

#[allow(inconsistent_fields)]
#[derive(Debug)]
pub enum SdeCall {
    Ping,
    LaunchApp { command: String, args: Vec<String> },
    SetWallpaper { path: String },
    ListWindows,
    FocusWindow { id: u64 },
    CloseWindow { id: u64 },
    MinimizeWindow { id: u64 },
    UnminimizeWindow { id: u64 },
    MaximizeWindow { id: u64, maximized: bool },
    ToggleFloatingWindow { id: u64 },
    ListWorkspaces,
    SwitchWorkspace { id: u32 },
    MoveWindowToWorkspace { id: u64, workspace: u32 },
    SetTiling { workspace: u32, enabled: bool },
    PinSurface { app_id: String, edge: PinnedEdge, thickness_px: u32 },
    ReloadConfig,
    ListOutputs,
    Shutdown,
    Subscribe,
}

/// The edge of the output to which a surface is pinned.
#[derive(Debug, Clone, Copy, PartialEq, Eq, Structural)]
pub enum PinnedEdge {
    Top,
    Bottom,
}

#[derive(Debug)]
pub struct SdeResponse {
    pub id: u64,
    pub outcome: SdeOutcome,
}

#[derive(Debug)]
pub enum SdeOutcome {
    Success { result: SdeResult },
    Failure { message: String },
}

#[derive(Debug)]
pub enum SdeResult {
    Nothing,
    Pong,
    Windows(Vec<SdeWindowInfo>),
    Workspaces(Vec<SdeWorkspaceInfo>),
    Outputs(Vec<SdeOutputInfo>),
}

#[derive(Debug, PartialEq, Eq)]
pub struct SdeWindowInfo {
    pub id: u64,
    pub title: String,
    pub app_id: String,
    pub workspace: u32,
    pub focused: bool,
    pub minimized: bool,
    pub maximized: bool,
    pub floating: bool,
}

impl Clone for SdeWindowInfo {
    fn clone(&self) -> (r: SdeWindowInfo)
        ensures
            r == *self,
    {
        SdeWindowInfo {
            id: self.id,
            title: self.title.clone(),
            app_id: self.app_id.clone(),
            workspace: self.workspace,
            focused: self.focused,
            minimized: self.minimized,
            maximized: self.maximized,
            floating: self.floating,
        }
    }
}

impl SdeWindowInfo {
    /// Whether two descriptions of a window say the same.
    pub open spec fn agrees(self, o: SdeWindowInfo) -> bool {
        &&& self.id == o.id
        &&& self.title@ == o.title@
        &&& self.app_id@ == o.app_id@
        &&& self.workspace == o.workspace
        &&& self.focused == o.focused
        &&& self.minimized == o.minimized
        &&& self.maximized == o.maximized
        &&& self.floating == o.floating
    }

    pub fn same(&self, o: &SdeWindowInfo) -> (r: bool)
        ensures
            r == self.agrees(*o),
    {
        self.id == o.id && self.title == o.title && self.app_id == o.app_id && self.workspace
            == o.workspace && self.focused == o.focused && self.minimized == o.minimized
            && self.maximized == o.maximized && self.floating == o.floating
    }
}

#[derive(Debug, PartialEq, Eq)]
pub struct SdeWorkspaceInfo {
    pub id: u32,
    pub name: String,
    pub window_count: u32,
    pub tiling_enabled: bool,
    pub active: bool,
}

impl Clone for SdeWorkspaceInfo {
    fn clone(&self) -> (r: SdeWorkspaceInfo)
        ensures
            r == *self,
    {
        SdeWorkspaceInfo {
            id: self.id,
            name: self.name.clone(),
            window_count: self.window_count,
            tiling_enabled: self.tiling_enabled,
            active: self.active,
        }
    }
}

impl SdeWorkspaceInfo {
    /// Whether two descriptions of a workspace say the same.
    pub open spec fn agrees(self, o: SdeWorkspaceInfo) -> bool {
        &&& self.id == o.id
        &&& self.name@ == o.name@
        &&& self.window_count == o.window_count
        &&& self.tiling_enabled == o.tiling_enabled
        &&& self.active == o.active
    }

    pub fn same(&self, o: &SdeWorkspaceInfo) -> (r: bool)
        ensures
            r == self.agrees(*o),
    {
        self.id == o.id && self.name == o.name && self.window_count == o.window_count
            && self.tiling_enabled == o.tiling_enabled && self.active == o.active
    }
}

/// An output. The scale is held by the bit pattern of a double.
#[derive(Debug, PartialEq, Eq)]
pub struct SdeOutputInfo {
    pub name: String,
    pub width: i32,
    pub height: i32,
    pub refresh_mhz: i32,
    pub scale_bits: u64,
    pub primary: bool,
}

#[derive(Debug)]
pub enum SdeEvent {
    Windows(Vec<SdeWindowInfo>),
    Workspaces(Vec<SdeWorkspaceInfo>),
    CompositorShuttingDown,
}

#[derive(Debug)]
pub struct SdeEventMessage {
    pub event: SdeEvent,
}

/// Why a call did not come through.
#[derive(Debug)]
pub enum SdeIpcError {
    NotRunning(String),
    Io(String),
    Serde(String),
    Rejected(String),
    IdMismatch { expected: u64, got: u64 },
}

pub open spec fn error_text(e: SdeIpcError) -> Seq<char> {
    match e {
        SdeIpcError::NotRunning(path) => "comphwde is not running in --extern-sde mode (no socket at "@
            + path@ + ")"@,
        SdeIpcError::Io(text) => "i/o error talking to comphwde: "@ + text@,
        SdeIpcError::Serde(text) => "malformed response from comphwde: "@ + text@,
        SdeIpcError::Rejected(text) => "comphwde rejected the request: "@ + text@,
        SdeIpcError::IdMismatch { expected, got } => "response id "@ + decimal(got as nat)
            + " did not match request id "@ + decimal(expected as nat),
    }
}

impl SdeIpcError {
    /// The error as a sentence.
    pub fn message(&self) -> (r: String)
        ensures
            r@ == error_text(*self),
    {
        match self {
            SdeIpcError::NotRunning(path) => join3(
                "comphwde is not running in --extern-sde mode (no socket at ",
                path.as_str(),
                ")",
            ),
            SdeIpcError::Io(text) => join2("i/o error talking to comphwde: ", text.as_str()),
            SdeIpcError::Serde(text) => join2("malformed response from comphwde: ", text.as_str()),
            SdeIpcError::Rejected(text) => join2("comphwde rejected the request: ", text.as_str()),
            SdeIpcError::IdMismatch { expected, got } => {
                let mut s = join3(
                    "response id ",
                    decimal_text(*got as u128).as_str(),
                    " did not match request id ",
                );
                s.append(decimal_text(*expected as u128).as_str());
                s
            },
        }
    }
}

/// The socket on which the compositor serves a named shell.
pub fn socket_path_for(runtime_dir: &str, session_name: &str) -> (r: String)
    ensures
        r@ == socket_path_of(runtime_dir@, "comphwde-"@, slug(session_name@)),
{
    let file = join3("comphwde-", slug_of(session_name).as_str(), ".sock");
    join_path(runtime_dir, file.as_str())
}

pub fn sde_socket_path(runtime_dir: &str) -> (r: String)
    ensures
        r@ == socket_path_of(runtime_dir@, "comphwde-"@, slug("sde"@)),
{
    socket_path_for(runtime_dir, "sde")
}

/// The request numbered `id`, or the reason why none is sent: without a socket
/// nobody listens.
pub fn open_call(path: String, socket_exists: bool, id: u64, call: SdeCall) -> (r: Result<
    SdeRequest,
    SdeIpcError,
>)
    ensures
        r == (if socket_exists {
            Ok::<SdeRequest, SdeIpcError>(SdeRequest { id, call })
        } else {
            Err(SdeIpcError::NotRunning(path))
        }),
{
    if socket_exists {
        Ok(SdeRequest { id, call })
    } else {
        Err(SdeIpcError::NotRunning(path))
    }
}

/// What a response means for the call with the number `id`: one that could not be read
/// is an error, a response to another call is, and so is a refusal.
pub fn accept_response(id: u64, response: Result<SdeResponse, String>) -> (r: Result<
    SdeResult,
    SdeIpcError,
>)
    ensures
        r == (match response {
            Err(text) => Err::<SdeResult, SdeIpcError>(SdeIpcError::Serde(text)),
            Ok(response) => if response.id != id {
                Err(SdeIpcError::IdMismatch { expected: id, got: response.id })
            } else {
                match response.outcome {
                    SdeOutcome::Success { result } => Ok(result),
                    SdeOutcome::Failure { message } => Err(SdeIpcError::Rejected(message)),
                }
            },
        }),
{
    match response {
        Err(text) => Err(SdeIpcError::Serde(text)),
        Ok(response) => {
            if response.id != id {
                return Err(SdeIpcError::IdMismatch { expected: id, got: response.id });
            }
            match response.outcome {
                SdeOutcome::Success { result } => Ok(result),
                SdeOutcome::Failure { message } => Err(SdeIpcError::Rejected(message)),
            }
        },
    }
}

/// Whether the answer to a ping shows a running compositor.
pub fn is_running(answer: &Result<SdeResult, SdeIpcError>) -> (r: bool)
    ensures
        r == (*answer is Ok && answer->Ok_0 is Pong),
{
    match answer {
        Ok(SdeResult::Pong) => true,
        _ => false,
    }
}

/// What a subscription gives: the event of a message that could be read, an error for
/// one that could not, and at its end that the connection was closed.
pub fn accept_event(message: Option<Result<SdeEventMessage, String>>) -> (r: Result<
    SdeEvent,
    SdeIpcError,
>)
    ensures
        match message {
            Some(Ok(m)) => r == Ok::<SdeEvent, SdeIpcError>(m.event),
            Some(Err(text)) => r == Err::<SdeEvent, SdeIpcError>(SdeIpcError::Serde(text)),
            None => r matches Err(SdeIpcError::Io(t)) && t@ == "sde-ipc subscription closed"@,
        },
{
    match message {
        Some(Ok(m)) => Ok(m.event),
        Some(Err(text)) => Err(SdeIpcError::Serde(text)),
        None => Err(SdeIpcError::Io(String::from_str("sde-ipc subscription closed"))),
    }
}

/// Names that differ after normalisation have different sockets, and names that
/// agree share one.
pub proof fn law_socket_follows_the_slug(dir: Seq<char>, a: Seq<char>, b: Seq<char>)
    ensures
        socket_path_of(dir, "comphwde-"@, slug(a)) == socket_path_of(dir, "comphwde-"@, slug(b))
            <==> slug(a) == slug(b),
{
    if socket_path_of(dir, "comphwde-"@, slug(a)) == socket_path_of(dir, "comphwde-"@, slug(b)) {
        crate::paths::law_socket_paths_are_distinct(dir, "comphwde-"@, slug(a), slug(b));
    }
}

} // verus!
