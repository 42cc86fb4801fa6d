//! The desktop's own form of the shell protocol, in which windows and
//! workspaces are described by their summaries.
use vstd::prelude::*;

use crate::paths::{join_path, socket_path_of};
use crate::summaries::{OutputSummary, WindowSummary, WorkspaceSummary};
use crate::text::{decimal, decimal_text, join3};

verus! {

#[derive(Debug)]
pub struct SdeRequest {
    pub id: u64,
    pub call: SdeCall,
}

#[allow(inconsistent_fields)]
#[derive(Debug)]
pub enum SdeCall {
    Ping,
    LaunchApp { command: String, args: Vec<String> },
    SetWallpaper { path: String },
    ListWindows,
    FocusWindow { id: u64 },
    CloseWindow { id: u64 },
    MinimizeWindow { id: u64 },
    UnminimizeWindow { id: u64 },
    MaximizeWindow { id: u64, maximized: bool },
    ToggleFloatingWindow { id: u64 },
    ListWorkspaces,
    SwitchWorkspace { id: usize },
    MoveWindowToWorkspace { id: u64, workspace: usize },
    SetTiling { workspace: usize, enabled: bool },
    PinSurface { app_id: String, edge: PinnedEdge, thickness_px: u32 },
    ReloadConfig,
    ListOutputs,
    Shutdown,
    Subscribe,
}

#[derive(Debug, Clone, Copy, PartialEq, Eq, Structural)]
pub enum PinnedEdge {
    Top,
    Bottom,
}

#[derive(Debug)]
pub struct SdeResponse {
    pub id: u64,
    pub outcome: SdeOutcome,
}

#[derive(Debug)]
pub enum SdeOutcome {
    Success { result: SdeResult },
    Failure { message: String },
}

#[derive(Debug)]
pub enum SdeResult {
    Nothing,
    Pong,
    Windows(Vec<SdeWindowInfo>),
    Workspaces(Vec<SdeWorkspaceInfo>),
    Outputs(Vec<SdeOutputInfo>),
}

#[derive(Debug, PartialEq, Eq)]
pub struct SdeWindowInfo {
    pub id: u64,
    pub title: String,
    pub app_id: String,
    pub workspace: usize,
    pub is_fullscreen: bool,
    pub is_minimized: bool,
    pub is_floating: bool,
    pub is_maximized: bool,
    pub is_xwayland: bool,
}

/// The description of a window, field for field that of its summary.
pub open spec fn window_info(w: WindowSummary) -> SdeWindowInfo {
    SdeWindowInfo {
        id: w.id,
        title: w.title,
        app_id: w.app_id,
        workspace: w.workspace,
        is_fullscreen: w.is_fullscreen,
        is_minimized: w.is_minimized,
        is_floating: w.is_floating,
        is_maximized: w.is_maximized,
        is_xwayland: w.is_xwayland,
    }
}

impl From<WindowSummary> for SdeWindowInfo {
    fn from(w: WindowSummary) -> (r: SdeWindowInfo) {
        SdeWindowInfo {
            id: w.id,
            title: w.title,
            app_id: w.app_id,
            workspace: w.workspace,
            is_fullscreen: w.is_fullscreen,
            is_minimized: w.is_minimized,
            is_floating: w.is_floating,
            is_maximized: w.is_maximized,
            is_xwayland: w.is_xwayland,
        }
    }
}

impl vstd::std_specs::convert::FromSpecImpl<WindowSummary> for SdeWindowInfo {
    open spec fn obeys_from_spec() -> bool {
        true
    }

    open spec fn from_spec(w: WindowSummary) -> SdeWindowInfo {
        window_info(w)
    }
}

#[derive(Debug, PartialEq, Eq)]
pub struct SdeWorkspaceInfo {
    pub id: usize,
    pub name: String,
    pub window_count: usize,
    pub tiling_enabled: bool,
    pub active: bool,
}

impl SdeWorkspaceInfo {
    /// A workspace is named by its number, counted from one.
    pub fn from_summary(w: WorkspaceSummary) -> (r: SdeWorkspaceInfo)
        ensures
            r.id == w.id,
            r.name@ == decimal((w.id + 1) as nat),
            r.window_count == w.window_count,
            r.tiling_enabled == w.is_tiling,
            r.active == w.is_active,
    {
        SdeWorkspaceInfo {
            id: w.id,
            name: decimal_text(w.id as u128 + 1),
            window_count: w.window_count,
            tiling_enabled: w.is_tiling,
            active: w.is_active,
        }
    }
}

/// An output. The scale is held by the bit pattern of a double.
#[derive(Debug, PartialEq, Eq)]
pub struct SdeOutputInfo {
    pub name: String,
    pub width: i32,
    pub height: i32,
    pub refresh_mhz: i32,
    pub scale_bits: u64,
    pub primary: bool,
}

pub open spec fn output_info(o: OutputSummary) -> SdeOutputInfo {
    SdeOutputInfo {
        name: o.name,
        width: o.width,
        height: o.height,
        refresh_mhz: o.refresh_mhz,
        scale_bits: o.scale_bits,
        primary: o.is_primary,
    }
}

impl From<OutputSummary> for SdeOutputInfo {
    fn from(o: OutputSummary) -> (r: SdeOutputInfo) {
        SdeOutputInfo {
            name: o.name,
            width: o.width,
            height: o.height,
            refresh_mhz: o.refresh_mhz,
            scale_bits: o.scale_bits,
            primary: o.is_primary,
        }
    }
}

impl vstd::std_specs::convert::FromSpecImpl<OutputSummary> for SdeOutputInfo {
    open spec fn obeys_from_spec() -> bool {
        true
    }

    open spec fn from_spec(o: OutputSummary) -> SdeOutputInfo {
        output_info(o)
    }
}

#[derive(Debug)]
pub enum SdeEvent {
    Windows(Vec<SdeWindowInfo>),
    Workspaces(Vec<SdeWorkspaceInfo>),
    CompositorShuttingDown,
}

#[derive(Debug)]
pub struct SdeEventMessage {
    pub event: SdeEvent,
}

/// The socket of a named session. The name is taken as it stands.
pub fn socket_path_for(runtime_dir: &str, session_name: &str) -> (r: String)
    ensures
        r@ == socket_path_of(runtime_dir@, "hackeros-comp-"@, session_name@),
{
    let file = join3("hackeros-comp-", session_name, ".sock");
    join_path(runtime_dir, file.as_str())
}

} // verus!
