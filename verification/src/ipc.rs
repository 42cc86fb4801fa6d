//! The compositor's own control protocol: requests, replies, and what each request
//! does.
use vstd::prelude::*;

use crate::desk::{fallback_geometry, CompositorConfig, Desk, KeyboardLayout};
use crate::geometry::{Point, Rectangle, Size};
use crate::hwde::HwdeState;
use crate::paths::text_view;
use crate::text::{decimal, decimal_text, join2};
use crate::window::Effect;

verus! {

broadcast use vstd::std_specs::hash::group_hash_axioms;

#[derive(Debug, PartialEq, Eq)]
pub struct WindowSummary {
    pub id: u64,
    pub title: String,
    pub app_id: String,
    pub is_xwayland: bool,
    pub is_minimized: bool,
    pub is_maximized: bool,
    pub is_floating: bool,
}

#[derive(Debug, Clone, Copy, PartialEq, Eq, Structural)]
pub struct WorkspaceSummary {
    pub id: u32,
    pub is_active: bool,
    pub window_count: u32,
    pub is_tiling: bool,
}

/// An output. The scale is held by the bit pattern of a double.
#[derive(Debug, PartialEq, Eq)]
pub struct OutputSummary {
    pub name: String,
    pub x: i32,
    pub y: i32,
    pub width: i32,
    pub height: i32,
    pub scale_bits: u64,
    pub refresh_mhz: i32,
    pub is_primary: bool,
}

pub open spec fn window_summary(d: Desk, i: int) -> WindowSummary {
    let w = d.windows[i];
    WindowSummary {
        id: w.id,
        title: w.title,
        app_id: w.app_id,
        is_xwayland: w.is_x11,
        is_minimized: w.is_minimized,
        is_maximized: w.is_maximized,
        is_floating: d.floating.contains(w.id),
    }
}

pub open spec fn workspace_summary(d: Desk, id: u32) -> WorkspaceSummary {
    WorkspaceSummary {
        id,
        is_active: id == d.active,
        window_count: d.count_on(id, d.windows.len()) as u32,
        is_tiling: d.tiling.contains(id),
    }
}

/// An output of the same name as the first is taken for the primary one.
pub open spec fn output_summary(d: Desk, i: int) -> OutputSummary {
    let o = d.outputs[i];
    let g = match o.geometry {
        Some(g) => g,
        None => fallback_geometry(),
    };
    OutputSummary {
        name: o.name,
        x: g.loc.x,
        y: g.loc.y,
        width: g.size.w,
        height: g.size.h,
        scale_bits: o.scale_bits,
        refresh_mhz: o.refresh_mhz,
        is_primary: d.outputs[0].name@ == o.name@,
    }
}

/// What the compositor tells of all its windows.
pub open spec fn all_windows(d: Desk) -> Seq<WindowSummary> {
    Seq::new(d.windows.len(), |i: int| window_summary(d, i))
}

pub open spec fn all_workspaces(d: Desk) -> Seq<WorkspaceSummary> {
    Seq::new(d.workspace_count() as nat, |i: int| workspace_summary(d, i as u32))
}

pub open spec fn all_outputs(d: Desk) -> Seq<OutputSummary> {
    Seq::new(d.outputs.len(), |i: int| output_summary(d, i))
}

impl HwdeState {
    pub fn window_summaries(&self) -> (r: Vec<WindowSummary>)
        ensures
            r@ == all_windows(self@),
    {
        let mut out: Vec<WindowSummary> = Vec::new();
        let mut i: usize = 0;
        while i < self.windows.len()
            invariant
                i <= self.windows.len(),
                out.len() == i,
                forall|k: int| 0 <= k < i ==> #[trigger] out@[k] == window_summary(self@, k),
            decreases self.windows.len() - i,
        {
            let w = &self.windows[i];
            out.push(
                WindowSummary {
                    id: w.id,
                    title: w.title.clone(),
                    app_id: w.app_id.clone(),
                    is_xwayland: w.is_x11,
                    is_minimized: w.is_minimized,
                    is_maximized: w.is_maximized,
                    is_floating: self.floating_windows.contains(&w.id),
                },
            );
            i = i + 1;
        }
        assert(out@ =~= all_windows(self@));
        out
    }

    fn count_on(&self, workspace: u32) -> (r: usize)
        ensures
            r == self@.count_on(workspace, self@.windows.len()),
    {
        let mut count: usize = 0;
        let mut i: usize = 0;
        while i < self.windows.len()
            invariant
                i <= self.windows.len(),
                count <= i,
                count == self@.count_on(workspace, i as nat),
            decreases self.windows.len() - i,
        {
            if self.windows[i].workspace == workspace {
                count = count + 1;
            }
            i = i + 1;
        }
        count
    }

    pub fn workspace_summaries(&self) -> (r: Vec<WorkspaceSummary>)
        ensures
            r@ == all_workspaces(self@),
    {
        let n: u32 = self.workspace_count();
        let mut out: Vec<WorkspaceSummary> = Vec::new();
        let mut id: u32 = 0;
        while id < n
            invariant
                id <= n,
                n == self@.workspace_count(),
                out.len() == id,
                forall|k: int|
                    0 <= k < id ==> #[trigger] out@[k] == workspace_summary(self@, k as u32),
            decreases n - id,
        {
            let count: usize = self.count_on(id);
            out.push(
                WorkspaceSummary {
                    id,
                    is_active: id == self.active_workspace,
                    window_count: count as u32,
                    is_tiling: self.tiling_enabled.contains(&id),
                },
            );
            id = id + 1;
        }
        assert(out@ =~= all_workspaces(self@));
        out
    }

    pub fn output_summaries(&self) -> (r: Vec<OutputSummary>)
        ensures
            r@ == all_outputs(self@),
    {
        let fallback = Rectangle { loc: Point { x: 0, y: 0 }, size: Size { w: 1920, h: 1080 } };
        let mut out: Vec<OutputSummary> = Vec::new();
        let mut i: usize = 0;
        while i < self.outputs.len()
            invariant
                i <= self.outputs.len(),
                fallback == fallback_geometry(),
                out.len() == i,
                forall|k: int| 0 <= k < i ==> #[trigger] out@[k] == output_summary(self@, k),
            decreases self.outputs.len() - i,
        {
            let o = &self.outputs[i];
            let g = match o.geometry {
                Some(g) => g,
                None => fallback,
            };
            out.push(
                OutputSummary {
                    name: o.name.clone(),
                    x: g.loc.x,
                    y: g.loc.y,
                    width: g.size.w,
                    height: g.size.h,
                    scale_bits: o.scale_bits,
                    refresh_mhz: o.refresh_mhz,
                    is_primary: self.outputs[0].name == o.name,
                },
            );
            i = i + 1;
        }
        assert(out@ =~= all_outputs(self@));
        out
    }

    /// Takes another wallpaper; it is loaded with the next frame.
    pub fn set_wallpaper(&mut self, path: String)
        ensures
            final(self)@ == (Desk {
                wallpaper: path@,
                reload_wallpaper: true,
                ..old(self)@
            }),
    {
        self.wallpaper = path;
        self.pending_wallpaper_reload = true;
    }

    /// Ends the session.
    pub fn stop(&mut self)
        ensures
            final(self)@ == (Desk { running: false, ..old(self)@ }),
    {
        self.running = false;
    }

    /// Goes by other settings from now on, those that were read anew.
    pub fn reload_config(&mut self, config: CompositorConfig, keyboard: KeyboardLayout)
        ensures
            final(self)@ == old(self)@.reloaded(config, keyboard@),
    {
        let changed: bool = !keyboard.same(&self.keyboard);
        self.config = config;
        self.keyboard = keyboard;
        if changed {
            self.effects.push(Effect::SetKeyboardLayout);
        }
        let count: u32 = self.workspace_count();
        if self.active_workspace >= count {
            self.switch_workspace(count - 1);
        }
    }
}

#[allow(inconsistent_fields)]
#[derive(Debug)]
pub enum IpcRequest {
    Ping,
    LaunchApp { command: String, args: Vec<String> },
    SetWallpaper { path: String },
    ListWindows,
    FocusWindow { id: u64 },
    CloseWindow { id: u64 },
    MinimizeWindow { id: u64 },
    UnminimizeWindow { id: u64 },
    MaximizeWindow { id: u64, maximized: bool },
    ToggleFloatingWindow { id: u64 },
    ListWorkspaces,
    SwitchWorkspace { id: u32 },
    MoveWindowToWorkspace { id: u64, workspace: u32 },
    SetTiling { workspace: u32, enabled: bool },
    ReloadConfig,
    ListOutputs,
    Shutdown,
}

#[derive(Debug)]
pub enum IpcResponse {
    Pong,
    Done,
    Error(String),
    Windows(Vec<WindowSummary>),
    Workspaces(Vec<WorkspaceSummary>),
    Outputs(Vec<OutputSummary>),
}

/// What a request leads to: a reply, or something that has to be done first.
#[derive(Debug)]
pub enum IpcStep {
    Reply(IpcResponse),
    /// Start a program; the reply tells whether it started.
    Launch { command: String, args: Vec<String> },
    /// Load the configuration anew and take it over; the reply is that it was done.
    Reload,
}

/// The desktop after a request.
pub open spec fn requested(d: Desk, req: IpcRequest) -> Desk {
    match req {
        IpcRequest::SetWallpaper { path } => Desk {
            wallpaper: path@,
            reload_wallpaper: true,
            ..d
        },
        IpcRequest::FocusWindow { id } => d.focus(id),
        IpcRequest::CloseWindow { id } => d.closed(id),
        IpcRequest::MinimizeWindow { id } => d.minimized(id),
        IpcRequest::UnminimizeWindow { id } => d.focus(id),
        IpcRequest::MaximizeWindow { id, maximized } => d.maximized(
            id,
            maximized,
            d.primary_output(),
        ),
        IpcRequest::ToggleFloatingWindow { id } => d.floating_toggled(id),
        IpcRequest::SwitchWorkspace { id } => d.switched(id),
        IpcRequest::MoveWindowToWorkspace { id, workspace } => d.moved(id, workspace),
        IpcRequest::SetTiling { workspace, enabled } => d.tiling_set(workspace, enabled),
        IpcRequest::Shutdown => Desk { running: false, ..d },
        _ => d,
    }
}

/// Whether `step` is what a request leads to.
pub open spec fn answers(d: Desk, req: IpcRequest, step: IpcStep) -> bool {
    match req {
        IpcRequest::Ping => step matches IpcStep::Reply(r) && r is Pong,
        IpcRequest::LaunchApp { command, args } => step == (IpcStep::Launch { command, args }),
        IpcRequest::ListWindows => step matches IpcStep::Reply(IpcResponse::Windows(v)) && v@
            == all_windows(d),
        IpcRequest::ListWorkspaces => step matches IpcStep::Reply(IpcResponse::Workspaces(v))
            && v@ == all_workspaces(d),
        IpcRequest::ListOutputs => step matches IpcStep::Reply(IpcResponse::Outputs(v)) && v@
            == all_outputs(d),
        IpcRequest::ReloadConfig => step is Reload,
        _ => step matches IpcStep::Reply(r) && r is Done,
    }
}

/// Does what a request asks.
pub fn dispatch(req: IpcRequest, state: &mut HwdeState) -> (r: IpcStep)
    ensures
        final(state)@ == requested(old(state)@, req),
        answers(old(state)@, req, r),
{
    match req {
        IpcRequest::Ping => IpcStep::Reply(IpcResponse::Pong),
        IpcRequest::LaunchApp { command, args } => IpcStep::Launch { command, args },
        IpcRequest::SetWallpaper { path } => {
            state.set_wallpaper(path);
            IpcStep::Reply(IpcResponse::Done)
        },
        IpcRequest::ListWindows => IpcStep::Reply(IpcResponse::Windows(state.window_summaries())),
        IpcRequest::FocusWindow { id } => {
            state.focus_window_by_id(id);
            IpcStep::Reply(IpcResponse::Done)
        },
        IpcRequest::CloseWindow { id } => {
            state.close_window_by_id(id);
            IpcStep::Reply(IpcResponse::Done)
        },
        IpcRequest::MinimizeWindow { id } => {
            state.minimize_window_by_id(id);
            IpcStep::Reply(IpcResponse::Done)
        },
        IpcRequest::UnminimizeWindow { id } => {
            state.unminimize_window_by_id(id);
            IpcStep::Reply(IpcResponse::Done)
        },
        IpcRequest::MaximizeWindow { id, maximized } => {
            let area = state.primary_output_geometry();
            state.maximize_window_by_id(id, maximized, area);
            IpcStep::Reply(IpcResponse::Done)
        },
        IpcRequest::ToggleFloatingWindow { id } => {
            state.toggle_floating_by_id(id);
            IpcStep::Reply(IpcResponse::Done)
        },
        IpcRequest::ListWorkspaces => IpcStep::Reply(
            IpcResponse::Workspaces(state.workspace_summaries()),
        ),
        IpcRequest::SwitchWorkspace { id } => {
            state.switch_workspace(id);
            IpcStep::Reply(IpcResponse::Done)
        },
        IpcRequest::MoveWindowToWorkspace { id, workspace } => {
            state.move_window_to_workspace(id, workspace);
            IpcStep::Reply(IpcResponse::Done)
        },
        IpcRequest::SetTiling { workspace, enabled } => {
            state.set_tiling(workspace, enabled);
            IpcStep::Reply(IpcResponse::Done)
        },
        IpcRequest::ReloadConfig => IpcStep::Reload,
        IpcRequest::ListOutputs => IpcStep::Reply(IpcResponse::Outputs(state.output_summaries())),
        IpcRequest::Shutdown => {
            state.stop();
            IpcStep::Reply(IpcResponse::Done)
        },
    }
}

/// The reply once a program was started, or failed to start.
pub fn launched(outcome: Result<(), String>) -> (r: IpcResponse)
    ensures
        match outcome {
            Ok(_) => r is Done,
            Err(text) => r == IpcResponse::Error(text),
        },
{
    match outcome {
        Ok(_) => IpcResponse::Done,
        Err(text) => IpcResponse::Error(text),
    }
}

/// The reply to something that is no request.
pub fn malformed(reason: &str) -> (r: IpcResponse)
    ensures
        r matches IpcResponse::Error(t) && t@ == "malformed request: "@ + reason@,
{
    IpcResponse::Error(join2("malformed request: ", reason))
}

/// The variables that a program is started with, beside those of the compositor.
pub open spec fn environment(
    socket: Option<Seq<char>>,
    x11_display: Option<u32>,
    cursor_theme: Option<Seq<char>>,
) -> Seq<(Seq<char>, Seq<char>)> {
    (match socket {
        Some(name) => seq![("WAYLAND_DISPLAY"@, name)],
        None => Seq::empty(),
    }) + (match x11_display {
        Some(n) => seq![("DISPLAY"@, ":"@ + decimal(n as nat))],
        None => Seq::empty(),
    }) + (match cursor_theme {
        Some(theme) => seq![("XCURSOR_THEME"@, theme)],
        None => Seq::empty(),
    })
}

/// The names and values that a list holds.
pub open spec fn pairs(s: Seq<(String, String)>) -> Seq<(Seq<char>, Seq<char>)> {
    s.map_values(|e: (String, String)| (e.0@, e.1@))
}

/// The variables for a program that is started: where to find the compositor, the X11
/// server if there is one, and the theme of the cursor if one is set.
pub fn launch_environment(
    socket: Option<&str>,
    x11_display: Option<u32>,
    cursor_theme: Option<&str>,
) -> (r: Vec<(String, String)>)
    ensures
        pairs(r@) == environment(text_view(socket), x11_display, text_view(cursor_theme)),
{
    let mut out: Vec<(String, String)> = Vec::new();
    if let Some(name) = socket {
        out.push((String::from_str("WAYLAND_DISPLAY"), String::from_str(name)));
    }
    if let Some(n) = x11_display {
        let value = join2(":", decimal_text(n as u128).as_str());
        out.push((String::from_str("DISPLAY"), value));
    }
    if let Some(theme) = cursor_theme {
        out.push((String::from_str("XCURSOR_THEME"), String::from_str(theme)));
    }
    assert(pairs(out@) =~= environment(text_view(socket), x11_display, text_view(cursor_theme)));
    out
}

/// Whether a connection is served: only the user's own, and only where the other side
/// is known.
pub fn accepts_peer(peer: Option<u32>, own: u32) -> (r: bool)
    ensures
        r == (peer == Some(own)),
{
    match peer {
        Some(uid) => uid == own,
        None => false,
    }
}

} // verus!
