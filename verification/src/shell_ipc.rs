//! The compositor's side of the protocol that an external shell speaks.
use vstd::prelude::*;

use crate::desk::{Desk, Pin};
use crate::hwde::HwdeState;
use crate::ipc::{all_outputs, all_workspaces, OutputSummary, WorkspaceSummary};
use crate::sde::{
    PinnedEdge, SdeCall, SdeEvent, SdeOutcome, SdeOutputInfo, SdeRequest, SdeResponse, SdeResult,
    SdeWindowInfo, SdeWorkspaceInfo,
};
use crate::text::{decimal, decimal_text, join2};

verus! {

broadcast use vstd::std_specs::hash::group_hash_axioms;

pub open spec fn sde_window(d: Desk, i: int) -> SdeWindowInfo {
    let w = d.windows[i];
    SdeWindowInfo {
        id: w.id,
        title: w.title,
        app_id: w.app_id,
        workspace: w.workspace,
        focused: d.focused == Some(w.id),
        minimized: w.is_minimized,
        maximized: w.is_maximized,
        floating: d.floating.contains(w.id),
    }
}

pub open spec fn sde_windows(d: Desk) -> Seq<SdeWindowInfo> {
    Seq::new(d.windows.len(), |i: int| sde_window(d, i))
}

/// Whether a description is that of a workspace; its name is its number, counted from
/// one.
pub open spec fn sde_workspace_is(s: WorkspaceSummary, r: SdeWorkspaceInfo) -> bool {
    &&& r.id == s.id
    &&& r.name@ == decimal((s.id + 1) as nat)
    &&& r.window_count == s.window_count
    &&& r.tiling_enabled == s.is_tiling
    &&& r.active == s.is_active
}

pub open spec fn sde_workspaces_are(d: Desk, r: Seq<SdeWorkspaceInfo>) -> bool {
    &&& r.len() == d.workspace_count()
    &&& forall|i: int|
        0 <= i < r.len() ==> sde_workspace_is(all_workspaces(d)[i], #[trigger] r[i])
}

pub open spec fn sde_output(s: OutputSummary) -> SdeOutputInfo {
    SdeOutputInfo {
        name: s.name,
        width: s.width,
        height: s.height,
        refresh_mhz: s.refresh_mhz,
        scale_bits: s.scale_bits,
        primary: s.is_primary,
    }
}

pub open spec fn sde_outputs(d: Desk) -> Seq<SdeOutputInfo> {
    all_outputs(d).map_values(|s: OutputSummary| sde_output(s))
}

fn into_sde_workspace(s: WorkspaceSummary) -> (r: SdeWorkspaceInfo)
    ensures
        sde_workspace_is(s, r),
{
    SdeWorkspaceInfo {
        id: s.id,
        name: decimal_text(s.id as u128 + 1),
        window_count: s.window_count,
        tiling_enabled: s.is_tiling,
        active: s.is_active,
    }
}

fn into_sde_output(s: &OutputSummary) -> (r: SdeOutputInfo)
    ensures
        r == sde_output(*s),
{
    SdeOutputInfo {
        name: s.name.clone(),
        width: s.width,
        height: s.height,
        refresh_mhz: s.refresh_mhz,
        scale_bits: s.scale_bits,
        primary: s.is_primary,
    }
}

impl HwdeState {
    pub fn sde_window_summaries(&self) -> (r: Vec<SdeWindowInfo>)
        ensures
            r@ == sde_windows(self@),
    {
        let mut out: Vec<SdeWindowInfo> = Vec::new();
        let mut i: usize = 0;
        while i < self.windows.len()
            invariant
                i <= self.windows.len(),
                out.len() == i,
                forall|k: int| 0 <= k < i ==> #[trigger] out@[k] == sde_window(self@, k),
            decreases self.windows.len() - i,
        {
            let w = &self.windows[i];
            let focused = match self.focused_window {
                Some(id) => id == w.id,
                None => false,
            };
            out.push(
                SdeWindowInfo {
                    id: w.id,
                    title: w.title.clone(),
                    app_id: w.app_id.clone(),
                    workspace: w.workspace,
                    focused,
                    minimized: w.is_minimized,
                    maximized: w.is_maximized,
                    floating: self.floating_windows.contains(&w.id),
                },
            );
            i = i + 1;
        }
        assert(out@ =~= sde_windows(self@));
        out
    }

    pub fn sde_workspace_summaries(&self) -> (r: Vec<SdeWorkspaceInfo>)
        ensures
            sde_workspaces_are(self@, r@),
    {
        let all = self.workspace_summaries();
        let mut out: Vec<SdeWorkspaceInfo> = Vec::new();
        let mut i: usize = 0;
        while i < all.len()
            invariant
                i <= all.len(),
                all@ == all_workspaces(self@),
                out.len() == i,
                forall|k: int| 0 <= k < i ==> sde_workspace_is(all@[k], #[trigger] out@[k]),
            decreases all.len() - i,
        {
            out.push(into_sde_workspace(all[i]));
            i = i + 1;
        }
        out
    }

    pub fn sde_output_summaries(&self) -> (r: Vec<SdeOutputInfo>)
        ensures
            r@ == sde_outputs(self@),
    {
        let all = self.output_summaries();
        let mut out: Vec<SdeOutputInfo> = Vec::new();
        let mut i: usize = 0;
        while i < all.len()
            invariant
                i <= all.len(),
                all@ == all_outputs(self@),
                out.len() == i,
                forall|k: int| 0 <= k < i ==> #[trigger] out@[k] == sde_output(all@[k]),
            decreases all.len() - i,
        {
            out.push(into_sde_output(&all[i]));
            i = i + 1;
        }
        assert(out@ =~= sde_outputs(self@));
        out
    }
}

/// The edge of the desktop that an edge of the protocol stands for.
pub open spec fn desk_edge(e: PinnedEdge) -> crate::desk::PinnedEdge {
    match e {
        PinnedEdge::Top => crate::desk::PinnedEdge::Top,
        PinnedEdge::Bottom => crate::desk::PinnedEdge::Bottom,
    }
}

/// The desktop after a call of a process, where that is known.
pub open spec fn called(d: Desk, call: SdeCall, peer: Option<i32>) -> Desk {
    match call {
        SdeCall::SetWallpaper { path } => Desk { wallpaper: path@, reload_wallpaper: true, ..d },
        SdeCall::FocusWindow { id } => d.focus(id),
        SdeCall::CloseWindow { id } => d.closed(id),
        SdeCall::MinimizeWindow { id } => d.minimized(id),
        SdeCall::UnminimizeWindow { id } => d.focus(id),
        SdeCall::MaximizeWindow { id, maximized } => d.maximized(
            id,
            maximized,
            d.primary_output(),
        ),
        SdeCall::ToggleFloatingWindow { id } => d.floating_toggled(id),
        SdeCall::SwitchWorkspace { id } => d.switched(id),
        SdeCall::MoveWindowToWorkspace { id, workspace } => d.moved(id, workspace),
        SdeCall::SetTiling { workspace, enabled } => d.tiling_set(workspace, enabled),
        SdeCall::PinSurface { app_id, edge, thickness_px } => d.pinned_surface(
            app_id@,
            Pin { edge: desk_edge(edge), thickness: thickness_px, owner: peer },
        ),
        SdeCall::Shutdown => Desk { running: false, ..d },
        _ => d,
    }
}

/// What a call leads to: an outcome, or something that has to be done first.
#[derive(Debug)]
pub enum SdeStep {
    Outcome(SdeOutcome),
    /// Start a program; the outcome tells whether it started.
    Launch { command: String, args: Vec<String> },
    /// Load the configuration anew and take it over; the outcome is that it was done.
    Reload,
}

/// Whether `step` is what a call leads to.
pub open spec fn call_answers(d: Desk, call: SdeCall, step: SdeStep) -> bool {
    match call {
        SdeCall::Ping => step matches SdeStep::Outcome(SdeOutcome::Success { result })
            && result is Pong,
        SdeCall::LaunchApp { command, args } => step == (SdeStep::Launch { command, args }),
        SdeCall::ListWindows => step matches SdeStep::Outcome(
            SdeOutcome::Success { result: SdeResult::Windows(v) },
        ) && v@ == sde_windows(d),
        SdeCall::ListWorkspaces => step matches SdeStep::Outcome(
            SdeOutcome::Success { result: SdeResult::Workspaces(v) },
        ) && sde_workspaces_are(d, v@),
        SdeCall::ListOutputs => step matches SdeStep::Outcome(
            SdeOutcome::Success { result: SdeResult::Outputs(v) },
        ) && v@ == sde_outputs(d),
        SdeCall::ReloadConfig => step is Reload,
        SdeCall::Subscribe => step matches SdeStep::Outcome(SdeOutcome::Failure { message })
            && message@ == "Subscribe must be the only call on a connection"@,
        _ => step matches SdeStep::Outcome(SdeOutcome::Success { result }) && result is Nothing,
    }
}

fn done() -> (r: SdeStep)
    ensures
        r == SdeStep::Outcome(SdeOutcome::Success { result: SdeResult::Nothing }),
{
    SdeStep::Outcome(SdeOutcome::Success { result: SdeResult::Nothing })
}

/// Does what a call asks.
pub fn dispatch(call: SdeCall, peer: Option<i32>, state: &mut HwdeState) -> (r: SdeStep)
    ensures
        final(state)@ == called(old(state)@, call, peer),
        call_answers(old(state)@, call, r),
{
    match call {
        SdeCall::Ping => SdeStep::Outcome(SdeOutcome::Success { result: SdeResult::Pong }),
        SdeCall::LaunchApp { command, args } => SdeStep::Launch { command, args },
        SdeCall::SetWallpaper { path } => {
            state.set_wallpaper(path);
            done()
        },
        SdeCall::ListWindows => {
            let v = state.sde_window_summaries();
            SdeStep::Outcome(SdeOutcome::Success { result: SdeResult::Windows(v) })
        },
        SdeCall::FocusWindow { id } => {
            state.focus_window_by_id(id);
            done()
        },
        SdeCall::CloseWindow { id } => {
            state.close_window_by_id(id);
            done()
        },
        SdeCall::MinimizeWindow { id } => {
            state.minimize_window_by_id(id);
            done()
        },
        SdeCall::UnminimizeWindow { id } => {
            state.unminimize_window_by_id(id);
            done()
        },
        SdeCall::MaximizeWindow { id, maximized } => {
            let area = state.primary_output_geometry();
            state.maximize_window_by_id(id, maximized, area);
            done()
        },
        SdeCall::ToggleFloatingWindow { id } => {
            state.toggle_floating_by_id(id);
            done()
        },
        SdeCall::ListWorkspaces => {
            let v = state.sde_workspace_summaries();
            SdeStep::Outcome(SdeOutcome::Success { result: SdeResult::Workspaces(v) })
        },
        SdeCall::SwitchWorkspace { id } => {
            state.switch_workspace(id);
            done()
        },
        SdeCall::MoveWindowToWorkspace { id, workspace } => {
            state.move_window_to_workspace(id, workspace);
            done()
        },
        SdeCall::SetTiling { workspace, enabled } => {
            state.set_tiling(workspace, enabled);
            done()
        },
        SdeCall::PinSurface { app_id, edge, thickness_px } => {
            let edge = match edge {
                PinnedEdge::Top => crate::desk::PinnedEdge::Top,
                PinnedEdge::Bottom => crate::desk::PinnedEdge::Bottom,
            };
            state.pin_surface(app_id, edge, thickness_px, peer);
            done()
        },
        SdeCall::ReloadConfig => SdeStep::Reload,
        SdeCall::ListOutputs => {
            let v = state.sde_output_summaries();
            SdeStep::Outcome(SdeOutcome::Success { result: SdeResult::Outputs(v) })
        },
        SdeCall::Shutdown => {
            state.stop();
            done()
        },
        SdeCall::Subscribe => SdeStep::Outcome(
            SdeOutcome::Failure {
                message: String::from_str("Subscribe must be the only call on a connection"),
            },
        ),
    }
}

/// The outcome once a program was started, or failed to start.
pub fn launched(outcome: Result<(), String>) -> (r: SdeOutcome)
    ensures
        match outcome {
            Ok(_) => r == (SdeOutcome::Success { result: SdeResult::Nothing }),
            Err(text) => r == (SdeOutcome::Failure { message: text }),
        },
{
    match outcome {
        Ok(_) => SdeOutcome::Success { result: SdeResult::Nothing },
        Err(text) => SdeOutcome::Failure { message: text },
    }
}

/// What a line from a client leads to.
#[derive(Debug)]
pub enum Served {
    /// Send this and be done with the connection.
    Respond(SdeResponse),
    /// Send this and keep the connection for events.
    Subscribed(SdeResponse),
    /// Go on with the call; its outcome is sent under the number.
    Step { id: u64, step: SdeStep },
}

/// Whether `served` is what a request leads to. A subscription is acknowledged
/// before anything else; every answer has the number of its request.
pub open spec fn serves(d: Desk, request: SdeRequest, served: Served) -> bool {
    if request.call is Subscribe {
        served == Served::Subscribed(
            SdeResponse {
                id: request.id,
                outcome: SdeOutcome::Success { result: SdeResult::Nothing },
            },
        )
    } else {
        served matches Served::Step { id, step } && id == request.id && call_answers(
            d,
            request.call,
            step,
        )
    }
}

/// Serves a request that could be read, of a process where that is known.
pub fn serve(request: SdeRequest, peer: Option<i32>, state: &mut HwdeState) -> (r: Served)
    ensures
        final(state)@ == called(old(state)@, request.call, peer),
        serves(old(state)@, request, r),
{
    let id: u64 = request.id;
    match request.call {
        SdeCall::Subscribe => Served::Subscribed(
            SdeResponse { id, outcome: SdeOutcome::Success { result: SdeResult::Nothing } },
        ),
        call => Served::Step { id, step: dispatch(call, peer, state) },
    }
}

/// The answer to a line that is no request. It has no number to go by.
pub fn malformed(reason: &str) -> (r: SdeResponse)
    ensures
        r.id == 0,
        r.outcome matches SdeOutcome::Failure { message } && message@ == "malformed request: "@
            + reason@,
{
    SdeResponse {
        id: 0,
        outcome: SdeOutcome::Failure { message: join2("malformed request: ", reason) },
    }
}

pub open spec fn windows_agree(a: Seq<SdeWindowInfo>, b: Seq<SdeWindowInfo>) -> bool {
    a.len() == b.len() && forall|i: int| 0 <= i < a.len() ==> (#[trigger] a[i]).agrees(b[i])
}

pub open spec fn workspaces_agree(a: Seq<SdeWorkspaceInfo>, b: Seq<SdeWorkspaceInfo>) -> bool {
    a.len() == b.len() && forall|i: int| 0 <= i < a.len() ==> (#[trigger] a[i]).agrees(b[i])
}

fn same_windows(a: &Vec<SdeWindowInfo>, b: &Vec<SdeWindowInfo>) -> (r: bool)
    ensures
        r == windows_agree(a@, b@),
{
    if a.len() != b.len() {
        return false;
    }
    let mut i: usize = 0;
    while i < a.len()
        invariant
            i <= a.len(),
            a.len() == b.len(),
            forall|k: int| 0 <= k < i ==> (#[trigger] a@[k]).agrees(b@[k]),
        decreases a.len() - i,
    {
        if !a[i].same(&b[i]) {
            assert(!a@[i as int].agrees(b@[i as int]));
            return false;
        }
        i = i + 1;
    }
    true
}

fn same_workspaces(a: &Vec<SdeWorkspaceInfo>, b: &Vec<SdeWorkspaceInfo>) -> (r: bool)
    ensures
        r == workspaces_agree(a@, b@),
{
    if a.len() != b.len() {
        return false;
    }
    let mut i: usize = 0;
    while i < a.len()
        invariant
            i <= a.len(),
            a.len() == b.len(),
            forall|k: int| 0 <= k < i ==> (#[trigger] a@[k]).agrees(b@[k]),
        decreases a.len() - i,
    {
        if !a[i].same(&b[i]) {
            assert(!a@[i as int].agrees(b@[i as int]));
            return false;
        }
        i = i + 1;
    }
    true
}

fn copy_windows(v: &Vec<SdeWindowInfo>) -> (r: Vec<SdeWindowInfo>)
    ensures
        r@ == v@,
{
    let mut out: Vec<SdeWindowInfo> = Vec::new();
    let mut i: usize = 0;
    while i < v.len()
        invariant
            i <= v.len(),
            out@ == v@.take(i as int),
        decreases v.len() - i,
    {
        out.push(v[i].clone());
        i = i + 1;
        assert(out@ =~= v@.take(i as int));
    }
    assert(v@.take(v.len() as int) =~= v@);
    out
}

fn copy_workspaces(v: &Vec<SdeWorkspaceInfo>) -> (r: Vec<SdeWorkspaceInfo>)
    ensures
        r@ == v@,
{
    let mut out: Vec<SdeWorkspaceInfo> = Vec::new();
    let mut i: usize = 0;
    while i < v.len()
        invariant
            i <= v.len(),
            out@ == v@.take(i as int),
        decreases v.len() - i,
    {
        out.push(v[i].clone());
        i = i + 1;
        assert(out@ =~= v@.take(i as int));
    }
    assert(v@.take(v.len() as int) =~= v@);
    out
}

/// What the subscribers were last told.
#[derive(Debug)]
pub struct LastBroadcast {
    pub windows: Vec<SdeWindowInfo>,
    pub workspaces: Vec<SdeWorkspaceInfo>,
}

pub open spec fn windows_event_is(e: SdeEvent, w: Seq<SdeWindowInfo>) -> bool {
    e matches SdeEvent::Windows(v) && v@ == w
}

pub open spec fn workspaces_event_is(e: SdeEvent, w: Seq<SdeWorkspaceInfo>) -> bool {
    e matches SdeEvent::Workspaces(v) && v@ == w
}

/// Whether `events` bring `subscribers` from what was told `before` up to the given
/// windows and workspaces, and `after` is what has been told then. Only a list that
/// changed is told, the windows first; without subscribers nothing is told, nor taken
/// for told.
pub open spec fn brings_up_to_date(
    before: LastBroadcast,
    subscribers: usize,
    windows: Seq<SdeWindowInfo>,
    workspaces: Seq<SdeWorkspaceInfo>,
    events: Seq<SdeEvent>,
    after: LastBroadcast,
) -> bool {
    let new_windows = subscribers > 0 && !windows_agree(windows, before.windows@);
    let new_workspaces = subscribers > 0 && !workspaces_agree(workspaces, before.workspaces@);
    &&& events.len() == (if new_windows {
        1int
    } else {
        0int
    }) + (if new_workspaces {
        1int
    } else {
        0int
    })
    &&& new_windows ==> windows_event_is(events[0], windows) && after.windows@ == windows
    &&& !new_windows ==> after.windows == before.windows
    &&& new_workspaces ==> workspaces_event_is(events.last(), workspaces)
        && after.workspaces@ == workspaces
    &&& !new_workspaces ==> after.workspaces == before.workspaces
}

impl LastBroadcast {
    /// Nothing was told yet.
    pub fn new() -> (r: LastBroadcast)
        ensures
            r.windows@.len() == 0,
            r.workspaces@.len() == 0,
    {
        LastBroadcast { windows: Vec::new(), workspaces: Vec::new() }
    }

    /// The events that bring the subscribers up to date: the windows if they changed,
    /// and then the workspaces if they changed. Without subscribers nothing is told,
    /// nor taken for told.
    pub fn update(
        &mut self,
        subscribers: usize,
        windows: Vec<SdeWindowInfo>,
        workspaces: Vec<SdeWorkspaceInfo>,
    ) -> (r: Vec<SdeEvent>)
        ensures
            brings_up_to_date(*old(self), subscribers, windows@, workspaces@, r@, *final(self)),
    {
        let mut events: Vec<SdeEvent> = Vec::new();
        if subscribers == 0 {
            return events;
        }
        if !same_windows(&windows, &self.windows) {
            events.push(SdeEvent::Windows(copy_windows(&windows)));
            self.windows = windows;
        }
        if !same_workspaces(&workspaces, &self.workspaces) {
            events.push(SdeEvent::Workspaces(copy_workspaces(&workspaces)));
            self.workspaces = workspaces;
        }
        events
    }
}

/// Once subscribers were told a state, telling the same state again takes no event,
/// whoever listens by then, and changes nothing.
pub proof fn law_unchanged_state_is_not_told_again(
    first: LastBroadcast,
    second: LastBroadcast,
    third: LastBroadcast,
    subscribers: usize,
    later: usize,
    windows: Seq<SdeWindowInfo>,
    workspaces: Seq<SdeWorkspaceInfo>,
    told: Seq<SdeEvent>,
    again: Seq<SdeEvent>,
)
    requires
        subscribers > 0,
        brings_up_to_date(first, subscribers, windows, workspaces, told, second),
        brings_up_to_date(second, later, windows, workspaces, again, third),
    ensures
        again.len() == 0,
        third == second,
{
    assert(windows_agree(windows, second.windows@));
    assert(workspaces_agree(workspaces, second.workspaces@));
}

/// A state that no one listened to is not taken for told: who listens later is told
/// the same as if there had been nothing before.
pub proof fn law_unheard_state_is_told_later(
    first: LastBroadcast,
    second: LastBroadcast,
    third: LastBroadcast,
    subscribers: usize,
    missed: (Seq<SdeWindowInfo>, Seq<SdeWorkspaceInfo>),
    windows: Seq<SdeWindowInfo>,
    workspaces: Seq<SdeWorkspaceInfo>,
    unheard: Seq<SdeEvent>,
    told: Seq<SdeEvent>,
)
    requires
        brings_up_to_date(first, 0, missed.0, missed.1, unheard, second),
        brings_up_to_date(second, subscribers, windows, workspaces, told, third),
    ensures
        unheard.len() == 0,
        brings_up_to_date(first, subscribers, windows, workspaces, told, third),
{
}

/// How writing one line to a subscriber ended.
#[derive(Debug, Clone, Copy, PartialEq, Eq, Structural)]
pub enum WriteOutcome {
    Written,
    WouldBlock,
    Failed,
}

/// Whether a subscriber is kept: one that is only slow is.
pub fn keeps_subscriber(outcome: WriteOutcome) -> (r: bool)
    ensures
        r == (outcome != WriteOutcome::Failed),
{
    match outcome {
        WriteOutcome::Failed => false,
        _ => true,
    }
}

} // verus!
