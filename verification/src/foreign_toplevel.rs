//! The list of windows that task bars are told of, and what they may ask.
use std::collections::HashMap;

use vstd::prelude::*;

use crate::desk::Desk;
use crate::hwde::HwdeState;
use crate::text::text_eq;

verus! {

broadcast use vstd::std_specs::hash::group_hash_axioms;

/// The version of the protocol that is offered.
pub const MANAGER_VERSION: u32 = 3;

pub const STATE_MAXIMIZED: u32 = 0;

pub const STATE_MINIMIZED: u32 = 1;

pub const STATE_ACTIVATED: u32 = 2;

pub const STATE_FULLSCREEN: u32 = 3;

/// What task bars are told of a window.
#[derive(Debug)]
pub struct ToplevelInfo {
    pub title: String,
    pub app_id: String,
    pub minimized: bool,
    pub maximized: bool,
    pub activated: bool,
    pub fullscreen: bool,
}

impl Default for ToplevelInfo {
    /// A window without a name, in no particular state.
    fn default() -> (r: ToplevelInfo)
        ensures
            r.title@ == Seq::<char>::empty(),
            r.app_id@ == Seq::<char>::empty(),
            !r.minimized,
            !r.maximized,
            !r.activated,
            !r.fullscreen,
    {
        ToplevelInfo {
            title: String::new(),
            app_id: String::new(),
            minimized: false,
            maximized: false,
            activated: false,
            fullscreen: false,
        }
    }
}

impl Clone for ToplevelInfo {
    fn clone(&self) -> (r: ToplevelInfo)
        ensures
            r == *self,
    {
        ToplevelInfo {
            title: self.title.clone(),
            app_id: self.app_id.clone(),
            minimized: self.minimized,
            maximized: self.maximized,
            activated: self.activated,
            fullscreen: self.fullscreen,
        }
    }
}

impl ToplevelInfo {
    pub open spec fn same_states(self, other: ToplevelInfo) -> bool {
        &&& self.minimized == other.minimized
        &&& self.maximized == other.maximized
        &&& self.activated == other.activated
        &&& self.fullscreen == other.fullscreen
    }

    /// Whether nothing that is told differs.
    pub open spec fn agrees(self, other: ToplevelInfo) -> bool {
        &&& self.title@ == other.title@
        &&& self.app_id@ == other.app_id@
        &&& self.same_states(other)
    }
}

pub open spec fn if_set(on: bool, state: u32) -> Seq<u32> {
    if on {
        seq![state]
    } else {
        Seq::empty()
    }
}

/// The states of a window, in the order in which they are sent.
pub open spec fn states(info: ToplevelInfo) -> Seq<u32> {
    if_set(info.maximized, STATE_MAXIMIZED) + if_set(info.minimized, STATE_MINIMIZED) + if_set(
        info.activated,
        STATE_ACTIVATED,
    ) + if_set(info.fullscreen, STATE_FULLSCREEN)
}

/// The states of a window, one number for each.
pub fn encode_states(info: &ToplevelInfo) -> (r: Vec<u32>)
    ensures
        r@ == states(*info),
{
    let mut out: Vec<u32> = Vec::new();
    if info.maximized {
        out.push(STATE_MAXIMIZED);
    }
    if info.minimized {
        out.push(STATE_MINIMIZED);
    }
    if info.activated {
        out.push(STATE_ACTIVATED);
    }
    if info.fullscreen {
        out.push(STATE_FULLSCREEN);
    }
    assert(out@ =~= states(*info));
    out
}

/// Something that is sent to a task bar, through the manager that it bound or through
/// the handle of a window.
#[derive(Debug)]
pub enum Sent {
    Toplevel { manager: u64, handle: u64 },
    Title { handle: u64, title: String },
    AppId { handle: u64, app_id: String },
    /// The outputs that the client has of the output of the window.
    Outputs { handle: u64 },
    State { handle: u64, states: Vec<u32> },
    Done { handle: u64 },
    Closed { handle: u64 },
}

/// A message as mathematics.
#[verifier::ext_equal]
pub enum Message {
    Toplevel { manager: u64, handle: u64 },
    Title { handle: u64, title: Seq<char> },
    AppId { handle: u64, app_id: Seq<char> },
    Outputs { handle: u64 },
    State { handle: u64, states: Seq<u32> },
    Done { handle: u64 },
    Closed { handle: u64 },
}

impl View for Sent {
    type V = Message;

    open spec fn view(&self) -> Message {
        match *self {
            Sent::Toplevel { manager, handle } => Message::Toplevel { manager, handle },
            Sent::Title { handle, title } => Message::Title { handle, title: title@ },
            Sent::AppId { handle, app_id } => Message::AppId { handle, app_id: app_id@ },
            Sent::Outputs { handle } => Message::Outputs { handle },
            Sent::State { handle, states } => Message::State { handle, states: states@ },
            Sent::Done { handle } => Message::Done { handle },
            Sent::Closed { handle } => Message::Closed { handle },
        }
    }
}

pub open spec fn messages(v: Seq<Sent>) -> Seq<Message> {
    v.map_values(|s: Sent| s@)
}

/// What is known of all windows: the bound managers, the handles of each window, and
/// what was last told of it.
#[verifier::ext_equal]
pub struct Toplevels {
    pub managers: Seq<u64>,
    pub handles: Map<u64, Seq<u64>>,
    pub known: Map<u64, ToplevelInfo>,
}

/// Everything that is told of a window when a manager first hears of it.
pub open spec fn introduction(
    manager: u64,
    handle: u64,
    info: ToplevelInfo,
    on_output: bool,
) -> Seq<Message> {
    seq![
        Message::Toplevel { manager, handle },
        Message::Title { handle, title: info.title@ },
        Message::AppId { handle, app_id: info.app_id@ },
    ] + (if on_output {
        seq![Message::Outputs { handle }]
    } else {
        Seq::empty()
    }) + seq![Message::State { handle, states: states(info) }, Message::Done { handle }]
}

/// What a handle is told when its window changed: only what differs.
pub open spec fn difference(handle: u64, old: ToplevelInfo, new: ToplevelInfo) -> Seq<Message> {
    (if old.title@ != new.title@ {
        seq![Message::Title { handle, title: new.title@ }]
    } else {
        Seq::empty()
    }) + (if old.app_id@ != new.app_id@ {
        seq![Message::AppId { handle, app_id: new.app_id@ }]
    } else {
        Seq::empty()
    }) + (if !old.same_states(new) {
        seq![Message::State { handle, states: states(new) }]
    } else {
        Seq::empty()
    }) + seq![Message::Done { handle }]
}

/// The differences for the first `n` handles.
pub open spec fn differences(
    handles: Seq<u64>,
    old: ToplevelInfo,
    new: ToplevelInfo,
    n: nat,
) -> Seq<Message>
    decreases n,
{
    if n == 0 {
        Seq::empty()
    } else {
        differences(handles, old, new, (n - 1) as nat) + difference(handles[n - 1], old, new)
    }
}

/// The farewell to every handle of a window.
pub open spec fn closings(handles: Seq<u64>) -> Seq<Message> {
    Seq::new(handles.len(), |i: int| Message::Closed { handle: handles[i] })
}

/// All of a list but those equal to `x`.
pub open spec fn others(s: Seq<u64>, x: u64) -> Seq<u64>
    decreases s.len(),
{
    if s.len() == 0 {
        s
    } else if s.last() == x {
        others(s.drop_last(), x)
    } else {
        others(s.drop_last(), x).push(s.last())
    }
}

impl Toplevels {
    pub open spec fn handles_of(self, window: u64) -> Seq<u64> {
        if self.handles.contains_key(window) {
            self.handles[window]
        } else {
            Seq::empty()
        }
    }

    /// With another handle of a window, if one could be made.
    pub open spec fn with_handle(self, window: u64, handle: Option<u64>) -> Toplevels {
        match handle {
            Some(h) => Toplevels {
                handles: self.handles.insert(window, self.handles_of(window).push(h)),
                ..self
            },
            None => self,
        }
    }

    /// With the handles that the first `n` managers have of a window.
    pub open spec fn with_handles(self, window: u64, made: Seq<Option<u64>>, n: nat) -> Toplevels
        decreases n,
    {
        if n == 0 {
            self
        } else {
            self.with_handles(window, made, (n - 1) as nat).with_handle(window, made[n - 1])
        }
    }

    /// What the first `n` managers are told of a new window.
    pub open spec fn introductions(
        self,
        info: ToplevelInfo,
        on_output: bool,
        made: Seq<Option<u64>>,
        n: nat,
    ) -> Seq<Message>
        decreases n,
    {
        if n == 0 {
            Seq::empty()
        } else {
            self.introductions(info, on_output, made, (n - 1) as nat) + (match made[n - 1] {
                Some(h) => introduction(self.managers[n - 1], h, info, on_output),
                None => Seq::empty(),
            })
        }
    }

    pub open spec fn created(
        self,
        window: u64,
        info: ToplevelInfo,
        made: Seq<Option<u64>>,
    ) -> Toplevels {
        Toplevels { known: self.known.insert(window, info), ..self }.with_handles(
            window,
            made,
            self.managers.len(),
        )
    }

    pub open spec fn is_news(self, window: u64, info: ToplevelInfo) -> bool {
        self.known.contains_key(window) && !self.known[window].agrees(info)
    }

    pub open spec fn changed(self, window: u64, info: ToplevelInfo) -> Toplevels {
        if self.is_news(window, info) {
            Toplevels { known: self.known.insert(window, info), ..self }
        } else {
            self
        }
    }

    /// What is sent of a window that may have changed.
    pub open spec fn change_messages(self, window: u64, info: ToplevelInfo) -> Seq<Message> {
        if self.is_news(window, info) {
            differences(
                self.handles_of(window),
                self.known[window],
                info,
                self.handles_of(window).len(),
            )
        } else {
            Seq::empty()
        }
    }

    pub open spec fn closed(self, window: u64) -> Toplevels {
        Toplevels {
            handles: self.handles.remove(window),
            known: self.known.remove(window),
            ..self
        }
    }

    pub open spec fn close_messages(self, window: u64) -> Seq<Message> {
        closings(self.handles_of(window))
    }

    /// After the first `n` windows were told to a new manager.
    pub open spec fn replayed(
        self,
        windows: Seq<(u64, ToplevelInfo)>,
        made: Seq<Option<u64>>,
        n: nat,
    ) -> Toplevels
        decreases n,
    {
        if n == 0 {
            self
        } else {
            let d = self.replayed(windows, made, (n - 1) as nat).with_handle(
                windows[n - 1].0,
                made[n - 1],
            );
            Toplevels { known: d.known.insert(windows[n - 1].0, windows[n - 1].1), ..d }
        }
    }

    pub open spec fn bound(
        self,
        manager: u64,
        windows: Seq<(u64, ToplevelInfo)>,
        made: Seq<Option<u64>>,
    ) -> Toplevels {
        Toplevels { managers: self.managers.push(manager), ..self }.replayed(
            windows,
            made,
            windows.len(),
        )
    }
}

/// What a new manager is told of the first `n` windows.
pub open spec fn replay_messages(
    manager: u64,
    windows: Seq<(u64, ToplevelInfo)>,
    on_output: bool,
    made: Seq<Option<u64>>,
    n: nat,
) -> Seq<Message>
    decreases n,
{
    if n == 0 {
        Seq::empty()
    } else {
        replay_messages(manager, windows, on_output, made, (n - 1) as nat) + (match made[n - 1] {
            Some(h) => introduction(manager, h, windows[n - 1].1, on_output),
            None => Seq::empty(),
        })
    }
}

/// The windows as far as task bars know of them. Managers and handles are objects of
/// the display server, known by number.
#[derive(Debug)]
pub struct ForeignToplevelManagerState {
    pub global: u64,
    pub managers: Vec<u64>,
    pub toplevels: HashMap<u64, Vec<u64>>,
    pub last_known: HashMap<u64, ToplevelInfo>,
}

impl View for ForeignToplevelManagerState {
    type V = Toplevels;

    open spec fn view(&self) -> Toplevels {
        Toplevels {
            managers: self.managers@,
            handles: self.toplevels@.map_values(|v: Vec<u64>| v@),
            known: self.last_known@,
        }
    }
}

fn push_introduction(
    out: &mut Vec<Sent>,
    manager: u64,
    handle: u64,
    info: &ToplevelInfo,
    on_output: bool,
)
    ensures
        messages(final(out)@) == messages(old(out)@) + introduction(
            manager,
            handle,
            *info,
            on_output,
        ),
{
    out.push(Sent::Toplevel { manager, handle });
    out.push(Sent::Title { handle, title: info.title.clone() });
    out.push(Sent::AppId { handle, app_id: info.app_id.clone() });
    if on_output {
        out.push(Sent::Outputs { handle });
    }
    out.push(Sent::State { handle, states: encode_states(info) });
    out.push(Sent::Done { handle });
    assert(messages(out@) =~= messages(old(out)@) + introduction(
        manager,
        handle,
        *info,
        on_output,
    ));
}

fn push_difference(out: &mut Vec<Sent>, handle: u64, prev: &ToplevelInfo, info: &ToplevelInfo)
    ensures
        messages(final(out)@) == messages(old(out)@) + difference(handle, *prev, *info),
{
    if !text_eq(prev.title.as_str(), info.title.as_str()) {
        out.push(Sent::Title { handle, title: info.title.clone() });
    }
    if !text_eq(prev.app_id.as_str(), info.app_id.as_str()) {
        out.push(Sent::AppId { handle, app_id: info.app_id.clone() });
    }
    if prev.minimized != info.minimized || prev.maximized != info.maximized || prev.activated
        != info.activated || prev.fullscreen != info.fullscreen {
        out.push(Sent::State { handle, states: encode_states(info) });
    }
    out.push(Sent::Done { handle });
    assert(messages(out@) =~= messages(old(out)@) + difference(handle, *prev, *info));
}

fn without_value(v: &Vec<u64>, x: u64) -> (r: Vec<u64>)
    ensures
        r@ == others(v@, x),
{
    let mut out: Vec<u64> = Vec::new();
    let mut i: usize = 0;
    assert(v@.take(0) =~= Seq::empty());
    while i < v.len()
        invariant
            i <= v.len(),
            out@ == others(v@.take(i as int), x),
        decreases v.len() - i,
    {
        proof {
            let next = v@.take(i as int + 1);
            assert(next.drop_last() =~= v@.take(i as int));
            assert(next.last() == v@[i as int]);
        }
        if v[i] != x {
            out.push(v[i]);
        }
        i = i + 1;
    }
    assert(v@.take(v.len() as int) =~= v@);
    out
}

impl ForeignToplevelManagerState {
    /// Without managers and windows.
    pub fn new(global: u64) -> (r: ForeignToplevelManagerState)
        ensures
            r.global == global,
            r@ == (Toplevels {
                managers: Seq::empty(),
                handles: Map::empty(),
                known: Map::empty(),
            }),
    {
        let r = ForeignToplevelManagerState {
            global,
            managers: Vec::new(),
            toplevels: HashMap::new(),
            last_known: HashMap::new(),
        };
        assert(r@.handles =~= Map::empty());
        r
    }

    /// The number of the protocol's global.
    pub fn global(&self) -> (r: u64)
        ensures
            r == self.global,
    {
        self.global
    }

    /// Keeps a handle of a window.
    fn keep_handle(&mut self, window_id: u64, handle: Option<u64>)
        ensures
            final(self)@ == old(self)@.with_handle(window_id, handle),
            final(self).global == old(self).global,
    {
        if let Some(h) = handle {
            let mut list: Vec<u64> = match self.toplevels.remove(&window_id) {
                Some(v) => v,
                None => Vec::new(),
            };
            list.push(h);
            self.toplevels.insert(window_id, list);
            assert(self@.handles =~= old(self)@.with_handle(window_id, handle).handles);
        }
    }

    /// A new window. `made` holds, for each manager, the handle that was made for the
    /// window, if one could be made.
    pub fn toplevel_created(
        &mut self,
        window_id: u64,
        info: &ToplevelInfo,
        on_output: bool,
        made: &Vec<Option<u64>>,
    ) -> (r: Vec<Sent>)
        requires
            made.len() == old(self)@.managers.len(),
        ensures
            final(self).global == old(self).global,
            final(self)@ == old(self)@.created(window_id, *info, made@),
            messages(r@) == old(self)@.introductions(
                *info,
                on_output,
                made@,
                old(self)@.managers.len(),
            ),
    {
        self.last_known.insert(window_id, info.clone());
        let mut out: Vec<Sent> = Vec::new();
        let ghost start = self@;
        let ghost before = old(self)@;
        assert(messages(out@) =~= Seq::empty());
        let mut i: usize = 0;
        while i < made.len()
            invariant
                i <= made.len(),
                made.len() == before.managers.len(),
                self.managers@ == before.managers,
                self.global == old(self).global,
                self@ == start.with_handles(window_id, made@, i as nat),
                messages(out@) == before.introductions(*info, on_output, made@, i as nat),
            decreases made.len() - i,
        {
            if let Some(h) = made[i] {
                push_introduction(&mut out, self.managers[i], h, info, on_output);
            }
            self.keep_handle(window_id, made[i]);
            i = i + 1;
            assert(messages(out@) =~= before.introductions(*info, on_output, made@, i as nat));
        }
        out
    }

    /// What is told of a window now. Nothing is sent unless it differs from what was
    /// told before, nor of a window that was never told of.
    pub fn toplevel_changed(&mut self, window_id: u64, info: &ToplevelInfo) -> (r: Vec<Sent>)
        ensures
            final(self).global == old(self).global,
            final(self)@ == old(self)@.changed(window_id, *info),
            messages(r@) == old(self)@.change_messages(window_id, *info),
    {
        let mut out: Vec<Sent> = Vec::new();
        assert(messages(out@) =~= Seq::empty());
        let prev: ToplevelInfo = match self.last_known.get(&window_id) {
            None => {
                return out;
            },
            Some(prev) => {
                if text_eq(prev.title.as_str(), info.title.as_str()) && text_eq(
                    prev.app_id.as_str(),
                    info.app_id.as_str(),
                ) && prev.minimized == info.minimized && prev.maximized == info.maximized
                    && prev.activated == info.activated && prev.fullscreen == info.fullscreen {
                    return out;
                }
                prev.clone()
            },
        };
        self.last_known.insert(window_id, info.clone());
        match self.toplevels.get(&window_id) {
            None => {},
            Some(handles) => {
                let mut i: usize = 0;
                while i < handles.len()
                    invariant
                        i <= handles.len(),
                        messages(out@) == differences(handles@, prev, *info, i as nat),
                    decreases handles.len() - i,
                {
                    push_difference(&mut out, handles[i], &prev, info);
                    i = i + 1;
                    assert(messages(out@) =~= differences(handles@, prev, *info, i as nat));
                }
            },
        }
        out
    }

    /// A window is gone.
    pub fn toplevel_closed(&mut self, window_id: u64) -> (r: Vec<Sent>)
        ensures
            final(self).global == old(self).global,
            final(self)@ == old(self)@.closed(window_id),
            messages(r@) == old(self)@.close_messages(window_id),
    {
        let ghost before = self@;
        let mut out: Vec<Sent> = Vec::new();
        self.last_known.remove(&window_id);
        match self.toplevels.remove(&window_id) {
            Some(handles) => {
                let mut i: usize = 0;
                while i < handles.len()
                    invariant
                        i <= handles.len(),
                        messages(out@) == closings(handles@.take(i as int)),
                    decreases handles.len() - i,
                {
                    let ghost told = out@;
                    let ghost farewell = Message::Closed { handle: handles@[i as int] };
                    out.push(Sent::Closed { handle: handles[i] });
                    assert(messages(out@) =~= messages(told).push(farewell));
                    assert(closings(handles@.take(i + 1)) =~= closings(
                        handles@.take(i as int),
                    ).push(farewell));
                    i = i + 1;
                }
                assert(handles@.take(handles.len() as int) =~= handles@);
                assert(before.handles_of(window_id) == handles@);
            },
            None => {},
        }
        assert(messages(out@) =~= before.close_messages(window_id));
        assert(self@.handles =~= before.handles.remove(window_id));
        out
    }

    /// A task bar has bound the protocol: it is told of every window. `made` holds, for
    /// each window, the handle that was made for it, if one could be made.
    pub fn bind(
        &mut self,
        manager: u64,
        windows: &Vec<(u64, ToplevelInfo)>,
        on_output: bool,
        made: &Vec<Option<u64>>,
    ) -> (r: Vec<Sent>)
        requires
            made.len() == windows.len(),
        ensures
            final(self).global == old(self).global,
            final(self)@ == old(self)@.bound(manager, windows@, made@),
            messages(r@) == replay_messages(
                manager,
                windows@,
                on_output,
                made@,
                windows@.len(),
            ),
    {
        self.managers.push(manager);
        let ghost start = self@;
        let mut out: Vec<Sent> = Vec::new();
        assert(messages(out@) =~= Seq::empty());
        let mut i: usize = 0;
        while i < windows.len()
            invariant
                i <= windows.len(),
                made.len() == windows.len(),
                self.global == old(self).global,
                self@ == start.replayed(windows@, made@, i as nat),
                messages(out@) == replay_messages(
                    manager,
                    windows@,
                    on_output,
                    made@,
                    i as nat,
                ),
            decreases windows.len() - i,
        {
            let id: u64 = windows[i].0;
            if let Some(h) = made[i] {
                push_introduction(&mut out, manager, h, &windows[i].1, on_output);
            }
            self.keep_handle(id, made[i]);
            self.last_known.insert(id, windows[i].1.clone());
            i = i + 1;
            assert(messages(out@) =~= replay_messages(
                manager,
                windows@,
                on_output,
                made@,
                i as nat,
            ));
        }
        out
    }

    /// A task bar is gone.
    pub fn manager_destroyed(&mut self, manager: u64)
        ensures
            final(self).global == old(self).global,
            final(self)@ == (Toplevels {
                managers: others(old(self)@.managers, manager),
                ..old(self)@
            }),
    {
        self.managers = without_value(&self.managers, manager);
    }

    /// A handle of a window is gone.
    pub fn handle_destroyed(&mut self, window_id: u64, handle: u64)
        ensures
            final(self).global == old(self).global,
            final(self)@ == (Toplevels {
                handles: if old(self)@.handles.contains_key(window_id) {
                    old(self)@.handles.insert(
                        window_id,
                        others(old(self)@.handles[window_id], handle),
                    )
                } else {
                    old(self)@.handles
                },
                ..old(self)@
            }),
    {
        if let Some(list) = self.toplevels.remove(&window_id) {
            self.toplevels.insert(window_id, without_value(&list, handle));
            assert(self@.handles =~= old(self)@.handles.insert(
                window_id,
                others(old(self)@.handles[window_id], handle),
            ));
        }
    }
}

/// What a task bar asks of a window.
#[derive(Debug, Clone, Copy, PartialEq, Eq, Structural)]
pub enum HandleRequest {
    SetMaximized,
    UnsetMaximized,
    SetMinimized,
    UnsetMinimized,
    Activate,
    Close,
    SetFullscreen,
    UnsetFullscreen,
    SetRectangle,
    Destroy,
}

impl Desk {
    /// The desktop after a task bar's request. To fill the screen is to be maximized.
    pub open spec fn asked(self, window: u64, request: HandleRequest) -> Desk {
        match request {
            HandleRequest::SetMaximized | HandleRequest::SetFullscreen => self.maximized(
                window,
                true,
                self.primary_output(),
            ),
            HandleRequest::UnsetMaximized | HandleRequest::UnsetFullscreen => self.maximized(
                window,
                false,
                self.primary_output(),
            ),
            HandleRequest::SetMinimized => self.minimized(window),
            HandleRequest::UnsetMinimized | HandleRequest::Activate => self.focus(window),
            HandleRequest::Close => self.closed(window),
            HandleRequest::SetRectangle | HandleRequest::Destroy => self,
        }
    }
}

pub open spec fn toplevel_info(d: Desk, i: int) -> ToplevelInfo {
    let w = d.windows[i];
    ToplevelInfo {
        title: w.title,
        app_id: w.app_id,
        minimized: w.is_minimized,
        maximized: w.is_maximized,
        activated: d.focused == Some(w.id),
        fullscreen: w.is_fullscreen,
    }
}

impl HwdeState {
    /// Does what a task bar asks of a window.
    pub fn handle_request(&mut self, window: u64, request: HandleRequest)
        ensures
            final(self)@ == old(self)@.asked(window, request),
    {
        match request {
            HandleRequest::SetMaximized | HandleRequest::SetFullscreen => {
                let area = self.primary_output_geometry();
                self.maximize_window_by_id(window, true, area);
            },
            HandleRequest::UnsetMaximized | HandleRequest::UnsetFullscreen => {
                let area = self.primary_output_geometry();
                self.maximize_window_by_id(window, false, area);
            },
            HandleRequest::SetMinimized => self.minimize_window_by_id(window),
            HandleRequest::UnsetMinimized => self.unminimize_window_by_id(window),
            HandleRequest::Activate => self.focus_window_by_id(window),
            HandleRequest::Close => self.close_window_by_id(window),
            HandleRequest::SetRectangle => {},
            HandleRequest::Destroy => {},
        }
    }

    /// What task bars are to know of every window.
    pub fn toplevel_snapshot(&self) -> (r: Vec<(u64, ToplevelInfo)>)
        ensures
            r@ == Seq::new(
                self@.windows.len(),
                |i: int| (self@.windows[i].id, toplevel_info(self@, i)),
            ),
    {
        let mut out: Vec<(u64, ToplevelInfo)> = Vec::new();
        let mut i: usize = 0;
        while i < self.windows.len()
            invariant
                i <= self.windows.len(),
                out.len() == i,
                forall|k: int|
                    0 <= k < i ==> #[trigger] out@[k] == (
                        self@.windows[k].id,
                        toplevel_info(self@, k),
                    ),
            decreases self.windows.len() - i,
        {
            let w = &self.windows[i];
            let activated = match self.focused_window {
                Some(id) => id == w.id,
                None => false,
            };
            out.push(
                (
                    w.id,
                    ToplevelInfo {
                        title: w.title.clone(),
                        app_id: w.app_id.clone(),
                        minimized: w.is_minimized,
                        maximized: w.is_maximized,
                        activated,
                        fullscreen: w.is_fullscreen,
                    },
                ),
            );
            i = i + 1;
        }
        assert(out@ =~= Seq::new(
            self@.windows.len(),
            |i: int| (self@.windows[i].id, toplevel_info(self@, i)),
        ));
        out
    }
}

/// Telling the same of a window once more sends nothing and changes nothing.
pub proof fn law_nothing_is_told_twice(t: Toplevels, window: u64, info: ToplevelInfo)
    ensures
        t.changed(window, info).change_messages(window, info) == Seq::<Message>::empty(),
        t.changed(window, info).changed(window, info) == t.changed(window, info),
{
}

/// A window that was closed, or never announced, is not told of.
pub proof fn law_closed_windows_are_not_told_of(t: Toplevels, window: u64, info: ToplevelInfo)
    ensures
        t.closed(window).change_messages(window, info) == Seq::<Message>::empty(),
        t.closed(window).close_messages(window) == Seq::<Message>::empty(),
        !t.known.contains_key(window) ==> t.change_messages(window, info)
            == Seq::<Message>::empty(),
{
    assert(t.closed(window).close_messages(window) =~= Seq::<Message>::empty());
}

proof fn lemma_differences_done(
    handles: Seq<u64>,
    before: ToplevelInfo,
    after: ToplevelInfo,
    n: nat,
    k: int,
)
    requires
        0 <= k < n <= handles.len(),
    ensures
        differences(handles, before, after, n).contains(Message::Done { handle: handles[k] }),
    decreases n,
{
    let m = (n - 1) as nat;
    let earlier = differences(handles, before, after, m);
    let last = difference(handles[n - 1], before, after);
    let all = differences(handles, before, after, n);
    assert(all == earlier + last);
    if k < m {
        lemma_differences_done(handles, before, after, m, k);
        let at = earlier.index_of(Message::Done { handle: handles[k] });
        assert(all[at] == earlier[at]);
    } else {
        assert(all[all.len() - 1] == last[last.len() - 1]);
    }
}

/// A change is completed by a `Done` for each handle of the window, the last of which
/// ends it.
pub proof fn law_changes_are_completed(t: Toplevels, window: u64, info: ToplevelInfo)
    requires
        t.is_news(window, info),
        t.handles_of(window).len() > 0,
    ensures
        t.change_messages(window, info).last() == (Message::Done {
            handle: t.handles_of(window).last(),
        }),
        forall|k: int|
            0 <= k < t.handles_of(window).len() ==> t.change_messages(window, info).contains(
                Message::Done { handle: #[trigger] t.handles_of(window)[k] },
            ),
{
    let h = t.handles_of(window);
    let n = h.len();
    let before = differences(h, t.known[window], info, (n - 1) as nat);
    let last = difference(h[n - 1], t.known[window], info);
    assert(differences(h, t.known[window], info, n) == before + last);
    assert((before + last).last() == last.last());
    assert forall|k: int| 0 <= k < n implies t.change_messages(window, info).contains(
        Message::Done { handle: #[trigger] h[k] },
    ) by {
        lemma_differences_done(h, t.known[window], info, n, k);
    }
}

/// What is told of one window leaves the others as they were.
pub proof fn law_windows_are_told_of_apart(
    t: Toplevels,
    window: u64,
    other: u64,
    info: ToplevelInfo,
)
    requires
        window != other,
    ensures
        t.changed(window, info).handles_of(other) == t.handles_of(other),
        t.closed(window).handles_of(other) == t.handles_of(other),
        t.changed(window, info).known.contains_key(other) == t.known.contains_key(other),
        t.closed(window).known.contains_key(other) == t.known.contains_key(other),
        t.known.contains_key(other) ==> t.changed(window, info).known[other] == t.known[other]
            && t.closed(window).known[other] == t.known[other],
{
}

} // verus!
