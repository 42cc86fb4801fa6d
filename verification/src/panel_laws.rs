//! What task bars and workspace panels are told, and what they can ask for.
use vstd::prelude::*;

use crate::desk::Desk;
use crate::ext_workspace::{
    all_switch_messages, alive_of, introductions, switch_messages, welcome, without_manager, Panel,
    WorkspaceMessage,
};
use crate::foreign_toplevel::{
    difference, differences, introduction, replay_messages, states, toplevel_info, HandleRequest,
    Message, ToplevelInfo, Toplevels,
};
use crate::space::location_in;
use crate::text::decimal;
use crate::window::Effect;

verus! {

/// The states of a window are sent by their numbers: 0 for maximized, 1 for minimized,
/// 2 for active, 3 for filling the screen; each that holds once, and no others.
pub proof fn law_states_are_sent_by_number(info: ToplevelInfo)
    ensures
        states(info).contains(0) == info.maximized,
        states(info).contains(1) == info.minimized,
        states(info).contains(2) == info.activated,
        states(info).contains(3) == info.fullscreen,
        forall|k: int| 0 <= k < states(info).len() ==> #[trigger] states(info)[k] <= 3,
        states(info).no_duplicates(),
{
    let s = states(info);
    let a = if info.maximized {
        1int
    } else {
        0
    };
    let b = if info.minimized {
        1int
    } else {
        0
    };
    let c = if info.activated {
        1int
    } else {
        0
    };
    assert(info.maximized ==> s[0] == 0);
    assert(info.minimized ==> s[a] == 1);
    assert(info.activated ==> s[a + b] == 2);
    assert(info.fullscreen ==> s[a + b + c] == 3);
}

/// A manager that first hears of a window is given a handle of it, its title, its
/// application and its states as they are, and then that this is all.
pub proof fn law_introductions_tell_everything(
    manager: u64,
    handle: u64,
    info: ToplevelInfo,
    on_output: bool,
)
    ensures
        ({
            let m = introduction(manager, handle, info, on_output);
            &&& m[0] == (Message::Toplevel { manager, handle })
            &&& m[1] == (Message::Title { handle, title: info.title@ })
            &&& m[2] == (Message::AppId { handle, app_id: info.app_id@ })
            &&& on_output ==> m.len() == 6 && m[3] == (Message::Outputs { handle })
            &&& !on_output ==> m.len() == 5
            &&& m[m.len() - 2] == (Message::State { handle, states: states(info) })
            &&& m.last() == (Message::Done { handle })
        }),
{
}

/// Of a change a handle is told what differs, as it is now, and nothing that does not.
pub proof fn law_changes_tell_what_differs(handle: u64, old_info: ToplevelInfo, info: ToplevelInfo)
    ensures
        ({
            let m = difference(handle, old_info, info);
            &&& m.contains(Message::Title { handle, title: info.title@ }) == (old_info.title@
                != info.title@)
            &&& m.contains(Message::AppId { handle, app_id: info.app_id@ }) == (old_info.app_id@
                != info.app_id@)
            &&& m.contains(Message::State { handle, states: states(info) }) == (
            old_info.minimized != info.minimized || old_info.maximized != info.maximized
                || old_info.activated != info.activated || old_info.fullscreen != info.fullscreen)
            &&& m.last() == (Message::Done { handle })
            &&& m.len() <= 4
        }),
{
    let m = difference(handle, old_info, info);
    let a = if old_info.title@ != info.title@ {
        1int
    } else {
        0
    };
    let b = if old_info.app_id@ != info.app_id@ {
        1int
    } else {
        0
    };
    assert(old_info.title@ != info.title@ ==> m[0] == (Message::Title {
        handle,
        title: info.title@,
    }));
    assert(old_info.app_id@ != info.app_id@ ==> m[a] == (Message::AppId {
        handle,
        app_id: info.app_id@,
    }));
    assert(!old_info.same_states(info) ==> m[a + b] == (Message::State {
        handle,
        states: states(info),
    }));
}

proof fn lemma_with_handles(
    t: Toplevels,
    window: u64,
    made: Seq<Option<u64>>,
    n: nat,
    other: u64,
    k: int,
)
    requires
        n <= made.len(),
    ensures
        ({
            let u = t.with_handles(window, made, n);
            &&& u.known == t.known && u.managers == t.managers
            &&& other != window ==> u.handles_of(other) == t.handles_of(other)
            &&& t.handles_of(window).len() <= u.handles_of(window).len()
            &&& 0 <= k < n && made[k] is Some ==> u.handles_of(window).contains(made[k]->Some_0)
            &&& forall|h: u64|
                #![trigger u.handles_of(window).contains(h)]
                t.handles_of(window).contains(h) ==> u.handles_of(window).contains(h)
        }),
    decreases n,
{
    if n > 0 {
        let m = (n - 1) as nat;
        lemma_with_handles(t, window, made, m, other, k);
        let before = t.with_handles(window, made, m);
        let u = t.with_handles(window, made, n);
        if let Some(h) = made[n - 1] {
            let a = before.handles_of(window);
            assert(u.handles_of(window) == a.push(h));
            assert(a.push(h)[a.len() as int] == h);
            assert forall|x: u64| a.contains(x) implies #[trigger] a.push(h).contains(x) by {
                let i = choose|i: int| 0 <= i < a.len() && a[i] == x;
                assert(a.push(h)[i] == x);
            }
        }
    }
}

/// A new window is known as it is described, and has the handle that each manager was
/// given of it; what is known of other windows stays.
pub proof fn law_new_windows_are_announced(
    t: Toplevels,
    window: u64,
    info: ToplevelInfo,
    made: Seq<Option<u64>>,
    other: u64,
    k: int,
)
    requires
        made.len() == t.managers.len(),
        0 <= k < made.len(),
        other != window,
    ensures
        ({
            let u = t.created(window, info, made);
            &&& u.managers == t.managers
            &&& u.known.contains_key(window) && u.known[window] == info
            &&& made[k] is Some ==> u.handles_of(window).contains(made[k]->Some_0)
            &&& u.handles_of(other) == t.handles_of(other)
            &&& u.known.contains_key(other) == t.known.contains_key(other)
            &&& t.known.contains_key(other) ==> u.known[other] == t.known[other]
        }),
{
    let s = Toplevels { known: t.known.insert(window, info), ..t };
    lemma_with_handles(s, window, made, t.managers.len(), other, k);
}

/// What each manager is told of a new window is its introduction with the manager's own
/// handle, one after the other.
pub proof fn law_every_manager_hears_of_a_new_window(
    t: Toplevels,
    info: ToplevelInfo,
    on_output: bool,
    made: Seq<Option<u64>>,
    n: nat,
    k: int,
)
    requires
        n <= made.len(),
        0 <= k < n,
        made[k] is Some,
    ensures
        ({
            let m = t.introductions(info, on_output, made, n);
            let handle = made[k]->Some_0;
            &&& m.contains(Message::Toplevel { manager: t.managers[k], handle })
            &&& m.contains(Message::Title { handle, title: info.title@ })
            &&& m.contains(Message::AppId { handle, app_id: info.app_id@ })
            &&& m.contains(Message::State { handle, states: states(info) })
            &&& m.contains(Message::Done { handle })
        }),
    decreases n,
{
    let before = t.introductions(info, on_output, made, (n - 1) as nat);
    let all = t.introductions(info, on_output, made, n);
    let handle = made[k]->Some_0;
    if k == n - 1 {
        let last = introduction(t.managers[k], handle, info, on_output);
        law_introductions_tell_everything(t.managers[k], handle, info, on_output);
        let b = before.len() as int;
        assert(all == before + last);
        assert(all[b] == last[0]);
        assert(all[b + 1] == last[1]);
        assert(all[b + 2] == last[2]);
        assert(all[b + last.len() - 2] == last[last.len() - 2]);
        assert(all[b + last.len() - 1] == last[last.len() - 1]);
    } else {
        law_every_manager_hears_of_a_new_window(t, info, on_output, made, (n - 1) as nat, k);
        assert forall|x: Message| before.contains(x) implies #[trigger] all.contains(x) by {
            let i = choose|i: int| 0 <= i < before.len() && before[i] == x;
            assert(all[i] == x);
        }
    }
}

/// Every handle of a window is told of a change of its title, its application and its
/// states.
pub proof fn law_every_handle_hears_of_a_change(
    handles: Seq<u64>,
    old_info: ToplevelInfo,
    info: ToplevelInfo,
    n: nat,
    k: int,
)
    requires
        0 <= k < n <= handles.len(),
    ensures
        ({
            let m = differences(handles, old_info, info, n);
            let handle = handles[k];
            &&& old_info.title@ != info.title@ ==> m.contains(
                Message::Title { handle, title: info.title@ },
            )
            &&& old_info.app_id@ != info.app_id@ ==> m.contains(
                Message::AppId { handle, app_id: info.app_id@ },
            )
            &&& old_info.minimized != info.minimized || old_info.maximized != info.maximized
                || old_info.activated != info.activated || old_info.fullscreen != info.fullscreen
                ==> m.contains(Message::State { handle, states: states(info) })
        }),
    decreases n,
{
    let before = differences(handles, old_info, info, (n - 1) as nat);
    let last = difference(handles[n - 1], old_info, info);
    let all = differences(handles, old_info, info, n);
    assert(all == before + last);
    assert forall|x: Message| before.contains(x) || last.contains(x) implies #[trigger] all.contains(
        x,
    ) by {
        if before.contains(x) {
            let i = choose|i: int| 0 <= i < before.len() && before[i] == x;
            assert(all[i] == x);
        } else {
            let i = choose|i: int| 0 <= i < last.len() && last[i] == x;
            assert(all[before.len() + i] == x);
        }
    }
    if k == n - 1 {
        law_changes_tell_what_differs(handles[k], old_info, info);
    } else {
        law_every_handle_hears_of_a_change(handles, old_info, info, (n - 1) as nat, k);
    }
}

/// A change is taken over, and told to the handles of that window; without one nothing is
/// sent. A window that is closed is known no more, has no handle, and each of its handles
/// is told so.
pub proof fn law_changes_and_closings_are_noted(t: Toplevels, window: u64, info: ToplevelInfo)
    ensures
        t.known.contains_key(window) && (t.known[window].title@ != info.title@
            || t.known[window].app_id@ != info.app_id@ || t.known[window].minimized
            != info.minimized || t.known[window].maximized != info.maximized
            || t.known[window].activated != info.activated || t.known[window].fullscreen
            != info.fullscreen) ==> t.changed(window, info).known[window] == info
            && t.change_messages(window, info) == differences(
            t.handles_of(window),
            t.known[window],
            info,
            t.handles_of(window).len(),
        ),
        t.changed(window, info).managers == t.managers,
        !t.closed(window).known.contains_key(window),
        t.closed(window).handles_of(window).len() == 0,
        t.closed(window).managers == t.managers,
        t.close_messages(window).len() == t.handles_of(window).len(),
        forall|k: int|
            0 <= k < t.handles_of(window).len() ==> #[trigger] t.close_messages(window)[k]
                == (Message::Closed { handle: t.handles_of(window)[k] }),
{
}

/// A manager that binds late is told of every window there is, with the handle that was
/// made for it.
pub proof fn law_late_managers_hear_of_every_window(
    manager: u64,
    windows: Seq<(u64, ToplevelInfo)>,
    on_output: bool,
    made: Seq<Option<u64>>,
    n: nat,
    k: int,
)
    requires
        n <= windows.len(),
        n <= made.len(),
        0 <= k < n,
        made[k] is Some,
    ensures
        ({
            let m = replay_messages(manager, windows, on_output, made, n);
            let handle = made[k]->Some_0;
            let info = windows[k].1;
            &&& m.contains(Message::Toplevel { manager, handle })
            &&& m.contains(Message::Title { handle, title: info.title@ })
            &&& m.contains(Message::AppId { handle, app_id: info.app_id@ })
            &&& m.contains(Message::State { handle, states: states(info) })
            &&& m.contains(Message::Done { handle })
        }),
    decreases n,
{
    let before = replay_messages(manager, windows, on_output, made, (n - 1) as nat);
    let all = replay_messages(manager, windows, on_output, made, n);
    let handle = made[k]->Some_0;
    let info = windows[k].1;
    if k == n - 1 {
        let last = introduction(manager, handle, info, on_output);
        law_introductions_tell_everything(manager, handle, info, on_output);
        let b = before.len() as int;
        assert(all == before + last);
        assert(all[b] == last[0]);
        assert(all[b + 1] == last[1]);
        assert(all[b + 2] == last[2]);
        assert(all[b + last.len() - 2] == last[last.len() - 2]);
        assert(all[b + last.len() - 1] == last[last.len() - 1]);
    } else {
        law_late_managers_hear_of_every_window(
            manager,
            windows,
            on_output,
            made,
            (n - 1) as nat,
            k,
        );
        assert forall|x: Message| before.contains(x) implies #[trigger] all.contains(x) by {
            let i = choose|i: int| 0 <= i < before.len() && before[i] == x;
            assert(all[i] == x);
        }
    }
}

/// What a task bar asks of a window is done to that window: it is maximized on the first
/// output or restored, minimized and then not shown, given the focus, or asked to close.
/// The other windows stay as they are.
pub proof fn law_task_bars_act_on_their_window(d: Desk, i: int)
    requires
        d.sound(),
        0 <= i < d.windows.len(),
    ensures
        ({
            let w = d.windows[i];
            let up = d.asked(w.id, HandleRequest::SetMaximized);
            let down = d.asked(w.id, HandleRequest::UnsetMaximized);
            let away = d.asked(w.id, HandleRequest::SetMinimized);
            let back = d.asked(w.id, HandleRequest::UnsetMinimized);
            let front = d.asked(w.id, HandleRequest::Activate);
            &&& up.windows[i].is_maximized
            &&& location_in(up.space, w.window) == Some(d.primary_output().loc)
            &&& d.asked(w.id, HandleRequest::SetFullscreen) == up
            &&& !down.windows[i].is_maximized
            &&& d.asked(w.id, HandleRequest::UnsetFullscreen) == down
            &&& away.windows[i].is_minimized
            &&& !w.is_minimized ==> location_in(away.space, w.window) is None
            &&& !back.windows[i].is_minimized && back.focused == Some(w.id)
            &&& !front.windows[i].is_minimized && front.focused == Some(w.id)
            &&& d.asked(w.id, HandleRequest::Close) == (Desk {
                effects: d.effects.push(Effect::Close { window: w.window }),
                ..d
            })
            &&& d.asked(w.id, HandleRequest::SetRectangle) == d
            &&& d.asked(w.id, HandleRequest::Destroy) == d
            &&& forall|j: int|
                0 <= j < d.windows.len() && j != i ==> #[trigger] d.windows[j] == up.windows[j]
                    && d.windows[j] == down.windows[j] && d.windows[j] == away.windows[j]
                    && d.windows[j] == back.windows[j] && d.windows[j] == front.windows[j]
        }),
{
    let w = d.windows[i];
    crate::window_laws::lemma_found(d, i);
    crate::window_laws::law_closing_asks_the_client(d, i);
    if !w.is_minimized {
        crate::window_laws::law_minimized_windows_are_not_shown(d, i, 0);
    }
    crate::desk_laws::law_focus_is_given(d, w.id);
    crate::window_laws::law_maximized_windows_fill_the_area(d, i, d.primary_output(), 0);
    crate::window_laws::law_restored_windows_get_their_geometry_back(
        d,
        i,
        d.primary_output(),
        0,
    );
}

/// Task bars are told of a window as it is, and that it is active if it has the focus.
pub proof fn law_task_bars_see_windows_as_they_are(d: Desk, i: int)
    ensures
        ({
            let w = d.windows[i];
            let info = toplevel_info(d, i);
            &&& info.title == w.title && info.app_id == w.app_id
            &&& info.minimized == w.is_minimized && info.maximized == w.is_maximized
            &&& info.fullscreen == w.is_fullscreen
            &&& info.activated == (d.focused == Some(w.id))
        }),
{
}

/// A panel that binds the protocol is told of the group and then, of each workspace that
/// it has a handle of, its number counted from one as its name and whether it is the
/// current one; last comes that this is all.
pub proof fn law_panels_are_welcomed(p: Panel, current: int, k: int)
    requires
        0 <= k < p.handles.len(),
        p.handles[k] is Some,
    ensures
        ({
            let m = welcome(p, current);
            let handle = p.handles[k]->Some_0;
            &&& m[0] == (WorkspaceMessage::Group { manager: p.manager, group: p.group })
            &&& m.last() == (WorkspaceMessage::Done { manager: p.manager })
            &&& m.contains(WorkspaceMessage::Workspace { manager: p.manager, handle })
            &&& m.contains(WorkspaceMessage::Name { handle, name: decimal((k + 1) as nat) })
            &&& m.contains(WorkspaceMessage::State { handle, active: k == current })
            &&& m.contains(WorkspaceMessage::Capabilities { handle })
            &&& m.contains(WorkspaceMessage::Enter { group: p.group, handle })
        }),
{
    let n = p.handles.len();
    lemma_introductions(p, current, n, k);
    let s = introductions(p, current, n);
    let m = welcome(p, current);
    assert forall|x: WorkspaceMessage| s.contains(x) implies #[trigger] m.contains(x) by {
        let i = choose|i: int| 0 <= i < s.len() && s[i] == x;
        assert(m[3 + i] == x);
    }
}

proof fn lemma_introductions(p: Panel, current: int, n: nat, k: int)
    requires
        0 <= k < n <= p.handles.len(),
        p.handles[k] is Some,
    ensures
        ({
            let m = introductions(p, current, n);
            let handle = p.handles[k]->Some_0;
            &&& m.contains(WorkspaceMessage::Workspace { manager: p.manager, handle })
            &&& m.contains(WorkspaceMessage::Name { handle, name: decimal((k + 1) as nat) })
            &&& m.contains(WorkspaceMessage::State { handle, active: k == current })
            &&& m.contains(WorkspaceMessage::Capabilities { handle })
            &&& m.contains(WorkspaceMessage::Enter { group: p.group, handle })
        }),
    decreases n,
{
    let before = introductions(p, current, (n - 1) as nat);
    let last = crate::ext_workspace::introduction(p, n - 1, current);
    let all = introductions(p, current, n);
    assert(all == before + last);
    if k == n - 1 {
        let b = before.len() as int;
        assert(all[b] == last[0]);
        assert(all[b + 1] == last[1]);
        assert(all[b + 2] == last[2]);
        assert(all[b + 3] == last[3]);
        assert(all[b + 4] == last[4]);
    } else {
        lemma_introductions(p, current, (n - 1) as nat, k);
        assert forall|x: WorkspaceMessage| before.contains(x) implies #[trigger] all.contains(
            x,
        ) by {
            let i = choose|i: int| 0 <= i < before.len() && before[i] == x;
            assert(all[i] == x);
        }
    }
}

/// Every panel is told of a switch: that the old workspace is not the active one any more,
/// that the new one is, and that this is all.
pub proof fn law_every_panel_hears_of_a_switch(
    panels: Seq<Panel>,
    from: int,
    to: int,
    n: nat,
    k: int,
)
    requires
        0 <= k < n <= panels.len(),
        0 <= from,
        0 <= to,
    ensures
        ({
            let m = all_switch_messages(panels, from, to, n);
            let p = panels[k];
            &&& from < p.handles.len() && p.handles[from] is Some ==> m.contains(
                WorkspaceMessage::State { handle: p.handles[from]->Some_0, active: false },
            )
            &&& to < p.handles.len() && p.handles[to] is Some ==> m.contains(
                WorkspaceMessage::State { handle: p.handles[to]->Some_0, active: true },
            )
            &&& m.contains(WorkspaceMessage::Done { manager: p.manager })
        }),
    decreases n,
{
    let before = all_switch_messages(panels, from, to, (n - 1) as nat);
    let last = switch_messages(panels[n - 1], from, to);
    let all = all_switch_messages(panels, from, to, n);
    assert(all == before + last);
    let b = before.len() as int;
    if k == n - 1 {
        let p = panels[k];
        let one = from < p.handles.len() && p.handles[from] is Some;
        let two = to < p.handles.len() && p.handles[to] is Some;
        if one {
            assert(last[0] == (WorkspaceMessage::State {
                handle: p.handles[from]->Some_0,
                active: false,
            }));
            assert(all[b] == last[0]);
        }
        if two {
            let at = if one {
                1int
            } else {
                0
            };
            assert(last[at] == (WorkspaceMessage::State {
                handle: p.handles[to]->Some_0,
                active: true,
            }));
            assert(all[b + at] == last[at]);
        }
        assert(all[b + last.len() - 1] == last[last.len() - 1]);
    } else {
        law_every_panel_hears_of_a_switch(panels, from, to, (n - 1) as nat, k);
        assert forall|x: WorkspaceMessage| before.contains(x) implies #[trigger] all.contains(
            x,
        ) by {
            let i = choose|i: int| 0 <= i < before.len() && before[i] == x;
            assert(all[i] == x);
        }
    }
}

/// Panels that are still there are kept, and no others; a panel that leaves is not kept,
/// and the others are.
pub proof fn law_panels_come_and_go(
    panels: Seq<Panel>,
    alive: Seq<bool>,
    n: nat,
    manager: u64,
    k: int,
)
    requires
        n <= panels.len(),
        n <= alive.len(),
        0 <= k < n,
    ensures
        alive[k] ==> alive_of(panels, alive, n).contains(panels[k]),
        panels[k].manager != manager ==> without_manager(panels.take(n as int), manager).contains(
            panels[k],
        ),
        forall|j: int|
            0 <= j < without_manager(panels.take(n as int), manager).len() ==> (
            #[trigger] without_manager(panels.take(n as int), manager)[j]).manager != manager,
        forall|j: int|
            0 <= j < alive_of(panels, alive, n).len() ==> exists|i: int|
                0 <= i < n && alive[i] && #[trigger] panels[i] == (#[trigger] alive_of(
                    panels,
                    alive,
                    n,
                )[j]),
    decreases n,
{
    let m = (n - 1) as nat;
    let a = alive_of(panels, alive, m);
    let b = alive_of(panels, alive, n);
    let s = panels.take(n as int);
    assert(s.drop_last() =~= panels.take(m as int));
    let u = without_manager(panels.take(m as int), manager);
    let w = without_manager(s, manager);
    if m > 0 {
        law_panels_come_and_go(panels, alive, m, manager, if k < m {
            k
        } else {
            0
        });
    } else {
        assert(u.len() == 0);
    }
    if k == m {
        assert(alive[k] ==> b[a.len() as int] == panels[k]);
        assert(panels[k].manager != manager ==> w[u.len() as int] == panels[k]);
    } else {
        if alive[k] {
            let i = choose|i: int| 0 <= i < a.len() && a[i] == panels[k];
            assert(b[i] == panels[k]);
        }
        if panels[k].manager != manager {
            let i = choose|i: int| 0 <= i < u.len() && u[i] == panels[k];
            assert(w[i] == panels[k]);
        }
    }
    assert forall|j: int| 0 <= j < w.len() implies (#[trigger] w[j]).manager != manager by {
        if j < u.len() {
            assert(w[j] == u[j]);
        }
    }
    assert forall|j: int| 0 <= j < b.len() implies exists|i: int|
        0 <= i < n && alive[i] && #[trigger] panels[i] == (#[trigger] b[j]) by {
        if j < a.len() {
            assert(b[j] == a[j]);
            let i = choose|i: int| 0 <= i < m && alive[i] && #[trigger] panels[i] == a[j];
            assert(panels[i] == b[j]);
        } else {
            assert(panels[n - 1] == b[j]);
        }
    }
}

} // verus!
