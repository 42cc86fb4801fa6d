//! What each operation on the session does: which entry of a window changes and how,
//! which windows are shown and where, and what is asked of the display server.
use vstd::prelude::*;

use crate::blue::{
    lemma_entry_is, lemma_pin_is, lemma_with_id_is, lemma_with_surface_is, output_summary,
    summary_is,
};
use crate::desktop::{
    taken, Desktop, DesktopOutput, MetaEntry, Panels, PinnedSurface, Request, Shown, SizeHint, WindowMeta,
};
use crate::desktop_laws::{
    law_tiling_only_moves_windows, lemma_taken, lemma_tiled_windows, place_of,
};
use crate::geometry::{Point, Rectangle, Size};
use crate::layout::{Rect, StackSide, TilingConfig};
use crate::ratio::{Ratio, STANDARD};
use crate::summaries::WindowSummary;

verus! {

/// The entry of a window is found from its number.
proof fn lemma_known(d: Desktop, e: int)
    requires
        d.sound(),
        0 <= e < d.metas.len(),
    ensures
        d.knows(d.metas[e].id),
        crate::desktop::entry_of(d.metas, d.metas[e].id) == e,
{
    assert forall|k: int| 0 <= k < e implies (#[trigger] d.metas[k]).id != d.metas[e].id by {
        assert(d.metas[k].id != d.metas[e].id);
    }
    lemma_entry_is(d.metas, d.metas[e].id, e);
}

/// Whether the window at index `k` is the first one shown that has its number.
pub open spec fn is_first(d: Desktop, k: int) -> bool {
    &&& 0 <= k < d.shown.len()
    &&& d.shown[k].surface is Some
    &&& forall|j: int|
        0 <= j < k ==> (#[trigger] d.shown[j]).surface is None || d.shown[j].id != d.shown[k].id
}

proof fn lemma_first(d: Desktop, k: int)
    requires
        is_first(d, k),
    ensures
        crate::desktop::with_id(d.shown, d.shown[k].id) == k,
{
    lemma_with_id_is(d.shown, d.shown[k].id, k);
}

proof fn lemma_gone(s: Seq<Shown>, w: u64)
    ensures
        place_of(taken(s, w), w) is None,
    decreases s.len(),
{
    if s.len() > 0 {
        lemma_gone(s.drop_last(), w);
        if s.last().window != w {
            let t = taken(s.drop_last(), w).push(s.last());
            assert(t.drop_last() =~= taken(s.drop_last(), w));
        }
    }
}

/// Going to a workspace makes it the current one, or the last one where there is none so
/// high. The clients of the workspace protocol are told of it where it is another one.
/// No entry of a window changes.
pub proof fn law_going_to_a_workspace_makes_it_current(d: Desktop, index: usize)
    requires
        d.sound(),
    ensures
        ({
            let s = d.switched(index);
            &&& index < d.count ==> s.current == index
            &&& index >= d.count ==> s.current == d.count - 1
            &&& s.metas == d.metas && s.count == d.count && s.tiling == d.tiling
            &&& s.pinned == d.pinned && s.panels == d.panels
            &&& !d.tiling.contains(s.current) ==> s.shown == d.shown
            &&& !d.tiling.contains(s.current) && s.current == d.current ==> s.requests
                == d.requests
            &&& !d.tiling.contains(s.current) && s.current != d.current ==> s.requests
                == d.requests.push(
                Request::WorkspaceSwitched { from: d.current, to: s.current },
            )
        }),
{
    let next = d.meant(index);
    let e = Desktop { current: next, ..d };
    law_tiling_only_moves_windows(e, next);
    law_tiling_only_moves_windows(
        e.ask(Request::WorkspaceSwitched { from: d.current, to: next }),
        next,
    );
}

/// A window that is moved to a workspace has it in its entry, or the last one where there
/// is none so high; nothing else of any entry changes, nor the current workspace. No
/// window moves on the screen unless one of the two workspaces is tiled.
pub proof fn law_moved_windows_belong_to_the_workspace(d: Desktop, e: int, workspace: usize)
    requires
        d.sound(),
        0 <= e < d.metas.len(),
    ensures
        ({
            let m = d.moved(d.metas[e].id, workspace);
            let target = if workspace < d.count {
                workspace
            } else {
                (d.count - 1) as usize
            };
            let old = d.metas[e].meta;
            &&& m.metas == d.metas.update(
                e,
                MetaEntry {
                    id: d.metas[e].id,
                    meta: WindowMeta { workspace: target, ..old },
                },
            )
            &&& m.current == d.current && m.count == d.count && m.tiling == d.tiling
            &&& !d.tiling.contains(target) && !d.tiling.contains(old.workspace) ==> m.shown
                == d.shown && m.requests == d.requests
        }),
{
    lemma_known(d, e);
    let id = d.metas[e].id;
    let target = d.meant(workspace);
    let a = d.with_meta(id, WindowMeta { workspace: target, ..d.meta(id) });
    law_tiling_only_moves_windows(a, d.metas[e].meta.workspace);
    law_tiling_only_moves_windows(a.tiled(d.metas[e].meta.workspace), target);
}

/// Minimizing a window, or not any more, says so in its entry and changes nothing else.
pub proof fn law_minimizing_is_noted(d: Desktop, e: int, on: bool)
    requires
        d.sound(),
        0 <= e < d.metas.len(),
    ensures
        d.minimized_set(d.metas[e].id, on) == (Desktop {
            metas: d.metas.update(
                e,
                MetaEntry {
                    id: d.metas[e].id,
                    meta: WindowMeta { is_minimized: on, ..d.metas[e].meta },
                },
            ),
            ..d
        }),
{
    lemma_known(d, e);
}

/// Letting a window float, or not any more, turns that in its entry and changes nothing
/// else.
pub proof fn law_floating_is_noted(d: Desktop, e: int)
    requires
        d.sound(),
        0 <= e < d.metas.len(),
    ensures
        d.floating_toggled(d.metas[e].id) == (Desktop {
            metas: d.metas.update(
                e,
                MetaEntry {
                    id: d.metas[e].id,
                    meta: WindowMeta {
                        is_floating: !d.metas[e].meta.is_floating,
                        ..d.metas[e].meta
                    },
                },
            ),
            ..d
        }),
{
    lemma_known(d, e);
}

/// A window that is maximized is noted as such and does not float. A Wayland client is
/// asked for exactly the size of the area, whatever size the window had, and shown where
/// the area begins, above all others; without an area it keeps what it was asked for. An
/// X11 client is not asked. The other windows stay where they are.
pub proof fn law_maximized_windows_fill_the_area(
    d: Desktop,
    k: int,
    e: int,
    area: Rectangle,
    v: u64,
)
    requires
        d.sound(),
        is_first(d, k),
        0 <= e < d.metas.len(),
        d.metas[e].id == d.shown[k].id,
    ensures
        ({
            let w = d.shown[k];
            let old = d.metas[e].meta;
            let m = d.maximized(w.id, true, Some(area));
            let bare = d.maximized(w.id, true, None);
            &&& m.metas == d.metas.update(
                e,
                MetaEntry {
                    id: w.id,
                    meta: WindowMeta { is_maximized: true, is_floating: false, ..old },
                },
            )
            &&& bare.metas == m.metas
            &&& w.is_x11 ==> m == (Desktop { metas: m.metas, ..d }) && bare == m
            &&& !w.is_x11 ==> {
                &&& m.requests == d.requests.push(
                    Request::Maximize {
                        window: w.window,
                        maximized: true,
                        size: SizeHint::To(area.size),
                    },
                ).push(
                    Request::Show { window: w.window, location: area.loc, activate: true },
                )
                &&& place_of(m.shown, w.window) == Some(area.loc)
                &&& m.shown.last() == (Shown { location: area.loc, ..w })
                &&& v != w.window ==> place_of(m.shown, v) == place_of(d.shown, v)
                &&& bare.requests == d.requests.push(
                    Request::Maximize {
                        window: w.window,
                        maximized: true,
                        size: SizeHint::Keep,
                    },
                )
                &&& bare.shown == d.shown
            }
        }),
{
    lemma_first(d, k);
    lemma_known(d, e);
    let w = d.shown[k];
    let s = taken(d.shown, w.window);
    let t = s.push(Shown { location: area.loc, ..w });
    assert(t.drop_last() =~= s);
    if v != w.window {
        lemma_taken(d.shown, w.window, v);
    }
}

/// A window that is maximized no more is noted as such; a Wayland client then chooses its
/// size, and the window stays where it is. It floats if it did.
pub proof fn law_restored_windows_choose_their_size(
    d: Desktop,
    k: int,
    e: int,
    area: Option<Rectangle>,
)
    requires
        d.sound(),
        is_first(d, k),
        0 <= e < d.metas.len(),
        d.metas[e].id == d.shown[k].id,
    ensures
        ({
            let w = d.shown[k];
            let m = d.maximized(w.id, false, area);
            &&& m.metas == d.metas.update(
                e,
                MetaEntry { id: w.id, meta: WindowMeta { is_maximized: false, ..d.metas[e].meta } },
            )
            &&& w.is_x11 ==> m.requests == d.requests
            &&& !w.is_x11 ==> m.requests == d.requests.push(
                Request::Maximize { window: w.window, maximized: false, size: SizeHint::Free },
            )
            &&& m == (Desktop { metas: m.metas, requests: m.requests, ..d })
        }),
{
    lemma_first(d, k);
    lemma_known(d, e);
}

/// Closing a window asks its Wayland client to close it, once, and does nothing else; an
/// X11 client is not asked.
pub proof fn law_closing_asks_the_client(d: Desktop, k: int)
    requires
        is_first(d, k),
    ensures
        ({
            let w = d.shown[k];
            &&& !w.is_x11 ==> d.closed(w.id) == (Desktop {
                requests: d.requests.push(Request::Close { window: w.window }),
                ..d
            })
            &&& w.is_x11 ==> d.closed(w.id) == d
        }),
{
    lemma_first(d, k);
}

/// A window that is given the focus is above all others, where it was, and the keyboard
/// goes to its surface. The other windows stay where they are.
pub proof fn law_the_focused_window_gets_the_keyboard(d: Desktop, k: int, v: u64)
    requires
        is_first(d, k),
    ensures
        ({
            let w = d.shown[k];
            let f = d.focused(w.id);
            &&& f.shown.last() == w
            &&& v != w.window ==> place_of(f.shown, v) == place_of(d.shown, v)
            &&& f.requests == d.requests.push(Request::Raise { window: w.window }).push(
                Request::Focus { surface: w.surface },
            )
            &&& f == (Desktop { shown: f.shown, requests: f.requests, ..d })
        }),
{
    lemma_first(d, k);
    let w = d.shown[k];
    let s = taken(d.shown, w.window);
    assert(s.push(w).drop_last() =~= s);
    if v != w.window {
        lemma_taken(d.shown, w.window, v);
    }
}

/// A window of which no number is known can be neither focused nor closed nor maximized.
pub proof fn law_unknown_windows_are_left_alone(
    d: Desktop,
    id: u64,
    on: bool,
    area: Option<Rectangle>,
)
    requires
        forall|k: int|
            0 <= k < d.shown.len() ==> (#[trigger] d.shown[k]).surface is None || d.shown[k].id
                != id,
    ensures
        d.focused(id) == d,
        d.closed(id) == d,
        d.maximized(id, on, area) == d,
{
    lemma_with_id_is(d.shown, id, d.shown.len() as int);
}

/// A new window is shown 30 pixels further right and further down for each window that is
/// shown already, beginning at (150, 80), above all others. Its entry puts it on the
/// current workspace, and the clients that list windows are told of it. The other windows
/// stay where they are, and their entries as they are.
pub proof fn law_new_windows_are_cascaded(d: Desktop, w: Shown, blank: WindowMeta, v: u64)
    requires
        d.sound(),
        !d.tiling.contains(d.current),
        150 + 30 * d.shown.len() <= i32::MAX,
        forall|e: int| 0 <= e < d.metas.len() ==> (#[trigger] d.metas[e]).id != w.id,
    ensures
        ({
            let o = d.opened(w, blank);
            let n = d.shown.len();
            let at = Point { x: (150 + 30 * n) as i32, y: (80 + 30 * n) as i32 };
            &&& o.shown.last() == (Shown { location: at, ..w })
            &&& place_of(o.shown, w.window) == Some(at)
            &&& v != w.window ==> place_of(o.shown, v) == place_of(d.shown, v)
            &&& o.metas == d.metas.push(
                MetaEntry { id: w.id, meta: WindowMeta { workspace: d.current, ..blank } },
            )
            &&& o.requests == d.requests.push(
                Request::Show { window: w.window, location: at, activate: true },
            ).push(Request::Mapped { id: w.id })
            &&& o == (Desktop { shown: o.shown, metas: o.metas, requests: o.requests, ..d })
        }),
{
    lemma_entry_is(d.metas, w.id, d.metas.len() as int);
    let n = d.shown.len() as int;
    let at = Point { x: (150 + 30 * n) as i32, y: (80 + 30 * n) as i32 };
    let s = taken(d.shown, w.window);
    let t = s.push(Shown { location: at, ..w });
    assert(t.drop_last() =~= s);
    if v != w.window {
        lemma_taken(d.shown, w.window, v);
    }
}

/// A window whose client destroyed it has no entry any more and is not shown; the clients
/// that list windows are told of it. The other entries stay as they are, and the other
/// windows where they are.
pub proof fn law_destroyed_windows_are_gone(d: Desktop, e: int, k: int, v: u64)
    requires
        d.sound(),
        0 <= e < d.metas.len(),
        0 <= k < d.shown.len(),
        d.shown[k].surface is Some,
        forall|j: int| 0 <= j < k ==> (#[trigger] d.shown[j]).surface != d.shown[k].surface,
    ensures
        ({
            let w = d.shown[k].window;
            let x = d.destroyed(d.metas[e].id, d.shown[k].surface->Some_0);
            &&& x.metas == d.metas.remove(e)
            &&& place_of(x.shown, w) is None
            &&& v != w ==> place_of(x.shown, v) == place_of(d.shown, v)
            &&& x.requests == d.requests.push(Request::Unmapped { id: d.metas[e].id }).push(
                Request::Hide { window: w },
            )
            &&& x == (Desktop { shown: x.shown, metas: x.metas, requests: x.requests, ..d })
        }),
{
    lemma_known(d, e);
    lemma_with_surface_is(d.shown, d.shown[k].surface->Some_0, k);
    let w = d.shown[k].window;
    lemma_gone(d.shown, w);
    if v != w {
        lemma_taken(d.shown, w, v);
    }
}

/// The switcher goes to the next window, and from the last to the first; backwards it goes
/// to the one before, and from the first to the last. Nothing else changes.
pub proof fn law_the_switcher_goes_in_order(d: Desktop)
    requires
        d.panels.switcher_index < d.shown.len() <= usize::MAX,
    ensures
        ({
            let i = d.panels.switcher_index;
            let n = d.shown.len();
            let f = d.cycled(true);
            let b = d.cycled(false);
            &&& i + 1 < n ==> f.panels.switcher_index == i + 1
            &&& i + 1 == n ==> f.panels.switcher_index == 0
            &&& i > 0 ==> b.panels.switcher_index == i - 1
            &&& i == 0 ==> b.panels.switcher_index == n - 1
            &&& f == (Desktop {
                panels: Panels { switcher_index: f.panels.switcher_index, ..d.panels },
                ..d
            })
            &&& b == (Desktop {
                panels: Panels { switcher_index: b.panels.switcher_index, ..d.panels },
                ..d
            })
        }),
{
    let i = d.panels.switcher_index as int;
    let n = d.shown.len() as int;
    if i + 1 < n {
        vstd::arithmetic::div_mod::lemma_small_mod((i + 1) as nat, n as nat);
    } else {
        vstd::arithmetic::div_mod::lemma_mod_self_0(n);
    }
    if i > 0 {
        vstd::arithmetic::div_mod::lemma_small_mod((i - 1) as nat, n as nat);
        vstd::arithmetic::div_mod::lemma_mod_add_multiples_vanish(i - 1, n);
    } else {
        vstd::arithmetic::div_mod::lemma_small_mod((n - 1) as nat, n as nat);
    }
}

/// The switcher opens at the first window, and goes on to the next while it is open.
/// Choosing a window closes it, raises the window and gives it the keyboard.
pub proof fn law_the_switcher_opens_and_chooses(d: Desktop)
    ensures
        !d.panels.show_switcher ==> d.switcher_advanced() == (Desktop {
            panels: Panels { show_switcher: true, switcher_index: 0, ..d.panels },
            ..d
        }),
        d.panels.show_switcher ==> d.switcher_advanced() == d.cycled(true),
        !d.selected().panels.show_switcher,
        d.selected().metas == d.metas,
        d.selected().current == d.current,
        d.panels.switcher_index >= d.shown.len() ==> d.selected().requests == d.requests
            && d.selected().shown == d.shown,
        d.panels.switcher_index < d.shown.len() ==> ({
            let w = d.shown[d.panels.switcher_index as int];
            let raised = d.requests.push(Request::Raise { window: w.window });
            &&& d.selected().shown.last() == w
            &&& w.surface is Some ==> d.selected().requests == raised.push(
                Request::Focus { surface: w.surface },
            )
            &&& w.surface is None ==> d.selected().requests == raised
        }),
{
}

/// Tiling is turned on or off for one workspace and for no other; turned off it leaves the
/// windows where they are.
pub proof fn law_tiling_is_set_for_one_workspace(
    d: Desktop,
    workspace: usize,
    on: bool,
    other: usize,
)
    ensures
        ({
            let t = d.tiling_set(workspace, on);
            &&& t.tiling.contains(workspace) == on
            &&& other != workspace ==> t.tiling.contains(other) == d.tiling.contains(other)
            &&& t.metas == d.metas && t.current == d.current
            &&& !on ==> t == (Desktop { tiling: t.tiling, ..d })
        }),
{
    law_tiling_only_moves_windows(
        Desktop {
            tiling: if on {
                d.tiling.insert(workspace)
            } else {
                d.tiling.remove(workspace)
            },
            ..d
        },
        workspace,
    );
}

/// The pin of an application replaces the one it had, or is added to the others, which
/// stay as they are.
pub proof fn law_applications_have_one_pin(d: Desktop, p: PinnedSurface, i: int)
    requires
        0 <= i <= d.pinned.len(),
        i < d.pinned.len() ==> d.pinned[i].app_id@ == p.app_id@,
        forall|j: int| 0 <= j < i ==> (#[trigger] d.pinned[j]).app_id@ != p.app_id@,
    ensures
        d.pinned_to(p) == (Desktop { pinned: d.pinned_to(p).pinned, ..d }),
        d.pinned_to(p).pinned[i] == p,
        i < d.pinned.len() ==> d.pinned_to(p).pinned.len() == d.pinned.len(),
        i == d.pinned.len() ==> d.pinned_to(p).pinned.len() == d.pinned.len() + 1,
        forall|j: int|
            0 <= j < d.pinned.len() && j != i ==> #[trigger] d.pinned_to(p).pinned[j]
                == d.pinned[j],
{
    lemma_pin_is(d.pinned, p.app_id@, i);
}

/// The windows that are tiled on a workspace are the shown ones whose entry puts them
/// there, and which neither float nor are minimized: no others,
pub proof fn law_no_other_window_is_tiled(d: Desktop, workspace: usize, k: int)
    requires
        d.sound(),
        0 <= k < d.tiled_windows(workspace, d.shown.len()).len(),
    ensures
        exists|i: int, e: int|
            0 <= i < d.shown.len() && 0 <= e < d.metas.len() && #[trigger] d.shown[i]
                == d.tiled_windows(workspace, d.shown.len())[k] && (#[trigger] d.metas[e]).id
                == d.shown[i].id && d.metas[e].meta.workspace == workspace
                && !d.metas[e].meta.is_floating && !d.metas[e].meta.is_minimized,
{
    let n = d.shown.len();
    lemma_tiled_windows(d, workspace, n, k);
    let i = choose|i: int|
        0 <= i < n && #[trigger] d.shown[i] == d.tiled_windows(workspace, n)[k] && d.in_tiling(
            d.shown[i],
            workspace,
        );
    let e = crate::desktop::entry_of(d.metas, d.shown[i].id) as int;
    crate::desktop_laws::lemma_entry(d.metas, d.shown[i].id);
    assert(d.metas[e].id == d.shown[i].id);
}

proof fn lemma_takes_part(d: Desktop, workspace: usize, i: int, e: int)
    requires
        d.sound(),
        0 <= i < d.shown.len(),
        0 <= e < d.metas.len(),
        d.metas[e].id == d.shown[i].id,
        d.metas[e].meta.workspace == workspace,
        !d.metas[e].meta.is_floating,
        !d.metas[e].meta.is_minimized,
    ensures
        d.in_tiling(d.shown[i], workspace),
{
    lemma_known(d, e);
}

proof fn lemma_windows_begin(d: Desktop, workspace: usize, m: nat, n: nat)
    requires
        m <= n <= d.shown.len(),
    ensures
        d.tiled_windows(workspace, m).len() <= d.tiled_windows(workspace, n).len(),
        forall|k: int|
            0 <= k < d.tiled_windows(workspace, m).len() ==> d.tiled_windows(workspace, n)[k]
                == #[trigger] d.tiled_windows(workspace, m)[k],
    decreases n,
{
    if m < n {
        lemma_windows_begin(d, workspace, m, (n - 1) as nat);
    }
}

proof fn lemma_windows_differ(d: Desktop, workspace: usize, n: nat, j: int, k: int)
    requires
        n <= d.shown.len(),
        0 <= j < k < d.tiled_windows(workspace, n).len(),
        shown_once(d),
    ensures
        d.tiled_windows(workspace, n)[j].window != d.tiled_windows(workspace, n)[k].window,
    decreases n,
{
    let m = (n - 1) as nat;
    if k < d.tiled_windows(workspace, m).len() {
        lemma_windows_differ(d, workspace, m, j, k);
    } else {
        lemma_tiled_windows(d, workspace, m, j);
        let t = choose|t: int|
            0 <= t < m && #[trigger] d.shown[t] == d.tiled_windows(workspace, m)[j] && d.in_tiling(
                d.shown[t],
                workspace,
            );
        assert(d.shown[t].window != d.shown[n - 1].window);
    }
}

/// No window is shown twice.
pub open spec fn shown_once(d: Desktop) -> bool {
    forall|i: int, j: int|
        0 <= i < j < d.shown.len() ==> (#[trigger] d.shown[i]).window != (
        #[trigger] d.shown[j]).window
}

proof fn lemma_put(d: Desktop, windows: Seq<Shown>, area: Rectangle, n: nat, r: int)
    requires
        0 <= r < n <= windows.len(),
        forall|k: int|
            0 <= k < windows.len() && k != r ==> (#[trigger] windows[k]).window
                != windows[r].window,
    ensures
        ({
            let p = d.put_all(windows, area, n);
            let slot = d.slot(area, windows.len() as int, r);
            let w = windows[r];
            let asked = Request::Configure {
                window: w.window,
                size: Size {
                    w: if slot.w < 1 {
                        1
                    } else {
                        slot.w
                    },
                    h: if slot.h < 1 {
                        1
                    } else {
                        slot.h
                    },
                },
            };
            &&& place_of(p.shown, w.window) == Some(Point { x: slot.x, y: slot.y })
            &&& !w.is_x11 ==> p.requests.contains(asked)
            &&& p.requests.contains(
                Request::Show {
                    window: w.window,
                    location: Point { x: slot.x, y: slot.y },
                    activate: false,
                },
            )
        }),
    decreases n,
{
    let m = (n - 1) as nat;
    let before = d.put_all(windows, area, m);
    let after = d.put_all(windows, area, n);
    let u = windows[n - 1];
    let w = windows[r];
    let slot = d.slot(area, windows.len() as int, r);
    let at = Point { x: slot.x, y: slot.y };
    let asked = Request::Configure {
        window: w.window,
        size: Size {
            w: if slot.w < 1 {
                1
            } else {
                slot.w
            },
            h: if slot.h < 1 {
                1
            } else {
                slot.h
            },
        },
    };
    let shown = Request::Show { window: w.window, location: at, activate: false };
    assert(after.shown.drop_last() =~= taken(before.shown, u.window));
    let len = before.requests.len() as int;
    if m == r {
        if w.is_x11 {
            assert(after.requests[len] == shown);
        } else {
            assert(after.requests[len] == asked);
            assert(after.requests[len + 1] == shown);
        }
    } else {
        lemma_put(d, windows, area, m, r);
        lemma_taken(before.shown, u.window, w.window);
        let b = choose|b: int| 0 <= b < len && before.requests[b] == shown;
        assert(after.requests[b] == shown);
        if !w.is_x11 {
            let a = choose|a: int| 0 <= a < len && before.requests[a] == asked;
            assert(after.requests[a] == asked);
        }
    }
}

/// and all of these: on a tiled workspace each is shown in the slot of its turn, and its
/// Wayland client is asked for the size of that slot, at least one pixel.
pub proof fn law_tiled_windows_get_their_slots(
    d: Desktop,
    workspace: usize,
    area: Rectangle,
    i: int,
    e: int,
)
    requires
        d.sound(),
        shown_once(d),
        d.tiling.contains(workspace),
        d.outputs.len() > 0,
        d.outputs[0].geometry == Some(area),
        0 <= i < d.shown.len(),
        0 <= e < d.metas.len(),
        d.metas[e].id == d.shown[i].id,
        d.metas[e].meta.workspace == workspace,
        !d.metas[e].meta.is_floating,
        !d.metas[e].meta.is_minimized,
    ensures
        ({
            let w = d.shown[i];
            let count = d.tiled_windows(workspace, d.shown.len()).len() as int;
            let before = d.tiled_windows(workspace, i as nat).len() as int;
            let slot = d.slot(area, count, before);
            let t = d.tiled(workspace);
            &&& before < count
            &&& place_of(t.shown, w.window) == Some(Point { x: slot.x, y: slot.y })
            &&& !w.is_x11 && slot.w >= 1 && slot.h >= 1 ==> t.requests.contains(
                Request::Configure { window: w.window, size: Size { w: slot.w, h: slot.h } },
            )
            &&& t.requests.contains(
                Request::Show {
                    window: w.window,
                    location: Point { x: slot.x, y: slot.y },
                    activate: false,
                },
            )
        }),
{
    lemma_takes_part(d, workspace, i, e);
    let n = d.shown.len();
    let windows = d.tiled_windows(workspace, n);
    let r = d.tiled_windows(workspace, i as nat).len() as int;
    let with = d.tiled_windows(workspace, (i + 1) as nat);
    assert(with == d.tiled_windows(workspace, i as nat).push(d.shown[i]));
    lemma_windows_begin(d, workspace, (i + 1) as nat, n);
    assert(with[r] == d.shown[i]);
    assert(windows[r] == d.shown[i]);
    assert forall|k: int| 0 <= k < windows.len() && k != r implies (#[trigger] windows[k]).window
        != windows[r].window by {
        if k < r {
            lemma_windows_differ(d, workspace, n, k, r);
        } else {
            lemma_windows_differ(d, workspace, n, r, k);
        }
    }
    lemma_put(d, windows, area, windows.len(), r);
}

/// A window that floats, that is minimized or that belongs to another workspace stays
/// where it is when a workspace is tiled.
pub proof fn law_windows_without_a_slot_stay(d: Desktop, workspace: usize, i: int, e: int)
    requires
        d.sound(),
        shown_once(d),
        0 <= i < d.shown.len(),
        0 <= e < d.metas.len(),
        d.metas[e].id == d.shown[i].id,
        d.metas[e].meta.workspace != workspace || d.metas[e].meta.is_floating
            || d.metas[e].meta.is_minimized,
    ensures
        place_of(d.tiled(workspace).shown, d.shown[i].window) == place_of(
            d.shown,
            d.shown[i].window,
        ),
{
    lemma_known(d, e);
    assert forall|j: int|
        0 <= j < d.shown.len() && (#[trigger] d.shown[j]).window
            == d.shown[i].window implies !d.in_tiling(d.shown[j], workspace) by {
        if j < i {
            assert(d.shown[j].window != d.shown[i].window);
        } else if i < j {
            assert(d.shown[i].window != d.shown[j].window);
        }
    }
    crate::desktop_laws::law_tiling_spares_other_windows(d, workspace, d.shown[i].window);
}

/// The slots of the session: a lone window has the whole output but for the gap on all
/// sides; of several the first stands on the left and the others on its right, a gap
/// between them and a gap around them.
pub proof fn law_the_stack_stands_on_the_right(d: Desktop, area: Rectangle, count: int, i: int)
    requires
        1 <= i < count,
        d.config.general.gaps_px <= i32::MAX,
        2 * d.config.general.gaps_px < area.size.w,
        2 * d.config.general.gaps_px < area.size.h,
        area.loc.x + area.size.w <= i32::MAX,
        area.loc.y + area.size.h <= i32::MAX,
        stack_fits(d, area, count),
    ensures
        ({
            let gap = d.config.general.gaps_px;
            let lone = d.slot(area, 1, 0);
            let m = d.slot(area, count, 0);
            let t = d.slot(area, count, i);
            &&& lone.x == area.loc.x + gap && lone.y == area.loc.y + gap
            &&& lone.x + lone.w + gap == area.loc.x + area.size.w
            &&& lone.y + lone.h + gap == area.loc.y + area.size.h
            &&& m.x == area.loc.x + gap && m.y == area.loc.y + gap
            &&& m.y + m.h + gap == area.loc.y + area.size.h
            &&& t.x == m.x + m.w + gap
            &&& t.x + t.w + gap == area.loc.x + area.size.w
            &&& i == 1 ==> t.y == area.loc.y + gap
            &&& i + 1 < count ==> d.slot(area, count, i + 1).y == t.y + t.h + gap
            &&& i + 1 == count ==> t.y + t.h + gap == area.loc.y + area.size.h
        }),
{
    let (a, config) = (slot_area(area), slot_config(d));
    crate::layout::law_a_lone_window_fills_the_area(a, config);
    crate::layout::law_the_stack_stands_on_its_side(a, count, config, i);
    crate::layout::law_the_stack_is_filled_in_order(a, count, config, i);
}

spec fn slot_area(area: Rectangle) -> Rect {
    Rect { x: area.loc.x, y: area.loc.y, w: area.size.w, h: area.size.h }
}

spec fn slot_config(d: Desktop) -> TilingConfig {
    TilingConfig {
        master_ratio: Ratio { bits: STANDARD },
        gaps_px: d.config.general.gaps_px as i32,
        stack_side: StackSide::Right,
    }
}

/// Whether the gaps leave room for the windows of a workspace: for one between the master,
/// which takes 55 hundredths, and the stack, and for those between the others.
pub open spec fn stack_fits(d: Desktop, area: Rectangle, count: int) -> bool {
    let gap = d.config.general.gaps_px;
    &&& crate::ratio::share(0x3FE1_9999_9999_999A, area.size.w - 3 * gap) + gap <= area.size.w - 2
        * gap
    &&& gap * (count - 2) <= area.size.h - 2 * gap
}

/// Clients are told of an output where it is, how large its mode is and how fast; without a
/// geometry it is at the origin, without a mode it has no size. The first is the primary
/// one.
pub proof fn law_outputs_are_told_as_they_are(o: DesktopOutput, i: int)
    ensures
        ({
            let s = output_summary(o, i);
            &&& s.name == o.name && s.scale_bits == o.scale_bits
            &&& s.is_primary == (i == 0)
            &&& o.geometry matches Some(g) ==> s.x == g.loc.x && s.y == g.loc.y
            &&& o.geometry is None ==> s.x == 0 && s.y == 0
            &&& o.mode matches Some(m) ==> s.width == m.size.w && s.height == m.size.h
                && s.refresh_mhz == m.refresh
            &&& o.mode is None ==> s.width == 0 && s.height == 0 && s.refresh_mhz == 0
        }),
{
}

/// Clients are told of a window what its entry says of it, and of one without an entry
/// that it is on the first workspace and in none of the special states.
pub proof fn law_windows_are_told_as_they_are(
    d: Desktop,
    k: int,
    e: int,
    s: WindowSummary,
    stray: Shown,
    t: WindowSummary,
)
    requires
        d.sound(),
        0 <= k < d.shown.len(),
        0 <= e < d.metas.len(),
        d.metas[e].id == d.shown[k].id,
        summary_is(d, d.shown[k], s),
        forall|j: int| 0 <= j < d.metas.len() ==> (#[trigger] d.metas[j]).id != stray.id,
        summary_is(d, stray, t),
    ensures
        ({
            let m = d.metas[e].meta;
            &&& s.id == d.shown[k].id && s.is_xwayland == d.shown[k].is_x11
            &&& s.title@ == m.title@ && s.app_id@ == m.app_id@ && s.workspace == m.workspace
            &&& s.is_fullscreen == m.is_fullscreen && s.is_minimized == m.is_minimized
            &&& s.is_floating == m.is_floating && s.is_maximized == m.is_maximized
            &&& t.id == stray.id && t.is_xwayland == stray.is_x11
            &&& t.workspace == 0 && t.title@.len() == 0 && t.app_id@.len() == 0
            &&& !t.is_fullscreen && !t.is_minimized && !t.is_floating && !t.is_maximized
        }),
{
    lemma_known(d, e);
    lemma_entry_is(d.metas, stray.id, d.metas.len() as int);
}

} // verus!
