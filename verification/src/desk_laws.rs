//! What holds of the desktop whatever is done to it.
use vstd::arithmetic::div_mod::{
    lemma_add_mod_noop_right, lemma_mod_add_multiples_vanish, lemma_mod_bound,
    lemma_mod_equivalence, lemma_small_mod,
};
use vstd::prelude::*;

use crate::desk::{
    default_restore, distinct_handles, first_place, or_else, pin_for, pin_named, unpinned,
    CompositorConfig, Desk, LayoutNames, Pin,
};
use crate::geometry::{Point, Rectangle};
use crate::space::{
    law_map_moves_one_window, law_raise_keeps_places, law_unmap_removes_one_window, location_in,
    shown_once,
};
use crate::window::{
    lemma_position, lemma_position_is, position, rank, Effect, ManagedWindow, NewWindow,
};

verus! {

/// Whether two desktops differ at most in what is shown and in what is asked of the
/// display server.
pub open spec fn same_but_shown(a: Desk, b: Desk) -> bool {
    a == Desk { space: a.space, effects: a.effects, ..b }
}

pub proof fn lemma_set_tiles(d: Desk, ids: Seq<u64>, n: nat)
    requires
        n <= ids.len(),
    ensures
        same_but_shown(d.set_tiles(ids, n), d),
        shown_once(d.space) ==> shown_once(d.set_tiles(ids, n).space),
    decreases n,
{
    if n > 0 {
        let m = (n - 1) as nat;
        lemma_set_tiles(d, ids, m);
        let before = d.set_tiles(ids, m);
        let i = position(before.windows, ids[n - 1]) as int;
        if i < before.windows.len() {
            let w = before.windows[i].window;
            law_map_moves_one_window(before.space, w, d.tile_of(ids.len() as int, n - 1).loc, w);
        }
    }
}

/// Tiling changes what is shown, and nothing else.
pub proof fn law_tiling_moves_windows_only(d: Desk)
    ensures
        same_but_shown(d.tiled(), d),
        shown_once(d.space) ==> shown_once(d.tiled().space),
        d.sound() ==> d.tiled().sound(),
{
    let ids = d.tiled_ids(d.windows.len());
    lemma_set_tiles(d, ids, ids.len());
}

pub proof fn lemma_tiles_spare(d: Desk, ids: Seq<u64>, n: nat, v: u64)
    requires
        n <= ids.len(),
        forall|k: int| 0 <= k < n ==> {
            let i = position(d.windows, #[trigger] ids[k]) as int;
            i < d.windows.len() ==> d.windows[i].window != v
        },
    ensures
        location_in(d.set_tiles(ids, n).space, v) == location_in(d.space, v),
    decreases n,
{
    if n > 0 {
        let m = (n - 1) as nat;
        lemma_tiles_spare(d, ids, m, v);
        lemma_set_tiles(d, ids, m);
        let before = d.set_tiles(ids, m);
        let i = position(before.windows, ids[n - 1]) as int;
        if i < before.windows.len() {
            let w = before.windows[i].window;
            law_map_moves_one_window(before.space, w, d.tile_of(ids.len() as int, n - 1).loc, v);
        }
    }
}

/// A window that is not tiled stays where it is when the others are tiled.
pub proof fn law_tiling_spares_the_others(d: Desk, i: int)
    requires
        d.sound(),
        0 <= i < d.windows.len(),
        !d.is_tiled(i),
    ensures
        location_in(d.tiled().space, d.windows[i].window) == location_in(
            d.space,
            d.windows[i].window,
        ),
{
    let ids = d.tiled_ids(d.windows.len());
    let v = d.windows[i].window;
    assert forall|k: int| 0 <= k < ids.len() implies {
        let j = position(d.windows, #[trigger] ids[k]) as int;
        j < d.windows.len() ==> d.windows[j].window != v
    } by {
        crate::hwde::lemma_tiled_id_has_window(d, d.windows.len(), k);
        let t = choose|t: int|
            0 <= t < d.windows.len() && (#[trigger] d.windows[t]).id == ids[k] && d.is_tiled(t);
        let j = position(d.windows, ids[k]) as int;
        lemma_position(d.windows, ids[k]);
        if j < t {
            assert(d.windows[j].id != d.windows[t].id);
        } else if t < j {
            assert(d.windows[t].id != ids[k]);
        }
        assert(j == t);
        assert(t != i);
        if t < i {
            assert(d.windows[t].window != d.windows[i].window);
        } else {
            assert(d.windows[i].window != d.windows[t].window);
        }
    }
    lemma_tiles_spare(d, ids, ids.len(), v);
}

pub proof fn lemma_sound_windows(a: Desk, b: Desk)
    requires
        a.sound(),
        b.windows.len() == a.windows.len(),
        forall|i: int|
            0 <= i < a.windows.len() ==> (#[trigger] b.windows[i]).id == a.windows[i].id
                && b.windows[i].window == a.windows[i].window,
        b.next_id >= a.next_id,
        shown_once(b.space),
        b.active < b.workspace_count(),
    ensures
        b.sound(),
{
    assert forall|i: int, j: int| 0 <= i < j < b.windows.len() implies (#[trigger] b.windows[i]).id
        != (#[trigger] b.windows[j]).id by {
        assert(a.windows[i].id != a.windows[j].id);
    }
    assert forall|i: int, j: int| 0 <= i < j < b.windows.len() implies (
    #[trigger] b.windows[i]).window != (#[trigger] b.windows[j]).window by {
        assert(a.windows[i].window != a.windows[j].window);
    }
    assert forall|i: int| 0 <= i < b.windows.len() implies (#[trigger] b.windows[i]).id
        < b.next_id by {
        assert(a.windows[i].id < a.next_id);
    }
}

/// Taking in a window that is not managed yet keeps the desktop sound, its ids unique: an
/// id is never given twice.
pub proof fn law_placing_keeps_ids_unique(d: Desk, new: NewWindow, activate: bool)
    requires
        d.sound(),
        d.next_id < u64::MAX,
        forall|i: int| 0 <= i < d.windows.len() ==> (#[trigger] d.windows[i]).window != new.window,
    ensures
        d.placed(new, activate).sound(),
        d.placed(new, activate).next_id == d.next_id + 1,
        d.placed(new, activate).windows.len() == d.windows.len() + 1,
        d.placed(new, activate).windows.last().id == d.next_id,
{
    let w = crate::window::managed(d.next_id, new, d.active);
    let after = d.placed(new, activate);
    let base = Desk { next_id: (d.next_id + 1) as u64, ..d };
    if let Some(pin) = pin_for(d.pinned, new.app_id@, new.pid) {
        let r = d.pin_place(pin);
        law_map_moves_one_window(d.space, new.window, r.loc, new.window);
        law_raise_keeps_places(
            crate::space::mapped(d.space, new.window, r.loc),
            new.window,
            new.window,
        );
        assert(after.windows == d.windows.push(w));
        assert(shown_once(after.space));
    } else {
        let n = d.space.len() as int;
        let at = crate::geometry::point(80 + n * 24, 60 + n * 24);
        law_map_moves_one_window(d.space, new.window, at, new.window);
        let shown = base.show(new.window, at, activate);
        let before = Desk {
            windows: d.windows.push(w),
            floating: d.floating.remove(d.next_id),
            ..shown
        };
        law_tiling_moves_windows_only(before);
        assert(after.windows == d.windows.push(w));
        assert(shown_once(after.space));
    }
    assert forall|i: int, j: int| 0 <= i < j < after.windows.len() implies (
    #[trigger] after.windows[i]).id != (#[trigger] after.windows[j]).id by {
        assert(after.windows[i] == d.windows[i]);
        assert(d.windows[i].id < d.next_id);
        if j < d.windows.len() {
            assert(after.windows[j] == d.windows[j]);
        }
    }
    assert forall|i: int, j: int| 0 <= i < j < after.windows.len() implies (
    #[trigger] after.windows[i]).window != (#[trigger] after.windows[j]).window by {
        assert(after.windows[i] == d.windows[i]);
        if j < d.windows.len() {
            assert(after.windows[j] == d.windows[j]);
        }
    }
    assert forall|i: int| 0 <= i < after.windows.len() implies (#[trigger] after.windows[i]).id
        < after.next_id by {
        if i < d.windows.len() {
            assert(d.windows[i].id < d.next_id);
        }
    }
}

pub proof fn lemma_hide_workspace(d: Desk, n: nat)
    requires
        n <= d.windows.len(),
    ensures
        same_but_shown(d.hide_workspace(n), d),
        shown_once(d.space) ==> shown_once(d.hide_workspace(n).space),
        forall|i: int|
            0 <= i < n && (#[trigger] d.windows[i]).workspace == d.active ==> location_in(
            d.hide_workspace(n).space,
            d.windows[i].window,
        ) is None,
    decreases n,
{
    if n > 0 {
        let m = (n - 1) as nat;
        lemma_hide_workspace(d, m);
        let before = d.hide_workspace(m);
        let w = d.windows[n - 1].window;
        law_unmap_removes_one_window(before.space, w, w);
        assert forall|i: int| 0 <= i < n && (#[trigger] d.windows[i]).workspace
            == d.active implies location_in(
            d.hide_workspace(n).space,
            d.windows[i].window,
        ) is None by {
            law_unmap_removes_one_window(before.space, w, d.windows[i].window);
        }
    }
}

pub proof fn lemma_show_workspace(d: Desk, ws: u32, n: nat)
    requires
        n <= d.windows.len(),
        distinct_handles(d.windows),
    ensures
        same_but_shown(d.show_workspace(ws, n), d),
        shown_once(d.space) ==> shown_once(d.show_workspace(ws, n).space),
        forall|i: int|
            0 <= i < n && (#[trigger] d.windows[i]).workspace == ws && !d.windows[i].is_minimized
                ==> location_in(d.show_workspace(ws, n).space, d.windows[i].window) == Some(
                or_else(d.windows[i].saved_workspace_location, first_place()),
            ),
        forall|i: int|
            0 <= i < d.windows.len() && (i >= n || (#[trigger] d.windows[i]).workspace != ws
                || d.windows[i].is_minimized) ==> location_in(
                d.show_workspace(ws, n).space,
                (#[trigger] d.windows[i]).window,
            ) == location_in(d.space, d.windows[i].window),
    decreases n,
{
    if n > 0 {
        let m = (n - 1) as nat;
        lemma_show_workspace(d, ws, m);
        let before = d.show_workspace(ws, m);
        let w = d.windows[n - 1];
        let at = or_else(w.saved_workspace_location, first_place());
        law_map_moves_one_window(before.space, w.window, at, w.window);
        assert forall|i: int|
            0 <= i < n && (#[trigger] d.windows[i]).workspace == ws
                && !d.windows[i].is_minimized implies location_in(
            d.show_workspace(ws, n).space,
            d.windows[i].window,
        ) == Some(or_else(d.windows[i].saved_workspace_location, first_place())) by {
            law_map_moves_one_window(before.space, w.window, at, d.windows[i].window);
            if i < n - 1 {
                assert(d.windows[i].window != d.windows[n - 1].window);
            }
        }
        assert forall|i: int|
            0 <= i < d.windows.len() && (i >= n || (#[trigger] d.windows[i]).workspace != ws
                || d.windows[i].is_minimized) implies location_in(
            d.show_workspace(ws, n).space,
            d.windows[i].window,
        ) == location_in(d.space, d.windows[i].window) by {
            law_map_moves_one_window(before.space, w.window, at, d.windows[i].window);
            if i < n - 1 {
                assert(d.windows[i].window != d.windows[n - 1].window);
            } else if i > n - 1 {
                assert(d.windows[n - 1].window != d.windows[i].window);
            }
        }
    }
}

pub proof fn lemma_remembered_handles(d: Desk)
    requires
        distinct_handles(d.windows),
    ensures
        distinct_handles(d.remembered()),
{
    let r = d.remembered();
    assert forall|i: int, j: int| 0 <= i < j < r.len() implies (#[trigger] r[i]).window != (
    #[trigger] r[j]).window by {
        assert(d.windows[i].window != d.windows[j].window);
    }
}

/// After another workspace was shown, its windows are where they were left, and no
/// window of the old one can be seen.
pub proof fn law_switching_exchanges_workspaces(d: Desk, target: u32, i: int)
    requires
        d.sound(),
        target != d.active,
        0 <= i < d.windows.len(),
    ensures
        target < d.workspace_count() ==> d.exchanged(target).sound(),
        d.exchanged(target).windows == d.remembered(),
        d.windows[i].workspace == d.active ==> location_in(
            d.exchanged(target).space,
            d.windows[i].window,
        ) is None,
        d.windows[i].workspace == target && !d.windows[i].is_minimized ==> location_in(
            d.exchanged(target).space,
            d.windows[i].window,
        ) == Some(or_else(d.windows[i].saved_workspace_location, first_place())),
{
    let kept = Desk { windows: d.remembered(), ..d };
    let n = kept.windows.len();
    lemma_remembered_handles(d);
    lemma_hide_workspace(kept, n);
    let hidden = kept.hide_workspace(n);
    lemma_show_workspace(hidden, target, n);
    assert(kept.windows[i].workspace == d.windows[i].workspace);
    assert(hidden.windows[i].window == d.windows[i].window);
    if target < d.workspace_count() {
        lemma_sound_windows(d, d.exchanged(target));
    }
}

/// Going to another workspace shows its windows and none of the old one; going back
/// shows every window where it was before, as long as neither workspace is tiled.
pub proof fn law_switching_back_restores_places(d: Desk, target: u32, i: int)
    requires
        d.sound(),
        target < d.workspace_count(),
        target != d.active,
        !d.tiling.contains(d.active),
        !d.tiling.contains(target),
        0 <= i < d.windows.len(),
        d.windows[i].workspace == d.active,
        !d.windows[i].is_minimized,
        location_in(d.space, d.windows[i].window) is Some,
    ensures
        d.switched(target).active == target,
        location_in(d.switched(target).space, d.windows[i].window) is None,
        forall|j: int|
            0 <= j < d.windows.len() && (#[trigger] d.windows[j]).workspace == target
                && !d.windows[j].is_minimized ==> location_in(
                d.switched(target).space,
                d.windows[j].window,
            ) is Some,
        d.switched(target).switched(d.active).active == d.active,
        location_in(d.switched(target).switched(d.active).space, d.windows[i].window)
            == location_in(d.space, d.windows[i].window),
{
    law_switching_exchanges_workspaces(d, target, i);
    let e = d.exchanged(target);
    lemma_exchange_frame(d, target);
    lemma_remembered_handles(d);
    assert(d.switched(target) == e);
    law_switching_exchanges_workspaces(e, d.active, i);
    lemma_exchange_frame(e, d.active);
    assert(e.windows[i].saved_workspace_location == location_in(d.space, d.windows[i].window));
    assert(e.switched(d.active) == e.exchanged(d.active));
    assert forall|j: int|
        0 <= j < d.windows.len() && (#[trigger] d.windows[j]).workspace == target
            && !d.windows[j].is_minimized implies location_in(
        d.switched(target).space,
        d.windows[j].window,
    ) is Some by {
        law_switching_exchanges_workspaces(d, target, j);
    }
}

pub proof fn lemma_exchange_frame(d: Desk, target: u32)
    requires
        distinct_handles(d.windows),
    ensures
        d.exchanged(target) == (Desk {
            windows: d.remembered(),
            space: d.exchanged(target).space,
            effects: d.exchanged(target).effects,
            active: target,
            ..d
        }),
{
    let kept = Desk { windows: d.remembered(), ..d };
    let n = kept.windows.len();
    lemma_remembered_handles(d);
    lemma_hide_workspace(kept, n);
    lemma_show_workspace(kept.hide_workspace(n), target, n);
}

/// Switching to the active workspace, or to one that does not exist, does nothing.
pub proof fn law_idle_switches_do_nothing(d: Desk, target: u32)
    requires
        target == d.active || target >= d.workspace_count(),
    ensures
        d.switched(target) == d,
{
}

/// A window that is maximized and then restored is back at its place and has the size
/// it had.
pub proof fn law_restoring_undoes_maximizing(d: Desk, id: u64, area: Rectangle)
    requires
        d.sound(),
        position(d.windows, id) < d.windows.len(),
        location_in(d.space, d.windows[position(d.windows, id) as int].window) is Some,
    ensures
        ({
            let i = position(d.windows, id) as int;
            let w = d.windows[i];
            let at = location_in(d.space, w.window);
            let up = d.maximized(id, true, area);
            let back = up.maximized(id, false, area);
            &&& up.windows[i].is_maximized
            &&& location_in(up.space, w.window) == Some(area.loc)
            &&& !back.windows[i].is_maximized
            &&& location_in(back.space, w.window) == at
            &&& back.effects.len() >= 2
            &&& w.is_x11 ==> back.effects[back.effects.len() - 2]
                == (Effect::MaximizeX11 {
                window: w.window,
                maximized: false,
                geometry: Rectangle { loc: at->Some_0, size: w.size },
            })
            &&& !w.is_x11 ==> back.effects[back.effects.len() - 2]
                == (Effect::Maximize {
                window: w.window,
                maximized: false,
                size: w.size,
            })
        }),
{
    let i = position(d.windows, id) as int;
    let w = d.windows[i];
    lemma_position(d.windows, id);
    let up = d.maximized(id, true, area);
    law_map_moves_one_window(d.space, w.window, area.loc, w.window);
    assert forall|k: int| 0 <= k < i implies (#[trigger] up.windows[k]).id != id by {
        assert(d.windows[k].id != id);
    }
    lemma_position_is(up.windows, id, i);
    let at = location_in(d.space, w.window)->Some_0;
    law_map_moves_one_window(up.space, w.window, at, w.window);
}

/// A window that fills the screen and then does not any more is shown where it was; one
/// that is also maximized stays so, and keeps the geometry to which it is restored.
pub proof fn law_leaving_the_full_screen_restores(d: Desk, id: u64, area: Rectangle)
    requires
        d.sound(),
        position(d.windows, id) < d.windows.len(),
        location_in(d.space, d.windows[position(d.windows, id) as int].window) is Some,
    ensures
        ({
            let i = position(d.windows, id) as int;
            let w = d.windows[i];
            let up = d.fullscreened(id, true, area);
            let back = up.fullscreened(id, false, area);
            &&& up.windows[i].is_fullscreen
            &&& location_in(up.space, w.window) == Some(area.loc)
            &&& !back.windows[i].is_fullscreen
            &&& back.windows[i].is_maximized == w.is_maximized
            &&& back.windows[i].saved_geometry == w.saved_geometry
            &&& w.is_maximized ==> location_in(back.space, w.window) == Some(area.loc)
            &&& !w.is_maximized ==> location_in(back.space, w.window) == location_in(
                d.space,
                w.window,
            )
        }),
{
    let i = position(d.windows, id) as int;
    let w = d.windows[i];
    lemma_position(d.windows, id);
    let up = d.fullscreened(id, true, area);
    law_map_moves_one_window(d.space, w.window, area.loc, w.window);
    assert forall|k: int| 0 <= k < i implies (#[trigger] up.windows[k]).id != id by {
        assert(d.windows[k].id != id);
    }
    lemma_position_is(up.windows, id, i);
    let at = location_in(d.space, w.window)->Some_0;
    law_map_moves_one_window(up.space, w.window, at, w.window);
    law_map_moves_one_window(up.space, w.window, area.loc, w.window);
}

proof fn lemma_unpinned(
    s: Seq<(Seq<char>, Pin)>,
    app_id: Seq<char>,
    other: Seq<char>,
)
    ensures
        pin_named(unpinned(s, app_id), app_id) is None,
        other != app_id ==> pin_named(unpinned(s, app_id), other) == pin_named(s, other),
    decreases s.len(),
{
    if s.len() > 0 {
        lemma_unpinned(s.drop_last(), app_id, other);
        if s.last().0 != app_id {
            let t = unpinned(s.drop_last(), app_id).push(s.last());
            assert(t.drop_last() =~= unpinned(s.drop_last(), app_id));
        }
    }
}

proof fn lemma_pins_survive(d: Desk, app_id: Seq<char>, owner: Option<i32>, r: Rectangle, n: nat)
    ensures
        d.pin_windows(app_id, owner, r, n).pinned == d.pinned,
    decreases n,
{
    if n > 0 {
        lemma_pins_survive(d, app_id, owner, r, (n - 1) as nat);
    }
}

/// The latest pin of an application holds for its windows, whatever process they are
/// of; the pins of other applications stay as they were.
pub proof fn law_the_latest_pin_holds(
    d: Desk,
    app_id: Seq<char>,
    pin: Pin,
    pid: Option<i32>,
    other: Seq<char>,
)
    ensures
        pin_for(d.pinned_surface(app_id, pin).pinned, app_id, pid) == Some(pin),
        other != app_id ==> pin_named(d.pinned_surface(app_id, pin).pinned, other) == pin_named(
            d.pinned,
            other,
        ),
{
    let s = unpinned(d.pinned, app_id).push((app_id, pin));
    lemma_unpinned(d.pinned, app_id, other);
    assert(s.drop_last() =~= unpinned(d.pinned, app_id));
    let e = Desk { pinned: s, ..d };
    let r = d.pin_place(pin);
    lemma_pins_survive(e, app_id, pin.owner, r, d.windows.len());
    law_tiling_moves_windows_only(e.pin_windows(app_id, pin.owner, r, d.windows.len()));
}

/// Toggling twice leaves the set of floating windows as it was.
pub proof fn law_floating_toggles_back(d: Desk, id: u64)
    ensures
        d.floating_toggled(id).floating.contains(id) != d.floating.contains(id),
        d.floating_toggled(id).floating_toggled(id).floating == d.floating,
{
    let once = Desk {
        floating: if d.floating.contains(id) {
            d.floating.remove(id)
        } else {
            d.floating.insert(id)
        },
        ..d
    };
    law_tiling_moves_windows_only(once);
    let t = once.tiled();
    let twice = Desk {
        floating: if t.floating.contains(id) {
            t.floating.remove(id)
        } else {
            t.floating.insert(id)
        },
        ..t
    };
    law_tiling_moves_windows_only(twice);
    assert(twice.floating =~= d.floating);
}

/// Toggling twice leaves the set of tiled workspaces as it was.
pub proof fn law_tiling_toggles_back(d: Desk)
    ensures
        d.tiling_toggled().tiling.contains(d.active) != d.tiling.contains(d.active),
        d.tiling_toggled().tiling_toggled().tiling == d.tiling,
{
    let once = Desk {
        tiling: if d.tiling.contains(d.active) {
            d.tiling.remove(d.active)
        } else {
            d.tiling.insert(d.active)
        },
        ..d
    };
    law_tiling_moves_windows_only(once);
    let t = once.tiled();
    let twice = Desk {
        tiling: if t.tiling.contains(t.active) {
            t.tiling.remove(t.active)
        } else {
            t.tiling.insert(t.active)
        },
        ..t
    };
    law_tiling_moves_windows_only(twice);
    assert(twice.tiling =~= d.tiling);
}

/// An id that no window has is answered by doing nothing.
pub proof fn law_unknown_ids_do_nothing(d: Desk, id: u64, to: u32, on: bool, area: Rectangle)
    requires
        forall|i: int| 0 <= i < d.windows.len() ==> (#[trigger] d.windows[i]).id != id,
    ensures
        d.focus(id) == d,
        d.closed(id) == d,
        d.minimized(id) == d,
        d.maximized(id, on, area) == d,
        d.fullscreened(id, on, area) == d,
        d.moved(id, to) == d,
{
    lemma_position_is(d.windows, id, d.windows.len() as int);
}

pub proof fn lemma_tiles_stay_shown(d: Desk, ids: Seq<u64>, n: nat, v: u64)
    requires
        n <= ids.len(),
        location_in(d.space, v) is Some,
    ensures
        location_in(d.set_tiles(ids, n).space, v) is Some,
    decreases n,
{
    if n > 0 {
        let m = (n - 1) as nat;
        lemma_tiles_stay_shown(d, ids, m, v);
        lemma_set_tiles(d, ids, m);
        let before = d.set_tiles(ids, m);
        let i = position(before.windows, ids[n - 1]) as int;
        if i < before.windows.len() {
            let w = before.windows[i].window;
            law_map_moves_one_window(before.space, w, d.tile_of(ids.len() as int, n - 1).loc, v);
        }
    }
}

/// A window that is given the focus has it, is shown, and is not minimized; no other
/// window changes. Unless the workspace is tiled, it stands above all others.
pub proof fn law_focus_is_given(d: Desk, id: u64)
    requires
        d.sound(),
        position(d.windows, id) < d.windows.len(),
    ensures
        ({
            let i = position(d.windows, id) as int;
            let f = d.focus(id);
            &&& f.focused == Some(id)
            &&& f.windows == d.windows.update(
                i,
                ManagedWindow { is_minimized: false, ..d.windows[i] },
            )
            &&& location_in(f.space, d.windows[i].window) is Some
            &&& !d.tiling.contains(d.active) ==> f.space.last().window == d.windows[i].window
            &&& f.sound()
        }),
{
    let i = position(d.windows, id) as int;
    let w = d.windows[i];
    lemma_position(d.windows, id);
    let at = or_else(location_in(d.space, w.window), Point { x: 0, y: 0 });
    law_map_moves_one_window(d.space, w.window, at, w.window);
    let shown = crate::space::mapped(d.space, w.window, at);
    law_raise_keeps_places(shown, w.window, w.window);
    law_map_moves_one_window(shown, w.window, at, w.window);
    let f = Desk {
        focused: Some(id),
        ..d.with_window(i, ManagedWindow { is_minimized: false, ..w })
    }.show(w.window, at, true).lift(w.window, true);
    let f = match w.surface {
        Some(surface) => f.note(Effect::Focus { surface }),
        None => f,
    };
    lemma_sound_windows(d, f);
    law_tiling_moves_windows_only(f);
    let ids = f.tiled_ids(f.windows.len());
    lemma_tiles_stay_shown(f, ids, ids.len(), w.window);
}

proof fn lemma_visible_distinct(d: Desk, n: nat)
    requires
        d.sound(),
        n <= d.windows.len(),
    ensures
        forall|i: int, j: int|
            0 <= i < j < d.visible_ids(n).len() ==> d.visible_ids(n)[i] != d.visible_ids(n)[j],
        forall|k: int|
            0 <= k < d.visible_ids(n).len() ==> exists|i: int|
                0 <= i < n && (#[trigger] d.windows[i]).id == #[trigger] d.visible_ids(n)[k],
    decreases n,
{
    if n > 0 {
        let m = (n - 1) as nat;
        lemma_visible_distinct(d, m);
        let a = d.visible_ids(m);
        let b = d.visible_ids(n);
        assert forall|k: int| 0 <= k < b.len() implies exists|i: int|
            0 <= i < n && (#[trigger] d.windows[i]).id == #[trigger] b[k] by {
            if k < a.len() {
                assert(b[k] == a[k]);
                let i = choose|i: int| 0 <= i < m && (#[trigger] d.windows[i]).id == a[k];
                assert(d.windows[i].id == b[k]);
            } else {
                assert(d.windows[n - 1].id == b[k]);
            }
        }
        assert forall|i: int, j: int| 0 <= i < j < b.len() implies b[i] != b[j] by {
            if j >= a.len() {
                assert(b[i] == a[i]);
                let t = choose|t: int| 0 <= t < m && (#[trigger] d.windows[t]).id == a[i];
                assert(d.windows[t].id != d.windows[n - 1].id);
            }
        }
    }
}

/// Of the window that is next, the previous one is the window one started from, if that
/// can be seen on the active workspace, and the other way round.
pub proof fn law_next_and_previous_are_inverse(d: Desk, id: u64)
    requires
        d.sound(),
        d.focused == Some(id),
        rank(d.visible_ids(d.windows.len()), id) < d.visible_ids(d.windows.len()).len(),
    ensures
        d.next_focus() is Some,
        (Desk { focused: d.next_focus(), ..d }).previous_focus() == Some(id),
        d.previous_focus() is Some,
        (Desk { focused: d.previous_focus(), ..d }).next_focus() == Some(id),
{
    let n = d.windows.len();
    let ids = d.visible_ids(n);
    let len = ids.len() as int;
    let k = rank(ids, id) as int;
    lemma_visible_distinct(d, n);
    lemma_rank(ids, id);
    let a = Desk { focused: d.next_focus(), ..d };
    let b = Desk { focused: d.previous_focus(), ..d };
    lemma_visible_same(d, a, n);
    lemma_visible_same(d, b, n);
    let up = (k + 1) % len;
    let down = (k + len - 1) % len;
    assert(up == (if k + 1 == len {
        0
    } else {
        k + 1
    })) by (nonlinear_arith)
        requires
            0 <= k < len,
            up == (k + 1) % len,
    ;
    assert(down == (if k == 0 {
        len - 1
    } else {
        k - 1
    })) by (nonlinear_arith)
        requires
            0 <= k < len,
            down == (k + len - 1) % len,
    ;
    crate::window::lemma_rank_is(ids, ids[up], up);
    crate::window::lemma_rank_is(ids, ids[down], down);
    assert((up + len - 1) % len == k) by (nonlinear_arith)
        requires
            0 <= k < len,
            up == (if k + 1 == len {
                0
            } else {
                k + 1
            }),
    ;
    assert((down + 1) % len == k) by (nonlinear_arith)
        requires
            0 <= k < len,
            down == (if k == 0 {
                len - 1
            } else {
                k - 1
            }),
    ;
}

/// A window that can be seen on the active workspace keeps all windows as they are when
/// it is given the focus.
proof fn lemma_focus_on_visible(d: Desk, k: int)
    requires
        d.sound(),
        0 <= k < d.visible_ids(d.windows.len()).len(),
    ensures
        ({
            let id = d.visible_ids(d.windows.len())[k];
            let f = d.focus(id);
            &&& f.sound()
            &&& f.focused == Some(id)
            &&& f.windows == d.windows
            &&& f.active == d.active
            &&& f.visible_ids(f.windows.len()) == d.visible_ids(d.windows.len())
        }),
{
    let n = d.windows.len();
    let id = d.visible_ids(n)[k];
    lemma_visible_window(d, n, k);
    let i = choose|i: int|
        0 <= i < n && (#[trigger] d.windows[i]).id == id && !d.windows[i].is_minimized;
    assert forall|j: int| 0 <= j < i implies (#[trigger] d.windows[j]).id != id by {
        assert(d.windows[j].id != d.windows[i].id);
    }
    lemma_position_is(d.windows, id, i);
    law_focus_is_given(d, id);
    let f = d.focus(id);
    assert(f.windows =~= d.windows);
    lemma_focus_stays(d, id);
    lemma_visible_same(d, f, n);
}

proof fn lemma_focus_stays(d: Desk, id: u64)
    ensures
        d.focus(id).active == d.active,
{
    let i = position(d.windows, id) as int;
    if i < d.windows.len() {
        let w = d.windows[i];
        let at = or_else(location_in(d.space, w.window), Point { x: 0, y: 0 });
        let f = Desk {
            focused: Some(id),
            ..d.with_window(i, ManagedWindow { is_minimized: false, ..w })
        }.show(w.window, at, true).lift(w.window, true);
        let f = match w.surface {
            Some(surface) => f.note(Effect::Focus { surface }),
            None => f,
        };
        law_tiling_moves_windows_only(f);
    }
}

proof fn lemma_visible_window(d: Desk, n: nat, k: int)
    requires
        n <= d.windows.len(),
        0 <= k < d.visible_ids(n).len(),
    ensures
        exists|i: int|
            0 <= i < n && (#[trigger] d.windows[i]).id == d.visible_ids(n)[k]
                && !d.windows[i].is_minimized,
    decreases n,
{
    let m = (n - 1) as nat;
    if k < d.visible_ids(m).len() {
        lemma_visible_window(d, m, k);
        assert(d.visible_ids(n)[k] == d.visible_ids(m)[k]);
        let i = choose|i: int|
            0 <= i < m && (#[trigger] d.windows[i]).id == d.visible_ids(m)[k]
                && !d.windows[i].is_minimized;
        assert(d.windows[i].id == d.visible_ids(n)[k]);
    } else {
        assert(d.windows[n - 1].id == d.visible_ids(n)[k]);
    }
}

impl Desk {
    /// The desktop after the focus went to the next window `n` times.
    pub open spec fn nexts(self, n: nat) -> Desk
        decreases n,
    {
        if n == 0 {
            self
        } else {
            let d = self.nexts((n - 1) as nat);
            d.focus_option(d.next_focus())
        }
    }

    /// The desktop after the focus went to the previous window `n` times.
    pub open spec fn previouses(self, n: nat) -> Desk
        decreases n,
    {
        if n == 0 {
            self
        } else {
            let d = self.previouses((n - 1) as nat);
            d.focus_option(d.previous_focus())
        }
    }
}

proof fn lemma_nexts(d: Desk, k: int, n: nat)
    requires
        d.sound(),
        0 <= k < d.visible_ids(d.windows.len()).len(),
        d.focused == Some(d.visible_ids(d.windows.len())[k]),
    ensures
        ({
            let ids = d.visible_ids(d.windows.len());
            let a = d.nexts(n);
            let b = d.previouses(n);
            &&& a.sound()
            &&& a.visible_ids(a.windows.len()) == ids
            &&& a.focused == Some(ids[(k + n) % ids.len() as int])
            &&& b.sound()
            &&& b.visible_ids(b.windows.len()) == ids
            &&& b.focused == Some(ids[(k - n) % ids.len() as int])
        }),
    decreases n,
{
    let ids = d.visible_ids(d.windows.len());
    let len = ids.len() as int;
    if n == 0 {
        lemma_small_mod(k as nat, len as nat);
    } else {
        let m = (n - 1) as nat;
        lemma_nexts(d, k, m);
        lemma_visible_distinct(d, d.windows.len());
        let a = d.nexts(m);
        let x = (k + m) % len;
        lemma_mod_bound(k + m, len);
        crate::window::lemma_rank_is(ids, ids[x], x);
        lemma_add_mod_noop_right(1, k + m, len);
        lemma_mod_bound(x + 1, len);
        lemma_focus_on_visible(a, (x + 1) % len);
        let b = d.previouses(m);
        let y = (k - m) % len;
        lemma_mod_bound(k - m, len);
        crate::window::lemma_rank_is(ids, ids[y], y);
        lemma_add_mod_noop_right(len - 1, k - m, len);
        lemma_mod_add_multiples_vanish(k - m - 1, len);
        assert(len - 1 + (k - m) == len + (k - m - 1));
        lemma_mod_bound(y + len - 1, len);
        lemma_focus_on_visible(b, (y + len - 1) % len);
    }
}

proof fn lemma_close_remainders(x: int, y: int, m: int)
    requires
        0 < m,
        x < y < x + m,
    ensures
        x % m != y % m,
{
    lemma_mod_equivalence(y, x, m);
    lemma_small_mod((y - x) as nat, m as nat);
}

/// From a window that can be seen on the active workspace, going to the next window as
/// often as there are such windows visits each of them once and ends where it began, and
/// so does going to the previous one.
pub proof fn law_a_round_visits_every_window_once(d: Desk, id: u64)
    requires
        d.sound(),
        d.focused == Some(id),
        rank(d.visible_ids(d.windows.len()), id) < d.visible_ids(d.windows.len()).len(),
    ensures
        ({
            let ids = d.visible_ids(d.windows.len());
            let m = ids.len();
            &&& d.nexts(m).focused == Some(id)
            &&& d.previouses(m).focused == Some(id)
            &&& forall|i: int|
                0 <= i < m ==> exists|n: nat|
                    1 <= n <= m && (#[trigger] d.nexts(n)).focused == Some(#[trigger] ids[i])
            &&& forall|i: int|
                0 <= i < m ==> exists|n: nat|
                    1 <= n <= m && (#[trigger] d.previouses(n)).focused == Some(
                        #[trigger] ids[i],
                    )
            &&& forall|n: nat, p: nat|
                1 <= n < p <= m ==> (#[trigger] d.nexts(n)).focused != (#[trigger] d.nexts(
                    p,
                )).focused
            &&& forall|n: nat, p: nat|
                1 <= n < p <= m ==> (#[trigger] d.previouses(n)).focused != (
                #[trigger] d.previouses(p)).focused
        }),
{
    let ids = d.visible_ids(d.windows.len());
    let m = ids.len();
    let len = m as int;
    let k = rank(ids, id) as int;
    lemma_rank(ids, id);
    lemma_visible_distinct(d, d.windows.len());
    lemma_nexts(d, k, m);
    lemma_small_mod(k as nat, m);
    lemma_mod_add_multiples_vanish(k, len);
    lemma_mod_add_multiples_vanish(k - len, len);
    assert((k + len) % len == k && (k - len) % len == k);
    assert forall|i: int| 0 <= i < m implies exists|n: nat|
        1 <= n <= m && (#[trigger] d.nexts(n)).focused == Some(#[trigger] ids[i]) by {
        let n = if i > k {
            (i - k) as nat
        } else {
            (i - k + len) as nat
        };
        lemma_nexts(d, k, n);
        lemma_small_mod(i as nat, m);
        lemma_mod_add_multiples_vanish(i, len);
        assert(k + n == i || k + n == len + i);
        assert(d.nexts(n).focused == Some(ids[i]));
    }
    assert forall|i: int| 0 <= i < m implies exists|n: nat|
        1 <= n <= m && (#[trigger] d.previouses(n)).focused == Some(#[trigger] ids[i]) by {
        let n = if i < k {
            (k - i) as nat
        } else {
            (k - i + len) as nat
        };
        lemma_nexts(d, k, n);
        lemma_small_mod(i as nat, m);
        lemma_mod_add_multiples_vanish(i - len, len);
        assert(k - n == i || k - n == i - len);
        assert(d.previouses(n).focused == Some(ids[i]));
    }
    assert forall|n: nat, p: nat| 1 <= n < p <= m implies (#[trigger] d.nexts(n)).focused != (
    #[trigger] d.nexts(p)).focused by {
        lemma_nexts(d, k, n);
        lemma_nexts(d, k, p);
        lemma_close_remainders(k + n, k + p, len);
        lemma_mod_bound(k + n, len);
        lemma_mod_bound(k + p, len);
    }
    assert forall|n: nat, p: nat| 1 <= n < p <= m implies (#[trigger] d.previouses(n)).focused != (
    #[trigger] d.previouses(p)).focused by {
        lemma_nexts(d, k, n);
        lemma_nexts(d, k, p);
        lemma_close_remainders(k - p, k - n, len);
        lemma_mod_bound(k - n, len);
        lemma_mod_bound(k - p, len);
    }
}

/// Giving the focus to the next window and then to the previous one, or the other way
/// round, gives it back, if the focused window can be seen on the active workspace.
pub proof fn law_the_focus_comes_back(d: Desk, id: u64)
    requires
        d.sound(),
        d.focused == Some(id),
        rank(d.visible_ids(d.windows.len()), id) < d.visible_ids(d.windows.len()).len(),
    ensures
        d.nexts(1).previouses(1).focused == Some(id),
        d.previouses(1).nexts(1).focused == Some(id),
{
    let ids = d.visible_ids(d.windows.len());
    let len = ids.len() as int;
    let k = rank(ids, id) as int;
    lemma_rank(ids, id);
    lemma_nexts(d, k, 1);
    lemma_mod_bound(k + 1, len);
    lemma_mod_bound(k - 1, len);
    lemma_nexts(d.nexts(1), (k + 1) % len, 1);
    lemma_nexts(d.previouses(1), (k - 1) % len, 1);
    lemma_add_mod_noop_right(-1, k + 1, len);
    lemma_add_mod_noop_right(1, k - 1, len);
    lemma_small_mod(k as nat, len as nat);
}

/// Without a window that can be seen on the active workspace, there is no other to go to.
pub proof fn law_nothing_visible_keeps_the_focus(d: Desk)
    requires
        d.visible_ids(d.windows.len()).len() == 0,
    ensures
        d.focus_option(d.next_focus()) == d,
        d.focus_option(d.previous_focus()) == d,
{
}

proof fn lemma_rank(ids: Seq<u64>, id: u64)
    ensures
        rank(ids, id) <= ids.len(),
        rank(ids, id) < ids.len() ==> ids[rank(ids, id) as int] == id,
    decreases ids.len(),
{
    if ids.len() > 0 && ids[0] != id {
        lemma_rank(ids.skip(1), id);
    }
}

proof fn lemma_visible_same(a: Desk, b: Desk, n: nat)
    requires
        a.windows == b.windows,
        a.active == b.active,
        n <= a.windows.len(),
    ensures
        a.visible_ids(n) == b.visible_ids(n),
    decreases n,
{
    if n > 0 {
        lemma_visible_same(a, b, (n - 1) as nat);
    }
}

/// The other operations keep the desktop sound, too.
pub proof fn law_operations_keep_the_desktop_sound(d: Desk, id: u64, on: bool, area: Rectangle)
    requires
        d.sound(),
    ensures
        d.focus(id).sound(),
        d.closed(id).sound(),
        d.minimized(id).sound(),
        d.maximized(id, on, area).sound(),
        d.fullscreened(id, on, area).sound(),
        d.floating_toggled(id).sound(),
        d.tiling_toggled().sound(),
{
    let i = position(d.windows, id) as int;
    lemma_position(d.windows, id);
    if i < d.windows.len() {
        let w = d.windows[i];
        let at = or_else(location_in(d.space, w.window), Point { x: 0, y: 0 });
        law_map_moves_one_window(d.space, w.window, at, w.window);
        law_raise_keeps_places(
            crate::space::mapped(d.space, w.window, at),
            w.window,
            w.window,
        );
        law_unmap_removes_one_window(d.space, w.window, w.window);
        let f = Desk {
            focused: Some(id),
            ..d.with_window(i, ManagedWindow { is_minimized: false, ..w })
        }.show(w.window, at, true).lift(w.window, true);
        let f = match w.surface {
            Some(surface) => f.note(Effect::Focus { surface }),
            None => f,
        };
        lemma_sound_windows(d, f);
        law_tiling_moves_windows_only(f);
        let m = d.with_window(i, ManagedWindow { is_minimized: true, ..w }).conceal(w.window);
        lemma_sound_windows(d, m);
        law_tiling_moves_windows_only(m);
        let back = match w.saved_geometry {
            Some(r) => r,
            None => default_restore(),
        };
        law_map_moves_one_window(d.space, w.window, area.loc, w.window);
        law_map_moves_one_window(d.space, w.window, back.loc, w.window);
        lemma_sound_windows(d, d.maximized(id, on, area));
        let windowed = match w.windowed_geometry {
            Some(r) => r,
            None => default_restore(),
        };
        law_map_moves_one_window(d.space, w.window, windowed.loc, w.window);
        lemma_sound_windows(d, d.fullscreened(id, on, area));
    }
    let t = Desk {
        floating: if d.floating.contains(id) {
            d.floating.remove(id)
        } else {
            d.floating.insert(id)
        },
        ..d
    };
    law_tiling_moves_windows_only(t);
    let u = Desk {
        tiling: if d.tiling.contains(d.active) {
            d.tiling.remove(d.active)
        } else {
            d.tiling.insert(d.active)
        },
        ..d
    };
    law_tiling_moves_windows_only(u);
}

proof fn lemma_pin_windows_sound(
    d: Desk,
    app_id: Seq<char>,
    owner: Option<i32>,
    r: Rectangle,
    n: nat,
)
    requires
        n <= d.windows.len(),
        shown_once(d.space),
    ensures
        d.pin_windows(app_id, owner, r, n).windows == d.windows,
        d.pin_windows(app_id, owner, r, n).next_id == d.next_id,
        d.pin_windows(app_id, owner, r, n).active == d.active,
        d.pin_windows(app_id, owner, r, n).config == d.config,
        shown_once(d.pin_windows(app_id, owner, r, n).space),
    decreases n,
{
    if n > 0 {
        let m = (n - 1) as nat;
        lemma_pin_windows_sound(d, app_id, owner, r, m);
        let before = d.pin_windows(app_id, owner, r, m);
        let w = d.windows[n - 1].window;
        law_map_moves_one_window(before.space, w, r.loc, w);
        law_raise_keeps_places(crate::space::mapped(before.space, w, r.loc), w, w);
    }
}

proof fn lemma_exchanged_windows_sound(d: Desk, a: int, b: int)
    requires
        d.sound(),
        0 <= a < d.windows.len(),
        0 <= b < d.windows.len(),
    ensures
        (Desk {
            windows: d.windows.update(a, d.windows[b]).update(b, d.windows[a]),
            ..d
        }).sound(),
{
    let windows = d.windows.update(a, d.windows[b]).update(b, d.windows[a]);
    assert forall|i: int, j: int| 0 <= i < j < windows.len() implies (#[trigger] windows[i]).id != (
    #[trigger] windows[j]).id && windows[i].window != windows[j].window by {
        let x = if i == b {
            a
        } else if i == a {
            b
        } else {
            i
        };
        let y = if j == b {
            a
        } else if j == a {
            b
        } else {
            j
        };
        assert(windows[i] == d.windows[x] && windows[j] == d.windows[y]);
        if x < y {
            assert(d.windows[x].id != d.windows[y].id);
            assert(d.windows[x].window != d.windows[y].window);
        } else {
            assert(d.windows[y].id != d.windows[x].id);
            assert(d.windows[y].window != d.windows[x].window);
        }
    }
    assert forall|i: int| 0 <= i < windows.len() implies (#[trigger] windows[i]).id < d.next_id by {
        let x = if i == b {
            a
        } else if i == a {
            b
        } else {
            i
        };
        assert(windows[i] == d.windows[x]);
    }
}

/// What is done to the layout keeps the desktop sound: pins, tiling, the master and
/// its share, and going round the windows.
pub proof fn law_layout_changes_keep_the_desktop_sound(
    d: Desk,
    app_id: Seq<char>,
    pin: Pin,
    workspace: u32,
    on: bool,
    ratio: u32,
)
    requires
        d.sound(),
    ensures
        d.pinned_surface(app_id, pin).sound(),
        d.tiling_set(workspace, on).sound(),
        d.master_swapped().sound(),
        d.ratio_set(ratio).sound(),
        d.focus_option(d.next_focus()).sound(),
        d.focus_option(d.previous_focus()).sound(),
{
    let p = Desk { pinned: unpinned(d.pinned, app_id).push((app_id, pin)), ..d };
    let r = d.pin_place(pin);
    lemma_pin_windows_sound(p, app_id, pin.owner, r, d.windows.len());
    let q = p.pin_windows(app_id, pin.owner, r, d.windows.len());
    lemma_sound_windows(d, q);
    law_tiling_moves_windows_only(q);
    let t = Desk {
        tiling: if on {
            d.tiling.insert(workspace)
        } else {
            d.tiling.remove(workspace)
        },
        ..d
    };
    law_tiling_moves_windows_only(t);
    let config = CompositorConfig {
        master_ratio: crate::single::clamped(ratio as int) as u32,
        ..d.config
    };
    law_tiling_moves_windows_only(Desk { config, ..d });
    law_tiling_moves_windows_only(d);
    if let Some(id) = d.next_focus() {
        law_operations_keep_the_desktop_sound(d, id, on, r);
    }
    if let Some(id) = d.previous_focus() {
        law_operations_keep_the_desktop_sound(d, id, on, r);
    }
    if let Some(id) = d.focused {
        let ids = d.tiled_ids(d.windows.len());
        if ids.len() > 0 && ids[0] != id {
            crate::hwde::lemma_tiled_id_has_window(d, d.windows.len(), 0);
            let a = position(d.windows, ids[0]) as int;
            let b = position(d.windows, id) as int;
            if b < d.windows.len() {
                let e = Desk {
                    windows: d.windows.update(a, d.windows[b]).update(b, d.windows[a]),
                    ..d
                };
                lemma_exchanged_windows_sound(d, a, b);
                law_tiling_moves_windows_only(e);
            }
        }
    }
}

/// Switching workspaces and moving windows between them keeps the desktop sound.
pub proof fn law_workspaces_keep_the_desktop_sound(d: Desk, id: u64, to: u32)
    requires
        d.sound(),
    ensures
        d.switched(to).sound(),
        d.moved(id, to).sound(),
{
    if to < d.workspace_count() && to != d.active {
        if d.windows.len() > 0 {
            law_switching_exchanges_workspaces(d, to, 0);
        } else {
            lemma_exchange_frame(d, to);
            let kept = Desk { windows: d.remembered(), ..d };
            lemma_hide_workspace(kept, 0);
            lemma_show_workspace(kept.hide_workspace(0), to, 0);
        }
        law_tiling_moves_windows_only(d.exchanged(to));
    }
    let target = if to > d.workspace_count() - 1 {
        (d.workspace_count() - 1) as u32
    } else {
        to
    };
    let i = position(d.windows, id) as int;
    if i < d.windows.len() && d.windows[i].workspace != target {
        let w = d.windows[i];
        let gone = ManagedWindow { workspace: target, ..w };
        let at = or_else(w.saved_workspace_location, first_place());
        law_unmap_removes_one_window(d.space, w.window, w.window);
        law_map_moves_one_window(d.space, w.window, at, w.window);
        let a = d.with_window(
            i,
            ManagedWindow {
                saved_workspace_location: location_in(d.space, w.window),
                ..gone
            },
        ).conceal(w.window);
        lemma_sound_windows(d, a);
        law_tiling_moves_windows_only(a);
        let b = d.with_window(i, gone).show(w.window, at, true);
        lemma_sound_windows(d, b);
        law_tiling_moves_windows_only(b);
        let c = d.with_window(i, gone);
        lemma_sound_windows(d, c);
        law_tiling_moves_windows_only(c);
    }
}

/// Reading the settings anew keeps the desktop sound: they hold from then on, the active
/// workspace is one of those there are, and the keyboard is given its layout exactly
/// where that has changed.
pub proof fn law_reloading_applies_the_settings(
    d: Desk,
    config: CompositorConfig,
    keyboard: LayoutNames,
)
    requires
        d.sound(),
    ensures
        d.reloaded(config, keyboard).sound(),
        d.reloaded(config, keyboard).config == config,
        d.reloaded(config, keyboard).keyboard == keyboard,
        ({
            let e = Desk { config, keyboard, ..d };
            d.active < e.workspace_count() ==> d.reloaded(config, keyboard) == (if keyboard
                != d.keyboard {
                e.note(Effect::SetKeyboardLayout)
            } else {
                e
            })
        }),
        keyboard != d.keyboard ==> d.reloaded(config, keyboard).effects.len() > d.effects.len()
            && d.reloaded(config, keyboard).effects[d.effects.len() as int]
            == Effect::SetKeyboardLayout,
{
    let e = Desk { config, keyboard, ..d };
    let e = if keyboard != d.keyboard {
        e.note(Effect::SetKeyboardLayout)
    } else {
        e
    };
    if e.active >= e.workspace_count() {
        let target = (e.workspace_count() - 1) as u32;
        lemma_exchange_frame(e, target);
        let kept = Desk { windows: e.remembered(), ..e };
        let n = kept.windows.len();
        lemma_remembered_handles(e);
        lemma_hide_workspace(kept, n);
        lemma_show_workspace(kept.hide_workspace(n), target, n);
        lemma_sound_windows(d, e.exchanged(target));
        law_tiling_moves_windows_only(e.exchanged(target));
        lemma_hide_effects(kept, n);
        lemma_show_effects(kept.hide_workspace(n), target, n);
        let x = e.exchanged(target);
        let ids = x.tiled_ids(x.windows.len());
        lemma_tile_effects(x, ids, ids.len());
        if keyboard != d.keyboard {
            let i = d.effects.len() as int;
            let hidden = kept.hide_workspace(n).effects;
            lemma_begins_at(hidden, e.effects, i);
            lemma_begins_at(x.effects, hidden, i);
            if x.tiling.contains(x.active) {
                lemma_begins_at(x.tiled().effects, x.effects, i);
            }
        }
    }
}

proof fn lemma_begins_at(a: Seq<Effect>, b: Seq<Effect>, i: int)
    requires
        begins_with(a, b),
        0 <= i < b.len(),
    ensures
        a[i] == b[i],
        i < a.len(),
{
    assert(a.take(b.len() as int)[i] == a[i]);
}

/// Whether one list of effects begins with another.
pub open spec fn begins_with(a: Seq<Effect>, b: Seq<Effect>) -> bool {
    b.len() <= a.len() && a.take(b.len() as int) == b
}

proof fn lemma_push_begins(a: Seq<Effect>, b: Seq<Effect>, e: Effect)
    requires
        begins_with(a, b),
    ensures
        begins_with(a.push(e), b),
{
    assert(a.push(e).take(b.len() as int) =~= a.take(b.len() as int));
}

proof fn lemma_hide_effects(d: Desk, n: nat)
    requires
        n <= d.windows.len(),
    ensures
        begins_with(d.hide_workspace(n).effects, d.effects),
    decreases n,
{
    if n == 0 {
        assert(d.effects.take(d.effects.len() as int) =~= d.effects);
    } else {
        lemma_hide_effects(d, (n - 1) as nat);
        let before = d.hide_workspace((n - 1) as nat).effects;
        lemma_push_begins(before, d.effects, Effect::Hide { window: d.windows[n - 1].window });
    }
}

proof fn lemma_show_effects(d: Desk, ws: u32, n: nat)
    requires
        n <= d.windows.len(),
    ensures
        begins_with(d.show_workspace(ws, n).effects, d.effects),
    decreases n,
{
    if n == 0 {
        assert(d.effects.take(d.effects.len() as int) =~= d.effects);
    } else {
        lemma_show_effects(d, ws, (n - 1) as nat);
        let before = d.show_workspace(ws, (n - 1) as nat).effects;
        let w = d.windows[n - 1];
        let location = or_else(w.saved_workspace_location, first_place());
        lemma_push_begins(
            before,
            d.effects,
            Effect::Show { window: w.window, location, activate: false },
        );
    }
}

proof fn lemma_tile_effects(d: Desk, ids: Seq<u64>, n: nat)
    requires
        n <= ids.len(),
    ensures
        begins_with(d.set_tiles(ids, n).effects, d.effects),
    decreases n,
{
    if n == 0 {
        assert(d.effects.take(d.effects.len() as int) =~= d.effects);
    } else {
        let m = (n - 1) as nat;
        lemma_tile_effects(d, ids, m);
        let before = d.set_tiles(ids, m);
        let i = position(before.windows, ids[n - 1]) as int;
        if i < before.windows.len() {
            let w = before.windows[i];
            let r = d.tile_of(ids.len() as int, n - 1);
            let told = if w.is_x11 {
                Effect::ConfigureX11 { window: w.window, geometry: r }
            } else {
                Effect::Configure { window: w.window, size: r.size }
            };
            lemma_push_begins(before.effects, d.effects, told);
            lemma_push_begins(
                before.effects.push(told),
                d.effects,
                Effect::Show { window: w.window, location: r.loc, activate: false },
            );
        }
    }
}

/// A window that is gone leaves the others as they are.
pub proof fn law_forgetting_removes_one_window(d: Desk, surface: u64)
    requires
        d.sound(),
    ensures
        d.forgotten(surface).sound(),
        ({
            let i = crate::window::surface_position(d.windows, surface) as int;
            d.forgotten(surface).windows == (if i < d.windows.len() {
                d.windows.remove(i)
            } else {
                d.windows
            })
        }),
{
    let i = crate::window::surface_position(d.windows, surface) as int;
    if i < d.windows.len() {
        let w = d.windows[i];
        law_unmap_removes_one_window(d.space, w.window, w.window);
        let e = Desk { windows: d.windows.remove(i), ..d }.conceal(w.window);
        let f = Desk { floating: e.floating.remove(w.id), ..e };
        assert forall|a: int, b: int| 0 <= a < b < f.windows.len() implies (
        #[trigger] f.windows[a]).id != (#[trigger] f.windows[b]).id by {
            let x = if a < i {
                a
            } else {
                a + 1
            };
            let y = if b < i {
                b
            } else {
                b + 1
            };
            assert(d.windows[x].id != d.windows[y].id);
        }
        assert forall|a: int| 0 <= a < f.windows.len() implies (#[trigger] f.windows[a]).id
            < f.next_id by {
            let x = if a < i {
                a
            } else {
                a + 1
            };
            assert(d.windows[x].id < d.next_id);
        }
        law_tiling_moves_windows_only(f);
    } else {
        law_tiling_moves_windows_only(d);
    }
}

} // verus!
