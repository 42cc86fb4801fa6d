//! What the operations on the layout of the desktop do: new windows, pins, workspaces,
//! tiling, the master, and the order in which the windows get the focus.
use vstd::prelude::*;

use crate::desk::{pin_for, pin_named, pin_owned, Desk, Pin};
use crate::desk_laws::{
    law_tiling_moves_windows_only, lemma_exchange_frame, lemma_hide_workspace,
    lemma_remembered_handles, lemma_show_workspace, lemma_tiles_stay_shown,
};
use crate::geometry::{Point, Rectangle};
use crate::space::{
    law_map_moves_one_window, law_raise_keeps_places, law_unmap_removes_one_window, location_in,
    mapped,
};
use crate::window::{
    lemma_rank_is, lemma_surface_position_is, Effect, ManagedWindow, NewWindow,
};
use crate::window_laws::lemma_found;

verus! {

/// A new window is managed under the next id, as its client describes it, on the active
/// workspace, in none of the special states and with no geometry to return to.
pub proof fn law_new_windows_are_plain(d: Desk, new: NewWindow, activate: bool)
    ensures
        ({
            let p = d.placed(new, activate);
            let w = p.windows.last();
            &&& p.windows.len() == d.windows.len() + 1
            &&& p.windows.drop_last() == d.windows
            &&& w.id == d.next_id
            &&& w.window == new.window && w.surface == new.surface && w.title == new.title
            &&& w.app_id == new.app_id && w.pid == new.pid && w.is_x11 == new.is_x11
            &&& w.size == new.size
            &&& !w.is_minimized && !w.is_maximized && !w.is_fullscreen && !w.is_ssd
            &&& w.saved_geometry is None && w.windowed_geometry is None
            &&& w.saved_workspace_location is None
            &&& w.workspace == d.active
            &&& d.next_id < u64::MAX ==> p.next_id == d.next_id + 1
            &&& p.focused == d.focused && p.active == d.active && p.tiling == d.tiling
            &&& p.pinned == d.pinned && p.outputs == d.outputs && p.config == d.config
            &&& forall|id: u64|
                id != d.next_id ==> (#[trigger] p.floating.contains(id)) == d.floating.contains(id)
        }),
{
    let p = d.placed(new, activate);
    let w = crate::window::managed(d.next_id, new, d.active);
    let n = d.space.len() as int;
    let base = Desk { next_id: (d.next_id + 1) as u64, ..d };
    let shown = base.show(
        new.window,
        crate::geometry::point(80 + n * 24, 60 + n * 24),
        activate,
    );
    law_tiling_moves_windows_only(
        Desk { windows: d.windows.push(w), floating: d.floating.remove(d.next_id), ..shown },
    );
    assert(p.windows == d.windows.push(w));
    assert(p.windows.drop_last() =~= d.windows);
}

/// A new window that is not pinned is shown 24 pixels further right and further down for
/// each window that is shown already, beginning at (80, 60), above all others; it does not
/// float. On a tiled workspace it is shown in a tile. The other windows stay where they
/// are unless they are tiled.
pub proof fn law_new_windows_are_cascaded(d: Desk, new: NewWindow, activate: bool, v: u64)
    requires
        pin_for(d.pinned, new.app_id@, new.pid) is None,
        80 + 24 * d.space.len() <= i32::MAX,
    ensures
        ({
            let p = d.placed(new, activate);
            let n = d.space.len();
            let tiled = d.tiling.contains(d.active);
            let at = Point { x: (80 + 24 * n) as i32, y: (60 + 24 * n) as i32 };
            &&& !p.floating.contains(d.next_id)
            &&& location_in(p.space, new.window) is Some
            &&& !tiled ==> location_in(p.space, new.window) == Some(at)
            &&& !tiled ==> p.space.last().window == new.window
            &&& !tiled && v != new.window ==> location_in(p.space, v) == location_in(d.space, v)
            &&& !tiled ==> p.effects == d.effects.push(
                Effect::Show { window: new.window, location: at, activate },
            )
        }),
{
    let w = crate::window::managed(d.next_id, new, d.active);
    let n = d.space.len() as int;
    let base = Desk { next_id: (d.next_id + 1) as u64, ..d };
    let at = crate::geometry::point(80 + n * 24, 60 + n * 24);
    law_map_moves_one_window(d.space, new.window, at, v);
    law_map_moves_one_window(d.space, new.window, at, new.window);
    let e = Desk {
        windows: d.windows.push(w),
        floating: d.floating.remove(d.next_id),
        ..base.show(new.window, at, activate)
    };
    law_tiling_moves_windows_only(e);
    let ids = e.tiled_ids(e.windows.len());
    lemma_tiles_stay_shown(e, ids, ids.len(), new.window);
}

/// Whether a rectangle is that of a surface pinned to an edge of an output: as wide as the
/// output, as high as the pin is thick, at the upper or at the lower edge.
pub open spec fn lies_along(r: Rectangle, output: Rectangle, pin: Pin) -> bool {
    &&& r.loc.x == output.loc.x
    &&& r.size.w == output.size.w
    &&& r.size.h == pin.thickness
    &&& pin.edge is Top ==> r.loc.y == output.loc.y
    &&& pin.edge is Bottom ==> r.loc.y + r.size.h == output.loc.y + output.size.h
}

/// A pinned surface lies along its edge of the first output.
pub proof fn law_pinned_surfaces_lie_along_their_edge(d: Desk, pin: Pin)
    requires
        pin.thickness <= i32::MAX,
        0 <= d.primary_output().loc.y,
        pin.thickness <= d.primary_output().loc.y + d.primary_output().size.h <= i32::MAX,
    ensures
        lies_along(d.pin_place(pin), d.primary_output(), pin),
{
}

/// A new window that is pinned is shown where its pin says, and floats, whether or not the
/// workspace is tiled. A Wayland client is asked for the size. The others stay where they
/// are.
pub proof fn law_new_pinned_windows_go_to_their_edge(
    d: Desk,
    new: NewWindow,
    activate: bool,
    v: u64,
)
    requires
        pin_for(d.pinned, new.app_id@, new.pid) is Some,
    ensures
        ({
            let p = d.placed(new, activate);
            let r = d.pin_place(pin_for(d.pinned, new.app_id@, new.pid)->Some_0);
            let asked = if new.is_x11 {
                d.effects
            } else {
                d.effects.push(Effect::Configure { window: new.window, size: r.size })
            };
            &&& p.floating.contains(d.next_id)
            &&& location_in(p.space, new.window) == Some(r.loc)
            &&& v != new.window ==> location_in(p.space, v) == location_in(d.space, v)
            &&& p.effects == asked.push(
                Effect::Show { window: new.window, location: r.loc, activate },
            ).push(Effect::Raise { window: new.window, activate: true })
        }),
{
    let r = d.pin_place(pin_for(d.pinned, new.app_id@, new.pid)->Some_0);
    law_map_moves_one_window(d.space, new.window, r.loc, v);
    let shown = mapped(d.space, new.window, r.loc);
    law_raise_keeps_places(shown, new.window, v);
    law_raise_keeps_places(shown, new.window, new.window);
}

/// The pin of a window is the latest one of its application,
pub proof fn law_the_latest_pin_of_an_application_counts(
    s: Seq<(Seq<char>, Pin)>,
    app_id: Seq<char>,
    pid: Option<i32>,
    k: int,
)
    requires
        0 <= k < s.len(),
        s[k].0 == app_id,
        forall|j: int| k < j < s.len() ==> (#[trigger] s[j]).0 != app_id,
    ensures
        pin_for(s, app_id, pid) == Some(s[k].1),
{
    lemma_pin_named(s, app_id, k);
}

proof fn lemma_pin_named(s: Seq<(Seq<char>, Pin)>, app_id: Seq<char>, k: int)
    requires
        -1 <= k < s.len(),
        k >= 0 ==> s[k].0 == app_id,
        forall|j: int| k < j < s.len() ==> (#[trigger] s[j]).0 != app_id,
    ensures
        k >= 0 ==> pin_named(s, app_id) == Some(s[k].1),
        k < 0 ==> pin_named(s, app_id) is None,
    decreases s.len(),
{
    if s.len() > 0 && k < s.len() - 1 {
        lemma_pin_named(s.drop_last(), app_id, k);
    }
}

/// or, where its application has none, the latest one that its process asked for. Where
/// neither has one it is not pinned.
pub proof fn law_the_latest_pin_of_a_process_counts(
    s: Seq<(Seq<char>, Pin)>,
    app_id: Seq<char>,
    pid: i32,
    k: int,
)
    requires
        -1 <= k < s.len(),
        forall|j: int| 0 <= j < s.len() ==> (#[trigger] s[j]).0 != app_id,
        k >= 0 ==> s[k].1.owner == Some(pid),
        forall|j: int| k < j < s.len() ==> (#[trigger] s[j]).1.owner != Some(pid),
    ensures
        k >= 0 ==> pin_for(s, app_id, Some(pid)) == Some(s[k].1),
        k < 0 ==> pin_for(s, app_id, Some(pid)) is None,
        pin_for(s, app_id, None) is None,
{
    lemma_pin_named(s, app_id, -1);
    lemma_pin_owned(s, pid, k);
}

proof fn lemma_pin_owned(s: Seq<(Seq<char>, Pin)>, pid: i32, k: int)
    requires
        -1 <= k < s.len(),
        k >= 0 ==> s[k].1.owner == Some(pid),
        forall|j: int| k < j < s.len() ==> (#[trigger] s[j]).1.owner != Some(pid),
    ensures
        k >= 0 ==> pin_owned(s, Some(pid)) == Some(s[k].1),
        k < 0 ==> pin_owned(s, Some(pid)) is None,
    decreases s.len(),
{
    if s.len() > 0 && k < s.len() - 1 {
        lemma_pin_owned(s.drop_last(), pid, k);
    }
}

proof fn lemma_pin_windows(
    d: Desk,
    app_id: Seq<char>,
    owner: Option<i32>,
    r: Rectangle,
    n: nat,
    i: int,
)
    requires
        d.sound(),
        n <= d.windows.len(),
        0 <= i < d.windows.len(),
    ensures
        ({
            let p = d.pin_windows(app_id, owner, r, n);
            let w = d.windows[i];
            let meant = i < n && (w.app_id@ == app_id || (owner is Some && w.pid == owner));
            &&& meant ==> location_in(p.space, w.window) == Some(r.loc)
            &&& !meant ==> location_in(p.space, w.window) == location_in(d.space, w.window)
            &&& p.floating.contains(w.id) == (d.floating.contains(w.id) || meant)
            &&& p == (Desk { space: p.space, effects: p.effects, floating: p.floating, ..d })
        }),
    decreases n,
{
    if n > 0 {
        let m = (n - 1) as nat;
        lemma_pin_windows(d, app_id, owner, r, m, i);
        let before = d.pin_windows(app_id, owner, r, m);
        let u = d.windows[n - 1];
        let v = d.windows[i].window;
        law_map_moves_one_window(before.space, u.window, r.loc, v);
        law_raise_keeps_places(mapped(before.space, u.window, r.loc), u.window, v);
        if i < n - 1 {
            assert(d.windows[i].window != d.windows[n - 1].window);
            assert(d.windows[i].id != d.windows[n - 1].id);
        } else if n - 1 < i {
            assert(d.windows[n - 1].window != d.windows[i].window);
            assert(d.windows[n - 1].id != d.windows[i].id);
        }
    }
}

/// Pinning an application shows each of its windows, and each of the process that asked,
/// where the pin says, and lets it float; the other windows stay where they are unless
/// they are tiled, and float or not as before. No window is changed otherwise.
pub proof fn law_pinning_moves_the_windows_it_is_meant_for(
    d: Desk,
    app_id: Seq<char>,
    pin: Pin,
    i: int,
)
    requires
        d.sound(),
        0 <= i < d.windows.len(),
    ensures
        ({
            let p = d.pinned_surface(app_id, pin);
            let w = d.windows[i];
            let meant = w.app_id@ == app_id || (pin.owner is Some && w.pid == pin.owner);
            &&& p.windows == d.windows
            &&& meant ==> p.floating.contains(w.id)
            &&& !meant ==> p.floating.contains(w.id) == d.floating.contains(w.id)
            &&& meant ==> location_in(p.space, w.window) == Some(d.pin_place(pin).loc)
            &&& !meant && !d.tiling.contains(d.active) ==> location_in(p.space, w.window)
                == location_in(d.space, w.window)
            &&& p.focused == d.focused && p.active == d.active && p.tiling == d.tiling
        }),
{
    let s = crate::desk::unpinned(d.pinned, app_id).push((app_id, pin));
    let e = Desk { pinned: s, ..d };
    let r = d.pin_place(pin);
    let n = d.windows.len();
    lemma_pin_windows(e, app_id, pin.owner, r, n, i);
    let q = e.pin_windows(app_id, pin.owner, r, n);
    law_tiling_moves_windows_only(q);
    lemma_pins_keep_sound(e, app_id, pin.owner, r, n);
    let w = d.windows[i];
    if w.app_id@ == app_id || (pin.owner is Some && w.pid == pin.owner) {
        crate::window_laws::law_windows_without_a_tile_stay(q, i);
    }
}

proof fn lemma_pins_keep_sound(
    d: Desk,
    app_id: Seq<char>,
    owner: Option<i32>,
    r: Rectangle,
    n: nat,
)
    requires
        d.sound(),
        n <= d.windows.len(),
    ensures
        d.pin_windows(app_id, owner, r, n).sound(),
        d.pin_windows(app_id, owner, r, n).windows == d.windows,
    decreases n,
{
    if n > 0 {
        let m = (n - 1) as nat;
        lemma_pins_keep_sound(d, app_id, owner, r, m);
        let before = d.pin_windows(app_id, owner, r, m);
        lemma_pin_windows(d, app_id, owner, r, m, n - 1);
        let u = d.windows[n - 1];
        law_map_moves_one_window(before.space, u.window, r.loc, u.window);
        law_raise_keeps_places(mapped(before.space, u.window, r.loc), u.window, u.window);
    }
}

proof fn lemma_hide_spares(d: Desk, n: nat, v: u64)
    requires
        n <= d.windows.len(),
        forall|i: int|
            0 <= i < n && (#[trigger] d.windows[i]).workspace == d.active ==> d.windows[i].window
                != v,
    ensures
        location_in(d.hide_workspace(n).space, v) == location_in(d.space, v),
    decreases n,
{
    if n > 0 {
        let m = (n - 1) as nat;
        lemma_hide_spares(d, m, v);
        law_unmap_removes_one_window(d.hide_workspace(m).space, d.windows[n - 1].window, v);
    }
}

proof fn lemma_hides_are_asked(d: Desk, n: nat, i: int)
    requires
        0 <= i < n <= d.windows.len(),
        d.windows[i].workspace == d.active,
    ensures
        d.hide_workspace(n).effects.contains(Effect::Hide { window: d.windows[i].window }),
    decreases n,
{
    let m = (n - 1) as nat;
    let before = d.hide_workspace(m).effects;
    let e = Effect::Hide { window: d.windows[i].window };
    if i == m {
        assert(d.hide_workspace(n).effects[before.len() as int] == e);
    } else {
        lemma_hides_are_asked(d, m, i);
        let k = choose|k: int| 0 <= k < before.len() && before[k] == e;
        assert(d.hide_workspace(n).effects[k] == e);
    }
}

proof fn lemma_shows_are_asked(d: Desk, ws: u32, n: nat, i: int, e: Effect)
    requires
        0 <= i < n <= d.windows.len(),
        d.effects.contains(e) || (d.windows[i].workspace == ws && !d.windows[i].is_minimized && e
            == (Effect::Show {
            window: d.windows[i].window,
            location: match d.windows[i].saved_workspace_location {
                Some(p) => p,
                None => Point { x: 80, y: 60 },
            },
            activate: false,
        })),
    ensures
        d.show_workspace(ws, n).effects.contains(e),
    decreases n,
{
    let m = (n - 1) as nat;
    let before = d.show_workspace(ws, m).effects;
    let after = d.show_workspace(ws, n).effects;
    if d.effects.contains(e) {
        if m == 0 {
            assert(before == d.effects);
        } else {
            lemma_shows_are_asked(d, ws, m, 0, e);
        }
        let k = choose|k: int| 0 <= k < before.len() && before[k] == e;
        assert(after[k] == e);
    } else if i == m {
        assert(after[before.len() as int] == e);
    } else {
        lemma_shows_are_asked(d, ws, m, i, e);
        let k = choose|k: int| 0 <= k < before.len() && before[k] == e;
        assert(after[k] == e);
    }
}

/// Going to another workspace makes it the active one. The windows of the old one are not
/// shown any more, and their places are kept in mind; those of the new one are shown,
/// unless they are minimized: where they were when they were last shown, or at (80, 60).
/// All other windows stay as they are. The focus stays where it is.
pub proof fn law_going_to_a_workspace_shows_its_windows(d: Desk, target: u32, i: int)
    requires
        d.sound(),
        target != d.active,
        target < d.workspace_count(),
        !d.tiling.contains(target),
        0 <= i < d.windows.len(),
    ensures
        ({
            let s = d.switched(target);
            let w = d.windows[i];
            let at = match w.saved_workspace_location {
                Some(p) => p,
                None => Point { x: 80, y: 60 },
            };
            let leaves = w.workspace == d.active;
            let arrives = w.workspace == target && !w.is_minimized;
            &&& s.active == target
            &&& s.focused == d.focused
            &&& s.windows.len() == d.windows.len()
            &&& leaves ==> location_in(s.space, w.window) is None
            &&& leaves ==> s.windows[i] == (ManagedWindow {
                saved_workspace_location: location_in(d.space, w.window),
                ..w
            })
            &&& leaves ==> s.effects.contains(Effect::Hide { window: w.window })
            &&& arrives ==> location_in(s.space, w.window) == Some(at)
            &&& arrives ==> s.effects.contains(
                Effect::Show { window: w.window, location: at, activate: false },
            )
            &&& !leaves ==> s.windows[i] == w
            &&& !leaves && !arrives ==> location_in(s.space, w.window) == location_in(
                d.space,
                w.window,
            )
        }),
{
    let w = d.windows[i];
    let kept = Desk { windows: d.remembered(), ..d };
    let n = kept.windows.len();
    lemma_remembered_handles(d);
    lemma_exchange_frame(d, target);
    lemma_hide_workspace(kept, n);
    let hidden = kept.hide_workspace(n);
    lemma_show_workspace(hidden, target, n);
    assert(hidden.windows[i].window == w.window);
    assert(kept.windows[i].workspace == w.workspace);
    let at = match w.saved_workspace_location {
        Some(p) => p,
        None => Point { x: 80, y: 60 },
    };
    if w.workspace == d.active {
        lemma_hides_are_asked(kept, n, i);
        lemma_shows_are_asked(hidden, target, n, i, Effect::Hide { window: w.window });
    } else {
        assert forall|j: int|
            0 <= j < n && (#[trigger] kept.windows[j]).workspace
                == kept.active implies kept.windows[j].window != w.window by {
            assert(kept.windows[j].window == d.windows[j].window);
            if j < i {
                assert(d.windows[j].window != d.windows[i].window);
            } else {
                assert(d.windows[i].window != d.windows[j].window);
            }
        }
        lemma_hide_spares(kept, n, w.window);
        if w.workspace == target && !w.is_minimized {
            lemma_shows_are_asked(
                hidden,
                target,
                n,
                i,
                Effect::Show { window: w.window, location: at, activate: false },
            );
        }
    }
}

/// Tiling is turned on or off for one workspace and for no other. Turned off, or for a
/// workspace that is not the active one, it leaves the windows where they are.
pub proof fn law_tiling_is_set_for_one_workspace(d: Desk, workspace: u32, on: bool, other: u32)
    ensures
        ({
            let t = d.tiling_set(workspace, on);
            &&& t.tiling.contains(workspace) == on
            &&& other != workspace ==> t.tiling.contains(other) == d.tiling.contains(other)
            &&& !on && workspace == d.active ==> t == (Desk { tiling: t.tiling, ..d })
            &&& workspace != d.active ==> t == (Desk { tiling: t.tiling, ..d })
            &&& on && workspace == d.active ==> t == (Desk { tiling: t.tiling, ..d }).tiled()
        }),
{
    let e = Desk {
        tiling: if on {
            d.tiling.insert(workspace)
        } else {
            d.tiling.remove(workspace)
        },
        ..d
    };
    law_tiling_moves_windows_only(e);
}

/// Toggling the tiling is turning it off for the active workspace where it is on, and on
/// where it is off.
pub proof fn law_toggling_the_tiling_sets_it(d: Desk)
    ensures
        d.tiling.contains(d.active) ==> d.tiling_toggled() == d.tiling_set(d.active, false),
        !d.tiling.contains(d.active) ==> d.tiling_toggled() == d.tiling_set(d.active, true),
{
}

/// Letting a window float, or not any more, concerns that window alone; no window is
/// changed otherwise, and none moves unless the workspace is tiled.
pub proof fn law_one_window_floats(d: Desk, id: u64, other: u64)
    ensures
        ({
            let f = d.floating_toggled(id);
            &&& f.floating.contains(id) == !d.floating.contains(id)
            &&& other != id ==> f.floating.contains(other) == d.floating.contains(other)
            &&& f.windows == d.windows
            &&& !d.tiling.contains(d.active) ==> f == (Desk { floating: f.floating, ..d })
        }),
{
    law_tiling_moves_windows_only(
        Desk {
            floating: if d.floating.contains(id) {
                d.floating.remove(id)
            } else {
                d.floating.insert(id)
            },
            ..d
        },
    );
}

/// The share of the master is taken over as it is from one tenth to nine tenths, and held
/// to these bounds otherwise; what is no number stays none. Nothing else of the settings
/// changes. The shares are single-precision bit patterns.
pub proof fn law_the_share_stays_within_its_bounds(d: Desk, ratio: u32)
    ensures
        ({
            let r = d.ratio_set(ratio);
            &&& 0x3DCC_CCCD <= ratio <= 0x3F66_6666 ==> r.config.master_ratio == ratio
            &&& ratio < 0x3DCC_CCCD ==> r.config.master_ratio == 0x3DCC_CCCD
            &&& 0x8000_0000 <= ratio <= 0xFF80_0000 ==> r.config.master_ratio == 0x3DCC_CCCD
            &&& 0x3F66_6666 < ratio <= 0x7F80_0000 ==> r.config.master_ratio == 0x3F66_6666
            &&& 0x7F80_0000 < ratio < 0x8000_0000 ==> r.config.master_ratio == ratio
            &&& ratio > 0xFF80_0000 ==> r.config.master_ratio == ratio
            &&& r.config.workspace_count == d.config.workspace_count
            &&& r.config.gaps == d.config.gaps
            &&& r.config.border_width == d.config.border_width
            &&& r.config.idle_dim_timeout_secs == d.config.idle_dim_timeout_secs
            &&& r.windows == d.windows
            &&& r == (Desk { config: r.config, ..d }).tiled()
        }),
{
    let config = crate::desk::CompositorConfig {
        master_ratio: crate::single::clamped(ratio as int) as u32,
        ..d.config
    };
    law_tiling_moves_windows_only(Desk { config, ..d });
}

proof fn lemma_first_tiled(d: Desk, n: nat, a: int)
    requires
        0 <= a < n <= d.windows.len(),
        d.is_tiled(a),
        forall|j: int| 0 <= j < a ==> !(#[trigger] d.is_tiled(j)),
    ensures
        d.tiled_ids(n).len() > 0,
        d.tiled_ids(n)[0] == d.windows[a].id,
    decreases n,
{
    let m = (n - 1) as nat;
    if a < m {
        lemma_first_tiled(d, m, a);
    } else {
        lemma_none_tiled(d, m);
    }
}

proof fn lemma_none_tiled(d: Desk, n: nat)
    requires
        n <= d.windows.len(),
        forall|j: int| 0 <= j < n ==> !(#[trigger] d.is_tiled(j)),
    ensures
        d.tiled_ids(n).len() == 0,
    decreases n,
{
    if n > 0 {
        lemma_none_tiled(d, (n - 1) as nat);
        assert(!d.is_tiled(n - 1));
    }
}

/// Swapping with the master exchanges the focused window with the first of the tiled ones
/// and leaves all others where they stand in the order; the focus stays.
pub proof fn law_the_focused_window_becomes_the_master(d: Desk, a: int, b: int)
    requires
        d.sound(),
        0 <= a < d.windows.len(),
        0 <= b < d.windows.len(),
        d.windows[a].workspace == d.active && !d.windows[a].is_minimized
            && !d.windows[a].is_maximized && !d.floating.contains(d.windows[a].id),
        forall|j: int|
            0 <= j < a ==> (#[trigger] d.windows[j]).workspace != d.active
                || d.windows[j].is_minimized || d.windows[j].is_maximized || d.floating.contains(
                d.windows[j].id,
            ),
        d.focused == Some(d.windows[b].id),
    ensures
        ({
            let m = d.master_swapped();
            &&& m.windows.len() == d.windows.len()
            &&& m.windows[a] == d.windows[b]
            &&& m.windows[b] == d.windows[a]
            &&& forall|j: int|
                0 <= j < d.windows.len() && j != a && j != b ==> #[trigger] m.windows[j]
                    == d.windows[j]
            &&& a == b ==> m == d
            &&& m.focused == d.focused
            &&& m.active == d.active && m.tiling == d.tiling && m.floating == d.floating
            &&& !d.tiling.contains(d.active) ==> m == (Desk { windows: m.windows, ..d })
        }),
{
    assert forall|j: int| 0 <= j < a implies !(#[trigger] d.is_tiled(j)) by {
        assert(d.windows[j].id == d.windows[j].id);
    }
    lemma_first_tiled(d, d.windows.len(), a);
    lemma_found(d, a);
    lemma_found(d, b);
    if a != b {
        law_tiling_moves_windows_only(
            Desk { windows: d.windows.update(a, d.windows[b]).update(b, d.windows[a]), ..d },
        );
    }
}

/// Without a focused window or without a tiled one there is nothing to swap.
pub proof fn law_nothing_is_swapped_without_a_master(d: Desk)
    requires
        d.focused is None || forall|j: int|
            0 <= j < d.windows.len() ==> (#[trigger] d.windows[j]).workspace != d.active
                || d.windows[j].is_minimized || d.windows[j].is_maximized || d.floating.contains(
                d.windows[j].id,
            ),
    ensures
        d.master_swapped() == d,
{
    if d.focused is Some {
        assert forall|j: int| 0 <= j < d.windows.len() implies !(#[trigger] d.is_tiled(j)) by {
            assert(d.windows[j].id == d.windows[j].id);
        }
        lemma_none_tiled(d, d.windows.len());
    }
}

/// A window that can be seen on the active workspace.
pub open spec fn is_seen(d: Desk, i: int) -> bool {
    &&& 0 <= i < d.windows.len()
    &&& d.windows[i].workspace == d.active
    &&& !d.windows[i].is_minimized
}

proof fn lemma_seen_before(d: Desk, m: nat, n: nat)
    requires
        m <= n <= d.windows.len(),
        forall|j: int| m <= j < n ==> !(#[trigger] is_seen(d, j)),
    ensures
        d.visible_ids(n) == d.visible_ids(m),
    decreases n,
{
    if m < n {
        lemma_seen_before(d, m, (n - 1) as nat);
        assert(!is_seen(d, n - 1));
    }
}

proof fn lemma_seen_begins(d: Desk, m: nat, n: nat)
    requires
        m <= n <= d.windows.len(),
    ensures
        d.visible_ids(m).len() <= d.visible_ids(n).len(),
        forall|k: int|
            0 <= k < d.visible_ids(m).len() ==> d.visible_ids(n)[k] == #[trigger] d.visible_ids(
                m,
            )[k],
    decreases n,
{
    if m < n {
        lemma_seen_begins(d, m, (n - 1) as nat);
    }
}

proof fn lemma_seen_rank(d: Desk, i: int)
    requires
        d.sound(),
        is_seen(d, i),
    ensures
        ({
            let ids = d.visible_ids(d.windows.len());
            let k = d.visible_ids(i as nat).len();
            &&& k < ids.len()
            &&& ids[k as int] == d.windows[i].id
            &&& crate::window::rank(ids, d.windows[i].id) == k
        }),
{
    let n = d.windows.len();
    let ids = d.visible_ids(n);
    let before = d.visible_ids(i as nat);
    let with = d.visible_ids((i + 1) as nat);
    assert(with == before.push(d.windows[i].id));
    lemma_seen_begins(d, (i + 1) as nat, n);
    assert(with[before.len() as int] == d.windows[i].id);
    assert(ids[before.len() as int] == d.windows[i].id);
    lemma_seen_begins(d, i as nat, n);
    assert forall|k: int| 0 <= k < before.len() implies #[trigger] ids[k] != d.windows[i].id by {
        assert(ids[k] == before[k]);
        lemma_seen_window(d, i as nat, k);
        let t = choose|t: int| 0 <= t < i && (#[trigger] d.windows[t]).id == before[k];
        assert(d.windows[t].id != d.windows[i].id);
    }
    lemma_rank_is(ids, d.windows[i].id, before.len() as int);
}

proof fn lemma_seen_window(d: Desk, n: nat, k: int)
    requires
        n <= d.windows.len(),
        0 <= k < d.visible_ids(n).len(),
    ensures
        exists|t: int| 0 <= t < n && (#[trigger] d.windows[t]).id == d.visible_ids(n)[k],
    decreases n,
{
    let m = (n - 1) as nat;
    if k < d.visible_ids(m).len() {
        lemma_seen_window(d, m, k);
        assert(d.visible_ids(n)[k] == d.visible_ids(m)[k]);
        let t = choose|t: int| 0 <= t < m && (#[trigger] d.windows[t]).id == d.visible_ids(m)[k];
        assert(d.windows[t].id == d.visible_ids(n)[k]);
    } else {
        assert(d.windows[n - 1].id == d.visible_ids(n)[k]);
    }
}

/// The window after the focused one is the next in the order of the windows that can be
/// seen on the active workspace, and the one before it the previous.
pub proof fn law_the_focus_goes_in_order(d: Desk, i: int, j: int)
    requires
        d.sound(),
        i < j,
        is_seen(d, i),
        is_seen(d, j),
        forall|k: int| i < k < j ==> !(#[trigger] is_seen(d, k)),
    ensures
        d.focused == Some(d.windows[i].id) ==> d.next_focus() == Some(d.windows[j].id),
        d.focused == Some(d.windows[j].id) ==> d.previous_focus() == Some(d.windows[i].id),
{
    lemma_seen_rank(d, i);
    lemma_seen_rank(d, j);
    assert(d.visible_ids((i + 1) as nat) == d.visible_ids(i as nat).push(d.windows[i].id));
    lemma_seen_before(d, (i + 1) as nat, j as nat);
    let len = d.visible_ids(d.windows.len()).len() as int;
    let k = d.visible_ids(i as nat).len() as int;
    vstd::arithmetic::div_mod::lemma_small_mod((k + 1) as nat, len as nat);
    vstd::arithmetic::div_mod::lemma_small_mod(k as nat, len as nat);
    vstd::arithmetic::div_mod::lemma_mod_add_multiples_vanish(k, len);
}

/// After the last of these windows comes the first, and before the first the last. Where
/// none of them has the focus, the first is next, and the last is the one before.
pub proof fn law_the_focus_goes_round(d: Desk, i: int, j: int)
    requires
        d.sound(),
        i <= j,
        is_seen(d, i),
        is_seen(d, j),
        forall|k: int| 0 <= k < i ==> !(#[trigger] is_seen(d, k)),
        forall|k: int| j < k < d.windows.len() ==> !(#[trigger] is_seen(d, k)),
    ensures
        d.focused == Some(d.windows[j].id) ==> d.next_focus() == Some(d.windows[i].id),
        d.focused == Some(d.windows[i].id) ==> d.previous_focus() == Some(d.windows[j].id),
        d.focused is None ==> d.next_focus() == Some(d.windows[i].id),
        d.focused is None ==> d.previous_focus() == Some(d.windows[j].id),
{
    let n = d.windows.len();
    lemma_seen_rank(d, i);
    lemma_seen_rank(d, j);
    lemma_seen_before(d, 0, i as nat);
    lemma_seen_before(d, (j + 1) as nat, n);
    assert(d.visible_ids((j + 1) as nat) == d.visible_ids(j as nat).push(d.windows[j].id));
    let len = d.visible_ids(n).len() as int;
    vstd::arithmetic::div_mod::lemma_mod_self_0(len);
    vstd::arithmetic::div_mod::lemma_small_mod((len - 1) as nat, len as nat);
}

/// A window whose surface is gone is managed no more, not shown, and does not float; the
/// others are as they were, and where they were unless they are tiled.
pub proof fn law_gone_windows_are_forgotten(d: Desk, surface: u64, i: int, v: u64)
    requires
        0 <= i < d.windows.len(),
        d.windows[i].surface == Some(surface),
        forall|k: int| 0 <= k < i ==> (#[trigger] d.windows[k]).surface != Some(surface),
        !d.tiling.contains(d.active),
    ensures
        ({
            let f = d.forgotten(surface);
            let w = d.windows[i];
            &&& f.windows == d.windows.remove(i)
            &&& location_in(f.space, w.window) is None
            &&& v != w.window ==> location_in(f.space, v) == location_in(d.space, v)
            &&& !f.floating.contains(w.id)
            &&& forall|id: u64|
                id != w.id ==> (#[trigger] f.floating.contains(id)) == d.floating.contains(id)
            &&& f.effects == d.effects.push(Effect::Hide { window: w.window })
            &&& f == (Desk {
                windows: f.windows,
                space: f.space,
                floating: f.floating,
                effects: f.effects,
                ..d
            })
        }),
{
    lemma_surface_position_is(d.windows, surface, i);
    law_unmap_removes_one_window(d.space, d.windows[i].window, v);
}

} // verus!
