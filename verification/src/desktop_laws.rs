//! What holds of the session whatever is done to it.
use vstd::arithmetic::div_mod::{
    lemma_mod_add_multiples_vanish, lemma_mod_self_0, lemma_small_mod,
};
use vstd::prelude::*;

use crate::config::Config;
use crate::desktop::{
    entries_on, entry_of, taken, Desktop, MetaEntry, PinnedSurface, Shown, WindowMeta,
};
use crate::desktop_input::{
    KEY_1, KEY_4, KEY_DOWN, KEY_F4, KEY_LEFT, KEY_PRINT, KEY_RIGHT, KEY_SUPER_L, KEY_SUPER_R, KEY_T,
    KEY_TAB, KEY_UP,
};
use crate::geometry::{Point, Rectangle};
use crate::grabs::Travel;
use crate::keybind::Modifiers;

verus! {

/// Where a window is shown, if it is.
pub open spec fn place_of(s: Seq<Shown>, w: u64) -> Option<Point>
    decreases s.len(),
{
    if s.len() == 0 {
        None
    } else if s.last().window == w {
        Some(s.last().location)
    } else {
        place_of(s.drop_last(), w)
    }
}

pub proof fn lemma_entry(s: Seq<MetaEntry>, id: u64)
    ensures
        entry_of(s, id) <= s.len(),
        entry_of(s, id) < s.len() ==> s[entry_of(s, id) as int].id == id,
        forall|k: int| 0 <= k < entry_of(s, id) ==> (#[trigger] s[k]).id != id,
    decreases s.len(),
{
    if s.len() > 0 && s[0].id != id {
        let t = s.skip(1);
        lemma_entry(t, id);
        assert forall|k: int| 0 <= k < entry_of(s, id) implies (#[trigger] s[k]).id != id by {
            if k > 0 {
                assert(s[k] == t[k - 1]);
            }
        }
    }
}

pub proof fn lemma_taken(s: Seq<Shown>, w: u64, v: u64)
    requires
        w != v,
    ensures
        place_of(taken(s, w), v) == place_of(s, v),
    decreases s.len(),
{
    if s.len() > 0 {
        lemma_taken(s.drop_last(), w, v);
        if s.last().window != w {
            let t = taken(s.drop_last(), w).push(s.last());
            assert(t.drop_last() =~= taken(s.drop_last(), w));
        }
    }
}

/// Everything but the shown windows and the requests.
pub open spec fn same_but_shown(a: Desktop, b: Desktop) -> bool {
    &&& a.metas == b.metas
    &&& a.outputs == b.outputs
    &&& a.current == b.current
    &&& a.count == b.count
    &&& a.tiling == b.tiling
    &&& a.pinned == b.pinned
    &&& a.panels == b.panels
    &&& a.config == b.config
}

proof fn lemma_put_all(d: Desktop, windows: Seq<Shown>, area: Rectangle, n: nat)
    ensures
        same_but_shown(d.put_all(windows, area, n), d),
    decreases n,
{
    if n > 0 {
        lemma_put_all(d, windows, area, (n - 1) as nat);
    }
}

/// Tiling moves windows and does nothing else.
pub proof fn law_tiling_only_moves_windows(d: Desktop, workspace: usize)
    ensures
        same_but_shown(d.tiled(workspace), d),
{
    match d.primary_output() {
        Some(area) => {
            let windows = d.tiled_windows(workspace, d.shown.len());
            lemma_put_all(d, windows, area, windows.len());
        },
        None => {},
    }
}

proof fn lemma_put_all_spares(d: Desktop, windows: Seq<Shown>, area: Rectangle, n: nat, v: u64)
    requires
        n <= windows.len(),
        forall|k: int| 0 <= k < n ==> (#[trigger] windows[k]).window != v,
    ensures
        place_of(d.put_all(windows, area, n).shown, v) == place_of(d.shown, v),
    decreases n,
{
    if n > 0 {
        lemma_put_all_spares(d, windows, area, (n - 1) as nat, v);
        let before = d.put_all(windows, area, (n - 1) as nat).shown;
        let w = windows[n - 1];
        lemma_taken(before, w.window, v);
        let after = d.put_all(windows, area, n).shown;
        assert(after.drop_last() =~= taken(before, w.window));
        assert(after.last().window == w.window);
    }
}

pub proof fn lemma_tiled_windows(d: Desktop, workspace: usize, n: nat, k: int)
    requires
        n <= d.shown.len(),
        0 <= k < d.tiled_windows(workspace, n).len(),
    ensures
        exists|i: int|
            0 <= i < n && #[trigger] d.shown[i] == d.tiled_windows(workspace, n)[k] && d.in_tiling(
                d.shown[i],
                workspace,
            ),
    decreases n,
{
    let before = d.tiled_windows(workspace, (n - 1) as nat);
    if k < before.len() {
        lemma_tiled_windows(d, workspace, (n - 1) as nat, k);
        assert(d.tiled_windows(workspace, n)[k] == before[k]);
    } else {
        assert(d.shown[n - 1] == d.tiled_windows(workspace, n)[k]);
    }
}

/// Tiling a workspace leaves every window in its place that does not take part: one on
/// another workspace, a floating one, a minimized one.
pub proof fn law_tiling_spares_other_windows(d: Desktop, workspace: usize, v: u64)
    requires
        forall|i: int|
            0 <= i < d.shown.len() && (#[trigger] d.shown[i]).window == v ==> !d.in_tiling(
                d.shown[i],
                workspace,
            ),
    ensures
        place_of(d.tiled(workspace).shown, v) == place_of(d.shown, v),
{
    match d.primary_output() {
        Some(area) => {
            let windows = d.tiled_windows(workspace, d.shown.len());
            assert forall|k: int| 0 <= k < windows.len() implies (#[trigger] windows[k]).window
                != v by {
                lemma_tiled_windows(d, workspace, d.shown.len(), k);
            }
            lemma_put_all_spares(d, windows, area, windows.len(), v);
        },
        None => {},
    }
}

/// Without tiling on a workspace, nothing is moved there.
pub proof fn law_untiled_workspaces_stay(d: Desktop, workspace: usize)
    requires
        !d.tiling.contains(workspace),
    ensures
        d.tiled(workspace) == d,
{
}

proof fn lemma_with_meta_sound(d: Desktop, id: u64, meta: WindowMeta)
    requires
        d.sound(),
        d.knows(id),
    ensures
        d.with_meta(id, meta).sound(),
{
    lemma_entry(d.metas, id);
}

proof fn lemma_tiled_sound(d: Desktop, workspace: usize)
    requires
        d.sound(),
    ensures
        d.tiled(workspace).sound(),
{
    law_tiling_only_moves_windows(d, workspace);
}

/// Switching keeps the session sound, and leads to the workspace that is meant: the
/// last one for an index beyond it.
pub proof fn law_switching_stays_in_range(d: Desktop, index: usize)
    requires
        d.sound(),
    ensures
        d.switched(index).sound(),
        d.switched(index).current == d.meant(index),
        d.switched(index).current < d.count,
        index < d.count ==> d.switched(index).current == index,
{
    let next = d.meant(index);
    let e = Desktop { current: next, ..d };
    let e = if d.current != next {
        e.ask(crate::desktop::Request::WorkspaceSwitched { from: d.current, to: next })
    } else {
        e
    };
    law_tiling_only_moves_windows(e, next);
}

/// What is done to windows keeps the session sound.
pub proof fn law_operations_keep_the_session_sound(
    d: Desktop,
    id: u64,
    workspace: usize,
    on: bool,
    area: Option<Rectangle>,
    pin: PinnedSurface,
)
    requires
        d.sound(),
    ensures
        d.moved(id, workspace).sound(),
        d.tiling_set(workspace, on).sound(),
        d.pinned_to(pin).sound(),
        d.focused(id).sound(),
        d.closed(id).sound(),
        d.minimized_set(id, on).sound(),
        d.maximized(id, on, area).sound(),
        d.floating_toggled(id).sound(),
        d.cycled(on).sound(),
        d.selected().sound(),
{
    lemma_entry(d.metas, id);
    let target = d.meant(workspace);
    if d.knows(id) {
        let previous = d.meta(id).workspace;
        let e = d.with_meta(id, WindowMeta { workspace: target, ..d.meta(id) });
        lemma_with_meta_sound(d, id, WindowMeta { workspace: target, ..d.meta(id) });
        lemma_tiled_sound(e, previous);
        lemma_tiled_sound(e.tiled(previous), target);
        let m = d.meta(id);
        lemma_with_meta_sound(d, id, WindowMeta { is_minimized: on, ..m });
        lemma_with_meta_sound(
            d,
            id,
            WindowMeta { is_floating: m.is_floating && !on, is_maximized: on, ..m },
        );
        lemma_with_meta_sound(d, id, WindowMeta { is_floating: !m.is_floating, ..m });
    } else {
        lemma_tiled_sound(d, target);
    }
    let t = Desktop {
        tiling: if on {
            d.tiling.insert(workspace)
        } else {
            d.tiling.remove(workspace)
        },
        ..d
    };
    lemma_tiled_sound(t, workspace);
}

/// Opening and destroying windows keeps the session sound.
pub proof fn law_windows_keep_the_session_sound(
    d: Desktop,
    w: Shown,
    blank: WindowMeta,
    id: u64,
    surface: u64,
)
    requires
        d.sound(),
    ensures
        d.opened(w, blank).sound(),
        d.destroyed(id, surface).sound(),
{
    let n = d.shown.len() as int;
    let e = d.show(w, crate::geometry::point(n * 30 + 150, n * 30 + 80), true);
    lemma_entry(e.metas, w.id);
    let entry = MetaEntry { id: w.id, meta: WindowMeta { workspace: d.current, ..blank } };
    let i = entry_of(e.metas, w.id) as int;
    let f = Desktop {
        metas: if i < e.metas.len() {
            e.metas.update(i, entry)
        } else {
            e.metas.push(entry)
        },
        ..e
    }.ask(crate::desktop::Request::Mapped { id: w.id });
    assert(f.sound());
    lemma_tiled_sound(f, d.current);
    let k = entry_of(d.metas, id) as int;
    if k < d.metas.len() {
        let m = d.metas.remove(k);
        assert forall|i: int, j: int| 0 <= i < j < m.len() implies (#[trigger] m[i]).id != (
        #[trigger] m[j]).id by {
            let a = if i < k {
                i
            } else {
                i + 1
            };
            let b = if j < k {
                j
            } else {
                j + 1
            };
            assert(m[i] == d.metas[a] && m[j] == d.metas[b]);
        }
    }
}

/// Keys keep the session sound.
pub proof fn law_keys_keep_the_session_sound(
    d: Desktop,
    mods: Modifiers,
    sym: u32,
    pressed: bool,
    focus: Option<u64>,
)
    requires
        d.sound(),
    ensures
        d.keyed(mods, sym, pressed, focus).0.sound(),
{
    let noted = d.super_noted();
    law_switching_stays_in_range(noted, (sym - KEY_1) as usize);
    law_switching_stays_in_range(noted, d.meant((d.current + 1) as usize));
    law_switching_stays_in_range(
        noted,
        if d.current == 0 {
            0
        } else {
            (d.current - 1) as usize
        },
    );
    match d.keyboard_window(focus) {
        Some(w) => {
            lemma_entry(d.metas, w.id);
            if d.knows(w.id) {
                let m = d.meta(w.id);
                lemma_with_meta_sound(noted, w.id, WindowMeta { is_minimized: true, ..m });
                lemma_with_meta_sound(d, w.id, WindowMeta { is_floating: !m.is_floating, ..m });
            }
        },
        None => {},
    }
    match d.bound_action(mods, sym) {
        Some(action) => {
            match crate::desktop_input::named_workspace(action) {
                Some(n) => {
                    law_switching_stays_in_range(d, (n - 1) as usize);
                },
                None => {},
            }
        },
        None => {},
    }
}

/// Clicks and swipes keep the session sound.
pub proof fn law_pointers_keep_the_session_sound(
    d: Desktop,
    locked: bool,
    lock: Option<u64>,
    under: Option<u64>,
    travel: Travel,
    cancelled: bool,
)
    requires
        d.sound(),
    ensures
        d.clicked(locked, lock, under).sound(),
        d.swiped(travel, cancelled).sound(),
{
    law_switching_stays_in_range(d, ((d.current + 1) % d.count as int) as usize);
    law_switching_stays_in_range(d, ((d.current + d.count - 1) % d.count as int) as usize);
}

proof fn lemma_switched_count(d: Desktop, index: usize)
    ensures
        d.switched(index).count == d.count,
{
    let next = d.meant(index);
    let e = Desktop { current: next, ..d };
    law_tiling_only_moves_windows(e, next);
    law_tiling_only_moves_windows(
        e.ask(crate::desktop::Request::WorkspaceSwitched { from: d.current, to: next }),
        next,
    );
}

proof fn lemma_round(i: int, n: int)
    requires
        0 <= i < n,
    ensures
        0 <= (i + 1) % n < n,
        0 <= (i + n - 1) % n < n,
        ((i + 1) % n + n - 1) % n == i,
        ((i + n - 1) % n + 1) % n == i,
{
    lemma_small_mod(i as nat, n as nat);
    lemma_mod_add_multiples_vanish(i, n);
    lemma_mod_self_0(n);
    if i + 1 < n {
        lemma_small_mod((i + 1) as nat, n as nat);
    } else {
        lemma_small_mod((n - 1) as nat, n as nat);
    }
    if i == 0 {
        lemma_small_mod((n - 1) as nat, n as nat);
    } else {
        lemma_small_mod((i - 1) as nat, n as nat);
        lemma_mod_add_multiples_vanish(i - 1, n);
    }
}

/// A swipe to one side and a swipe back lead to the workspace one was on.
pub proof fn law_swipes_go_back(d: Desktop, left: Travel, right: Travel)
    requires
        d.sound(),
        left.ceil <= -crate::desktop_input::WORKSPACE_SWIPE_THRESHOLD,
        right.ceil > -crate::desktop_input::WORKSPACE_SWIPE_THRESHOLD,
        right.floor >= crate::desktop_input::WORKSPACE_SWIPE_THRESHOLD,
    ensures
        d.swiped(left, false).swiped(right, false).current == d.current,
        d.swiped(right, false).swiped(left, false).current == d.current,
{
    let n = d.count as int;
    let i = d.current as int;
    let next = (i + 1) % n;
    let previous = (i + n - 1) % n;
    lemma_round(i, n);
    law_switching_stays_in_range(d, next as usize);
    lemma_switched_count(d, next as usize);
    law_switching_stays_in_range(d.swiped(left, false), i as usize);
    law_switching_stays_in_range(d, previous as usize);
    lemma_switched_count(d, previous as usize);
    law_switching_stays_in_range(d.swiped(right, false), i as usize);
}

/// The selection of the switcher stays on a window; moved on and back it is where it
/// was.
pub proof fn law_the_switcher_wraps(d: Desktop)
    requires
        d.panels.switcher_index < d.shown.len(),
        d.shown.len() <= usize::MAX,
    ensures
        d.cycled(true).panels.switcher_index < d.shown.len(),
        d.cycled(false).panels.switcher_index < d.shown.len(),
        d.cycled(true).cycled(false) == d,
        d.cycled(false).cycled(true) == d,
{
    let n = d.shown.len() as int;
    let i = d.panels.switcher_index as int;
    lemma_round(i, n);
    assert(d.cycled(true).cycled(false) =~= d);
    assert(d.cycled(false).cycled(true) =~= d);
}

/// Floating toggled twice is as it was.
pub proof fn law_floating_toggles_back(d: Desktop, id: u64)
    ensures
        d.floating_toggled(id).floating_toggled(id) == d,
{
    lemma_entry(d.metas, id);
    if d.knows(id) {
        let e = d.floating_toggled(id);
        crate::blue::lemma_entry_is(e.metas, id, entry_of(d.metas, id) as int);
        assert(e.floating_toggled(id) =~= d) by {
            assert(e.floating_toggled(id).metas =~= d.metas);
        }
    }
}

/// A window that was minimized and is no more has every other property that it had.
pub proof fn law_minimizing_is_undone(d: Desktop, id: u64)
    requires
        d.knows(id),
        !d.meta(id).is_minimized,
    ensures
        d.minimized_set(id, true).meta(id).is_minimized,
        d.minimized_set(id, true).minimized_set(id, false) == d,
{
    lemma_entry(d.metas, id);
    let e = d.minimized_set(id, true);
    crate::blue::lemma_entry_is(e.metas, id, entry_of(d.metas, id) as int);
    assert(e.minimized_set(id, false).metas =~= d.metas);
}

/// A maximized window does not float.
pub proof fn law_maximized_windows_do_not_float(d: Desktop, id: u64, area: Option<Rectangle>)
    requires
        d.knows(id),
        crate::desktop::with_id(d.shown, id) < d.shown.len(),
    ensures
        d.maximized(id, true, area).meta(id).is_maximized,
        !d.maximized(id, true, area).meta(id).is_floating,
{
    lemma_entry(d.metas, id);
    let m = d.meta(id);
    let e = d.with_meta(
        id,
        WindowMeta { is_floating: m.is_floating && !true, is_maximized: true, ..m },
    );
    crate::blue::lemma_entry_is(e.metas, id, entry_of(d.metas, id) as int);
    assert(d.maximized(id, true, area).metas == e.metas);
}

/// A new window is on the current workspace.
pub proof fn law_new_windows_are_on_the_current_workspace(d: Desktop, w: Shown, blank: WindowMeta)
    ensures
        d.opened(w, blank).knows(w.id),
        d.opened(w, blank).meta(w.id).workspace == d.current,
{
    let n = d.shown.len() as int;
    let e = d.show(w, crate::geometry::point(n * 30 + 150, n * 30 + 80), true);
    lemma_entry(e.metas, w.id);
    let entry = MetaEntry { id: w.id, meta: WindowMeta { workspace: d.current, ..blank } };
    let i = entry_of(e.metas, w.id) as int;
    let f = Desktop {
        metas: if i < e.metas.len() {
            e.metas.update(i, entry)
        } else {
            e.metas.push(entry)
        },
        ..e
    }.ask(crate::desktop::Request::Mapped { id: w.id });
    crate::blue::lemma_entry_is(f.metas, w.id, i);
    law_tiling_only_moves_windows(f, d.current);
}

/// A window that a client destroyed has no entry any more.
pub proof fn law_destroyed_windows_are_forgotten(d: Desktop, id: u64, surface: u64)
    requires
        d.sound(),
    ensures
        !d.destroyed(id, surface).knows(id),
{
    lemma_entry(d.metas, id);
    let k = entry_of(d.metas, id) as int;
    let e = d.destroyed(id, surface);
    assert forall|j: int| 0 <= j < e.metas.len() implies (#[trigger] e.metas[j]).id != id by {
        if k < d.metas.len() {
            if j < k {
                assert(e.metas[j] == d.metas[j]);
            } else {
                assert(e.metas[j] == d.metas[j + 1]);
                assert(d.metas[k].id != d.metas[j + 1].id);
            }
        } else {
            assert(e.metas[j] == d.metas[j]);
        }
    }
    crate::blue::lemma_entry_is(e.metas, id, e.metas.len() as int);
}

/// A key that the client gets changes nothing.
pub proof fn law_forwarded_keys_change_nothing(
    d: Desktop,
    mods: Modifiers,
    sym: u32,
    pressed: bool,
    focus: Option<u64>,
)
    ensures
        !d.keyed(mods, sym, pressed, focus).1 ==> d.keyed(mods, sym, pressed, focus).0 == d,
{
}

/// Whether a key, pressed, is one of the built-in combinations.
pub open spec fn is_built_in(mods: Modifiers, sym: u32) -> bool {
    ||| mods.alt && (sym == KEY_TAB || sym == KEY_F4)
    ||| sym == KEY_SUPER_L || sym == KEY_SUPER_R
    ||| mods.super_ && (sym == KEY_TAB || (KEY_1 <= sym && sym <= KEY_4) || sym == KEY_RIGHT || sym
        == KEY_LEFT || sym == KEY_UP || sym == KEY_DOWN)
    ||| mods.ctrl && mods.alt && sym == KEY_T
    ||| sym == KEY_PRINT
}

/// The configuration can not take a built-in combination over: whatever it binds, the
/// key does the same to the panels and the current workspace, and no client gets it.
pub proof fn law_built_in_keys_can_not_be_rebound(
    d: Desktop,
    bindings: Vec<(String, String)>,
    mods: Modifiers,
    sym: u32,
    focus: Option<u64>,
)
    requires
        d.sound(),
        is_built_in(mods, sym),
    ensures
        ({
            let other = Desktop {
                config: Config { keybindings: bindings, ..d.config },
                ..d
            };
            &&& d.keyed(mods, sym, true, focus).1
            &&& other.keyed(mods, sym, true, focus).1
            &&& other.keyed(mods, sym, true, focus).0.panels == d.keyed(
                mods,
                sym,
                true,
                focus,
            ).0.panels
            &&& other.keyed(mods, sym, true, focus).0.current == d.keyed(
                mods,
                sym,
                true,
                focus,
            ).0.current
        }),
{
    let other = Desktop { config: Config { keybindings: bindings, ..d.config }, ..d };
    lemma_switched_panels(d.super_noted(), (sym - KEY_1) as usize);
    lemma_switched_panels(other.super_noted(), (sym - KEY_1) as usize);
    lemma_switched_panels(d.super_noted(), d.meant((d.current + 1) as usize));
    lemma_switched_panels(other.super_noted(), d.meant((d.current + 1) as usize));
    let left = if d.current == 0 {
        0
    } else {
        (d.current - 1) as usize
    };
    lemma_switched_panels(d.super_noted(), left);
    lemma_switched_panels(other.super_noted(), left);
}

proof fn lemma_switched_panels(d: Desktop, index: usize)
    ensures
        d.switched(index).panels == d.panels,
        d.switched(index).current == d.meant(index),
{
    let next = d.meant(index);
    let e = Desktop { current: next, ..d };
    law_tiling_only_moves_windows(e, next);
    law_tiling_only_moves_windows(
        e.ask(crate::desktop::Request::WorkspaceSwitched { from: d.current, to: next }),
        next,
    );
}

/// Alt+Shift+Tab moves the selection of an open switcher the other way than Alt+Tab.
pub proof fn law_shift_turns_the_switcher_around(d: Desktop, mods: Modifiers, focus: Option<u64>)
    requires
        d.panels.show_switcher,
        mods.alt,
    ensures
        mods.shift ==> d.keyed(mods, KEY_TAB, true, focus) == (d.cycled(false), true),
        !mods.shift ==> d.keyed(mods, KEY_TAB, true, focus) == (d.cycled(true), true),
{
}

/// Super pressed and released alone toggles the start menu; pressed, used with another
/// key and released it does not.
pub proof fn law_super_alone_opens_the_start_menu(d: Desktop)
    ensures
        d.super_key(true).super_key(false).panels.start_menu_visible
            == !d.panels.start_menu_visible,
        d.super_key(true).super_noted().super_key(false).panels.start_menu_visible
            == d.panels.start_menu_visible,
{
}

/// While the session is locked, a click gives the keyboard to the lock or to no one,
/// and no window is raised.
pub proof fn law_a_locked_session_reaches_no_window(
    d: Desktop,
    lock: Option<u64>,
    under: Option<u64>,
)
    ensures
        d.clicked(true, lock, under).shown == d.shown,
        d.clicked(true, lock, under).requests == d.requests.push(
            crate::desktop::Request::Focus { surface: lock },
        ),
{
}

/// How many entries the workspaces below `count` have together.
pub open spec fn total_on(s: Seq<MetaEntry>, count: nat) -> nat
    decreases count,
{
    if count == 0 {
        0
    } else {
        total_on(s, (count - 1) as nat) + entries_on(s, (count - 1) as usize, s.len())
    }
}

/// How many of the first `n` entries are on a workspace below `count`.
pub open spec fn entries_below(s: Seq<MetaEntry>, count: nat, n: nat) -> nat
    decreases n,
{
    if n == 0 {
        0
    } else {
        entries_below(s, count, (n - 1) as nat) + if s[n - 1].meta.workspace < count {
            1nat
        } else {
            0nat
        }
    }
}

proof fn lemma_entries_step(s: Seq<MetaEntry>, count: nat, n: nat)
    requires
        count < usize::MAX,
    ensures
        entries_below(s, count + 1, n) == entries_below(s, count, n) + entries_on(
            s,
            count as usize,
            n,
        ),
    decreases n,
{
    if n > 0 {
        lemma_entries_step(s, count, (n - 1) as nat);
    }
}

proof fn lemma_no_entries_below_zero(s: Seq<MetaEntry>, n: nat)
    ensures
        entries_below(s, 0, n) == 0,
    decreases n,
{
    if n > 0 {
        lemma_no_entries_below_zero(s, (n - 1) as nat);
    }
}

/// Every window on one of the workspaces is counted on exactly one of them.
pub proof fn law_windows_are_counted_once(s: Seq<MetaEntry>, count: nat)
    requires
        count <= usize::MAX,
    ensures
        total_on(s, count) == entries_below(s, count, s.len()),
    decreases count,
{
    if count == 0 {
        lemma_no_entries_below_zero(s, s.len());
    } else {
        law_windows_are_counted_once(s, (count - 1) as nat);
        lemma_entries_step(s, (count - 1) as nat, s.len());
    }
}

} // verus!
