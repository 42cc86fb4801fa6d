//! What the actions of keys, presses and swipes do to the desktop.
use vstd::prelude::*;

use crate::actions::{action_of, key_fate, Action, Candidate, KeyFate};
use crate::desk::Desk;
use crate::desk_laws::law_tiling_moves_windows_only;
use crate::desktop_input::named_workspace;
use crate::geometry::{Point, Rectangle};
use crate::grabs::Travel;
use crate::input::{stale, stale_of, Popup, Under};
use crate::layout_laws::{is_seen, law_the_focus_goes_in_order};
use crate::render_elements::{all_bars, hit, SsdHit};
use crate::space::{law_raise_keeps_places, location_in, Mapped};
use crate::window::Effect;
use crate::window_laws::{
    law_maximized_windows_fill_the_area, law_moved_windows_follow_their_workspace,
    law_restored_windows_get_their_geometry_back, law_the_focused_window_gets_the_keyboard,
    lemma_found,
};

verus! {

/// The actions on a window concern the focused one: it is asked to close, it is maximized
/// on the first output or restored, it floats or does not any more.
pub proof fn law_actions_concern_the_focused_window(d: Desk, i: int)
    requires
        d.sound(),
        0 <= i < d.windows.len(),
        d.focused == Some(d.windows[i].id),
    ensures
        ({
            let w = d.windows[i];
            let c = d.acted(Action::CloseWindow);
            let m = d.acted(Action::ToggleMaximize);
            let f = d.acted(Action::ToggleFloating);
            &&& c == (Desk { effects: d.effects.push(Effect::Close { window: w.window }), ..d })
            &&& m.windows.len() == d.windows.len()
            &&& m.windows[i].is_maximized == !w.is_maximized
            &&& !w.is_maximized ==> location_in(m.space, w.window) == Some(d.primary_output().loc)
            &&& !w.is_maximized && !w.is_x11 ==> m.effects[m.effects.len() - 2]
                == (Effect::Maximize {
                window: w.window,
                maximized: true,
                size: d.primary_output().size,
            })
            &&& forall|j: int|
                0 <= j < d.windows.len() && j != i ==> #[trigger] m.windows[j] == d.windows[j]
            &&& f.floating.contains(w.id) == !d.floating.contains(w.id)
            &&& f.windows == d.windows
        }),
{
    lemma_found(d, i);
    crate::window_laws::law_closing_asks_the_client(d, i);
    law_maximized_windows_fill_the_area(d, i, d.primary_output(), 0);
    law_restored_windows_get_their_geometry_back(d, i, d.primary_output(), 0);
    crate::layout_laws::law_one_window_floats(d, d.windows[i].id, 0);
}

/// Without a focused window these actions do nothing.
pub proof fn law_actions_need_a_focused_window(d: Desk, n: u32)
    requires
        d.focused is None,
    ensures
        d.acted(Action::CloseWindow) == d,
        d.acted(Action::ToggleMaximize) == d,
        d.acted(Action::ToggleFloating) == d,
        d.acted(Action::MoveToWorkspace(n)) == d,
{
}

/// Workspaces are counted from one: an action goes to the workspace of its number, and to
/// none where there are fewer.
pub proof fn law_workspaces_are_counted_from_one(d: Desk, n: u32)
    requires
        d.sound(),
        n >= 1,
    ensures
        n <= d.workspace_count() ==> d.acted(Action::SwitchWorkspace(n)).active == n - 1,
        n > d.workspace_count() ==> d.acted(Action::SwitchWorkspace(n)) == d,
{
    let target = (n - 1) as u32;
    crate::desk_laws::lemma_exchange_frame(d, target);
    law_tiling_moves_windows_only(d.exchanged(target));
}

/// The action that moves the focused window puts it on the workspace of its number,
/// counted from one, or on the last one where there are fewer; the others stay on theirs.
pub proof fn law_the_focused_window_is_moved(d: Desk, i: int, n: u32)
    requires
        d.sound(),
        0 <= i < d.windows.len(),
        d.focused == Some(d.windows[i].id),
        n >= 1,
    ensures
        ({
            let m = d.acted(Action::MoveToWorkspace(n));
            &&& m.windows.len() == d.windows.len()
            &&& n <= d.workspace_count() ==> m.windows[i].workspace == n - 1
            &&& n > d.workspace_count() ==> m.windows[i].workspace == d.workspace_count() - 1
            &&& forall|j: int|
                0 <= j < d.windows.len() && j != i ==> #[trigger] m.windows[j] == d.windows[j]
            &&& m.active == d.active
        }),
{
    lemma_found(d, i);
    let target = if n <= d.workspace_count() {
        (n - 1) as u32
    } else {
        (d.workspace_count() - 1) as u32
    };
    if d.windows[i].workspace != target {
        law_moved_windows_follow_their_workspace(d, i, (n - 1) as u32, target, 0);
    }
}

/// The actions that go round the windows give the focus to the next one that can be seen,
/// and to the one before.
pub proof fn law_the_focus_is_moved_on(d: Desk, i: int, j: int)
    requires
        d.sound(),
        !d.tiling.contains(d.active),
        i < j,
        is_seen(d, i),
        is_seen(d, j),
        forall|k: int| i < k < j ==> !(#[trigger] is_seen(d, k)),
    ensures
        d.focused == Some(d.windows[i].id) ==> d.acted(Action::FocusNext).focused == Some(
            d.windows[j].id,
        ),
        d.focused == Some(d.windows[j].id) ==> d.acted(Action::FocusPrev).focused == Some(
            d.windows[i].id,
        ),
{
    law_the_focus_goes_in_order(d, i, j);
    law_the_focused_window_gets_the_keyboard(d, i, 0);
    law_the_focused_window_gets_the_keyboard(d, j, 0);
}

/// Quitting ends the session and changes nothing else; starting a program, reading the
/// settings anew and dimming leave the desktop as it is.
pub proof fn law_other_actions_leave_the_windows_alone(d: Desk, command: String)
    ensures
        d.acted(Action::Quit) == (Desk { running: false, ..d }),
        d.acted(Action::Spawn(command)) == d,
        d.acted(Action::ReloadConfig) == d,
        d.acted(Action::DimNow) == d,
{
}

/// The actions on the layout are those operations: tiling is turned on or off for the
/// active workspace, the focused window becomes the master, its share is set.
pub proof fn law_actions_on_the_layout(d: Desk, ratio: u32)
    ensures
        d.acted(Action::ToggleTiling).tiling.contains(d.active) == !d.tiling.contains(d.active),
        d.acted(Action::SwapMaster) == d.master_swapped(),
        0x3DCC_CCCD <= ratio <= 0x3F66_6666 ==> d.acted(
            Action::AdjustMaster(ratio),
        ).config.master_ratio == ratio,
{
    crate::desk_laws::law_tiling_toggles_back(d);
    crate::layout_laws::law_the_share_stays_within_its_bounds(d, ratio);
}

/// Of the key bindings that match a key, the first decides: its action is run, and the
/// client does not get the key; one without an action leaves it to the client. A key that
/// no binding matches, or that is released, goes to the client.
pub proof fn law_the_first_binding_decides(c: Seq<Candidate>, k: int)
    requires
        0 <= k <= c.len(),
        k < c.len() ==> c[k].matches,
        forall|j: int| 0 <= j < k ==> !(#[trigger] c[j]).matches,
    ensures
        k < c.len() && c[k].action is Some ==> key_fate(true, false, c) == KeyFate::Run(
            c[k].action->Some_0,
        ),
        k < c.len() && c[k].action is None ==> key_fate(true, false, c) == KeyFate::Forward,
        k == c.len() ==> key_fate(true, false, c) == KeyFate::Forward,
        key_fate(false, false, c) == KeyFate::Forward,
        key_fate(false, true, c) == KeyFate::Forward,
{
    crate::actions::lemma_first_match_is(c, k);
}

/// The names of the actions in the key bindings.
pub proof fn law_action_names(terminal: String, name: Seq<char>, n: nat)
    ensures
        action_of("close_window"@, terminal) == Some(Action::CloseWindow),
        action_of("toggle_floating"@, terminal) == Some(Action::ToggleFloating),
        action_of("cycle_windows"@, terminal) == Some(Action::FocusNext),
        action_of("launch_terminal"@, terminal) == Some(Action::Spawn(terminal)),
        named_workspace(name) == Some(n) && 1 <= n <= u32::MAX ==> action_of(name, terminal)
            == Some(Action::SwitchWorkspace(n as u32)),
        named_workspace(name) == Some(0nat) ==> action_of(name, terminal) is None,
{
    reveal_strlit("close_window");
    reveal_strlit("toggle_floating");
    reveal_strlit("cycle_windows");
    reveal_strlit("launch_terminal");
    reveal_strlit("workspace_");
    assert("close_window"@[0] != "toggle_floating"@[0]);
    assert("close_window"@[1] != "cycle_windows"@[1]);
    assert("close_window"@[0] != "launch_terminal"@[0]);
    assert("toggle_floating"@[0] != "cycle_windows"@[0]);
    assert("toggle_floating"@[0] != "launch_terminal"@[0]);
    assert("cycle_windows"@[0] != "launch_terminal"@[0]);
    if named_workspace(name) is Some {
        assert(name.take(10)[0] == name[0]);
        assert(name[0] == 'w');
    }
}

/// A swipe of three or four fingers to the left, of at least 120 pixels, goes to the next
/// workspace, one to the right to the one before; beyond the last and the first there is
/// none to go to.
pub proof fn law_swipes_go_to_the_neighbour(d: Desk, fingers: u32, travel: Travel)
    requires
        d.sound(),
        fingers == 3 || fingers == 4,
        travel.floor <= travel.ceil,
    ensures
        ({
            let s = d.swiped(fingers, travel, false);
            &&& travel.ceil <= -120 && d.active + 1 < d.workspace_count() ==> s.active == d.active
                + 1
            &&& travel.ceil <= -120 && d.active + 1 == d.workspace_count() ==> s == d
            &&& travel.floor >= 120 && d.active > 0 ==> s.active == d.active - 1
            &&& travel.floor >= 120 && d.active == 0 ==> s == d
            &&& -120 < travel.ceil && travel.floor < 120 ==> s == d
            &&& d.swiped(fingers, travel, true) == d
        }),
{
    if d.active < u32::MAX {
        crate::desk_laws::lemma_exchange_frame(d, (d.active + 1) as u32);
        law_tiling_moves_windows_only(d.exchanged((d.active + 1) as u32));
    }
    if d.active > 0 {
        crate::desk_laws::lemma_exchange_frame(d, (d.active - 1) as u32);
        law_tiling_moves_windows_only(d.exchanged((d.active - 1) as u32));
    }
}

proof fn lemma_stale_of(m: Mapped, popups: Seq<Popup>, click: Point, n: nat, k: int)
    requires
        0 <= k < n <= popups.len(),
        popups[k].window == m.window,
        popups[k].is_xdg,
        !popups[k].place(m.location).covers(click),
    ensures
        stale_of(m, popups, click, n).contains(Effect::DismissPopup { popup: popups[k].popup }),
    decreases n,
{
    let before = stale_of(m, popups, click, (n - 1) as nat);
    let e = Effect::DismissPopup { popup: popups[k].popup };
    let after = stale_of(m, popups, click, n);
    if k == n - 1 {
        assert(after[before.len() as int] == e);
    } else {
        lemma_stale_of(m, popups, click, (n - 1) as nat, k);
        let t = choose|t: int| 0 <= t < before.len() && before[t] == e;
        assert(after[t] == e);
    }
}

proof fn lemma_stale(space: Seq<Mapped>, popups: Seq<Popup>, click: Point, n: nat, j: int, k: int)
    requires
        0 <= j < n <= space.len(),
        0 <= k < popups.len(),
        popups[k].window == space[j].window,
        popups[k].is_xdg,
        !popups[k].place(space[j].location).covers(click),
    ensures
        stale(space, popups, click, n).contains(Effect::DismissPopup { popup: popups[k].popup }),
    decreases n,
{
    let before = stale(space, popups, click, (n - 1) as nat);
    let last = stale_of(space[n - 1], popups, click, popups.len());
    let e = Effect::DismissPopup { popup: popups[k].popup };
    let after = stale(space, popups, click, n);
    if j == n - 1 {
        lemma_stale_of(space[j], popups, click, popups.len(), k);
        let t = choose|t: int| 0 <= t < last.len() && last[t] == e;
        assert(after[before.len() + t] == e);
    } else {
        lemma_stale(space, popups, click, (n - 1) as nat, j, k);
        let t = choose|t: int| 0 <= t < before.len() && before[t] == e;
        assert(after[t] == e);
    }
}

/// A press beside a popup of a shown window closes it.
pub proof fn law_presses_close_the_popups_beside_them(
    d: Desk,
    popups: Seq<Popup>,
    click: Point,
    j: int,
    k: int,
)
    requires
        0 <= j < d.space.len(),
        0 <= k < popups.len(),
        popups[k].window == d.space[j].window,
        popups[k].is_xdg,
        !popups[k].place(d.space[j].location).covers(click),
    ensures
        d.dismissed(popups, click).effects.contains(
            Effect::DismissPopup { popup: popups[k].popup },
        ),
        d.dismissed(popups, click) == (Desk {
            effects: d.dismissed(popups, click).effects,
            ..d
        }),
{
    lemma_stale(d.space, popups, click, d.space.len(), j, k);
    let s = stale(d.space, popups, click, d.space.len());
    let e = Effect::DismissPopup { popup: popups[k].popup };
    let t = choose|t: int| 0 <= t < s.len() && s[t] == e;
    assert(d.dismissed(popups, click).effects[d.effects.len() + t] == e);
}

/// A popup lies at its offset from its window, and its geometry from there; a point lies
/// in it as far as it goes.
pub proof fn law_popups_lie_at_their_offset(p: Popup, at: Point)
    requires
        -0x1000_0000 <= at.x <= 0x1000_0000,
        -0x1000_0000 <= at.y <= 0x1000_0000,
        -0x1000_0000 <= p.offset.x <= 0x1000_0000,
        -0x1000_0000 <= p.offset.y <= 0x1000_0000,
        -0x1000_0000 <= p.geometry.loc.x <= 0x1000_0000,
        -0x1000_0000 <= p.geometry.loc.y <= 0x1000_0000,
    ensures
        p.place(at).loc.x == at.x + p.offset.x + p.geometry.loc.x,
        p.place(at).loc.y == at.y + p.offset.y + p.geometry.loc.y,
        p.place(at).size == p.geometry.size,
{
}

/// A rectangle covers the points from its corner up to its width and height, those
/// excluded.
pub proof fn law_rectangles_cover_their_points(r: Rectangle, p: Point)
    requires
        r.loc.x + r.size.w <= i32::MAX,
        r.loc.y + r.size.h <= i32::MAX,
        r.size.w >= 0,
        r.size.h >= 0,
    ensures
        r.covers(p) <==> 0 <= p.x - r.loc.x < r.size.w && 0 <= p.y - r.loc.y < r.size.h,
{
}

/// A press on the close button of a bar asks that window's client to close it; one on the
/// bar itself gives the window the focus and lets it be moved from where it is; any other
/// gives the surface under the pointer the keyboard and raises its window. The popups
/// beside the press are closed first.
pub proof fn law_presses_on_bars_and_windows(
    d: Desk,
    at: Point,
    popups: Seq<Popup>,
    under: Under,
    i: int,
)
    requires
        d.sound(),
        !d.tiling.contains(d.active),
        0 <= i < d.windows.len(),
    ensures
        ({
            let p = d.pressed(at, popups, under);
            let q = d.dismissed(popups, at);
            let w = d.windows[i];
            let where_hit = hit(all_bars(q), at);
            &&& where_hit == Some(SsdHit::Close(w.id)) ==> p == (Desk {
                effects: q.effects.push(Effect::Close { window: w.window }),
                ..d
            })
            &&& where_hit == Some(SsdHit::Bar(w.id)) ==> p.focused == Some(w.id)
                && p.effects.last() == (Effect::StartMove {
                window: w.window,
                location: match location_in(d.space, w.window) {
                    Some(place) => place,
                    None => Point { x: 0, y: 0 },
                },
            })
            &&& where_hit is None && under.surface is None ==> p == q
            &&& where_hit is None && under.surface is Some && under.window is None ==> p.effects
                == q.effects.push(Effect::Focus { surface: under.surface->Some_0 })
            &&& where_hit is None && under.surface is Some && under.window is Some ==> p.effects
                == q.effects.push(Effect::Focus { surface: under.surface->Some_0 }).push(
                Effect::Raise { window: under.window->Some_0, activate: true },
            )
            &&& where_hit is None ==> location_in(p.space, w.window) == location_in(
                d.space,
                w.window,
            ) && p.windows == d.windows && p.focused == d.focused
        }),
{
    let q = d.dismissed(popups, at);
    let w = d.windows[i];
    assert(q.sound());
    lemma_found(q, i);
    crate::window_laws::law_closing_asks_the_client(q, i);
    law_the_focused_window_gets_the_keyboard(q, i, w.window);
    let f = q.focus(w.id);
    crate::desk_laws::law_focus_is_given(q, w.id);
    lemma_found(f, i);
    if let Some(u) = under.window {
        law_raise_keeps_places(d.space, u, w.window);
    }
}

} // verus!
