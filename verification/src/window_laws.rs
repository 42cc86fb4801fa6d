//! What each operation on a window of the desktop does: which windows are shown and
//! where, what the clients are asked for, and what stays as it was.
use vstd::prelude::*;

use crate::desk::Desk;
use crate::desk_laws::{
    law_tiling_moves_windows_only, lemma_sound_windows, lemma_tiles_spare, lemma_tiles_stay_shown,
};
use crate::geometry::{Point, Rectangle, Size};
use crate::space::{
    law_map_moves_one_window, law_raise_keeps_places, law_unmap_removes_one_window, location_in,
    mapped,
};
use crate::window::{lemma_position_is, position, Effect, ManagedWindow};

verus! {

/// The ids of the tiled windows are those of the windows of the active workspace that
/// are neither minimized nor maximized and do not float: no others,
pub proof fn law_no_other_window_is_tiled(d: Desk, k: int)
    requires
        0 <= k < d.tiled_ids(d.windows.len()).len(),
    ensures
        exists|i: int|
            0 <= i < d.windows.len() && (#[trigger] d.windows[i]).id == d.tiled_ids(
                d.windows.len(),
            )[k] && d.windows[i].workspace == d.active && !d.windows[i].is_minimized
                && !d.windows[i].is_maximized && !d.floating.contains(d.windows[i].id),
{
    let n = d.windows.len();
    crate::hwde::lemma_tiled_id_has_window(d, n, k);
    let i = choose|i: int|
        0 <= i < n && (#[trigger] d.windows[i]).id == d.tiled_ids(n)[k] && d.is_tiled(i);
    assert(d.windows[i].id == d.tiled_ids(n)[k]);
}

/// and all of these.
pub proof fn law_every_plain_window_is_tiled(d: Desk, i: int)
    requires
        0 <= i < d.windows.len(),
        d.windows[i].workspace == d.active,
        !d.windows[i].is_minimized,
        !d.windows[i].is_maximized,
        !d.floating.contains(d.windows[i].id),
    ensures
        d.tiled_ids(d.windows.len()).contains(d.windows[i].id),
{
    lemma_tiled_id_is_listed(d, d.windows.len(), i);
}

proof fn lemma_tiled_id_is_listed(d: Desk, n: nat, i: int)
    requires
        0 <= i < n <= d.windows.len(),
        d.is_tiled(i),
    ensures
        d.tiled_ids(n).contains(d.windows[i].id),
    decreases n,
{
    let m = (n - 1) as nat;
    let before = d.tiled_ids(m);
    if i == n - 1 {
        assert(d.tiled_ids(n)[before.len() as int] == d.windows[i].id);
    } else {
        lemma_tiled_id_is_listed(d, m, i);
        let k = choose|k: int| 0 <= k < before.len() && before[k] == d.windows[i].id;
        assert(d.tiled_ids(n)[k] == d.windows[i].id);
    }
}

/// The index of a window is found from its id.
pub proof fn lemma_found(d: Desk, i: int)
    requires
        d.sound(),
        0 <= i < d.windows.len(),
    ensures
        position(d.windows, d.windows[i].id) == i,
{
    let id = d.windows[i].id;
    assert forall|j: int| 0 <= j < i implies (#[trigger] d.windows[j]).id != id by {
        assert(d.windows[j].id != d.windows[i].id);
    }
    lemma_position_is(d.windows, id, i);
}

/// Tiling leaves a window alone that stands for no tiled one.
proof fn lemma_tiling_spares(d: Desk, v: u64)
    requires
        d.sound(),
        forall|i: int|
            0 <= i < d.windows.len() && (#[trigger] d.windows[i]).workspace == d.active
                && !d.windows[i].is_minimized && !d.windows[i].is_maximized
                && !d.floating.contains(d.windows[i].id) ==> d.windows[i].window != v,
    ensures
        location_in(d.tiled().space, v) == location_in(d.space, v),
{
    let n = d.windows.len();
    let ids = d.tiled_ids(n);
    assert forall|k: int| 0 <= k < ids.len() implies {
        let j = position(d.windows, #[trigger] ids[k]) as int;
        j < d.windows.len() ==> d.windows[j].window != v
    } by {
        law_no_other_window_is_tiled(d, k);
        let t = choose|i: int|
            0 <= i < n && (#[trigger] d.windows[i]).id == ids[k] && d.windows[i].workspace
                == d.active && !d.windows[i].is_minimized && !d.windows[i].is_maximized
                && !d.floating.contains(d.windows[i].id);
        lemma_found(d, t);
    }
    lemma_tiles_spare(d, ids, ids.len(), v);
}

/// A window that is minimized or maximized, that floats or that belongs to another
/// workspace is not among the tiled ones, and tiling the others leaves it where it is:
/// shown there, or not shown at all.
pub proof fn law_windows_without_a_tile_stay(d: Desk, i: int)
    requires
        d.sound(),
        0 <= i < d.windows.len(),
        d.windows[i].is_minimized || d.windows[i].is_maximized || d.floating.contains(
            d.windows[i].id,
        ) || d.windows[i].workspace != d.active,
    ensures
        !d.tiled_ids(d.windows.len()).contains(d.windows[i].id),
        location_in(d.tiled().space, d.windows[i].window) == location_in(
            d.space,
            d.windows[i].window,
        ),
        d.tiled().windows == d.windows,
{
    let n = d.windows.len();
    let ids = d.tiled_ids(n);
    law_tiling_moves_windows_only(d);
    if ids.contains(d.windows[i].id) {
        let k = choose|k: int| 0 <= k < ids.len() && ids[k] == d.windows[i].id;
        law_no_other_window_is_tiled(d, k);
        let t = choose|t: int|
            0 <= t < n && (#[trigger] d.windows[t]).id == ids[k] && d.windows[t].workspace
                == d.active && !d.windows[t].is_minimized && !d.windows[t].is_maximized
                && !d.floating.contains(d.windows[t].id);
        lemma_found(d, i);
        lemma_found(d, t);
    }
    assert forall|t: int|
        0 <= t < n && (#[trigger] d.windows[t]).workspace == d.active && !d.windows[t].is_minimized
            && !d.windows[t].is_maximized && !d.floating.contains(
            d.windows[t].id,
        ) implies d.windows[t].window != d.windows[i].window by {
        if t < i {
            assert(d.windows[t].window != d.windows[i].window);
        } else {
            assert(d.windows[i].window != d.windows[t].window);
        }
    }
    lemma_tiling_spares(d, d.windows[i].window);
}

/// Without tiling on the active workspace nothing is tiled.
pub proof fn law_untiled_workspaces_are_left_alone(d: Desk)
    requires
        !d.tiling.contains(d.active),
    ensures
        d.tiled() == d,
{
}

/// There is always a workspace, and there are as many as the settings say otherwise.
pub proof fn law_there_is_a_workspace(d: Desk)
    ensures
        d.config.workspace_count >= 1 ==> d.workspace_count() == d.config.workspace_count,
        d.config.workspace_count == 0 ==> d.workspace_count() == 1,
{
}

/// A window that is moved to another workspace belongs to that one, or to the last one
/// where there is none so high. Moved away from the active workspace it is not shown any
/// more, and its place is kept in mind. Moved to the active workspace it is shown, unless
/// it is minimized: where it was when it was last shown, or at (80, 60), above all others,
/// or in its tile. Moved between two other workspaces it is not shown. All other windows
/// stay as they are, and where they are unless they are tiled.
pub proof fn law_moved_windows_follow_their_workspace(
    d: Desk,
    i: int,
    to: u32,
    target: u32,
    v: u64,
)
    requires
        d.sound(),
        0 <= i < d.windows.len(),
        target < d.workspace_count(),
        to == target || (to > target && target == d.workspace_count() - 1),
        d.windows[i].workspace != target,
    ensures
        ({
            let w = d.windows[i];
            let m = d.moved(w.id, to);
            let leaves = w.workspace == d.active;
            let arrives = target == d.active && !w.is_minimized;
            let tiled = d.tiling.contains(d.active);
            &&& m.windows == d.windows.update(
                i,
                ManagedWindow {
                    workspace: target,
                    saved_workspace_location: if leaves {
                        location_in(d.space, w.window)
                    } else {
                        w.saved_workspace_location
                    },
                    ..w
                },
            )
            &&& leaves ==> location_in(m.space, w.window) is None
            &&& arrives ==> location_in(m.space, w.window) is Some
            &&& arrives && !tiled && w.saved_workspace_location is Some ==> location_in(
                m.space,
                w.window,
            ) == w.saved_workspace_location
            &&& arrives && !tiled && w.saved_workspace_location is None ==> location_in(
                m.space,
                w.window,
            ) == Some(Point { x: 80, y: 60 })
            &&& arrives && !tiled ==> m.space.last().window == w.window
            &&& !leaves && !arrives ==> location_in(m.space, w.window) == location_in(
                d.space,
                w.window,
            )
            &&& v != w.window && !tiled ==> location_in(m.space, v) == location_in(d.space, v)
            &&& !tiled && leaves ==> m.effects == d.effects.push(Effect::Hide { window: w.window })
            &&& !tiled && arrives ==> m.effects == d.effects.push(
                Effect::Show {
                    window: w.window,
                    location: location_in(m.space, w.window)->Some_0,
                    activate: true,
                },
            )
            &&& !tiled && !leaves && !arrives ==> m.effects == d.effects
            &&& m == (Desk { windows: m.windows, space: m.space, effects: m.effects, ..d })
        }),
{
    let w = d.windows[i];
    lemma_found(d, i);
    let gone = ManagedWindow { workspace: target, ..w };
    let m = d.moved(w.id, to);
    if w.workspace == d.active {
        law_unmap_removes_one_window(d.space, w.window, w.window);
        law_unmap_removes_one_window(d.space, w.window, v);
        let a = d.with_window(
            i,
            ManagedWindow {
                saved_workspace_location: location_in(d.space, w.window),
                ..gone
            },
        ).conceal(w.window);
        lemma_sound_windows(d, a);
        law_windows_without_a_tile_stay(a, i);
        law_tiling_moves_windows_only(a);
    } else if target == d.active && !w.is_minimized {
        let at = match w.saved_workspace_location {
            Some(p) => p,
            None => Point { x: 80, y: 60 },
        };
        law_map_moves_one_window(d.space, w.window, at, w.window);
        law_map_moves_one_window(d.space, w.window, at, v);
        let a = d.with_window(i, gone).show(w.window, at, true);
        let ids = a.tiled_ids(a.windows.len());
        lemma_tiles_stay_shown(a, ids, ids.len(), w.window);
        law_tiling_moves_windows_only(a);
    } else {
        let a = d.with_window(i, gone);
        lemma_sound_windows(d, a);
        law_windows_without_a_tile_stay(a, i);
        law_tiling_moves_windows_only(a);
    }
}

/// A window that is moved to where it is, is left alone.
pub proof fn law_moving_in_place_does_nothing(d: Desk, i: int)
    requires
        d.sound(),
        0 <= i < d.windows.len(),
        d.windows[i].workspace < d.workspace_count(),
    ensures
        d.moved(d.windows[i].id, d.windows[i].workspace) == d,
{
    lemma_found(d, i);
}

/// After a window was minimized it is not shown, whether or not the workspace is tiled,
/// and it is not among the tiled windows. Its place and all else that is known of it stay,
/// and so do all other windows, and where they are unless they are tiled.
pub proof fn law_minimized_windows_are_not_shown(d: Desk, i: int, v: u64)
    requires
        d.sound(),
        0 <= i < d.windows.len(),
        !d.windows[i].is_minimized,
    ensures
        ({
            let w = d.windows[i];
            let m = d.minimized(w.id);
            let tiled = d.tiling.contains(d.active);
            &&& location_in(m.space, w.window) is None
            &&& location_in(m.tiled().space, w.window) is None
            &&& !m.tiled_ids(m.windows.len()).contains(w.id)
            &&& m.windows == d.windows.update(i, ManagedWindow { is_minimized: true, ..w })
            &&& v != w.window && !tiled ==> location_in(m.space, v) == location_in(d.space, v)
            &&& !tiled ==> m.effects == d.effects.push(Effect::Hide { window: w.window })
            &&& m == (Desk { windows: m.windows, space: m.space, effects: m.effects, ..d })
        }),
{
    let w = d.windows[i];
    lemma_found(d, i);
    law_unmap_removes_one_window(d.space, w.window, w.window);
    law_unmap_removes_one_window(d.space, w.window, v);
    let a = d.with_window(i, ManagedWindow { is_minimized: true, ..w }).conceal(w.window);
    lemma_sound_windows(d, a);
    law_windows_without_a_tile_stay(a, i);
    law_tiling_moves_windows_only(a);
    let m = d.minimized(w.id);
    law_windows_without_a_tile_stay(m, i);
}

/// A window that is minimized already is left alone.
pub proof fn law_minimizing_twice_is_minimizing_once(d: Desk, i: int)
    requires
        d.sound(),
        0 <= i < d.windows.len(),
        d.windows[i].is_minimized,
    ensures
        d.minimized(d.windows[i].id) == d,
{
    lemma_found(d, i);
}

/// A window that is minimized makes room for the others: of the tiled windows there is
/// one less.
pub proof fn law_minimized_windows_make_room(d: Desk, i: int)
    requires
        d.sound(),
        0 <= i < d.windows.len(),
        d.windows[i].workspace == d.active,
        !d.windows[i].is_minimized,
        !d.windows[i].is_maximized,
        !d.floating.contains(d.windows[i].id),
    ensures
        ({
            let m = d.minimized(d.windows[i].id);
            m.tiled_ids(m.windows.len()).len() + 1 == d.tiled_ids(d.windows.len()).len()
        }),
{
    law_minimized_windows_are_not_shown(d, i, 0);
    let m = d.minimized(d.windows[i].id);
    lemma_one_less(d, m, i, d.windows.len());
}

proof fn lemma_one_less(d: Desk, m: Desk, i: int, n: nat)
    requires
        0 <= i < d.windows.len(),
        n <= d.windows.len(),
        d.is_tiled(i),
        m.active == d.active,
        m.floating == d.floating,
        m.windows == d.windows.update(i, ManagedWindow { is_minimized: true, ..d.windows[i] }),
    ensures
        d.tiled_ids(n).len() == m.tiled_ids(n).len() + (if i < n {
            1int
        } else {
            0
        }),
    decreases n,
{
    if n > 0 {
        lemma_one_less(d, m, i, (n - 1) as nat);
    }
}

/// Maximizing a window asks its client, as maximized, for exactly the size of the area,
/// an X11 client for the whole of it, whatever size the window had. The window is shown
/// where the area begins, above all others, and returns to where it was and to the size
/// it had. No other window changes.
pub proof fn law_maximized_windows_fill_the_area(d: Desk, i: int, area: Rectangle, v: u64)
    requires
        d.sound(),
        0 <= i < d.windows.len(),
    ensures
        ({
            let w = d.windows[i];
            let m = d.maximized(w.id, true, area);
            let asked = if w.is_x11 {
                Effect::MaximizeX11 { window: w.window, maximized: true, geometry: area }
            } else {
                Effect::Maximize { window: w.window, maximized: true, size: area.size }
            };
            &&& m.effects == d.effects.push(asked).push(
                Effect::Show { window: w.window, location: area.loc, activate: true },
            )
            &&& location_in(m.space, w.window) == Some(area.loc)
            &&& m.space.last().window == w.window
            &&& v != w.window ==> location_in(m.space, v) == location_in(d.space, v)
            &&& m.windows == d.windows.update(
                i,
                ManagedWindow {
                    is_maximized: true,
                    is_minimized: false,
                    saved_geometry: Some(
                        Rectangle {
                            loc: match location_in(d.space, w.window) {
                                Some(p) => p,
                                None => Point { x: 0, y: 0 },
                            },
                            size: w.size,
                        },
                    ),
                    ..w
                },
            )
            &&& m == (Desk { windows: m.windows, space: m.space, effects: m.effects, ..d })
        }),
{
    lemma_found(d, i);
    law_map_moves_one_window(d.space, d.windows[i].window, area.loc, v);
}

/// A window that is maximized no more is asked for the geometry that was kept for it, or
/// for 800 by 600 at (80, 60), and shown there. No other window changes.
pub proof fn law_restored_windows_get_their_geometry_back(
    d: Desk,
    i: int,
    area: Rectangle,
    v: u64,
)
    requires
        d.sound(),
        0 <= i < d.windows.len(),
    ensures
        ({
            let w = d.windows[i];
            let m = d.maximized(w.id, false, area);
            let back = match w.saved_geometry {
                Some(r) => r,
                None => Rectangle {
                    loc: Point { x: 80, y: 60 },
                    size: Size { w: 800, h: 600 },
                },
            };
            let asked = if w.is_x11 {
                Effect::MaximizeX11 { window: w.window, maximized: false, geometry: back }
            } else {
                Effect::Maximize { window: w.window, maximized: false, size: back.size }
            };
            &&& m.effects == d.effects.push(asked).push(
                Effect::Show { window: w.window, location: back.loc, activate: true },
            )
            &&& location_in(m.space, w.window) == Some(back.loc)
            &&& v != w.window ==> location_in(m.space, v) == location_in(d.space, v)
            &&& m.windows == d.windows.update(
                i,
                ManagedWindow {
                    is_maximized: false,
                    is_minimized: false,
                    saved_geometry: None,
                    ..w
                },
            )
            &&& m == (Desk { windows: m.windows, space: m.space, effects: m.effects, ..d })
        }),
{
    lemma_found(d, i);
    let w = d.windows[i];
    let back = match w.saved_geometry {
        Some(r) => r,
        None => Rectangle { loc: Point { x: 80, y: 60 }, size: Size { w: 800, h: 600 } },
    };
    law_map_moves_one_window(d.space, w.window, back.loc, v);
}

/// A window that is to fill the screen asks its client for exactly the size of the area,
/// an X11 client for the whole of it, and is shown where the area begins. It returns to
/// where it was and to the size it had. No other window changes.
pub proof fn law_full_screen_windows_fill_the_area(d: Desk, i: int, area: Rectangle, v: u64)
    requires
        d.sound(),
        0 <= i < d.windows.len(),
    ensures
        ({
            let w = d.windows[i];
            let m = d.fullscreened(w.id, true, area);
            let asked = if w.is_x11 {
                Effect::FullscreenX11 { window: w.window, fullscreen: true, geometry: area }
            } else {
                Effect::Fullscreen { window: w.window, fullscreen: true, size: area.size }
            };
            &&& m.effects == d.effects.push(asked).push(
                Effect::Show { window: w.window, location: area.loc, activate: true },
            )
            &&& location_in(m.space, w.window) == Some(area.loc)
            &&& m.space.last().window == w.window
            &&& v != w.window ==> location_in(m.space, v) == location_in(d.space, v)
            &&& m.windows == d.windows.update(
                i,
                ManagedWindow {
                    is_fullscreen: true,
                    is_minimized: false,
                    windowed_geometry: Some(
                        Rectangle {
                            loc: match location_in(d.space, w.window) {
                                Some(p) => p,
                                None => Point { x: 0, y: 0 },
                            },
                            size: w.size,
                        },
                    ),
                    ..w
                },
            )
            &&& m == (Desk { windows: m.windows, space: m.space, effects: m.effects, ..d })
        }),
{
    lemma_found(d, i);
    law_map_moves_one_window(d.space, d.windows[i].window, area.loc, v);
}

/// A window that leaves the full screen is asked for the area if it is maximized, and
/// otherwise for the geometry that was kept for it, or for 800 by 600 at (80, 60), and
/// shown there. No other window changes.
pub proof fn law_windows_leave_the_full_screen(d: Desk, i: int, area: Rectangle, v: u64)
    requires
        d.sound(),
        0 <= i < d.windows.len(),
    ensures
        ({
            let w = d.windows[i];
            let m = d.fullscreened(w.id, false, area);
            let back = match w.windowed_geometry {
                _ if w.is_maximized => area,
                Some(r) => r,
                None => Rectangle {
                    loc: Point { x: 80, y: 60 },
                    size: Size { w: 800, h: 600 },
                },
            };
            let asked = if w.is_x11 {
                Effect::FullscreenX11 { window: w.window, fullscreen: false, geometry: back }
            } else {
                Effect::Fullscreen { window: w.window, fullscreen: false, size: back.size }
            };
            &&& m.effects == d.effects.push(asked).push(
                Effect::Show { window: w.window, location: back.loc, activate: true },
            )
            &&& location_in(m.space, w.window) == Some(back.loc)
            &&& v != w.window ==> location_in(m.space, v) == location_in(d.space, v)
            &&& m.windows == d.windows.update(
                i,
                ManagedWindow {
                    is_fullscreen: false,
                    is_minimized: false,
                    windowed_geometry: None,
                    ..w
                },
            )
            &&& m == (Desk { windows: m.windows, space: m.space, effects: m.effects, ..d })
        }),
{
    lemma_found(d, i);
    let w = d.windows[i];
    let kept = match w.windowed_geometry {
        Some(r) => r,
        None => Rectangle { loc: Point { x: 80, y: 60 }, size: Size { w: 800, h: 600 } },
    };
    law_map_moves_one_window(d.space, w.window, kept.loc, v);
    law_map_moves_one_window(d.space, w.window, area.loc, v);
}

/// Closing a window asks its own client to close it, once, and does nothing else: the
/// window stays until it is gone.
pub proof fn law_closing_asks_the_client(d: Desk, i: int)
    requires
        d.sound(),
        0 <= i < d.windows.len(),
    ensures
        d.closed(d.windows[i].id) == (Desk {
            effects: d.effects.push(Effect::Close { window: d.windows[i].window }),
            ..d
        }),
{
    lemma_found(d, i);
}

/// A window that is given the focus is shown where it is, or at the origin if it is not
/// shown, it is raised, and the keyboard goes to its surface if it has one. Other windows
/// stay where they are unless the workspace is tiled, and it stays the active one.
pub proof fn law_the_focused_window_gets_the_keyboard(d: Desk, i: int, v: u64)
    requires
        d.sound(),
        0 <= i < d.windows.len(),
        !d.tiling.contains(d.active),
    ensures
        ({
            let w = d.windows[i];
            let f = d.focus(w.id);
            let at = match location_in(d.space, w.window) {
                Some(p) => p,
                None => Point { x: 0, y: 0 },
            };
            let raised = d.effects.push(
                Effect::Show { window: w.window, location: at, activate: true },
            ).push(Effect::Raise { window: w.window, activate: true });
            &&& location_in(f.space, w.window) == Some(at)
            &&& f.space.last().window == w.window
            &&& v != w.window ==> location_in(f.space, v) == location_in(d.space, v)
            &&& w.surface is Some ==> f.effects == raised.push(
                Effect::Focus { surface: w.surface->Some_0 },
            )
            &&& w.surface is None ==> f.effects == raised
            &&& f.windows == d.windows.update(i, ManagedWindow { is_minimized: false, ..w })
            &&& f == (Desk {
                windows: f.windows,
                space: f.space,
                effects: f.effects,
                focused: Some(w.id),
                ..d
            })
        }),
{
    let w = d.windows[i];
    lemma_found(d, i);
    let at = match location_in(d.space, w.window) {
        Some(p) => p,
        None => Point { x: 0, y: 0 },
    };
    law_map_moves_one_window(d.space, w.window, at, v);
    let shown = mapped(d.space, w.window, at);
    law_map_moves_one_window(shown, w.window, at, v);
    law_raise_keeps_places(shown, w.window, v);
    law_raise_keeps_places(shown, w.window, w.window);
}

} // verus!
