//! Where the tiled windows of the desktop stand: the master on the left, the others one
//! above the other on the right, with gaps between them.
use vstd::prelude::*;

use crate::desk::Desk;
use crate::desk_laws::lemma_set_tiles;
use crate::geometry::{Point, Rectangle, Size};
use crate::space::{law_map_moves_one_window, location_in};
use crate::window::{position, Effect};
use crate::window_laws::lemma_found;

verus! {

/// The tiles lie on the first output, or on one of 1920 by 1080 where its geometry is not
/// known.
pub proof fn law_the_first_output_is_tiled(d: Desk)
    ensures
        d.outputs.len() > 0 && d.outputs[0].geometry is Some ==> Some(d.primary_output())
            == d.outputs[0].geometry,
        d.outputs.len() == 0 || d.outputs[0].geometry is None ==> d.primary_output()
            == (Rectangle { loc: Point { x: 0, y: 0 }, size: Size { w: 1920, h: 1080 } }),
{
}

/// A window that is tiled alone is a gap away from the left, the upper and the lower edge
/// of the output, and reaches its right edge.
pub proof fn law_a_lone_window_fills_the_output(d: Desk)
    requires
        ({
            let area = d.primary_output();
            &&& 0 <= d.config.gaps
            &&& 0 <= area.loc.x && 0 <= area.loc.y
            &&& area.loc.x + area.size.w <= i32::MAX
            &&& area.loc.y + area.size.h <= i32::MAX
            &&& d.config.gaps < area.size.w
            &&& 2 * d.config.gaps < area.size.h
        }),
    ensures
        ({
            let area = d.primary_output();
            let t = d.tile_of(1, 0);
            &&& t.loc.x == area.loc.x + d.config.gaps
            &&& t.loc.y == area.loc.y + d.config.gaps
            &&& t.loc.x + t.size.w == area.loc.x + area.size.w
            &&& t.loc.y + t.size.h + d.config.gaps == area.loc.y + area.size.h
        }),
{
}

/// Whether an output is large enough for `count` tiles and the gaps around them, each at
/// least a pixel wide and high.
pub open spec fn has_room(d: Desk, count: int) -> bool {
    let area = d.primary_output();
    let gap = d.config.gaps as int;
    let master = crate::single::scaled(area.size.w as int, d.config.master_ratio as int);
    &&& 0 <= gap
    &&& 0 <= area.loc.x && 0 <= area.loc.y
    &&& area.loc.x + area.size.w <= i32::MAX
    &&& area.loc.y + area.size.h <= i32::MAX
    &&& gap + gap / 2 < master
    &&& master + gap + gap / 2 < area.size.w
    &&& 2 * gap < area.size.h
    &&& gap * count + (count - 1) <= area.size.h
}

/// Of several tiled windows the first is the master: it is a gap away from the left, the
/// upper and the lower edge of the output, and its width is the share of the output that
/// the settings give it, less a gap and a half.
pub proof fn law_the_master_is_on_the_left(d: Desk, count: int)
    requires
        count >= 2,
        has_room(d, count),
    ensures
        ({
            let area = d.primary_output();
            let gap = d.config.gaps;
            let t = d.tile_of(count, 0);
            &&& t.loc.x == area.loc.x + gap
            &&& t.loc.y == area.loc.y + gap
            &&& t.size.w + gap + gap as int / 2 == crate::single::scaled(
                area.size.w as int,
                d.config.master_ratio as int,
            )
            &&& t.loc.y + t.size.h + gap == area.loc.y + area.size.h
        }),
{
}

proof fn lemma_slots(height: int, gap: int, stack: int, slot: int, j: int)
    requires
        0 <= gap,
        1 <= stack,
        gap * (stack + 1) + stack <= height,
        slot == (height - gap * (stack + 1)) / stack,
        0 <= j <= stack,
    ensures
        slot >= 1,
        0 <= j * (slot + gap),
        (j + 1) * (slot + gap) == j * (slot + gap) + slot + gap,
        gap + j * (slot + gap) <= height,
        height < gap + stack * (slot + gap) + stack,
{
    let rest = height - gap * (stack + 1);
    vstd::arithmetic::div_mod::lemma_fundamental_div_mod(rest, stack);
    vstd::arithmetic::div_mod::lemma_mod_bound(rest, stack);
    assert(slot >= 1) by (nonlinear_arith)
        requires
            rest >= stack,
            stack >= 1,
            slot == rest / stack,
    ;
    assert(gap * (stack + 1) == gap * stack + gap) by (nonlinear_arith);
    assert(stack * (slot + gap) == stack * slot + gap * stack) by (nonlinear_arith);
    assert((j + 1) * (slot + gap) == j * (slot + gap) + slot + gap) by (nonlinear_arith);
    assert(0 <= j * (slot + gap) <= stack * (slot + gap)) by (nonlinear_arith)
        requires
            0 <= j <= stack,
            slot + gap >= 0,
    ;
}

/// The others stand right of the master, twice half a gap away from it and a gap from
/// the right edge of the output: all of one size, the first a gap below the upper edge,
/// and every other a gap below the one before.
pub proof fn law_the_others_are_stacked_on_the_right(d: Desk, count: int, i: int)
    requires
        count >= 2,
        1 <= i < count,
        has_room(d, count),
    ensures
        ({
            let area = d.primary_output();
            let gap = d.config.gaps;
            let master = d.tile_of(count, 0);
            let t = d.tile_of(count, i);
            let next = d.tile_of(count, i + 1);
            &&& t.loc.x == master.loc.x + master.size.w + 2 * (gap as int / 2)
            &&& t.loc.x + t.size.w + gap == area.loc.x + area.size.w
            &&& i == 1 ==> t.loc.y == area.loc.y + gap
            &&& t.size.h >= 1
            &&& i + 1 < count ==> next.loc.x == t.loc.x
            &&& i + 1 < count ==> next.size == t.size
            &&& i + 1 < count ==> next.loc.y == t.loc.y + t.size.h + gap
            &&& t.loc.y + t.size.h + gap <= area.loc.y + area.size.h
            &&& i + 1 == count ==> area.loc.y + area.size.h < t.loc.y + t.size.h + gap + count - 1
        }),
{
    let area = d.primary_output();
    let gap = d.config.gaps as int;
    let stack = count - 1;
    let slot = (area.size.h - gap * (stack + 1)) / stack;
    lemma_slots(area.size.h as int, gap, stack, slot, i - 1);
    lemma_slots(area.size.h as int, gap, stack, slot, i);
    lemma_slots(area.size.h as int, gap, stack, slot, stack);
    assert(gap * (stack + 1) >= 0) by (nonlinear_arith)
        requires
            gap >= 0,
            stack >= 1,
    ;
    assert(i == 1 ==> (i - 1) * (slot + gap) == 0) by (nonlinear_arith);
    assert(slot <= area.size.h) by (nonlinear_arith)
        requires
            gap + stack * (slot + gap) <= area.size.h,
            stack >= 1,
            gap >= 0,
            slot >= 1,
    {
        assert(stack * (slot + gap) >= slot + gap);
    }
}

proof fn lemma_ids_begin(d: Desk, m: nat, n: nat)
    requires
        m <= n <= d.windows.len(),
    ensures
        d.tiled_ids(m).len() <= d.tiled_ids(n).len(),
        forall|k: int|
            0 <= k < d.tiled_ids(m).len() ==> d.tiled_ids(n)[k] == #[trigger] d.tiled_ids(m)[k],
    decreases n,
{
    if m < n {
        lemma_ids_begin(d, m, (n - 1) as nat);
    }
}

proof fn lemma_ids_differ(d: Desk, n: nat, j: int, k: int)
    requires
        d.sound(),
        n <= d.windows.len(),
        0 <= j < k < d.tiled_ids(n).len(),
    ensures
        d.tiled_ids(n)[j] != d.tiled_ids(n)[k],
    decreases n,
{
    let m = (n - 1) as nat;
    if k < d.tiled_ids(m).len() {
        lemma_ids_differ(d, m, j, k);
    } else {
        crate::hwde::lemma_tiled_id_has_window(d, m, j);
        let t = choose|t: int|
            0 <= t < m && (#[trigger] d.windows[t]).id == d.tiled_ids(m)[j] && d.is_tiled(t);
        assert(d.windows[t].id != d.windows[n - 1].id);
    }
}

proof fn lemma_tile_given(d: Desk, ids: Seq<u64>, n: nat, r: int, i: int)
    requires
        d.sound(),
        0 <= r < n <= ids.len(),
        0 <= i < d.windows.len(),
        d.windows[i].id == ids[r],
        forall|k: int| 0 <= k < ids.len() && k != r ==> #[trigger] ids[k] != ids[r],
    ensures
        ({
            let w = d.windows[i];
            let t = d.tile_of(ids.len() as int, r);
            let e = d.set_tiles(ids, n).effects;
            let told = if w.is_x11 {
                Effect::ConfigureX11 { window: w.window, geometry: t }
            } else {
                Effect::Configure { window: w.window, size: t.size }
            };
            &&& location_in(d.set_tiles(ids, n).space, w.window) == Some(t.loc)
            &&& e.contains(told)
            &&& e.contains(Effect::Show { window: w.window, location: t.loc, activate: false })
        }),
    decreases n,
{
    let m = (n - 1) as nat;
    let w = d.windows[i];
    let before = d.set_tiles(ids, m);
    let after = d.set_tiles(ids, n);
    lemma_set_tiles(d, ids, m);
    lemma_found(d, i);
    let j = position(d.windows, ids[n - 1]) as int;
    crate::window::lemma_position(d.windows, ids[n - 1]);
    let t = d.tile_of(ids.len() as int, n - 1);
    let told = if w.is_x11 {
        Effect::ConfigureX11 { window: w.window, geometry: d.tile_of(ids.len() as int, r) }
    } else {
        Effect::Configure {
            window: w.window,
            size: d.tile_of(ids.len() as int, r).size,
        }
    };
    if m == r {
        law_map_moves_one_window(before.space, w.window, t.loc, w.window);
        assert(after.effects[before.effects.len() as int] == told);
        assert(after.effects[before.effects.len() as int + 1] == (Effect::Show {
            window: w.window,
            location: t.loc,
            activate: false,
        }));
    } else {
        lemma_tile_given(d, ids, m, r, i);
        let shown = Effect::Show {
            window: w.window,
            location: d.tile_of(ids.len() as int, r).loc,
            activate: false,
        };
        let a = choose|a: int| 0 <= a < before.effects.len() && before.effects[a] == told;
        let b = choose|b: int| 0 <= b < before.effects.len() && before.effects[b] == shown;
        assert(after.effects[a] == told);
        assert(after.effects[b] == shown);
        if j < d.windows.len() {
            assert(ids[n - 1] != ids[r]);
            if j < i {
                assert(d.windows[j].window != d.windows[i].window);
            } else if i < j {
                assert(d.windows[i].window != d.windows[j].window);
            }
            law_map_moves_one_window(before.space, d.windows[j].window, t.loc, w.window);
        }
    }
}

/// Where the active workspace is tiled, each window that takes part is shown in the tile
/// of its turn, and its client is asked for the size of that tile, an X11 client for its
/// geometry.
pub proof fn law_tiled_windows_get_their_tiles(d: Desk, i: int)
    requires
        d.sound(),
        d.tiling.contains(d.active),
        0 <= i < d.windows.len(),
        d.windows[i].workspace == d.active,
        !d.windows[i].is_minimized,
        !d.windows[i].is_maximized,
        !d.floating.contains(d.windows[i].id),
    ensures
        ({
            let w = d.windows[i];
            let count = d.tiled_ids(d.windows.len()).len() as int;
            let before = d.tiled_ids(i as nat).len() as int;
            let t = d.tile_of(count, before);
            let told = if w.is_x11 {
                Effect::ConfigureX11 { window: w.window, geometry: t }
            } else {
                Effect::Configure { window: w.window, size: t.size }
            };
            &&& before < count
            &&& location_in(d.tiled().space, w.window) == Some(t.loc)
            &&& d.tiled().effects.contains(told)
            &&& d.tiled().effects.contains(
                Effect::Show { window: w.window, location: t.loc, activate: false },
            )
        }),
{
    let n = d.windows.len();
    let ids = d.tiled_ids(n);
    let r = d.tiled_ids(i as nat).len() as int;
    assert(d.tiled_ids((i + 1) as nat) == d.tiled_ids(i as nat).push(d.windows[i].id));
    lemma_ids_begin(d, (i + 1) as nat, n);
    assert(d.tiled_ids((i + 1) as nat)[r] == d.windows[i].id);
    assert(ids[r] == d.windows[i].id);
    assert forall|k: int| 0 <= k < ids.len() && k != r implies #[trigger] ids[k] != ids[r] by {
        if k < r {
            lemma_ids_differ(d, n, k, r);
        } else {
            lemma_ids_differ(d, n, r, k);
        }
    }
    lemma_tile_given(d, ids, ids.len(), r, i);
}

/// The turns of the tiled windows are those of the windows themselves: of two tiled
/// windows the one that is managed first has the earlier tile, and the first of all is
/// the master.
pub proof fn law_tiles_are_in_order(d: Desk, i: int, j: int)
    requires
        0 <= i < j < d.windows.len(),
        d.windows[i].workspace == d.active,
        !d.windows[i].is_minimized,
        !d.windows[i].is_maximized,
        !d.floating.contains(d.windows[i].id),
    ensures
        d.tiled_ids(i as nat).len() < d.tiled_ids(j as nat).len(),
{
    assert(d.tiled_ids((i + 1) as nat) == d.tiled_ids(i as nat).push(d.windows[i].id));
    lemma_ids_begin(d, (i + 1) as nat, j as nat);
}

} // verus!
