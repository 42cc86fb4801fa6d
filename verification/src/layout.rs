//! The master/stack tiling layout: one master window beside (or above) a stack
//! of equal slots.
use vstd::prelude::*;

use crate::geometry::{at_least, at_most, quotient, sat, sat_i128, sat_i64, max_i32, min_i32};
use crate::ratio::{share, Ratio};

verus! {

#[derive(Debug, Clone, Copy, PartialEq, Eq, Structural)]
pub struct Rect {
    pub x: i32,
    pub y: i32,
    pub w: i32,
    pub h: i32,
}

impl Default for Rect {
    fn default() -> (r: Rect)
        ensures
            r == (Rect { x: 0, y: 0, w: 0, h: 0 }),
    {
        Rect { x: 0, y: 0, w: 0, h: 0 }
    }
}

/// A rectangle from mathematical coordinates, each held between the 32-bit bounds.
pub open spec fn rect(x: int, y: int, w: int, h: int) -> Rect {
    Rect { x: sat(x) as i32, y: sat(y) as i32, w: sat(w) as i32, h: sat(h) as i32 }
}

/// A rectangle moved in by `amount` on all four sides; it never gets a negative size.
pub open spec fn inset_of(r: Rect, amount: int) -> Rect {
    rect(r.x + amount, r.y + amount, at_least(r.w - 2 * amount, 0), at_least(r.h - 2 * amount, 0))
}

impl Rect {
    pub fn new(x: i32, y: i32, w: i32, h: i32) -> (r: Rect)
        ensures
            r == (Rect { x, y, w, h }),
    {
        Rect { x, y, w, h }
    }

    pub fn inset(&self, amount: i32) -> (r: Rect)
        ensures
            r == inset_of(*self, amount as int),
    {
        let w: i64 = self.w as i64 - 2 * amount as i64;
        let h: i64 = self.h as i64 - 2 * amount as i64;
        Rect {
            x: sat_i64(self.x as i64 + amount as i64),
            y: sat_i64(self.y as i64 + amount as i64),
            w: if w < 0 {
                0
            } else {
                sat_i64(w)
            },
            h: if h < 0 {
                0
            } else {
                sat_i64(h)
            },
        }
    }
}

/// The side of the area on which the stack stands.
#[derive(Debug, Clone, Copy, PartialEq, Eq, Structural)]
pub enum StackSide {
    Right,
    Left,
    Bottom,
    Top,
}

impl Default for StackSide {
    fn default() -> (r: StackSide)
        ensures
            r == StackSide::Right,
    {
        StackSide::Right
    }
}

#[derive(Debug, Clone, Copy, PartialEq, Eq, Structural)]
pub struct TilingConfig {
    /// The share of the area that the master window takes.
    pub master_ratio: Ratio,
    /// The distance between windows, and between windows and the edge.
    pub gaps_px: i32,
    pub stack_side: StackSide,
}

impl Default for TilingConfig {
    fn default() -> (r: TilingConfig)
        ensures
            r.master_ratio.bits == crate::ratio::STANDARD,
            r.gaps_px == 8,
            r.stack_side == StackSide::Right,
    {
        TilingConfig {
            master_ratio: Ratio::from_bits(crate::ratio::STANDARD),
            gaps_px: 8,
            stack_side: StackSide::Right,
        }
    }
}

/// Whether master and stack stand side by side.
pub open spec fn side_by_side(side: StackSide) -> bool {
    side == StackSide::Right || side == StackSide::Left
}

/// The length of the master window out of `len`, which also has to hold one gap.
pub open spec fn master_len(len: int, bits: int, gap: int) -> int {
    at_most(share(bits, sat(len - gap)), len)
}

/// The length that is left for the stack.
pub open spec fn stack_len(len: int, master: int, gap: int) -> int {
    at_least(len - master - gap, 0)
}

/// The master's and the stack's place in an area.
pub open spec fn split_of(area: Rect, bits: int, gap: int, side: StackSide) -> (Rect, Rect) {
    let mw = master_len(area.w as int, bits, gap);
    let sw = stack_len(area.w as int, mw, gap);
    let mh = master_len(area.h as int, bits, gap);
    let sh = stack_len(area.h as int, mh, gap);
    match side {
        StackSide::Right => (
            rect(area.x as int, area.y as int, mw, area.h as int),
            rect(area.x + mw + gap, area.y as int, sw, area.h as int),
        ),
        StackSide::Left => (
            rect(area.x + sw + gap, area.y as int, mw, area.h as int),
            rect(area.x as int, area.y as int, sw, area.h as int),
        ),
        StackSide::Bottom => (
            rect(area.x as int, area.y as int, area.w as int, mh),
            rect(area.x as int, area.y + mh + gap, area.w as int, sh),
        ),
        StackSide::Top => (
            rect(area.x as int, area.y + sh + gap, area.w as int, mh),
            rect(area.x as int, area.y as int, area.w as int, sh),
        ),
    }
}

/// The length of every slot of a stack but the last.
pub open spec fn slot_len(len: int, count: int, gap: int) -> int {
    at_least(quotient(len - gap * (count - 1), count), 0)
}

/// How far slot `i` starts from the start of the stack.
pub open spec fn slot_start(len: int, count: int, gap: int, i: int) -> int {
    i * (slot_len(len, count, gap) + gap)
}

/// The length of slot `i`; the last slot takes what is left.
pub open spec fn slot_extent(len: int, count: int, gap: int, i: int) -> int {
    if i == count - 1 {
        at_least(len - slot_start(len, count, gap, i), 0)
    } else {
        slot_len(len, count, gap)
    }
}

/// Slot `i` of a stack of `count` windows.
pub open spec fn stack_rect(area: Rect, count: int, gap: int, side: StackSide, i: int) -> Rect {
    if side_by_side(side) {
        rect(
            area.x as int,
            area.y + slot_start(area.h as int, count, gap, i),
            area.w as int,
            slot_extent(area.h as int, count, gap, i),
        )
    } else {
        rect(
            area.x + slot_start(area.w as int, count, gap, i),
            area.y as int,
            slot_extent(area.w as int, count, gap, i),
            area.h as int,
        )
    }
}

/// The place of window `i` of `count`.
pub open spec fn layout_rect(area: Rect, count: int, config: TilingConfig, i: int) -> Rect {
    let usable = inset_of(area, config.gaps_px as int);
    let gap = at_least(config.gaps_px as int, 0);
    let (master, stack) = split_of(usable, config.master_ratio.bits as int, gap, config.stack_side);
    if usable.w <= 0 || usable.h <= 0 || count == 1 {
        usable
    } else if i == 0 {
        master
    } else {
        stack_rect(stack, count - 1, gap, config.stack_side, i - 1)
    }
}

fn split_len(len: i32, ratio: &Ratio, gap: i32) -> (r: (i32, i32))
    requires
        0 <= len,
        0 <= gap,
    ensures
        r.0 == master_len(len as int, ratio.bits as int, gap as int),
        r.1 == stack_len(len as int, r.0 as int, gap as int),
        0 <= r.0 <= len,
        0 <= r.1 <= len,
{
    let master: i32 = min_i32(ratio.of(sat_i64(len as i64 - gap as i64)), len);
    let left: i64 = len as i64 - master as i64 - gap as i64;
    let stack: i32 = if left < 0 {
        0
    } else {
        sat_i64(left)
    };
    (master, stack)
}

fn split_master_stack(area: Rect, ratio: &Ratio, gap: i32, side: StackSide) -> (r: (Rect, Rect))
    requires
        0 <= area.w,
        0 <= area.h,
        0 <= gap,
    ensures
        r == split_of(area, ratio.bits as int, gap as int, side),
{
    let (mw, sw) = split_len(area.w, ratio, gap);
    let (mh, sh) = split_len(area.h, ratio, gap);
    match side {
        StackSide::Right => (
            Rect { x: area.x, y: area.y, w: mw, h: area.h },
            Rect {
                x: sat_i64(area.x as i64 + mw as i64 + gap as i64),
                y: area.y,
                w: sw,
                h: area.h,
            },
        ),
        StackSide::Left => (
            Rect {
                x: sat_i64(area.x as i64 + sw as i64 + gap as i64),
                y: area.y,
                w: mw,
                h: area.h,
            },
            Rect { x: area.x, y: area.y, w: sw, h: area.h },
        ),
        StackSide::Bottom => (
            Rect { x: area.x, y: area.y, w: area.w, h: mh },
            Rect {
                x: area.x,
                y: sat_i64(area.y as i64 + mh as i64 + gap as i64),
                w: area.w,
                h: sh,
            },
        ),
        StackSide::Top => (
            Rect {
                x: area.x,
                y: sat_i64(area.y as i64 + sh as i64 + gap as i64),
                w: area.w,
                h: mh,
            },
            Rect { x: area.x, y: area.y, w: area.w, h: sh },
        ),
    }
}

/// Start and length of slot `i`, from `origin` on.
fn stack_slot(origin: i32, len: i32, count: usize, gap: i32, i: usize) -> (r: (i32, i32))
    requires
        0 <= len,
        0 <= gap,
        i < count,
    ensures
        r.0 == sat(origin + slot_start(len as int, count as int, gap as int, i as int)),
        r.1 == sat(slot_extent(len as int, count as int, gap as int, i as int)),
{
    let n: i128 = count as i128;
    let g: i128 = gap as i128;
    proof {
        assert(0 <= g * (n - 1) <= 0x8000_0000 * 0x1_0000_0000_0000_0000) by (nonlinear_arith)
            requires
                0 <= g < 0x8000_0000,
                1 <= n <= 0x1_0000_0000_0000_0000,
        ;
    }
    let free: i128 = len as i128 - g * (n - 1);
    let each: i128 = if free < 0 {
        0
    } else {
        free / n
    };
    proof {
        assert(each <= free || each == 0) by (nonlinear_arith)
            requires
                each == 0 || (each == (free as int) / (n as int) && free >= 0),
                n >= 1,
        ;
        if free < 0 {
            assert((-free) / (n as int) >= 0) by (nonlinear_arith)
                requires
                    free < 0,
                    n >= 1,
            ;
        } else {
            assert((free as int) / (n as int) >= 0) by (nonlinear_arith)
                requires
                    free >= 0,
                    n >= 1,
            ;
        }
        assert(each == slot_len(len as int, count as int, gap as int));
        assert(0 <= each < 0x8000_0000);
        assert(0 <= i * (each + g) <= 0x1_0000_0000_0000_0000 * 0x1_0000_0000) by (nonlinear_arith)
            requires
                0 <= i < 0x1_0000_0000_0000_0000,
                0 <= each + g <= 0x1_0000_0000,
        ;
    }
    let start: i128 = i as i128 * (each + g);
    let extent: i128 = if i == count - 1 {
        let left: i128 = len as i128 - start;
        if left < 0 {
            0
        } else {
            left
        }
    } else {
        each
    };
    (sat_i128(origin as i128 + start), sat_i128(extent))
}

fn stack_layout(area: Rect, count: usize, gap: i32, side: StackSide) -> (r: Vec<Rect>)
    requires
        0 <= area.w,
        0 <= area.h,
        0 <= gap,
    ensures
        r.len() == count,
        forall|i: int|
            0 <= i < count ==> #[trigger] r@[i] == stack_rect(
                area,
                count as int,
                gap as int,
                side,
                i,
            ),
{
    let mut rects: Vec<Rect> = Vec::new();
    let mut i: usize = 0;
    while i < count
        invariant
            i <= count,
            0 <= area.w,
            0 <= area.h,
            0 <= gap,
            rects.len() == i,
            forall|k: int|
                0 <= k < i ==> #[trigger] rects@[k] == stack_rect(
                    area,
                    count as int,
                    gap as int,
                    side,
                    k,
                ),
        decreases count - i,
    {
        let upright = match side {
            StackSide::Right => true,
            StackSide::Left => true,
            StackSide::Bottom => false,
            StackSide::Top => false,
        };
        if upright {
            let (y, h) = stack_slot(area.y, area.h, count, gap, i);
            rects.push(Rect { x: area.x, y, w: area.w, h });
        } else {
            let (x, w) = stack_slot(area.x, area.w, count, gap, i);
            rects.push(Rect { x, y: area.y, w, h: area.h });
        }
        i = i + 1;
    }
    rects
}

/// The places of `window_count` windows in `area`, master first.
pub fn compute_layout(area: Rect, window_count: usize, config: &TilingConfig) -> (r: Vec<Rect>)
    ensures
        r.len() == window_count,
        forall|i: int|
            0 <= i < window_count ==> #[trigger] r@[i] == layout_rect(
                area,
                window_count as int,
                *config,
                i,
            ),
{
    let mut rects: Vec<Rect> = Vec::new();
    if window_count == 0 {
        return rects;
    }
    let usable = area.inset(config.gaps_px);
    if usable.w <= 0 || usable.h <= 0 || window_count == 1 {
        let mut i: usize = 0;
        while i < window_count
            invariant
                i <= window_count,
                rects.len() == i,
                forall|k: int| 0 <= k < i ==> #[trigger] rects@[k] == usable,
            decreases window_count - i,
        {
            rects.push(usable);
            i = i + 1;
        }
        return rects;
    }
    let gap: i32 = max_i32(config.gaps_px, 0);
    let (master, stack_area) = split_master_stack(
        usable,
        &config.master_ratio,
        gap,
        config.stack_side,
    );
    let mut stack = stack_layout(stack_area, window_count - 1, gap, config.stack_side);
    rects.push(master);
    rects.append(&mut stack);
    rects
}

/// No window gets a negative size, whatever the area and the configuration.
pub proof fn law_layout_sizes_are_not_negative(area: Rect, count: int, config: TilingConfig, i: int)
    requires
        0 <= i < count,
    ensures
        layout_rect(area, count, config, i).w >= 0,
        layout_rect(area, count, config, i).h >= 0,
{
}

/// In a stack, one slot ends exactly one gap before the next begins: no two
/// slots overlap.
pub proof fn law_stack_slots_are_one_gap_apart(len: int, count: int, gap: int, i: int)
    requires
        0 <= gap,
        0 <= i < count - 1,
    ensures
        slot_start(len, count, gap, i) + slot_extent(len, count, gap, i) + gap == slot_start(
            len,
            count,
            gap,
            i + 1,
        ),
{
    let step = slot_len(len, count, gap) + gap;
    assert((i + 1) * step == i * step + step) by (nonlinear_arith);
}

proof fn lemma_slots_fit(len: int, count: int, gap: int)
    requires
        0 <= gap,
        0 < count,
        gap * (count - 1) <= len,
    ensures
        slot_start(len, count, gap, count - 1) + slot_len(len, count, gap) <= len,
{
    let free = len - gap * (count - 1);
    let each = free / count;
    assert(each >= 0 && each * count <= free) by (nonlinear_arith)
        requires
            each == free / count,
            count > 0,
            free >= 0,
    ;
    assert((count - 1) * (each + gap) + each == each * count + gap * (count - 1))
        by (nonlinear_arith);
}

/// Where the gaps leave room, the stack reaches exactly to the end of its area.
pub proof fn law_stack_covers_its_area(len: int, count: int, gap: int)
    requires
        0 <= gap,
        0 < count,
        gap * (count - 1) <= len,
    ensures
        slot_start(len, count, gap, count - 1) + slot_extent(len, count, gap, count - 1) == len,
{
    lemma_slots_fit(len, count, gap);
    let free = len - gap * (count - 1);
    assert(free / count >= 0) by (nonlinear_arith)
        requires
            free >= 0,
            count > 0,
    ;
}

/// Where the gaps leave room, every slot lies inside the stack's area.
pub proof fn law_stack_slots_lie_inside(len: int, count: int, gap: int, i: int)
    requires
        0 <= gap,
        0 <= i < count,
        gap * (count - 1) <= len,
    ensures
        0 <= slot_start(len, count, gap, i),
        slot_start(len, count, gap, i) + slot_extent(len, count, gap, i) <= len,
{
    lemma_slots_fit(len, count, gap);
    let each = slot_len(len, count, gap);
    assert(0 <= i * (each + gap) <= (count - 1) * (each + gap)) by (nonlinear_arith)
        requires
            0 <= i <= count - 1,
            0 <= each + gap,
    ;
}

/// Master, gap and stack together take the whole length, unless the master
/// leaves no room for the gap.
pub proof fn law_master_and_stack_fill_the_length(len: int, bits: int, gap: int)
    requires
        0 <= gap,
        master_len(len, bits, gap) + gap <= len,
    ensures
        master_len(len, bits, gap) + gap + stack_len(len, master_len(len, bits, gap), gap) == len,
{
}

/// Whether two rectangles have no point in common.
pub open spec fn apart(a: Rect, b: Rect) -> bool {
    ||| a.x + a.w <= b.x
    ||| b.x + b.w <= a.x
    ||| a.y + a.h <= b.y
    ||| b.y + b.h <= a.y
}

/// Whether a rectangle ends where coordinates can still tell.
pub open spec fn in_reach(r: Rect) -> bool {
    r.x + r.w <= i32::MAX && r.y + r.h <= i32::MAX
}

/// Slots of a stack do not overlap either once their places are held between the
/// 32-bit bounds.
proof fn lemma_slots_apart(origin: int, len: int, count: int, gap: int, i: int, j: int)
    requires
        i32::MIN <= origin,
        0 <= len <= i32::MAX,
        origin + len <= i32::MAX,
        0 <= gap,
        0 <= i < j < count,
    ensures
        sat(origin + slot_start(len, count, gap, i)) + slot_extent(len, count, gap, i) <= sat(
            origin + slot_start(len, count, gap, j),
        ),
        0 <= slot_extent(len, count, gap, i) <= i32::MAX,
{
    let each = slot_len(len, count, gap);
    assert((j - i) * (each + gap) >= each + gap && j * (each + gap) == i * (each + gap) + (j - i)
        * (each + gap)) by (nonlinear_arith)
        requires
            i < j,
            0 <= each + gap,
    ;
    assert(i * (each + gap) >= 0) by (nonlinear_arith)
        requires
            0 <= i,
            0 <= each + gap,
    ;
    if each > 0 {
        if gap * (count - 1) > len {
            let over = gap * (count - 1) - len;
            assert(over / count >= 0) by (nonlinear_arith)
                requires
                    over > 0,
                    count > 0,
            ;
        }
        law_stack_slots_lie_inside(len, count, gap, i);
        law_stack_slots_lie_inside(len, count, gap, j);
    }
}

proof fn lemma_master_len(len: int, bits: int, gap: int)
    requires
        0 <= len,
    ensures
        0 <= master_len(len, bits, gap) <= len,
{
}

/// Master and stack do not overlap, and the stack has the area's extent along which
/// its windows are laid.
proof fn lemma_split_apart(area: Rect, bits: int, gap: int, side: StackSide)
    requires
        0 <= area.w,
        0 <= area.h,
        0 <= gap,
        in_reach(area),
    ensures
        ({
            let (master, stack) = split_of(area, bits, gap, side);
            if side_by_side(side) {
                &&& stack.y == area.y && stack.h == area.h
                &&& master.x + master.w <= stack.x || stack.x + stack.w <= master.x
            } else {
                &&& stack.x == area.x && stack.w == area.w
                &&& master.y + master.h <= stack.y || stack.y + stack.h <= master.y
            }
        }),
{
    lemma_master_len(area.w as int, bits, gap);
    lemma_master_len(area.h as int, bits, gap);
}

/// No two windows of a layout overlap.
#[verifier::spinoff_prover]
pub proof fn law_windows_of_a_layout_do_not_overlap(
    area: Rect,
    count: int,
    config: TilingConfig,
    i: int,
    j: int,
)
    requires
        0 <= i < j < count,
        in_reach(inset_of(area, config.gaps_px as int)),
    ensures
        apart(layout_rect(area, count, config, i), layout_rect(area, count, config, j)),
{
    let usable = inset_of(area, config.gaps_px as int);
    let gap = at_least(config.gaps_px as int, 0);
    let bits = config.master_ratio.bits as int;
    lemma_split_apart(usable, bits, gap, config.stack_side);
    let (master, stack) = split_of(usable, bits, gap, config.stack_side);
    if usable.w > 0 && usable.h > 0 && i > 0 {
        if side_by_side(config.stack_side) {
            lemma_slots_apart(usable.y as int, usable.h as int, count - 1, gap, i - 1, j - 1);
        } else {
            lemma_slots_apart(usable.x as int, usable.w as int, count - 1, gap, i - 1, j - 1);
        }
    }
}

/// Whether one rectangle lies inside another.
pub open spec fn lies_inside(a: Rect, b: Rect) -> bool {
    &&& b.x <= a.x && a.x + a.w <= b.x + b.w
    &&& b.y <= a.y && a.y + a.h <= b.y + b.h
}

/// Whether the gaps leave room: for the one between master and stack, and for those
/// between the windows of the stack.
pub open spec fn gaps_fit(usable: Rect, count: int, config: TilingConfig) -> bool {
    let gap = at_least(config.gaps_px as int, 0);
    let across = if side_by_side(config.stack_side) {
        usable.w as int
    } else {
        usable.h as int
    };
    let along = if side_by_side(config.stack_side) {
        usable.h as int
    } else {
        usable.w as int
    };
    &&& master_len(across, config.master_ratio.bits as int, gap) + gap <= across
    &&& gap * (count - 2) <= along
}

/// Where the gaps leave room, every window lies inside the area, the gap at its edges
/// left free.
#[verifier::spinoff_prover]
pub proof fn law_windows_of_a_layout_lie_inside(
    area: Rect,
    count: int,
    config: TilingConfig,
    i: int,
)
    requires
        0 <= i < count,
        in_reach(inset_of(area, config.gaps_px as int)),
        count >= 2 ==> gaps_fit(inset_of(area, config.gaps_px as int), count, config),
    ensures
        lies_inside(
            layout_rect(area, count, config, i),
            inset_of(area, config.gaps_px as int),
        ),
{
    let usable = inset_of(area, config.gaps_px as int);
    let gap = at_least(config.gaps_px as int, 0);
    if usable.w > 0 && usable.h > 0 && i > 0 {
        let (along, across) = if side_by_side(config.stack_side) {
            (usable.h as int, usable.w as int)
        } else {
            (usable.w as int, usable.h as int)
        };
        law_stack_slots_lie_inside(along, count - 1, gap, i - 1);
        law_master_and_stack_fill_the_length(across, config.master_ratio.bits as int, gap);
    }
}

/// A window that is alone has the whole area but for the gap on all four sides.
pub proof fn law_a_lone_window_fills_the_area(area: Rect, config: TilingConfig)
    requires
        0 <= config.gaps_px,
        2 * config.gaps_px < area.w,
        2 * config.gaps_px < area.h,
        area.x + area.w <= i32::MAX,
        area.y + area.h <= i32::MAX,
    ensures
        ({
            let r = layout_rect(area, 1, config, 0);
            let gap = config.gaps_px;
            &&& r.x == area.x + gap && r.y == area.y + gap
            &&& r.x + r.w + gap == area.x + area.w
            &&& r.y + r.h + gap == area.y + area.h
        }),
{
}

/// The stack stands on its side of the area and the master on the opposite one, a gap
/// between them and a gap around them. The master has its share of the length and the
/// stack the rest. Both have the area's whole extent the other way.
pub proof fn law_the_stack_stands_on_its_side(area: Rect, count: int, config: TilingConfig, i: int)
    requires
        1 <= i < count,
        0 <= config.gaps_px,
        2 * config.gaps_px < area.w,
        2 * config.gaps_px < area.h,
        area.x + area.w <= i32::MAX,
        area.y + area.h <= i32::MAX,
        gaps_fit(inset_of(area, config.gaps_px as int), count, config),
    ensures
        ({
            let gap = config.gaps_px;
            let m = layout_rect(area, count, config, 0);
            let t = layout_rect(area, count, config, i);
            let bits = config.master_ratio.bits as int;
            let right = area.x + area.w - gap;
            let lower = area.y + area.h - gap;
            let upright = m.y == area.y + gap && m.y + m.h == lower;
            let level = m.x == area.x + gap && m.x + m.w == right;
            match config.stack_side {
                StackSide::Right => {
                    &&& upright && m.x == area.x + gap && t.x == m.x + m.w + gap && t.x + t.w
                        == right
                    &&& share(bits, area.w - 3 * gap) <= area.w - 2 * gap ==> m.w == share(
                        bits,
                        area.w - 3 * gap,
                    )
                },
                StackSide::Left => {
                    &&& upright && t.x == area.x + gap && m.x == t.x + t.w + gap && m.x + m.w
                        == right
                    &&& share(bits, area.w - 3 * gap) <= area.w - 2 * gap ==> m.w == share(
                        bits,
                        area.w - 3 * gap,
                    )
                },
                StackSide::Bottom => {
                    &&& level && m.y == area.y + gap && t.y == m.y + m.h + gap && t.y + t.h == lower
                    &&& share(bits, area.h - 3 * gap) <= area.h - 2 * gap ==> m.h == share(
                        bits,
                        area.h - 3 * gap,
                    )
                },
                StackSide::Top => {
                    &&& level && t.y == area.y + gap && m.y == t.y + t.h + gap && m.y + m.h == lower
                    &&& share(bits, area.h - 3 * gap) <= area.h - 2 * gap ==> m.h == share(
                        bits,
                        area.h - 3 * gap,
                    )
                },
            }
        }),
{
    let usable = inset_of(area, config.gaps_px as int);
    let gap = config.gaps_px as int;
    if side_by_side(config.stack_side) {
        law_stack_slots_lie_inside(usable.h as int, count - 1, gap, i - 1);
    } else {
        law_stack_slots_lie_inside(usable.w as int, count - 1, gap, i - 1);
    }
}

/// The windows of the stack follow one another from the beginning of its extent to the
/// end, a gap apart, all of one length but the last, which takes what is left.
pub proof fn law_the_stack_is_filled_in_order(area: Rect, count: int, config: TilingConfig, i: int)
    requires
        1 <= i < count,
        0 <= config.gaps_px,
        2 * config.gaps_px < area.w,
        2 * config.gaps_px < area.h,
        area.x + area.w <= i32::MAX,
        area.y + area.h <= i32::MAX,
        gaps_fit(inset_of(area, config.gaps_px as int), count, config),
    ensures
        ({
            let gap = config.gaps_px;
            let t = layout_rect(area, count, config, i);
            let next = layout_rect(area, count, config, i + 1);
            if side_by_side(config.stack_side) {
                &&& i == 1 ==> t.y == area.y + gap
                &&& i + 1 < count ==> next.y == t.y + t.h + gap
                &&& i + 2 < count ==> next.h == t.h
                &&& i + 1 == count ==> t.y + t.h + gap == area.y + area.h
            } else {
                &&& i == 1 ==> t.x == area.x + gap
                &&& i + 1 < count ==> next.x == t.x + t.w + gap
                &&& i + 2 < count ==> next.w == t.w
                &&& i + 1 == count ==> t.x + t.w + gap == area.x + area.w
            }
        }),
{
    let usable = inset_of(area, config.gaps_px as int);
    let gap = config.gaps_px as int;
    let len = if side_by_side(config.stack_side) {
        usable.h as int
    } else {
        usable.w as int
    };
    law_stack_slots_lie_inside(len, count - 1, gap, i - 1);
    law_stack_covers_its_area(len, count - 1, gap);
    assert(i == 1 ==> slot_start(len, count - 1, gap, i - 1) == 0) by {
        assert(0 * (slot_len(len, count - 1, gap) + gap) == 0) by (nonlinear_arith);
    }
    if i + 1 < count {
        law_stack_slots_lie_inside(len, count - 1, gap, i);
        law_stack_slots_are_one_gap_apart(len, count - 1, gap, i - 1);
    }
}

} // verus!
