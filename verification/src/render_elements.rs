//! What is drawn on an output, front to back, and what of it can be clicked.
use vstd::prelude::*;

use crate::desk::Desk;
use crate::geometry::{at_least, make_rectangle, max_i32, rectangle, Point, Rectangle, Size};
use crate::hwde::HwdeState;
use crate::space::location_in;
use crate::window::{find_window, position};

verus! {

/// Height of the bar above a window that the compositor decorates, in logical pixels.
pub const SSD_HEIGHT: i32 = 28;

/// Width of the region of the bar that its close button takes.
pub const SSD_CLOSE_WIDTH: i32 = 28;

/// The bar above a window at a place: as wide as the window, and wide enough for the
/// close button.
pub open spec fn bar_geometry(at: Point, width: i32) -> Rectangle {
    rectangle(
        at.x as int,
        at.y - SSD_HEIGHT,
        at_least(width as int, SSD_CLOSE_WIDTH as int),
        SSD_HEIGHT as int,
    )
}

pub fn ssd_bar_geometry(window_loc: Point, window_width: i32) -> (r: Rectangle)
    ensures
        r == bar_geometry(window_loc, window_width),
{
    make_rectangle(
        window_loc.x as i64,
        window_loc.y as i64 - SSD_HEIGHT as i64,
        max_i32(window_width, SSD_CLOSE_WIDTH) as i64,
        SSD_HEIGHT as i64,
    )
}

/// The close button of a bar: a square in its right end, four pixels from its edges.
pub open spec fn close_geometry(bar: Rectangle) -> Rectangle {
    rectangle(
        bar.loc.x + bar.size.w - SSD_HEIGHT + 4,
        bar.loc.y + 4,
        SSD_HEIGHT - 8,
        SSD_HEIGHT - 8,
    )
}

pub fn ssd_close_geometry(bar: Rectangle) -> (r: Rectangle)
    ensures
        r == close_geometry(bar),
{
    make_rectangle(
        bar.loc.x as i64 + bar.size.w as i64 - SSD_HEIGHT as i64 + 4,
        bar.loc.y as i64 + 4,
        SSD_HEIGHT as i64 - 8,
        SSD_HEIGHT as i64 - 8,
    )
}

/// The bar of a window.
#[derive(Debug, Clone, Copy, PartialEq, Eq, Structural)]
pub struct Bar {
    pub id: u64,
    pub geometry: Rectangle,
}

/// The bars of the first `n` windows: of those that the compositor decorates, that are
/// neither minimized nor fullscreen, and that are shown.
pub open spec fn bars(d: Desk, n: nat) -> Seq<Bar>
    decreases n,
{
    if n == 0 {
        Seq::empty()
    } else {
        let before = bars(d, (n - 1) as nat);
        let w = d.windows[n - 1];
        if !w.is_ssd || w.is_minimized || w.is_fullscreen {
            before
        } else {
            match location_in(d.space, w.window) {
                Some(at) => before.push(Bar { id: w.id, geometry: bar_geometry(at, w.size.w) }),
                None => before,
            }
        }
    }
}

pub open spec fn all_bars(d: Desk) -> Seq<Bar> {
    bars(d, d.windows.len())
}

/// What of a bar was hit: the bar itself, or its close button.
#[derive(Debug, Clone, Copy, PartialEq, Eq, Structural)]
pub enum SsdHit {
    Bar(u64),
    Close(u64),
}

/// What a point hits of the bars; the first bar that it lies in decides.
pub open spec fn hit(bars: Seq<Bar>, at: Point) -> Option<SsdHit>
    decreases bars.len(),
{
    if bars.len() == 0 {
        None
    } else if bars[0].geometry.covers(at) {
        if close_geometry(bars[0].geometry).covers(at) {
            Some(SsdHit::Close(bars[0].id))
        } else {
            Some(SsdHit::Bar(bars[0].id))
        }
    } else {
        hit(bars.skip(1), at)
    }
}

impl HwdeState {
    /// The bars that are drawn, in the order of the windows.
    pub fn decoration_bars(&self) -> (r: Vec<Bar>)
        ensures
            r@ == all_bars(self@),
    {
        let mut out: Vec<Bar> = Vec::new();
        let mut i: usize = 0;
        while i < self.windows.len()
            invariant
                i <= self.windows.len(),
                out@ == bars(self@, i as nat),
            decreases self.windows.len() - i,
        {
            let w = &self.windows[i];
            if w.is_ssd && !w.is_minimized && !w.is_fullscreen {
                match self.space.element_location(w.window) {
                    Some(at) => {
                        out.push(Bar { id: w.id, geometry: ssd_bar_geometry(at, w.size.w) });
                    },
                    None => {},
                }
            }
            i = i + 1;
        }
        out
    }
}

/// What a click hits of the bars.
pub fn ssd_hit_test(state: &HwdeState, pos: Point) -> (r: Option<SsdHit>)
    ensures
        r == hit(all_bars(state@), pos),
{
    let all = state.decoration_bars();
    let mut i: usize = 0;
    assert(all@.skip(0) =~= all@);
    while i < all.len()
        invariant
            i <= all.len(),
            all@ == all_bars(state@),
            hit(all@, pos) == hit(all@.skip(i as int), pos),
        decreases all.len() - i,
    {
        let ghost rest = all@.skip(i as int);
        assert(rest[0] == all@[i as int]);
        assert(rest.skip(1) =~= all@.skip(i + 1));
        let bar = all[i];
        if bar.geometry.contains(pos) {
            let close = ssd_close_geometry(bar.geometry);
            if close.contains(pos) {
                return Some(SsdHit::Close(bar.id));
            }
            return Some(SsdHit::Bar(bar.id));
        }
        i = i + 1;
    }
    None
}

/// The slices of which the cursor is made: offset down, offset right, width.
pub open spec fn cursor_slices() -> Seq<(int, int, int)> {
    seq![(0, 0, 14), (2, 0, 12), (4, 0, 10), (6, 0, 8), (8, 2, 4)]
}

/// A slice of the cursor: two pixels high.
pub open spec fn slice_rect(origin: Point, s: (int, int, int)) -> Rectangle {
    rectangle(origin.x + s.1, origin.y + s.0, s.2, 2)
}

/// The outline behind a slice: one pixel wider on every side.
pub open spec fn outline_rect(origin: Point, s: (int, int, int)) -> Rectangle {
    rectangle(origin.x + s.1 - 1, origin.y + s.0 - 1, s.2 + 2, 4)
}

/// Something that is drawn. Rectangles are in logical pixels.
#[derive(Debug, Clone, Copy, PartialEq, Eq, Structural)]
pub enum Drawn {
    Cursor(Rectangle),
    CursorOutline(Rectangle),
    Dim(Size),
    Border(Rectangle),
    Title(Bar),
    Bar(Rectangle),
    CloseButton(Rectangle),
    /// The windows and layers of the space.
    Space,
    Wallpaper(Size),
}

/// The cursor, slice by slice, each before its outline.
pub open spec fn cursor_drawn(visible: bool, origin: Point) -> Seq<Drawn> {
    if visible {
        Seq::new(
            10,
            |i: int|
                if i % 2 == 0 {
                    Drawn::Cursor(slice_rect(origin, cursor_slices()[i / 2]))
                } else {
                    Drawn::CursorOutline(outline_rect(origin, cursor_slices()[i / 2]))
                },
        )
    } else {
        Seq::empty()
    }
}

fn push_slice(out: &mut Vec<Drawn>, origin: Point, dy: i32, dx: i32, width: i32)
    requires
        0 <= dy <= 100,
        0 <= dx <= 100,
        0 <= width <= 100,
    ensures
        final(out)@ == old(out)@.push(
            Drawn::Cursor(slice_rect(origin, (dy as int, dx as int, width as int))),
        ).push(Drawn::CursorOutline(outline_rect(origin, (dy as int, dx as int, width as int)))),
{
    let x: i64 = origin.x as i64 + dx as i64;
    let y: i64 = origin.y as i64 + dy as i64;
    out.push(Drawn::Cursor(make_rectangle(x, y, width as i64, 2)));
    out.push(Drawn::CursorOutline(make_rectangle(x - 1, y - 1, width as i64 + 2, 4)));
}

/// The cursor at a place, or nothing where it is hidden.
pub fn cursor_elements(visible: bool, origin: Point) -> (r: Vec<Drawn>)
    ensures
        r@ == cursor_drawn(visible, origin),
{
    let mut out: Vec<Drawn> = Vec::new();
    if visible {
        push_slice(&mut out, origin, 0, 0, 14);
        push_slice(&mut out, origin, 2, 0, 12);
        push_slice(&mut out, origin, 4, 0, 10);
        push_slice(&mut out, origin, 6, 0, 8);
        push_slice(&mut out, origin, 8, 2, 4);
    }
    assert(out@ =~= cursor_drawn(visible, origin));
    out
}

/// The frame of a window, `b` pixels wide: above, below, left, right. The upper and
/// lower parts take the corners.
pub open spec fn frame(at: Point, size: Size, b: int) -> Seq<Rectangle> {
    seq![
        rectangle(at.x - b, at.y - b, size.w + b * 2, b),
        rectangle(at.x - b, at.y + size.h, size.w + b * 2, b),
        rectangle(at.x - b, at.y as int, b, size.h as int),
        rectangle(at.x + size.w, at.y as int, b, size.h as int),
    ]
}

/// The frame of the focused window, where there is one to be drawn.
pub open spec fn border(d: Desk) -> Seq<Rectangle> {
    match d.focused {
        Some(id) => {
            let i = position(d.windows, id) as int;
            if d.config.border_width <= 0 || i >= d.windows.len() || d.windows[i].is_minimized
                || d.windows[i].is_fullscreen {
                Seq::empty()
            } else {
                match location_in(d.space, d.windows[i].window) {
                    Some(at) => frame(at, d.windows[i].size, d.config.border_width as int),
                    None => Seq::empty(),
                }
            }
        },
        None => Seq::empty(),
    }
}

fn make_frame(at: Point, size: Size, b: i32) -> (r: Vec<Rectangle>)
    requires
        b > 0,
    ensures
        r@ == frame(at, size, b as int),
{
    let x: i64 = at.x as i64;
    let y: i64 = at.y as i64;
    let w: i64 = size.w as i64;
    let h: i64 = size.h as i64;
    let b: i64 = b as i64;
    let mut out: Vec<Rectangle> = Vec::new();
    out.push(make_rectangle(x - b, y - b, w + b * 2, b));
    out.push(make_rectangle(x - b, y + h, w + b * 2, b));
    out.push(make_rectangle(x - b, y, b, h));
    out.push(make_rectangle(x + w, y, b, h));
    assert(out@ =~= frame(at, size, b as int));
    out
}

/// The frame of the focused window.
pub fn focus_border_elements(state: &HwdeState) -> (r: Vec<Rectangle>)
    ensures
        r@ == border(state@),
{
    if state.config.border_width <= 0 {
        return Vec::new();
    }
    match state.focused_window {
        Some(id) => match find_window(&state.windows, id) {
            Some(i) => {
                let w = &state.windows[i];
                if w.is_minimized || w.is_fullscreen {
                    return Vec::new();
                }
                match state.space.element_location(w.window) {
                    Some(at) => make_frame(at, w.size, state.config.border_width),
                    None => Vec::new(),
                }
            },
            None => Vec::new(),
        },
        None => Vec::new(),
    }
}

/// A bar and its close button.
pub open spec fn decoration(b: Bar) -> Seq<Drawn> {
    seq![Drawn::Bar(b.geometry), Drawn::CloseButton(close_geometry(b.geometry))]
}

pub open spec fn decorations(bars: Seq<Bar>) -> Seq<Drawn>
    decreases bars.len(),
{
    if bars.len() == 0 {
        Seq::empty()
    } else {
        decorations(bars.drop_last()) + decoration(bars.last())
    }
}

/// What decides, besides the desktop, on what is drawn.
#[derive(Debug, Clone, Copy, PartialEq, Eq, Structural)]
pub struct RenderInputs {
    pub idle_dimmed: bool,
    pub cursor_visible: bool,
    pub cursor_location: Point,
    /// Whether a wallpaper has been loaded.
    pub wallpaper_loaded: bool,
}

/// Everything that is drawn on an output of a size, front to back: the cursor, the
/// dimming, the frame, titles, bars, windows, the wallpaper.
pub open spec fn drawn(d: Desk, inputs: RenderInputs, size: Size) -> Seq<Drawn> {
    cursor_drawn(inputs.cursor_visible, inputs.cursor_location) + (if inputs.idle_dimmed {
        seq![Drawn::Dim(size)]
    } else {
        Seq::empty()
    }) + border(d).map_values(|r: Rectangle| Drawn::Border(r)) + all_bars(d).map_values(
        |b: Bar| Drawn::Title(b),
    ) + decorations(all_bars(d)) + seq![Drawn::Space] + (if inputs.wallpaper_loaded {
        seq![Drawn::Wallpaper(size)]
    } else {
        Seq::empty()
    })
}

/// Everything that is drawn on an output, front to back.
pub fn build_output_elements(state: &HwdeState, inputs: RenderInputs, output_size: Size) -> (r: Vec<
    Drawn,
>)
    ensures
        r@ == drawn(state@, inputs, output_size),
{
    let mut out = cursor_elements(inputs.cursor_visible, inputs.cursor_location);
    let ghost front = cursor_drawn(inputs.cursor_visible, inputs.cursor_location);
    let ghost dim = if inputs.idle_dimmed {
        seq![Drawn::Dim(output_size)]
    } else {
        Seq::empty()
    };
    if inputs.idle_dimmed {
        out.push(Drawn::Dim(output_size));
    }
    assert(out@ =~= front + dim);
    let frame = focus_border_elements(state);
    let ghost borders = border(state@).map_values(|r: Rectangle| Drawn::Border(r));
    let mut i: usize = 0;
    while i < frame.len()
        invariant
            i <= frame.len(),
            frame@ == border(state@),
            borders == border(state@).map_values(|r: Rectangle| Drawn::Border(r)),
            out@ == front + dim + borders.take(i as int),
        decreases frame.len() - i,
    {
        out.push(Drawn::Border(frame[i]));
        i = i + 1;
        assert(borders.take(i as int) =~= borders.take(i - 1).push(Drawn::Border(frame@[i - 1])));
        assert(out@ =~= front + dim + borders.take(i as int));
    }
    assert(borders.take(frame.len() as int) =~= borders);
    let all = state.decoration_bars();
    let ghost titles = all@.map_values(|b: Bar| Drawn::Title(b));
    let ghost base = front + dim + borders;
    let mut i: usize = 0;
    assert(out@ =~= base + titles.take(0));
    while i < all.len()
        invariant
            i <= all.len(),
            titles == all@.map_values(|b: Bar| Drawn::Title(b)),
            out@ == base + titles.take(i as int),
        decreases all.len() - i,
    {
        out.push(Drawn::Title(all[i]));
        i = i + 1;
        assert(titles.take(i as int) =~= titles.take(i - 1).push(Drawn::Title(all@[i - 1])));
        assert(out@ =~= base + titles.take(i as int));
    }
    assert(titles.take(all.len() as int) =~= titles);
    let ghost base = front + dim + borders + titles;
    let mut i: usize = 0;
    assert(all@.take(0) =~= Seq::empty());
    assert(out@ =~= base + decorations(all@.take(0)));
    while i < all.len()
        invariant
            i <= all.len(),
            out@ == base + decorations(all@.take(i as int)),
        decreases all.len() - i,
    {
        let bar = all[i];
        out.push(Drawn::Bar(bar.geometry));
        out.push(Drawn::CloseButton(ssd_close_geometry(bar.geometry)));
        i = i + 1;
        assert(all@.take(i as int).drop_last() =~= all@.take(i - 1));
        assert(all@.take(i as int).last() == bar);
        assert(out@ =~= base + decorations(all@.take(i as int)));
    }
    assert(all@.take(all.len() as int) =~= all@);
    out.push(Drawn::Space);
    if inputs.wallpaper_loaded {
        out.push(Drawn::Wallpaper(output_size));
    }
    assert(out@ =~= drawn(state@, inputs, output_size));
    out
}

/// The close button lies within the bar wherever coordinates do not run out.
pub proof fn law_close_button_lies_in_the_bar(at: Point, width: i32, p: Point)
    requires
        i32::MIN + SSD_HEIGHT <= at.y,
        at.x + at_least(width as int, SSD_CLOSE_WIDTH as int) <= i32::MAX,
        close_geometry(bar_geometry(at, width)).covers(p),
    ensures
        bar_geometry(at, width).covers(p),
{
}

/// Every bar is above its window and as wide as the close button at least.
pub proof fn law_bar_is_above_the_window(at: Point, width: i32)
    requires
        i32::MIN + SSD_HEIGHT <= at.y,
    ensures
        bar_geometry(at, width).loc.x == at.x,
        bar_geometry(at, width).loc.y + bar_geometry(at, width).size.h == at.y,
        bar_geometry(at, width).size.w >= SSD_CLOSE_WIDTH,
        width >= SSD_CLOSE_WIDTH ==> bar_geometry(at, width).size.w == width,
{
}

/// The bars of the first windows are all of windows that the compositor decorates.
proof fn lemma_bars(d: Desk, n: nat, k: int)
    requires
        n <= d.windows.len(),
        0 <= k < bars(d, n).len(),
    ensures
        exists|i: int|
            0 <= i < n && (#[trigger] d.windows[i]).id == bars(d, n)[k].id && d.windows[i].is_ssd
                && !d.windows[i].is_minimized && !d.windows[i].is_fullscreen,
    decreases n,
{
    let before = bars(d, (n - 1) as nat);
    let w = d.windows[n - 1];
    if k < before.len() {
        lemma_bars(d, (n - 1) as nat, k);
        assert(bars(d, n)[k] == before[k]);
    } else {
        assert(w.id == bars(d, n)[k].id);
    }
}

proof fn lemma_hit(s: Seq<Bar>, at: Point)
    requires
        hit(s, at) is Some,
    ensures
        exists|k: int|
            0 <= k < s.len() && (#[trigger] s[k]).geometry.covers(at) && (hit(s, at) == Some(
                SsdHit::Bar(s[k].id),
            ) || hit(s, at) == Some(SsdHit::Close(s[k].id))),
    decreases s.len(),
{
    if !s[0].geometry.covers(at) {
        lemma_hit(s.skip(1), at);
        let k = choose|k: int|
            0 <= k < s.skip(1).len() && (#[trigger] s.skip(1)[k]).geometry.covers(at) && (hit(
                s.skip(1),
                at,
            ) == Some(SsdHit::Bar(s.skip(1)[k].id)) || hit(s.skip(1), at) == Some(
                SsdHit::Close(s.skip(1)[k].id),
            ));
        assert(s[k + 1] == s.skip(1)[k]);
    }
}

/// A hit names a decorated window, which is neither minimized nor fullscreen.
pub proof fn law_hits_name_decorated_windows(d: Desk, at: Point)
    requires
        hit(all_bars(d), at) is Some,
    ensures
        exists|i: int|
            0 <= i < d.windows.len() && (#[trigger] d.windows[i]).is_ssd
                && !d.windows[i].is_minimized && !d.windows[i].is_fullscreen && (hit(
                all_bars(d),
                at,
            ) == Some(SsdHit::Bar(d.windows[i].id)) || hit(all_bars(d), at) == Some(
                SsdHit::Close(d.windows[i].id),
            )),
{
    let s = all_bars(d);
    lemma_hit(s, at);
    let k = choose|k: int|
        0 <= k < s.len() && (#[trigger] s[k]).geometry.covers(at) && (hit(s, at) == Some(
            SsdHit::Bar(s[k].id),
        ) || hit(s, at) == Some(SsdHit::Close(s[k].id)));
    lemma_bars(d, d.windows.len(), k);
}

/// The close button is a square in the right end of the bar, four pixels from its upper,
/// lower and right edges.
pub proof fn law_the_close_button_is_at_the_right_end(bar: Rectangle)
    requires
        bar.size.h == SSD_HEIGHT,
        bar.size.w >= SSD_HEIGHT,
        0 <= bar.loc.x,
        bar.loc.x + bar.size.w <= i32::MAX,
        bar.loc.y + bar.size.h <= i32::MAX,
    ensures
        ({
            let c = close_geometry(bar);
            &&& c.size.w == c.size.h
            &&& c.loc.x + c.size.w + 4 == bar.loc.x + bar.size.w
            &&& c.loc.y == bar.loc.y + 4
            &&& c.loc.y + c.size.h + 4 == bar.loc.y + bar.size.h
        }),
{
}

/// Every window that is shown, that the compositor decorates and that is neither minimized
/// nor fullscreen has a bar, at its place and as wide as it is.
pub proof fn law_decorated_windows_have_a_bar(d: Desk, i: int, at: Point)
    requires
        0 <= i < d.windows.len(),
        d.windows[i].is_ssd,
        !d.windows[i].is_minimized,
        !d.windows[i].is_fullscreen,
        location_in(d.space, d.windows[i].window) == Some(at),
    ensures
        all_bars(d).contains(
            Bar { id: d.windows[i].id, geometry: bar_geometry(at, d.windows[i].size.w) },
        ),
{
    lemma_bar_of(d, d.windows.len(), i, at);
}

proof fn lemma_bar_of(d: Desk, n: nat, i: int, at: Point)
    requires
        0 <= i < n <= d.windows.len(),
        d.windows[i].is_ssd,
        !d.windows[i].is_minimized,
        !d.windows[i].is_fullscreen,
        location_in(d.space, d.windows[i].window) == Some(at),
    ensures
        bars(d, n).contains(
            Bar { id: d.windows[i].id, geometry: bar_geometry(at, d.windows[i].size.w) },
        ),
    decreases n,
{
    let b = Bar { id: d.windows[i].id, geometry: bar_geometry(at, d.windows[i].size.w) };
    let before = bars(d, (n - 1) as nat);
    if i == n - 1 {
        assert(bars(d, n)[before.len() as int] == b);
    } else {
        lemma_bar_of(d, (n - 1) as nat, i, at);
        let k = choose|k: int| 0 <= k < before.len() && before[k] == b;
        assert(bars(d, n)[k] == b);
    }
}

/// Of the bars that a point lies in, the first is hit: its close button where the point
/// lies in that, and the bar itself otherwise. A point that lies in no bar hits none.
pub proof fn law_the_first_bar_is_hit(s: Seq<Bar>, at: Point, k: int)
    requires
        0 <= k <= s.len(),
        k < s.len() ==> s[k].geometry.covers(at),
        forall|j: int| 0 <= j < k ==> !(#[trigger] s[j]).geometry.covers(at),
    ensures
        k == s.len() ==> hit(s, at) is None,
        k < s.len() && close_geometry(s[k].geometry).covers(at) ==> hit(s, at) == Some(
            SsdHit::Close(s[k].id),
        ),
        k < s.len() && !close_geometry(s[k].geometry).covers(at) ==> hit(s, at) == Some(
            SsdHit::Bar(s[k].id),
        ),
    decreases s.len(),
{
    if k > 0 {
        assert(!s[0].geometry.covers(at));
        let t = s.skip(1);
        assert forall|j: int| 0 <= j < k - 1 implies !(#[trigger] t[j]).geometry.covers(at) by {
            assert(t[j] == s[j + 1]);
        }
        law_the_first_bar_is_hit(t, at, k - 1);
    }
}

/// The outline of a slice of the cursor goes one pixel beyond it on every side; the slice
/// is two pixels high and begins where its offsets say.
pub proof fn law_slices_are_outlined(origin: Point, i: int)
    requires
        0 <= i < cursor_slices().len(),
        0 <= origin.x <= 0x4000_0000,
        0 <= origin.y <= 0x4000_0000,
    ensures
        ({
            let s = cursor_slices()[i];
            let a = slice_rect(origin, s);
            let b = outline_rect(origin, s);
            &&& a.loc.x == origin.x + s.1 && a.loc.y == origin.y + s.0
            &&& a.size.w == s.2 && a.size.h == 2
            &&& b.loc.x + 1 == a.loc.x && b.loc.y + 1 == a.loc.y
            &&& b.loc.x + b.size.w == a.loc.x + a.size.w + 1
            &&& b.loc.y + b.size.h == a.loc.y + a.size.h + 1
        }),
{
}

/// The frame touches the window on all four sides and covers nothing of it: the parts
/// above and below reach from corner to corner, those on the left and on the right are as
/// high as the window.
pub proof fn law_the_frame_surrounds_the_window(at: Point, size: Size, b: int)
    requires
        0 < b <= 0x1_0000,
        0 <= at.x <= 0x1000_0000,
        0 <= at.y <= 0x1000_0000,
        0 <= size.w <= 0x1000_0000,
        0 <= size.h <= 0x1000_0000,
    ensures
        ({
            let f = frame(at, size, b);
            &&& f.len() == 4
            &&& f[0].loc.y + b == at.y && f[0].size.h == b
            &&& f[1].loc.y == at.y + size.h && f[1].size.h == b
            &&& f[0].loc.x + b == at.x && f[0].loc.x + f[0].size.w == at.x + size.w + b
            &&& f[1].loc.x + b == at.x && f[1].loc.x + f[1].size.w == at.x + size.w + b
            &&& f[2].loc.x + b == at.x && f[2].size.w == b
            &&& f[3].loc.x == at.x + size.w && f[3].size.w == b
            &&& f[2].loc.y == at.y && f[2].size.h == size.h
            &&& f[3].loc.y == at.y && f[3].size.h == size.h
        }),
{
}

/// The focused window has the frame, as wide as the settings say, if it is shown and
/// neither minimized nor fullscreen and if the frame has any width; otherwise there is
/// none, and no other window ever has it.
pub proof fn law_the_focused_window_has_the_frame(d: Desk, i: int, at: Point)
    requires
        d.sound(),
        0 <= i < d.windows.len(),
        d.focused == Some(d.windows[i].id),
    ensures
        d.config.border_width > 0 && !d.windows[i].is_minimized && !d.windows[i].is_fullscreen
            && location_in(d.space, d.windows[i].window) == Some(at) ==> border(d) == frame(
            at,
            d.windows[i].size,
            d.config.border_width as int,
        ),
        d.config.border_width <= 0 || d.windows[i].is_minimized || d.windows[i].is_fullscreen
            || location_in(d.space, d.windows[i].window) is None ==> border(d).len() == 0,
        border(Desk { focused: None, ..d }).len() == 0,
{
    crate::window_laws::lemma_found(d, i);
}

/// The picture is dimmed exactly if it is to be, right behind the cursor; the windows are
/// drawn behind all of it but the wallpaper, which comes last where there is one; the
/// cursor comes first where it can be seen.
pub proof fn law_the_picture_is_in_order(d: Desk, inputs: RenderInputs, size: Size)
    ensures
        ({
            let s = drawn(d, inputs, size);
            let c = if inputs.cursor_visible {
                10int
            } else {
                0
            };
            &&& inputs.cursor_visible ==> s[0] is Cursor && s[9] is CursorOutline
            &&& inputs.idle_dimmed ==> s[c] == Drawn::Dim(size)
            &&& !inputs.idle_dimmed ==> !(s[c] is Dim)
            &&& inputs.wallpaper_loaded ==> s.last() == Drawn::Wallpaper(size) && s[s.len() - 2]
                == Drawn::Space
            &&& !inputs.wallpaper_loaded ==> s.last() == Drawn::Space
            &&& s.len() == c + (if inputs.idle_dimmed {
                1int
            } else {
                0
            }) + border(d).len() + 3 * all_bars(d).len() + 1 + (if inputs.wallpaper_loaded {
                1int
            } else {
                0
            })
        }),
{
    lemma_decorations_len(all_bars(d));
}

proof fn lemma_decorations_len(bars: Seq<Bar>)
    ensures
        decorations(bars).len() == 2 * bars.len(),
        bars.len() > 0 ==> decorations(bars)[0] is Bar,
    decreases bars.len(),
{
    if bars.len() > 0 {
        lemma_decorations_len(bars.drop_last());
    }
}

} // verus!
