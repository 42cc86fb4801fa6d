//! The titles of windows, as they are drawn on their bars.
use std::collections::HashMap;

use vstd::prelude::*;

use crate::geometry::{sat, sat_i64, Rectangle};
use crate::render_elements::SSD_CLOSE_WIDTH;
use crate::text::{chars_of, string_of, text_eq};

verus! {

broadcast use vstd::std_specs::hash::group_hash_axioms;

/// The distance between the left edge of a bar and its title, in logical pixels.
pub const TITLE_PAD_LEFT: i32 = 10;

/// The distance between a title and the close button.
pub const TITLE_PAD_RIGHT: i32 = 6;

pub const TITLE_RED: u8 = 225;

pub const TITLE_GREEN: u8 = 225;

pub const TITLE_BLUE: u8 = 230;

/// The mark of a title that was cut.
pub const ELLIPSIS: char = '\u{2026}';

/// The width that a bar has for its title, in logical pixels.
pub fn title_room(bar: &Rectangle) -> (r: i32)
    ensures
        r == sat(bar.size.w - SSD_CLOSE_WIDTH - TITLE_PAD_LEFT - TITLE_PAD_RIGHT),
{
    sat_i64(
        bar.size.w as i64 - SSD_CLOSE_WIDTH as i64 - TITLE_PAD_LEFT as i64 - TITLE_PAD_RIGHT as i64,
    )
}

/// A title with one character less and an ellipsis at its end.
pub open spec fn shortened(s: Seq<char>) -> Seq<char> {
    let t = if s.last() == ELLIPSIS {
        s.drop_last()
    } else {
        s
    };
    t.drop_last().push(ELLIPSIS)
}

/// What becomes of a text that was measured.
#[derive(Debug, Clone, Copy, PartialEq, Eq, Structural)]
pub enum Fit {
    /// It fits, and is used.
    Used,
    /// It was cut, and has to be measured again.
    Cut,
    /// Not even an ellipsis fits: nothing is drawn.
    Nothing,
}

/// What becomes of a text with a measured width: it is used if it fits, and otherwise
/// cut as long as there is more to it than an ellipsis.
pub open spec fn verdict(s: Seq<char>, width: int, max_width: int) -> Fit {
    if width <= max_width {
        Fit::Used
    } else if s.len() == 0 || s == seq![ELLIPSIS] {
        Fit::Nothing
    } else {
        Fit::Cut
    }
}

/// A title that is cut until it fits.
#[derive(Debug)]
pub struct TitleFit {
    pub candidate: Vec<char>,
}

impl TitleFit {
    pub fn new(title: &str) -> (r: TitleFit)
        ensures
            r.candidate@ == title@,
    {
        TitleFit { candidate: chars_of(title) }
    }

    /// The text that is to be measured.
    pub fn text(&self) -> (r: String)
        ensures
            r@ == self.candidate@,
    {
        string_of(&self.candidate)
    }

    /// Takes the measured width of the text.
    pub fn measured(&mut self, width: i32, max_width: i32) -> (r: Fit)
        ensures
            r == verdict(old(self).candidate@, width as int, max_width as int),
            final(self).candidate@ == (match r {
                Fit::Used => old(self).candidate@,
                Fit::Cut => shortened(old(self).candidate@),
                Fit::Nothing => Seq::empty(),
            }),
    {
        if width <= max_width {
            return Fit::Used;
        }
        let n: usize = self.candidate.len();
        if n == 0 || (n == 1 && self.candidate[0] == ELLIPSIS) {
            assert(n == 1 ==> self.candidate@ =~= seq![ELLIPSIS]);
            self.candidate = Vec::new();
            return Fit::Nothing;
        }
        assert(self.candidate@ != seq![ELLIPSIS]) by {
            assert(self.candidate@.len() > 1 || self.candidate@[0] != seq![ELLIPSIS][0]);
        }
        if self.candidate[n - 1] == ELLIPSIS {
            self.candidate.pop();
        }
        self.candidate.pop();
        self.candidate.push(ELLIPSIS);
        assert(self.candidate@ =~= shortened(old(self).candidate@));
        Fit::Cut
    }
}

/// How much of a title is left to be cut.
pub open spec fn cuts_left(s: Seq<char>) -> nat {
    2 * s.len() + if s.len() > 0 && s.last() == ELLIPSIS {
        0nat
    } else {
        1nat
    }
}

proof fn lemma_more_than_an_ellipsis(s: Seq<char>)
    requires
        s.len() > 0,
        s != seq![ELLIPSIS],
    ensures
        s.len() > 1 || s[0] != ELLIPSIS,
{
    if s.len() == 1 && s[0] == ELLIPSIS {
        assert(s =~= seq![ELLIPSIS]);
    }
}

/// Cutting a title comes to an end: it gets shorter with every cut but the first, which
/// puts the ellipsis in the place of the last character.
pub proof fn law_titles_get_shorter(s: Seq<char>)
    requires
        s.len() > 0,
        s != seq![ELLIPSIS],
    ensures
        cuts_left(shortened(s)) < cuts_left(s),
        1 <= shortened(s).len() <= s.len(),
        shortened(s).last() == ELLIPSIS,
{
    lemma_more_than_an_ellipsis(s);
}

/// What is left of a title is its beginning, and an ellipsis.
pub proof fn law_cut_titles_are_beginnings(s: Seq<char>)
    requires
        s.len() > 0,
        s != seq![ELLIPSIS],
    ensures
        shortened(s).drop_last() == s.take(shortened(s).len() - 1),
{
    lemma_more_than_an_ellipsis(s);
    assert(shortened(s).drop_last() =~= s.take(shortened(s).len() - 1));
}

/// What is drawn of a title in the end, given how wide every text is: it is measured and
/// cut in turn, until it is used or nothing is left.
pub open spec fn fitted(s: Seq<char>, width: spec_fn(Seq<char>) -> int, max_width: int) -> Seq<
    char,
>
    decreases cuts_left(s),
{
    match verdict(s, width(s), max_width) {
        Fit::Used => s,
        Fit::Nothing => Seq::empty(),
        Fit::Cut => {
            proof {
                law_titles_get_shorter(s);
            }
            fitted(shortened(s), width, max_width)
        },
    }
}

/// The first `k` characters of a title, and an ellipsis.
pub open spec fn beginning(s: Seq<char>, k: int) -> Seq<char> {
    s.take(k).push(ELLIPSIS)
}

/// What is drawn of a title whose beginnings of more than `k` characters do not fit.
proof fn lemma_fitted_beginning(
    s: Seq<char>,
    width: spec_fn(Seq<char>) -> int,
    max_width: int,
    k: int,
)
    requires
        0 <= k < s.len(),
    ensures
        forall|j: int|
            0 <= j <= k && width(#[trigger] beginning(s, j)) <= max_width && (forall|i: int|
                j < i <= k ==> width(#[trigger] beginning(s, i)) > max_width) ==> fitted(
                beginning(s, k),
                width,
                max_width,
            ) == beginning(s, j),
        (forall|j: int| 0 <= j <= k ==> width(#[trigger] beginning(s, j)) > max_width) ==> fitted(
            beginning(s, k),
            width,
            max_width,
        ) == Seq::<char>::empty(),
    decreases k,
{
    let b = beginning(s, k);
    assert(b.last() == ELLIPSIS && b.len() == k + 1);
    if k == 0 {
        assert(b =~= seq![ELLIPSIS]);
    } else {
        assert(b != seq![ELLIPSIS]) by {
            assert(b.len() != seq![ELLIPSIS].len());
        }
        assert(shortened(b) =~= beginning(s, k - 1));
        lemma_fitted_beginning(s, width, max_width, k - 1);
        assert(width(b) > max_width ==> fitted(b, width, max_width) == fitted(
            beginning(s, k - 1),
            width,
            max_width,
        ));
    }
}

/// A title that fits is drawn as it is; of any other the longest beginning is drawn that
/// fits with an ellipsis behind it, and nothing where not even an ellipsis fits.
pub proof fn law_the_longest_beginning_is_drawn(
    s: Seq<char>,
    width: spec_fn(Seq<char>) -> int,
    max_width: int,
)
    requires
        s.len() > 0,
    ensures
        width(s) <= max_width ==> fitted(s, width, max_width) == s,
        width(s) > max_width ==> forall|k: int|
            0 <= k < s.len() && width(#[trigger] beginning(s, k)) <= max_width && (forall|i: int|
                k < i < s.len() ==> width(#[trigger] beginning(s, i)) > max_width) ==> fitted(
                s,
                width,
                max_width,
            ) == beginning(s, k),
        width(s) > max_width && (forall|k: int|
            0 <= k < s.len() ==> width(#[trigger] beginning(s, k)) > max_width) ==> fitted(
            s,
            width,
            max_width,
        ) == Seq::<char>::empty(),
{
    let n = s.len() as int;
    if width(s) > max_width {
        if s == seq![ELLIPSIS] {
            assert(beginning(s, 0) =~= s);
        } else {
            lemma_more_than_an_ellipsis(s);
            if s.last() == ELLIPSIS {
                assert(beginning(s, n - 1) =~= s);
                assert(shortened(s) =~= beginning(s, n - 2));
                lemma_fitted_beginning(s, width, max_width, n - 2);
            } else {
                assert(shortened(s) =~= beginning(s, n - 1));
                lemma_fitted_beginning(s, width, max_width, n - 1);
            }
        }
    }
}

/// Whatever is drawn of a title fits.
pub proof fn law_drawn_titles_fit(
    s: Seq<char>,
    width: spec_fn(Seq<char>) -> int,
    max_width: int,
)
    ensures
        fitted(s, width, max_width).len() > 0 ==> width(fitted(s, width, max_width)) <= max_width,
    decreases cuts_left(s),
{
    if verdict(s, width(s), max_width) is Cut {
        law_titles_get_shorter(s);
        law_drawn_titles_fit(shortened(s), width, max_width);
    }
}

/// Whether a text has the measured width that `width` gives it, whenever it is measured.
pub open spec fn measures<F: Fn(&str) -> i32>(
    measure: F,
    width: spec_fn(Seq<char>) -> int,
) -> bool {
    forall|text: &str, w: i32|
        #[trigger] call_ensures(measure, (text,), w) ==> w == width(text@)
}

/// What is drawn of a title: it is measured and cut in turn, until it fits or nothing is
/// left.
pub fn fit_title<F: Fn(&str) -> i32>(title: &str, measure: F, max_width: i32) -> (r: String)
    requires
        forall|text: &str| call_requires(measure, (text,)),
    ensures
        forall|width: spec_fn(Seq<char>) -> int|
            measures(measure, width) ==> r@ == #[trigger] fitted(title@, width, max_width as int),
{
    let mut fit = TitleFit::new(title);
    loop
        invariant
            forall|text: &str| call_requires(measure, (text,)),
            forall|width: spec_fn(Seq<char>) -> int|
                measures(measure, width) ==> #[trigger] fitted(title@, width, max_width as int)
                    == fitted(fit.candidate@, width, max_width as int),
        decreases cuts_left(fit.candidate@),
    {
        let text = fit.text();
        let ghost before = fit.candidate@;
        let shown: &str = text.as_str();
        let w: i32 = measure(shown);
        assert forall|width: spec_fn(Seq<char>) -> int| measures(measure, width) implies w
            == #[trigger] width(before) by {
            assert(w == width(shown@));
        }
        match fit.measured(w, max_width) {
            Fit::Cut => {
                proof {
                    law_titles_get_shorter(before);
                }
            },
            _ => {
                return fit.text();
            },
        }
    }
}

/// A character as the font draws it: the place of its upper left corner, its size, and
/// row by row how much of each pixel it covers.
#[derive(Debug)]
pub struct Glyph {
    pub x: i32,
    pub y: i32,
    pub width: usize,
    pub height: usize,
    pub bitmap: Vec<u8>,
}

impl Glyph {
    pub open spec fn well_formed(self) -> bool {
        self.bitmap@.len() == self.width * self.height
    }

    /// How much the character covers of a pixel.
    pub open spec fn coverage(self, x: int, y: int) -> u8 {
        let col = x - self.x;
        let row = y - self.y;
        if 0 <= col < self.width && 0 <= row < self.height {
            self.bitmap@[row * self.width + col]
        } else {
            0
        }
    }
}

/// How much the first `n` characters cover of a pixel: the last one that covers it at
/// all decides.
pub open spec fn covered(glyphs: Seq<Glyph>, x: int, y: int, n: nat) -> u8
    decreases n,
{
    if n == 0 {
        0
    } else if glyphs[n - 1].coverage(x, y) != 0 {
        glyphs[n - 1].coverage(x, y)
    } else {
        covered(glyphs, x, y, (n - 1) as nat)
    }
}

/// The pixel at a place of a picture, as red, green, blue and opacity.
pub open spec fn pixel(buf: Seq<u8>, width: int, x: int, y: int) -> (u8, u8, u8, u8) {
    let i = (y * width + x) * 4;
    (buf[i], buf[i + 1], buf[i + 2], buf[i + 3])
}

/// A pixel that is covered so far: in the colour of titles, or empty.
pub open spec fn inked(coverage: u8) -> (u8, u8, u8, u8) {
    if coverage == 0 {
        (0, 0, 0, 0)
    } else {
        (TITLE_RED, TITLE_GREEN, TITLE_BLUE, coverage)
    }
}

proof fn lemma_index(width: int, height: int, x: int, y: int)
    requires
        0 <= x < width,
        0 <= y < height,
    ensures
        0 <= y * width + x < width * height,
        0 <= (y * width + x) * 4,
        (y * width + x) * 4 + 3 < width * height * 4,
{
    assert(0 <= y * width + x < width * height) by (nonlinear_arith)
        requires
            0 <= x < width,
            0 <= y < height,
    ;
}

proof fn lemma_index_apart(width: int, x: int, y: int, u: int, v: int)
    requires
        0 <= x < width,
        0 <= u < width,
        0 <= y,
        0 <= v,
        x != u || y != v,
    ensures
        y * width + x != v * width + u,
{
    assert(y * width + x != v * width + u) by (nonlinear_arith)
        requires
            0 <= x < width,
            0 <= u < width,
            0 <= y,
            0 <= v,
            x != u || y != v,
    ;
}

proof fn lemma_bitmap_index(g: Glyph, row: int, col: int)
    requires
        g.well_formed(),
        0 <= row < g.height,
        0 <= col < g.width,
    ensures
        0 <= row * g.width <= row * g.width + col < g.bitmap@.len(),
{
    assert(0 <= row * g.width <= row * g.width + col < g.width * g.height) by (nonlinear_arith)
        requires
            0 <= row < g.height,
            0 <= col < g.width,
    ;
}

/// What the picture shows of a pixel while glyph `n` is being drawn, with its rows
/// above `row` and of that row the columns before `col` done.
pub open spec fn so_far(
    glyphs: Seq<Glyph>,
    n: int,
    row: int,
    col: int,
    x: int,
    y: int,
) -> u8 {
    let g = glyphs[n];
    let done = y - g.y < row || (y - g.y == row && x - g.x < col);
    if done && g.coverage(x, y) != 0 {
        g.coverage(x, y)
    } else {
        covered(glyphs, x, y, n as nat)
    }
}

/// Draws characters into an empty picture.
pub fn rasterize(glyphs: &Vec<Glyph>, width: usize, height: usize) -> (r: Vec<u8>)
    requires
        width * height * 4 <= usize::MAX,
        forall|i: int| 0 <= i < glyphs@.len() ==> (#[trigger] glyphs@[i]).well_formed(),
    ensures
        r@.len() == width * height * 4,
        forall|x: int, y: int|
            0 <= x < width && 0 <= y < height ==> #[trigger] pixel(r@, width as int, x, y)
                == inked(covered(glyphs@, x, y, glyphs@.len())),
{
    assert(width * height >= 0) by (nonlinear_arith);
    let size: usize = width * height * 4;
    let mut buf: Vec<u8> = Vec::new();
    while buf.len() < size
        invariant
            buf.len() <= size,
            forall|i: int| 0 <= i < buf@.len() ==> #[trigger] buf@[i] == 0,
        decreases size - buf.len(),
    {
        buf.push(0);
    }
    proof {
        assert forall|x: int, y: int| 0 <= x < width && 0 <= y < height implies #[trigger] pixel(
            buf@,
            width as int,
            x,
            y,
        ) == inked(covered(glyphs@, x, y, 0)) by {
            lemma_index(width as int, height as int, x, y);
        }
    }
    let mut n: usize = 0;
    while n < glyphs.len()
        invariant
            n <= glyphs.len(),
            size == width * height * 4,
            buf@.len() == size,
            forall|i: int| 0 <= i < glyphs@.len() ==> (#[trigger] glyphs@[i]).well_formed(),
            forall|x: int, y: int|
                0 <= x < width && 0 <= y < height ==> #[trigger] pixel(buf@, width as int, x, y)
                    == inked(covered(glyphs@, x, y, n as nat)),
        decreases glyphs.len() - n,
    {
        let g = &glyphs[n];
        assert(g.well_formed());
        let mut row: usize = 0;
        while row < g.height
            invariant
                n < glyphs.len(),
                g == glyphs@[n as int],
                g.well_formed(),
                row <= g.height,
                size == width * height * 4,
                buf@.len() == size,
                forall|x: int, y: int|
                    0 <= x < width && 0 <= y < height ==> #[trigger] pixel(
                        buf@,
                        width as int,
                        x,
                        y,
                    ) == inked(so_far(glyphs@, n as int, row as int, 0, x, y)),
            decreases g.height - row,
        {
            let mut col: usize = 0;
            while col < g.width
                invariant
                    n < glyphs.len(),
                    g == glyphs@[n as int],
                    g.well_formed(),
                    row < g.height,
                    col <= g.width,
                    size == width * height * 4,
                    buf@.len() == size,
                    forall|x: int, y: int|
                        0 <= x < width && 0 <= y < height ==> #[trigger] pixel(
                            buf@,
                            width as int,
                            x,
                            y,
                        ) == inked(so_far(glyphs@, n as int, row as int, col as int, x, y)),
                decreases g.width - col,
            {
                proof {
                    lemma_bitmap_index(*g, row as int, col as int);
                    assert(g.bitmap@.len() == g.bitmap.len());
                }
                let coverage: u8 = g.bitmap[row * g.width + col];
                let px: i128 = g.x as i128 + col as i128;
                let py: i128 = g.y as i128 + row as i128;
                let ghost before = buf@;
                if coverage != 0 && px >= 0 && py >= 0 && px < width as i128 && py
                    < height as i128 {
                    proof {
                        lemma_index(width as int, height as int, px as int, py as int);
                    }
                    let at: usize = (py as usize * width + px as usize) * 4;
                    buf[at] = TITLE_RED;
                    buf[at + 1] = TITLE_GREEN;
                    buf[at + 2] = TITLE_BLUE;
                    buf[at + 3] = coverage;
                }
                proof {
                    assert(g.coverage(px as int, py as int) == coverage);
                    assert forall|x: int, y: int|
                        0 <= x < width && 0 <= y < height implies #[trigger] pixel(
                        buf@,
                        width as int,
                        x,
                        y,
                    ) == inked(so_far(glyphs@, n as int, row as int, col + 1, x, y)) by {
                        lemma_index(width as int, height as int, x, y);
                        assert(pixel(before, width as int, x, y) == inked(
                            so_far(glyphs@, n as int, row as int, col as int, x, y),
                        ));
                        if x == px && y == py {
                        } else if 0 <= px < width && 0 <= py < height {
                            lemma_index_apart(width as int, x, y, px as int, py as int);
                        }
                    }
                }
                col = col + 1;
            }
            row = row + 1;
            proof {
                assert forall|x: int, y: int|
                    0 <= x < width && 0 <= y < height implies #[trigger] pixel(
                    buf@,
                    width as int,
                    x,
                    y,
                ) == inked(so_far(glyphs@, n as int, row as int, 0, x, y)) by {
                    assert(so_far(glyphs@, n as int, row as int, 0, x, y) == so_far(
                        glyphs@,
                        n as int,
                        row - 1,
                        g.width as int,
                        x,
                        y,
                    ));
                }
            }
        }
        n = n + 1;
    }
    buf
}

/// A title that was drawn: its text, the width it was fitted into, and the height of
/// its picture, in physical pixels.
#[derive(Debug)]
pub struct CachedTitle {
    pub text: String,
    pub max_width_px: i32,
    pub tex_height_px: i32,
}

/// The titles that were drawn, by window.
#[derive(Debug)]
pub struct TitleTextureCache {
    pub entries: HashMap<u64, CachedTitle>,
}

/// What is to be done about the title of a window.
#[derive(Debug, Clone, Copy, PartialEq, Eq, Structural)]
pub enum TitleStep {
    /// There is nothing to be drawn.
    Skip,
    /// The title has to be drawn.
    Draw,
    /// The picture of a height is there.
    Reuse { height: i32 },
}

impl TitleTextureCache {
    pub fn new() -> (r: TitleTextureCache)
        ensures
            r.entries@ == Map::<u64, CachedTitle>::empty(),
    {
        TitleTextureCache { entries: HashMap::new() }
    }

    /// What is to be done about the title of a window, in a bar with room for so many
    /// pixels.
    pub fn step_for(&self, window_id: u64, title: &str, max_width_px: i32) -> (r: TitleStep)
        ensures
            r == (if title@.len() == 0 || max_width_px <= 0 {
                TitleStep::Skip
            } else if self.entries@.contains_key(window_id)
                && self.entries@[window_id].text@ == title@
                && self.entries@[window_id].max_width_px == max_width_px {
                TitleStep::Reuse { height: self.entries@[window_id].tex_height_px }
            } else {
                TitleStep::Draw
            }),
    {
        if title.unicode_len() == 0 || max_width_px <= 0 {
            return TitleStep::Skip;
        }
        match self.entries.get(&window_id) {
            Some(c) => {
                if text_eq(c.text.as_str(), title) && c.max_width_px == max_width_px {
                    TitleStep::Reuse { height: c.tex_height_px }
                } else {
                    TitleStep::Draw
                }
            },
            None => TitleStep::Draw,
        }
    }

    /// The title of a window was drawn into a picture of a size. Returns whether the
    /// picture is used: an empty one is not.
    pub fn drawn(
        &mut self,
        window_id: u64,
        title: String,
        max_width_px: i32,
        width: i32,
        height: i32,
    ) -> (r: bool)
        ensures
            r == (width != 0 && height != 0),
            final(self).entries@ == (if r {
                old(self).entries@.insert(
                    window_id,
                    CachedTitle { text: title, max_width_px, tex_height_px: height },
                )
            } else {
                old(self).entries@
            }),
    {
        if width == 0 || height == 0 {
            return false;
        }
        self.entries.insert(
            window_id,
            CachedTitle { text: title, max_width_px, tex_height_px: height },
        );
        true
    }

    /// A window is closed.
    pub fn forget(&mut self, window_id: u64)
        ensures
            final(self).entries@ == old(self).entries@.remove(window_id),
    {
        self.entries.remove(&window_id);
    }
}

} // verus!
