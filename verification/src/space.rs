//! The desktop space: which windows are shown, where, and in which order.
use vstd::prelude::*;

use crate::geometry::Point;

verus! {

/// A window that is shown, with its place.
#[derive(Debug, Clone, Copy, PartialEq, Eq, Structural)]
pub struct Mapped {
    pub window: u64,
    pub location: Point,
}

/// The shown windows without `w`.
pub open spec fn without(s: Seq<Mapped>, w: u64) -> Seq<Mapped>
    decreases s.len(),
{
    if s.len() == 0 {
        s
    } else if s.last().window == w {
        without(s.drop_last(), w)
    } else {
        without(s.drop_last(), w).push(s.last())
    }
}

/// Where a window is shown, if it is.
pub open spec fn location_in(s: Seq<Mapped>, w: u64) -> Option<Point>
    decreases s.len(),
{
    if s.len() == 0 {
        None
    } else if s.last().window == w {
        Some(s.last().location)
    } else {
        location_in(s.drop_last(), w)
    }
}

/// The space with `w` shown at a place, above all others.
pub open spec fn mapped(s: Seq<Mapped>, w: u64, location: Point) -> Seq<Mapped> {
    without(s, w).push(Mapped { window: w, location })
}

/// The space with `w` above all others, if it is shown.
pub open spec fn raised(s: Seq<Mapped>, w: u64) -> Seq<Mapped> {
    match location_in(s, w) {
        Some(location) => mapped(s, w, location),
        None => s,
    }
}

/// No window is shown twice.
pub open spec fn shown_once(s: Seq<Mapped>) -> bool {
    forall|i: int, j: int|
        0 <= i < j < s.len() ==> (#[trigger] s[i]).window != (#[trigger] s[j]).window
}

/// The shown windows, from the lowest to the highest.
#[derive(Debug)]
pub struct Space {
    pub elements: Vec<Mapped>,
}

impl View for Space {
    type V = Seq<Mapped>;

    open spec fn view(&self) -> Seq<Mapped> {
        self.elements@
    }
}

impl Space {
    pub fn new() -> (r: Space)
        ensures
            r@ == Seq::<Mapped>::empty(),
    {
        Space { elements: Vec::new() }
    }

    pub fn element_location(&self, w: u64) -> (r: Option<Point>)
        ensures
            r == location_in(self@, w),
    {
        let mut i: usize = self.elements.len();
        assert(self@.take(i as int) =~= self@);
        while i > 0
            invariant
                i <= self@.len(),
                location_in(self@, w) == location_in(self@.take(i as int), w),
            decreases i,
        {
            let ghost cur = self@.take(i as int);
            assert(cur.drop_last() =~= self@.take(i as int - 1));
            assert(cur.last() == self@[i as int - 1]);
            if self.elements[i - 1].window == w {
                return Some(self.elements[i - 1].location);
            }
            i = i - 1;
        }
        None
    }

    pub fn unmap(&mut self, w: u64)
        ensures
            final(self)@ == without(old(self)@, w),
    {
        let mut out: Vec<Mapped> = Vec::new();
        let mut i: usize = 0;
        assert(self@.take(0) =~= Seq::empty());
        while i < self.elements.len()
            invariant
                i <= self@.len(),
                self@ == old(self)@,
                out@ == without(self@.take(i as int), w),
            decreases self@.len() - i,
        {
            proof {
                let next = self@.take(i as int + 1);
                assert(next.drop_last() =~= self@.take(i as int));
                assert(next.last() == self@[i as int]);
            }
            if self.elements[i].window != w {
                out.push(self.elements[i]);
            }
            i = i + 1;
        }
        assert(self@.take(self@.len() as int) =~= self@);
        self.elements = out;
    }

    pub fn map(&mut self, w: u64, location: Point)
        ensures
            final(self)@ == mapped(old(self)@, w, location),
    {
        self.unmap(w);
        self.elements.push(Mapped { window: w, location });
    }

    pub fn raise(&mut self, w: u64)
        ensures
            final(self)@ == raised(old(self)@, w),
    {
        if let Some(location) = self.element_location(w) {
            self.map(w, location);
        }
    }
}

pub proof fn lemma_without(s: Seq<Mapped>, w: u64, v: u64)
    ensures
        location_in(without(s, w), w) is None,
        v != w ==> location_in(without(s, w), v) == location_in(s, v),
        forall|i: int|
            0 <= i < without(s, w).len() ==> (#[trigger] without(s, w)[i]).window != w
                && s.contains(without(s, w)[i]),
        shown_once(s) ==> shown_once(without(s, w)),
    decreases s.len(),
{
    if s.len() > 0 {
        let t = s.drop_last();
        lemma_without(t, w, v);
        let r = without(s, w);
        let rt = without(t, w);
        assert forall|i: int| 0 <= i < r.len() implies (#[trigger] r[i]).window != w && s.contains(
            r[i],
        ) by {
            if i < rt.len() {
                assert(r[i] == rt[i]);
                let k = choose|k: int| 0 <= k < t.len() && t[k] == rt[i];
                assert(s[k] == rt[i]);
            } else {
                assert(s[s.len() - 1] == r[i]);
            }
        }
        if s.last().window != w {
            assert(r.drop_last() =~= rt);
        }
        if shown_once(s) {
            assert(shown_once(t));
            assert forall|i: int, j: int| 0 <= i < j < r.len() implies (#[trigger] r[i]).window != (
            #[trigger] r[j]).window by {
                if j < rt.len() {
                    assert(r[i] == rt[i] && r[j] == rt[j]);
                } else {
                    assert(r[i] == rt[i]);
                    let k = choose|k: int| 0 <= k < t.len() && t[k] == rt[i];
                    assert(s[k].window != s[s.len() - 1].window);
                }
            }
        }
    }
}

/// Showing a window at a place shows it there, above all others, and leaves the
/// places of the others as they are.
pub proof fn law_map_moves_one_window(s: Seq<Mapped>, w: u64, location: Point, v: u64)
    ensures
        location_in(mapped(s, w, location), w) == Some(location),
        mapped(s, w, location).last().window == w,
        v != w ==> location_in(mapped(s, w, location), v) == location_in(s, v),
        shown_once(s) ==> shown_once(mapped(s, w, location)),
{
    lemma_without(s, w, v);
    let m = mapped(s, w, location);
    assert(m.drop_last() =~= without(s, w));
}

/// Raising a window changes the order alone.
pub proof fn law_raise_keeps_places(s: Seq<Mapped>, w: u64, v: u64)
    ensures
        location_in(raised(s, w), v) == location_in(s, v),
        shown_once(s) ==> shown_once(raised(s, w)),
{
    if let Some(location) = location_in(s, w) {
        law_map_moves_one_window(s, w, location, v);
    }
}

/// A window that was taken out is not shown, and the others stay where they are.
pub proof fn law_unmap_removes_one_window(s: Seq<Mapped>, w: u64, v: u64)
    ensures
        location_in(without(s, w), w) is None,
        v != w ==> location_in(without(s, w), v) == location_in(s, v),
        shown_once(s) ==> shown_once(without(s, w)),
{
    lemma_without(s, w, v);
}

} // verus!
