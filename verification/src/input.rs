//! What clicks and swipes do to the desktop.
use vstd::prelude::*;

use crate::desk::{fallback_geometry, Desk};
use crate::geometry::{make_point, point, sat, sat_i64, Point, Rectangle, Size};
use crate::grabs::Travel;
use crate::hwde::HwdeState;
use crate::render_elements::{all_bars, hit, ssd_hit_test, SsdHit};
use crate::space::{location_in, Mapped};
use crate::window::{find_window, position, Effect};

verus! {

/// An open popup: its handle, the window it belongs to, its offset from that window,
/// its own geometry, and whether it is a popup of the shell protocol.
#[derive(Debug, Clone, Copy, PartialEq, Eq, Structural)]
pub struct Popup {
    pub popup: u64,
    pub window: u64,
    pub offset: Point,
    pub geometry: Rectangle,
    pub is_xdg: bool,
}

impl Popup {
    /// The popup's rectangle on the desktop, for its window at a place.
    pub open spec fn place(self, at: Point) -> Rectangle {
        Rectangle {
            loc: point(
                sat(at.x + self.offset.x) + self.geometry.loc.x,
                sat(at.y + self.offset.y) + self.geometry.loc.y,
            ),
            size: self.geometry.size,
        }
    }

    fn placed(&self, at: Point) -> (r: Rectangle)
        ensures
            r == self.place(at),
    {
        let x: i32 = sat_i64(at.x as i64 + self.offset.x as i64);
        let y: i32 = sat_i64(at.y as i64 + self.offset.y as i64);
        Rectangle {
            loc: make_point(
                x as i64 + self.geometry.loc.x as i64,
                y as i64 + self.geometry.loc.y as i64,
            ),
            size: self.geometry.size,
        }
    }
}

/// Those of the first `n` popups that belong to a shown window and that a click beside
/// them closes.
pub open spec fn stale_of(m: Mapped, popups: Seq<Popup>, click: Point, n: nat) -> Seq<Effect>
    decreases n,
{
    if n == 0 {
        Seq::empty()
    } else {
        let before = stale_of(m, popups, click, (n - 1) as nat);
        let p = popups[n - 1];
        if p.window == m.window && p.is_xdg && !p.place(m.location).covers(click) {
            before.push(Effect::DismissPopup { popup: p.popup })
        } else {
            before
        }
    }
}

/// The popups of the lowest `n` windows that a click closes, window by window.
pub open spec fn stale(space: Seq<Mapped>, popups: Seq<Popup>, click: Point, n: nat) -> Seq<Effect>
    decreases n,
{
    if n == 0 {
        Seq::empty()
    } else {
        stale(space, popups, click, (n - 1) as nat) + stale_of(
            space[n - 1],
            popups,
            click,
            popups.len(),
        )
    }
}

/// What a press found under the pointer: the surface, and the window.
#[derive(Debug, Clone, Copy, PartialEq, Eq, Structural)]
pub struct Under {
    pub surface: Option<u64>,
    pub window: Option<u64>,
}

impl Desk {
    /// The desktop after the popups beside a click were closed.
    pub open spec fn dismissed(self, popups: Seq<Popup>, click: Point) -> Desk {
        Desk {
            effects: self.effects + stale(self.space, popups, click, self.space.len()),
            ..self
        }
    }

    /// The desktop once a window is being moved by its bar.
    pub open spec fn grabbed(self, id: u64) -> Desk {
        let d = self.focus(id);
        let i = position(d.windows, id) as int;
        if i >= d.windows.len() {
            d
        } else {
            let w = d.windows[i].window;
            let location = crate::desk::or_else(location_in(d.space, w), Point { x: 0, y: 0 });
            d.note(Effect::StartMove { window: w, location })
        }
    }

    /// The desktop after the surface under the pointer was given the keyboard and its
    /// window was raised.
    pub open spec fn touched(self, under: Under) -> Desk {
        match under.surface {
            Some(surface) => {
                let d = self.note(Effect::Focus { surface });
                match under.window {
                    Some(w) => d.lift(w, true),
                    None => d,
                }
            },
            None => self,
        }
    }

    /// The desktop after a button was pressed at a place.
    pub open spec fn pressed(self, at: Point, popups: Seq<Popup>, under: Under) -> Desk {
        let d = self.dismissed(popups, at);
        match hit(all_bars(d), at) {
            Some(SsdHit::Close(id)) => d.closed(id),
            Some(SsdHit::Bar(id)) => d.grabbed(id),
            None => d.touched(under),
        }
    }

    /// The desktop after a swipe. Three or four fingers switch to the next workspace
    /// if they went left far enough, and to the one before if they went right.
    pub open spec fn swiped(self, fingers: u32, travel: Travel, cancelled: bool) -> Desk {
        if cancelled || !(fingers == 3 || fingers == 4) {
            self
        } else if travel.ceil <= -SWIPE_THRESHOLD {
            if self.active < u32::MAX {
                self.switched((self.active + 1) as u32)
            } else {
                self
            }
        } else if travel.floor >= SWIPE_THRESHOLD && self.active > 0 {
            self.switched((self.active - 1) as u32)
        } else {
            self
        }
    }
}

/// How far a swipe has to go to switch workspaces.
pub const SWIPE_THRESHOLD: i32 = 120;

impl HwdeState {
    /// Closes the popups that a click is beside.
    pub fn dismiss_popups_outside(&mut self, popups: &Vec<Popup>, click: Point)
        ensures
            final(self)@ == old(self)@.dismissed(popups@, click),
    {
        let ghost start = self@;
        let mut i: usize = 0;
        while i < self.space.elements.len()
            invariant
                i <= self.space.elements.len(),
                self@ == (Desk {
                    effects: start.effects + stale(start.space, popups@, click, i as nat),
                    ..start
                }),
            decreases self.space.elements.len() - i,
        {
            let m = self.space.elements[i];
            let ghost done = stale(start.space, popups@, click, i as nat);
            let mut j: usize = 0;
            while j < popups.len()
                invariant
                    i < self.space.elements.len(),
                    m == self.space@[i as int],
                    j <= popups.len(),
                    self@ == (Desk {
                        effects: start.effects + done + stale_of(m, popups@, click, j as nat),
                        ..start
                    }),
                decreases popups.len() - j,
            {
                let p = popups[j];
                if p.window == m.window && p.is_xdg && !p.placed(m.location).contains(click) {
                    self.effects.push(Effect::DismissPopup { popup: p.popup });
                }
                j = j + 1;
                assert(self@.effects =~= start.effects + done + stale_of(
                    m,
                    popups@,
                    click,
                    j as nat,
                ));
            }
            i = i + 1;
            assert(self@.effects =~= start.effects + stale(
                start.space,
                popups@,
                click,
                i as nat,
            ));
        }
    }

    /// A press at a place. Returns whether the client gets it.
    pub fn pointer_pressed(&mut self, at: Point, popups: &Vec<Popup>, under: Under) -> (r: bool)
        ensures
            final(self)@ == old(self)@.pressed(at, popups@, under),
            r == (hit(all_bars(old(self)@.dismissed(popups@, at)), at) is None),
    {
        self.dismiss_popups_outside(popups, at);
        match ssd_hit_test(self, at) {
            Some(SsdHit::Close(id)) => {
                self.close_window_by_id(id);
                false
            },
            Some(SsdHit::Bar(id)) => {
                self.focus_window_by_id(id);
                if let Some(i) = find_window(&self.windows, id) {
                    let window: u64 = self.windows[i].window;
                    let location = match self.space.element_location(window) {
                        Some(p) => p,
                        None => Point { x: 0, y: 0 },
                    };
                    self.effects.push(Effect::StartMove { window, location });
                }
                false
            },
            None => {
                if let Some(surface) = under.surface {
                    self.effects.push(Effect::Focus { surface });
                    if let Some(w) = under.window {
                        self.space.raise(w);
                        self.effects.push(Effect::Raise { window: w, activate: true });
                    }
                }
                true
            },
        }
    }

    /// The end of a swipe.
    pub fn swipe_ended(&mut self, fingers: u32, travel: Travel, cancelled: bool)
        ensures
            final(self)@ == old(self)@.swiped(fingers, travel, cancelled),
    {
        if cancelled || !(fingers == 3 || fingers == 4) {
            return;
        }
        if travel.ceil <= -SWIPE_THRESHOLD {
            if self.active_workspace < u32::MAX {
                self.switch_workspace(self.active_workspace + 1);
            }
        } else if travel.floor >= SWIPE_THRESHOLD && self.active_workspace > 0 {
            self.switch_workspace(self.active_workspace - 1);
        }
    }
}

/// The smallest and largest whole coordinates that the pointer is held between.
#[derive(Debug, Clone, Copy, PartialEq, Eq, Structural)]
pub struct PointerBounds {
    pub low: Point,
    pub high: Point,
}

/// The bounds of the pointer on an output: up to one pixel before its right and lower
/// edges. An output of unknown geometry is taken for a common one.
pub fn pointer_bounds(output: Option<Rectangle>) -> (r: PointerBounds)
    ensures
        ({
            let g = match output {
                Some(g) => g,
                None => fallback_geometry(),
            };
            &&& r.low == g.loc
            &&& r.high == point(sat(g.loc.x + g.size.w) - 1, sat(g.loc.y + g.size.h) - 1)
        }),
{
    let g = match output {
        Some(g) => g,
        None => Rectangle { loc: Point { x: 0, y: 0 }, size: Size { w: 1920, h: 1080 } },
    };
    let x: i32 = sat_i64(g.loc.x as i64 + g.size.w as i64);
    let y: i32 = sat_i64(g.loc.y as i64 + g.size.h as i64);
    PointerBounds { low: g.loc, high: make_point(x as i64 - 1, y as i64 - 1) }
}

proof fn lemma_stale_spares(
    m: Mapped,
    popups: Seq<Popup>,
    click: Point,
    n: nat,
    i: int,
)
    requires
        n <= popups.len(),
        0 <= i < stale_of(m, popups, click, n).len(),
    ensures
        exists|k: int|
            0 <= k < n && stale_of(m, popups, click, n)[i] == (Effect::DismissPopup {
                popup: (#[trigger] popups[k]).popup,
            }) && popups[k].window == m.window && popups[k].is_xdg && !popups[k].place(
                m.location,
            ).covers(click),
    decreases n,
{
    let before = stale_of(m, popups, click, (n - 1) as nat);
    if i < before.len() {
        lemma_stale_spares(m, popups, click, (n - 1) as nat, i);
        assert(stale_of(m, popups, click, n)[i] == before[i]);
    } else {
        assert(popups[n - 1].window == m.window);
    }
}

/// Only popups that the click lies beside are told that they are done.
pub proof fn law_popups_under_the_click_stay(
    space: Seq<Mapped>,
    popups: Seq<Popup>,
    click: Point,
    n: nat,
    i: int,
)
    requires
        n <= space.len(),
        0 <= i < stale(space, popups, click, n).len(),
    ensures
        exists|k: int, j: int|
            0 <= k < popups.len() && 0 <= j < n && stale(space, popups, click, n)[i] == (
            Effect::DismissPopup { popup: (#[trigger] popups[k]).popup }) && popups[k].window == (
            #[trigger] space[j]).window && !popups[k].place(space[j].location).covers(click),
    decreases n,
{
    let before = stale(space, popups, click, (n - 1) as nat);
    if i < before.len() {
        law_popups_under_the_click_stay(space, popups, click, (n - 1) as nat, i);
        assert(stale(space, popups, click, n)[i] == before[i]);
    } else {
        let m = space[n - 1];
        lemma_stale_spares(m, popups, click, popups.len(), i - before.len());
        assert(stale(space, popups, click, n)[i] == stale_of(m, popups, click, popups.len())[i
            - before.len()]);
    }
}

/// A short swipe, a cancelled one, and one with other than three or four fingers do
/// nothing.
pub proof fn law_other_swipes_do_nothing(d: Desk, fingers: u32, travel: Travel, cancelled: bool)
    requires
        cancelled || !(fingers == 3 || fingers == 4) || (travel.ceil > -SWIPE_THRESHOLD
            && travel.floor < SWIPE_THRESHOLD),
    ensures
        d.swiped(fingers, travel, cancelled) == d,
{
}

} // verus!
