//! How the outputs of a graphics card are set up, and how they are drawn to.
use vstd::prelude::*;

use crate::blue::BlueState;
use crate::desktop::Desktop;
use crate::drm::{
    find_free_crtc, first_free, flat, flatten_crtcs, mode_of, output_mode, DrmMode, OutputMode,
};
use crate::geometry::{at_least, max_i32, quotient, sat, sat_i64};
use crate::text::{decimal, decimal_text, join3};

verus! {

/// An output that is already there: its place, the width of its mode, if it has one,
/// and its whole scale.
#[derive(Debug, Clone, Copy, PartialEq, Eq, Structural)]
pub struct PlacedOutput {
    pub x: i32,
    pub width: Option<i32>,
    pub scale: i32,
}

/// How far right an output with a mode of a width reaches.
pub open spec fn reach(o: PlacedOutput, width: i32) -> int {
    sat(o.x + quotient(width as int, at_least(o.scale as int, 1)))
}

/// How far right the first `n` outputs reach, if any of them has a mode.
pub open spec fn reach_of(outputs: Seq<PlacedOutput>, n: nat) -> Option<int>
    decreases n,
{
    if n == 0 {
        None
    } else {
        let before = reach_of(outputs, (n - 1) as nat);
        match outputs[n - 1].width {
            Some(w) => {
                let end = reach(outputs[n - 1], w);
                match before {
                    Some(b) => Some(at_least(end, b)),
                    None => Some(end),
                }
            },
            None => before,
        }
    }
}

/// A connector of a card: its number, the number of its kind, the modes of what is
/// connected, and for each encoder the scanout engines that it can use.
#[derive(Debug)]
pub struct ConnectorInfo {
    pub id: u32,
    pub interface: u8,
    pub connected: bool,
    pub modes: Vec<DrmMode>,
    pub encoders: Vec<Vec<u32>>,
}

/// The index of the preferred mode with the highest refresh rate among the first `n`;
/// of equal ones it is the last.
pub open spec fn fastest_preferred(modes: Seq<DrmMode>, n: nat) -> Option<int>
    decreases n,
{
    if n == 0 {
        None
    } else {
        let before = fastest_preferred(modes, (n - 1) as nat);
        if !modes[n - 1].preferred {
            before
        } else {
            match before {
                Some(b) => if modes[n - 1].vrefresh >= modes[b].vrefresh {
                    Some(n - 1)
                } else {
                    before
                },
                None => Some(n - 1),
            }
        }
    }
}

/// The index of the mode for an output: the fastest preferred one, or the first.
pub open spec fn best(modes: Seq<DrmMode>) -> Option<int> {
    match fastest_preferred(modes, modes.len()) {
        Some(i) => Some(i),
        None => if modes.len() > 0 {
            Some(0)
        } else {
            None
        },
    }
}

/// The modes of the first `n` that differ, in the order in which they first occur.
pub open spec fn distinct(modes: Seq<DrmMode>, n: nat) -> Seq<OutputMode>
    decreases n,
{
    if n == 0 {
        Seq::empty()
    } else {
        let before = distinct(modes, (n - 1) as nat);
        if before.contains(mode_of(modes[n - 1])) {
            before
        } else {
            before.push(mode_of(modes[n - 1]))
        }
    }
}

pub fn start_offset(outputs: &Vec<PlacedOutput>) -> (r: i32)
    ensures
        r == (match reach_of(outputs@, outputs@.len()) {
            Some(x) => x,
            None => 0,
        }),
{
    let mut best: Option<i32> = None;
    let mut i: usize = 0;
    while i < outputs.len()
        invariant
            i <= outputs.len(),
            match best {
                Some(b) => reach_of(outputs@, i as nat) == Some(b as int),
                None => reach_of(outputs@, i as nat) is None,
            },
        decreases outputs.len() - i,
    {
        let o = outputs[i];
        if let Some(w) = o.width {
            let scale: i64 = max_i32(o.scale, 1) as i64;
            let wide: i64 = w as i64;
            let part: i64 = if wide >= 0 {
                wide / scale
            } else {
                -((-wide) / scale)
            };
            assert(part == quotient(wide as int, scale as int));
            assert(-0x8000_0000 <= part <= 0x8000_0000) by (nonlinear_arith)
                requires
                    scale >= 1,
                    -0x8000_0000 <= wide <= 0x7fff_ffff,
                    wide >= 0 ==> part == wide / scale,
                    wide < 0 ==> part == -((-wide) / scale as int),
            ;
            let end: i32 = sat_i64(o.x as i64 + part);
            best = match best {
                Some(b) => Some(max_i32(end, b)),
                None => Some(end),
            };
        }
        i = i + 1;
    }
    match best {
        Some(b) => b,
        None => 0,
    }
}

proof fn lemma_fastest_in_range(modes: Seq<DrmMode>, n: nat)
    requires
        n <= modes.len(),
    ensures
        fastest_preferred(modes, n) matches Some(i) ==> 0 <= i < n,
    decreases n,
{
    if n > 0 {
        lemma_fastest_in_range(modes, (n - 1) as nat);
    }
}

pub fn best_mode(modes: &Vec<DrmMode>) -> (r: Option<usize>)
    ensures
        match r {
            Some(i) => best(modes@) == Some(i as int) && i < modes.len(),
            None => best(modes@) is None,
        },
{
    let mut found: Option<usize> = None;
    let mut i: usize = 0;
    while i < modes.len()
        invariant
            i <= modes.len(),
            match found {
                Some(f) => f < i && fastest_preferred(modes@, i as nat) == Some(f as int),
                None => fastest_preferred(modes@, i as nat) is None,
            },
        decreases modes.len() - i,
    {
        if modes[i].preferred {
            found = match found {
                Some(f) => {
                    if modes[i].vrefresh >= modes[f].vrefresh {
                        Some(i)
                    } else {
                        Some(f)
                    }
                },
                None => Some(i),
            };
        }
        i = i + 1;
    }
    match found {
        Some(f) => Some(f),
        None => {
            if modes.len() > 0 {
                Some(0)
            } else {
                None
            }
        },
    }
}

fn has_mode(v: &Vec<OutputMode>, m: OutputMode) -> (r: bool)
    ensures
        r == v@.contains(m),
{
    let mut i: usize = 0;
    while i < v.len()
        invariant
            i <= v.len(),
            forall|k: int| 0 <= k < i ==> v@[k] != m,
        decreases v.len() - i,
    {
        if v[i] == m {
            assert(v@[i as int] == m);
            return true;
        }
        i = i + 1;
    }
    false
}

pub fn distinct_modes(modes: &Vec<DrmMode>) -> (r: Vec<OutputMode>)
    ensures
        r@ == distinct(modes@, modes@.len()),
{
    let mut out: Vec<OutputMode> = Vec::new();
    let mut i: usize = 0;
    while i < modes.len()
        invariant
            i <= modes.len(),
            out@ == distinct(modes@, i as nat),
        decreases modes.len() - i,
    {
        let m = output_mode(&modes[i]);
        if !has_mode(&out, m) {
            out.push(m);
        }
        i = i + 1;
    }
    out
}

/// The name of an output: the kind of its connector and the connector's number.
pub fn output_name(interface: u8, id: u32) -> (r: String)
    ensures
        r@ == decimal(interface as nat) + "-"@ + decimal(id as nat),
{
    let a = decimal_text(interface as u128);
    let b = decimal_text(id as u128);
    join3(a.as_str(), "-", b.as_str())
}

/// How an output is to be set up.
#[derive(Debug)]
pub struct OutputPlan {
    pub name: String,
    pub crtc: u32,
    /// The index of its mode among those of the connector.
    pub mode: usize,
    pub modes: Vec<OutputMode>,
    pub x: i32,
}

/// The scanout engine for a connector: the first one that is free of those that its
/// encoders can use, or of all where they name none.
pub open spec fn engine(c: ConnectorInfo, all: Seq<u32>, used: Seq<u32>) -> Option<u32> {
    let possible = flat(c.encoders@);
    if possible.len() == 0 {
        first_free(all, used)
    } else {
        first_free(possible, used)
    }
}

/// A walk over the connectors of a card: where the next output goes, and which
/// scanout engines are taken.
#[derive(Debug)]
pub struct Scan {
    pub x_off: i32,
    pub used: Vec<u32>,
}

/// Whether a connector gets an output.
pub open spec fn gets_output(c: ConnectorInfo, all: Seq<u32>, used: Seq<u32>) -> bool {
    c.connected && best(c.modes@) is Some && engine(c, all, used) is Some
}

impl Scan {
    /// The start of a walk, to the right of the outputs that are there.
    pub fn new(outputs: &Vec<PlacedOutput>) -> (r: Scan)
        ensures
            r.x_off == (match reach_of(outputs@, outputs@.len()) {
                Some(x) => x,
                None => 0,
            }),
            r.used@.len() == 0,
    {
        Scan { x_off: start_offset(outputs), used: Vec::new() }
    }

    /// The output for a connector, if it gets one. The next output goes to its right,
    /// whether this one can be lit up or not.
    pub fn next_output(&mut self, c: &ConnectorInfo, all: &Vec<u32>) -> (r: Option<OutputPlan>)
        ensures
            final(self).used == old(self).used,
            !gets_output(*c, all@, old(self).used@) ==> r is None && final(self).x_off == old(
                self,
            ).x_off,
            gets_output(*c, all@, old(self).used@) ==> (r matches Some(p) && {
                &&& p.name@ == decimal(c.interface as nat) + "-"@ + decimal(c.id as nat)
                &&& Some(p.crtc) == engine(*c, all@, old(self).used@)
                &&& Some(p.mode as int) == best(c.modes@)
                &&& p.mode < c.modes.len()
                &&& p.modes@ == distinct(c.modes@, c.modes@.len())
                &&& p.x == old(self).x_off
                &&& final(self).x_off == sat(p.x + c.modes@[p.mode as int].width)
            }),
    {
        if !c.connected {
            return None;
        }
        let mode: usize = match best_mode(&c.modes) {
            Some(i) => i,
            None => {
                return None;
            },
        };
        let possible = flatten_crtcs(&c.encoders);
        let found = if possible.len() == 0 {
            find_free_crtc(all, &self.used)
        } else {
            find_free_crtc(&possible, &self.used)
        };
        let crtc: u32 = match found {
            Some(crtc) => crtc,
            None => {
                return None;
            },
        };
        let x: i32 = self.x_off;
        self.x_off = sat_i64(x as i64 + c.modes[mode].width as i64);
        Some(
            OutputPlan {
                name: output_name(c.interface, c.id),
                crtc,
                mode,
                modes: distinct_modes(&c.modes),
                x,
            },
        )
    }

    /// An output was lit up: its scanout engine is taken.
    pub fn lit_up(&mut self, crtc: u32)
        ensures
            final(self).used@ == old(self).used@.push(crtc),
            final(self).x_off == old(self).x_off,
    {
        self.used.push(crtc);
    }
}

/// The mode that was picked is at least as fast as every preferred one.
pub proof fn law_the_fastest_preferred_mode_wins(modes: Seq<DrmMode>, n: nat, k: int)
    requires
        n <= modes.len(),
        0 <= k < n,
        modes[k].preferred,
    ensures
        fastest_preferred(modes, n) matches Some(i) && 0 <= i < n && modes[i].preferred
            && modes[i].vrefresh >= modes[k].vrefresh,
    decreases n,
{
    lemma_fastest_in_range(modes, (n - 1) as nat);
    lemma_fastest_is_preferred(modes, (n - 1) as nat);
    if k < n - 1 {
        law_the_fastest_preferred_mode_wins(modes, (n - 1) as nat, k);
    }
}

proof fn lemma_fastest_is_preferred(modes: Seq<DrmMode>, n: nat)
    requires
        n <= modes.len(),
    ensures
        fastest_preferred(modes, n) matches Some(i) ==> 0 <= i < n && modes[i].preferred,
    decreases n,
{
    if n > 0 {
        lemma_fastest_is_preferred(modes, (n - 1) as nat);
    }
}

/// A scanout engine that was found free is not one that is taken.
pub proof fn law_engines_are_not_shared(s: Seq<u32>, used: Seq<u32>)
    ensures
        first_free(s, used) matches Some(c) ==> !used.contains(c) && s.contains(c),
        first_free(s, used) is None ==> forall|i: int|
            0 <= i < s.len() ==> used.contains(#[trigger] s[i]),
    decreases s.len(),
{
    if s.len() > 0 {
        if used.contains(s[0]) {
            let t = s.skip(1);
            law_engines_are_not_shared(t, used);
            if let Some(c) = first_free(t, used) {
                let i = choose|i: int| 0 <= i < t.len() && t[i] == c;
                assert(s[i + 1] == c);
            } else {
                assert forall|i: int| 0 <= i < s.len() implies used.contains(#[trigger] s[i]) by {
                    if i > 0 {
                        assert(s[i] == t[i - 1]);
                    }
                }
            }
        } else {
            assert(s[0] == first_free(s, used)->0);
        }
    }
}

/// No mode of an output is listed twice.
pub proof fn law_modes_are_listed_once(modes: Seq<DrmMode>, n: nat)
    ensures
        distinct(modes, n).no_duplicates(),
    decreases n,
{
    if n > 0 {
        law_modes_are_listed_once(modes, (n - 1) as nat);
    }
}

/// The index of the first mode of a size and refresh rate, or the number of modes.
pub open spec fn mode_index(modes: Seq<DrmMode>, m: OutputMode) -> nat
    decreases modes.len(),
{
    if modes.len() == 0 || mode_of(modes[0]) == m {
        0
    } else {
        1 + mode_index(modes.skip(1), m)
    }
}

pub proof fn lemma_mode_index_is(modes: Seq<DrmMode>, m: OutputMode, n: int)
    requires
        0 <= n <= modes.len(),
        forall|k: int| 0 <= k < n ==> mode_of(#[trigger] modes[k]) != m,
        n < modes.len() ==> mode_of(modes[n]) == m,
    ensures
        mode_index(modes, m) == n,
    decreases modes.len(),
{
    if n > 0 {
        assert(mode_of(modes[0]) != m);
        let t = modes.skip(1);
        assert forall|k: int| 0 <= k < n - 1 implies mode_of(#[trigger] t[k]) != m by {
            assert(t[k] == modes[k + 1]);
        }
        lemma_mode_index_is(t, m, n - 1);
    }
}

/// What becomes of the wish for another mode.
#[derive(Debug, Clone, Copy, PartialEq, Eq, Structural)]
pub enum Modeset {
    /// There is no hardware to be set up.
    Granted,
    Refused,
    /// Set the hardware to the mode at an index.
    Apply { mode: usize, software: bool },
}

/// The surface that drives an output: whether it is drawn by software, and the modes
/// of its connector, if that is still there.
#[derive(Debug)]
pub struct DrivenSurface {
    pub software: bool,
    pub modes: Option<Vec<DrmMode>>,
}

pub open spec fn modeset_of(
    hardware: bool,
    surface: Option<DrivenSurface>,
    wanted: OutputMode,
) -> Modeset {
    if !hardware {
        Modeset::Granted
    } else {
        match surface {
            Some(DrivenSurface { software, modes: Some(modes) }) => {
                let i = mode_index(modes@, wanted);
                if i < modes.len() {
                    Modeset::Apply { mode: i as usize, software }
                } else {
                    Modeset::Refused
                }
            },
            _ => Modeset::Refused,
        }
    }
}

/// Decides on the wish for another mode of an output: without hardware there is
/// nothing to do; otherwise the output has to be driven and its connector has to offer
/// the mode.
pub fn apply_hardware_modeset(
    hardware: bool,
    surface: Option<DrivenSurface>,
    wanted: OutputMode,
) -> (r: Modeset)
    ensures
        r == modeset_of(hardware, surface, wanted),
{
    if !hardware {
        return Modeset::Granted;
    }
    match surface {
        Some(s) => match s.modes {
            Some(modes) => {
                let mut i: usize = 0;
                while i < modes.len()
                    invariant
                        i <= modes.len(),
                        hardware,
                        surface == Some(DrivenSurface { software: s.software, modes: Some(modes) }),
                        forall|k: int| 0 <= k < i ==> mode_of(#[trigger] modes@[k]) != wanted,
                    decreases modes.len() - i,
                {
                    if output_mode(&modes[i]) == wanted {
                        proof {
                            lemma_mode_index_is(modes@, wanted, i as int);
                        }
                        return Modeset::Apply { mode: i, software: s.software };
                    }
                    i = i + 1;
                }
                proof {
                    lemma_mode_index_is(modes@, wanted, modes.len() as int);
                }
                Modeset::Refused
            },
            None => Modeset::Refused,
        },
        None => Modeset::Refused,
    }
}

/// By what a card is drawn to: its own engine, or the processor. Both are objects of
/// the renderer, known by number.
#[derive(Debug, Clone, Copy, PartialEq, Eq, Structural)]
pub enum RenderBackend {
    Gles(u64),
    Pixman(u64),
}

impl RenderBackend {
    pub fn is_software(&self) -> (r: bool)
        ensures
            r == (*self is Pixman),
    {
        match self {
            RenderBackend::Pixman(_) => true,
            RenderBackend::Gles(_) => false,
        }
    }

    pub fn as_gles(&self) -> (r: Option<&u64>)
        ensures
            match *self {
                RenderBackend::Gles(h) => r == Some(&h),
                RenderBackend::Pixman(_) => r is None,
            },
    {
        match self {
            RenderBackend::Gles(r) => Some(r),
            RenderBackend::Pixman(_) => None,
        }
    }
}

impl RenderBackend {
    pub fn as_gles_mut(&mut self) -> (r: Option<&mut u64>)
        ensures
            match *old(self) {
                RenderBackend::Gles(h) => r matches Some(x) && *x == h && *final(self)
                    == RenderBackend::Gles(*final(x)),
                RenderBackend::Pixman(_) => r is None && *final(self) == *old(self),
            },
    {
        match self {
            RenderBackend::Gles(r) => Some(r),
            RenderBackend::Pixman(_) => None,
        }
    }

    pub fn as_pixman_mut(&mut self) -> (r: Option<&mut u64>)
        ensures
            match *old(self) {
                RenderBackend::Pixman(h) => r matches Some(x) && *x == h && *final(self)
                    == RenderBackend::Pixman(*final(x)),
                RenderBackend::Gles(_) => r is None && *final(self) == *old(self),
            },
    {
        match self {
            RenderBackend::Pixman(r) => Some(r),
            RenderBackend::Gles(_) => None,
        }
    }
}

/// The renderer of a card: its own engine, and the processor where that does not work.
pub fn choose_renderer(gles: Option<u64>, pixman: Option<u64>) -> (r: Option<RenderBackend>)
    ensures
        r == (match gles {
            Some(h) => Some(RenderBackend::Gles(h)),
            None => match pixman {
                Some(h) => Some(RenderBackend::Pixman(h)),
                None => None,
            },
        }),
{
    match gles {
        Some(h) => Some(RenderBackend::Gles(h)),
        None => match pixman {
            Some(h) => Some(RenderBackend::Pixman(h)),
            None => None,
        },
    }
}

/// Whether the protocol for buffers of the graphics card is offered to clients when a
/// card with a renderer is set up: with the first that does not draw by the processor,
/// where every import would fail.
pub fn offers_dmabuf(has_global: bool, software: bool) -> (r: bool)
    ensures
        r == (!has_global && !software),
{
    !has_global && !software
}

/// How a frame of an output is drawn.
#[derive(Debug, Clone, Copy, PartialEq, Eq, Structural)]
pub enum RenderPath {
    Skip,
    Software,
    Hardware,
}

/// How a frame of an output is drawn, given whether there is hardware to drive and
/// whether its surface is a software one.
pub fn render_path(hardware: bool, software_surface: Option<bool>) -> (r: RenderPath)
    ensures
        r == (if !hardware {
            RenderPath::Skip
        } else if software_surface == Some(true) {
            RenderPath::Software
        } else {
            RenderPath::Hardware
        }),
{
    if !hardware {
        return RenderPath::Skip;
    }
    match software_surface {
        Some(true) => RenderPath::Software,
        _ => RenderPath::Hardware,
    }
}

/// A buffer of a software surface.
#[derive(Debug, Clone, Copy, PartialEq, Eq, Structural)]
pub struct DumbSwapchainBuffer {
    pub fb: u32,
    pub ever_rendered: bool,
}

/// The two buffers of a software surface: one is shown, the other is drawn to.
#[derive(Debug, Clone, Copy, PartialEq, Eq)]
pub struct DumbSwapchain {
    pub crtc: u32,
    pub connector: u32,
    pub buffers: (DumbSwapchainBuffer, DumbSwapchainBuffer),
    pub front: usize,
}

impl DumbSwapchain {
    /// One of the two buffers is the front one.
    pub open spec fn well_formed(self) -> bool {
        self.front < 2
    }

    pub open spec fn back(self) -> DumbSwapchainBuffer {
        if self.front == 0 {
            self.buffers.1
        } else {
            self.buffers.0
        }
    }

    pub open spec fn front_buffer(self) -> DumbSwapchainBuffer {
        if self.front == 0 {
            self.buffers.0
        } else {
            self.buffers.1
        }
    }

    pub fn new(crtc: u32, connector: u32, first: u32, second: u32) -> (r: DumbSwapchain)
        ensures
            r.well_formed(),
            r.crtc == crtc,
            r.connector == connector,
            r.front == 0,
            r.front_buffer() == (DumbSwapchainBuffer { fb: first, ever_rendered: false }),
            r.back() == (DumbSwapchainBuffer { fb: second, ever_rendered: false }),
    {
        DumbSwapchain {
            crtc,
            connector,
            buffers: (
                DumbSwapchainBuffer { fb: first, ever_rendered: false },
                DumbSwapchainBuffer { fb: second, ever_rendered: false },
            ),
            front: 0,
        }
    }

    /// The buffer that the next frame is drawn to.
    pub fn back_mut(&mut self) -> (r: &mut DumbSwapchainBuffer)
        requires
            old(self).well_formed(),
        ensures
            *r == old(self).back(),
            final(self).well_formed(),
            final(self).back() == *final(r),
            final(self).front_buffer() == old(self).front_buffer(),
            final(self).front == old(self).front,
            final(self).crtc == old(self).crtc,
            final(self).connector == old(self).connector,
    {
        if self.front == 0 {
            &mut self.buffers.1
        } else {
            &mut self.buffers.0
        }
    }

    /// How many frames old the buffer is that the next frame is drawn to; zero where
    /// nothing was drawn to it.
    pub fn back_age(&self) -> (r: usize)
        requires
            self.well_formed(),
        ensures
            r == (if self.back().ever_rendered {
                2usize
            } else {
                0usize
            }),
    {
        let back = if self.front == 0 {
            self.buffers.1
        } else {
            self.buffers.0
        };
        if back.ever_rendered {
            2
        } else {
            0
        }
    }

    /// The swapchain after a frame was drawn, and shown or not.
    pub open spec fn drawn(self, shown: bool) -> DumbSwapchain {
        let b = DumbSwapchainBuffer { ever_rendered: true, ..self.back() };
        DumbSwapchain {
            buffers: if self.front == 0 {
                (self.buffers.0, b)
            } else {
                (b, self.buffers.1)
            },
            front: if shown {
                (1 - self.front) as usize
            } else {
                self.front
            },
            ..self
        }
    }

    /// A frame was drawn; it is shown if the flip succeeded.
    pub fn finish_frame(&mut self, flipped: bool)
        requires
            old(self).well_formed(),
        ensures
            final(self).well_formed(),
            *final(self) == old(self).drawn(flipped),
    {
        if self.front == 0 {
            self.buffers.1.ever_rendered = true;
        } else {
            self.buffers.0.ever_rendered = true;
        }
        if flipped {
            self.front = 1 - self.front;
        }
    }
}

/// Frame after frame the two buffers take turns, and from the third frame on the one
/// that is drawn to holds an earlier frame.
pub proof fn law_buffers_take_turns(s: DumbSwapchain)
    requires
        s.well_formed(),
    ensures
        s.drawn(true).back() == s.front_buffer(),
        s.drawn(true).front_buffer().fb == s.back().fb,
        s.drawn(true).drawn(true).back().ever_rendered,
        s.drawn(true).drawn(true).front == s.front,
{
}

/// How many of the first `n` shown windows are on an output.
pub open spec fn count_shown(on_output: Seq<bool>, n: nat) -> nat
    decreases n,
{
    if n == 0 {
        0
    } else {
        count_shown(on_output, (n - 1) as nat) + if on_output[n - 1] {
            1nat
        } else {
            0nat
        }
    }
}

/// Whether the window at an index fills the screen with a picture of high dynamic
/// range.
pub open spec fn is_fullscreen_hdr(d: Desktop, hdr: Seq<u64>, i: int) -> bool {
    let w = d.shown[i];
    w.surface is Some && d.knows(w.id) && d.meta(w.id).is_fullscreen && hdr.contains(w.surface->0)
}

/// Whether exactly one window is on an output, and it fills the screen with a picture
/// of high dynamic range.
pub open spec fn sole_hdr(d: Desktop, on_output: Seq<bool>, hdr: Seq<u64>) -> bool {
    &&& count_shown(on_output, on_output.len()) == 1
    &&& exists|i: int|
        0 <= i < on_output.len() && #[trigger] on_output[i] && is_fullscreen_hdr(d, hdr, i)
}

proof fn lemma_count_positive(s: Seq<bool>, n: nat, i: int)
    requires
        n <= s.len(),
        0 <= i < n,
        s[i],
    ensures
        count_shown(s, n) >= 1,
    decreases n,
{
    if i < n - 1 {
        lemma_count_positive(s, (n - 1) as nat, i);
    }
}

pub proof fn lemma_count_two(s: Seq<bool>, n: nat, i: int, j: int)
    requires
        n <= s.len(),
        0 <= i < j < n,
        s[i],
        s[j],
    ensures
        count_shown(s, n) >= 2,
    decreases n,
{
    if j < n - 1 {
        lemma_count_two(s, (n - 1) as nat, i, j);
    } else {
        lemma_count_positive(s, (n - 1) as nat, i);
    }
}

proof fn lemma_count_zero(s: Seq<bool>, n: nat)
    requires
        n <= s.len(),
        forall|k: int| 0 <= k < n ==> !(#[trigger] s[k]),
    ensures
        count_shown(s, n) == 0,
    decreases n,
{
    if n > 0 {
        lemma_count_zero(s, (n - 1) as nat);
    }
}

pub proof fn lemma_count_one(s: Seq<bool>, n: nat, i: int)
    requires
        n <= s.len(),
        0 <= i < n,
        s[i],
        forall|k: int| 0 <= k < n && k != i ==> !(#[trigger] s[k]),
    ensures
        count_shown(s, n) == 1,
    decreases n,
{
    if i < n - 1 {
        assert(!s[n - 1]);
        lemma_count_one(s, (n - 1) as nat, i);
    } else {
        lemma_count_zero(s, (n - 1) as nat);
    }
}

fn holds_surface(v: &Vec<u64>, x: u64) -> (r: bool)
    ensures
        r == v@.contains(x),
{
    let mut i: usize = 0;
    while i < v.len()
        invariant
            i <= v.len(),
            forall|k: int| 0 <= k < i ==> v@[k] != x,
        decreases v.len() - i,
    {
        if v[i] == x {
            assert(v@[i as int] == x);
            return true;
        }
        i = i + 1;
    }
    false
}

/// Whether a picture of high dynamic range is all that an output shows. `on_output`
/// tells for each shown window whether it is on the output, `hdr` lists the surfaces
/// that agreed on such a picture.
pub fn sole_fullscreen_hdr_surface(
    state: &BlueState,
    on_output: &Vec<bool>,
    hdr: &Vec<u64>,
) -> (r: bool)
    requires
        on_output.len() == state@.shown.len(),
    ensures
        r == sole_hdr(state@, on_output@, hdr@),
{
    let mut sole: Option<usize> = None;
    let mut i: usize = 0;
    while i < on_output.len()
        invariant
            i <= on_output.len(),
            match sole {
                Some(s) => s < i && on_output@[s as int] && forall|k: int|
                    0 <= k < i && k != s ==> !(#[trigger] on_output@[k]),
                None => forall|k: int| 0 <= k < i ==> !(#[trigger] on_output@[k]),
            },
        decreases on_output.len() - i,
    {
        if on_output[i] {
            match sole {
                Some(s) => {
                    proof {
                        lemma_count_two(on_output@, on_output@.len(), s as int, i as int);
                    }
                    return false;
                },
                None => {
                    sole = Some(i);
                },
            }
        }
        i = i + 1;
    }
    match sole {
        Some(s) => {
            proof {
                lemma_count_one(on_output@, on_output@.len(), s as int);
            }
            let w = state.shown[s];
            let surface: u64 = match w.surface {
                Some(surface) => surface,
                None => {
                    return false;
                },
            };
            if !state.is_fullscreen(w.id) {
                return false;
            }
            let r = holds_surface(hdr, surface);
            assert(r == is_fullscreen_hdr(state@, hdr@, s as int));
            r
        },
        None => {
            proof {
                lemma_count_zero(on_output@, on_output@.len());
            }
            false
        },
    }
}

/// An element that is drawn, through a shader of its own or through none.
#[derive(Debug)]
pub struct HdrAwareElement<E> {
    pub inner: E,
    pub program: Option<u64>,
}

impl<E> HdrAwareElement<E> {
    pub fn new(inner: E, program: Option<u64>) -> (r: HdrAwareElement<E>)
        ensures
            r.inner == inner,
            r.program == program,
    {
        HdrAwareElement { inner, program }
    }

    /// An element that is drawn as it is.
    pub fn passthrough(inner: E) -> (r: HdrAwareElement<E>)
        ensures
            r.inner == inner,
            r.program is None,
    {
        HdrAwareElement { inner, program: None }
    }

    /// Whether the element may be shown without being drawn: one with a shader of its
    /// own may not, or the shader would be left out.
    pub fn may_scan_out(&self) -> (r: bool)
        ensures
            r == (self.program is None),
    {
        self.program.is_none()
    }
}

/// The shader for the elements of a frame: that of the card, if it has one and the
/// picture asks for it.
pub fn frame_program(program: Option<u64>, sole_hdr_surface: bool) -> (r: Option<u64>)
    ensures
        r == (if sole_hdr_surface {
            program
        } else {
            None
        }),
{
    if sole_hdr_surface {
        program
    } else {
        None
    }
}

} // verus!
