//! What is decided on outputs and graphics cards, and on requests of X11 clients and of
//! emulated devices.
use vstd::prelude::*;

use crate::desk::Desk;
use crate::desktop::{Desktop, Request};
use crate::drm::{flat, mode_of, DrmMode, OutputMode};
use crate::geometry::{Point, Rectangle};
use crate::gpus::{targets_of, Card, Driven};
use crate::portal::{routed, EisAction, EisRequest, SeatDevices};
use crate::scan::{
    best, count_shown, distinct, engine, fastest_preferred, is_fullscreen_hdr, lemma_count_one,
    lemma_count_two, lemma_mode_index_is, mode_index, modeset_of, reach_of, sole_hdr,
    ConnectorInfo, DrivenSurface, Modeset, PlacedOutput,
};
use crate::space::location_in;
use crate::startup::services_of;
use crate::window::lemma_surface_position_is;
use crate::window_laws::{
    law_maximized_windows_fill_the_area, law_restored_windows_get_their_geometry_back,
};
use crate::x11::requested_geometry;

verus! {

/// The outputs together reach as far right as the furthest of them that has a mode: none
/// reaches further, and one reaches as far. Its width counts in scaled pixels.
pub proof fn law_outputs_reach_as_far_as_the_furthest(
    outputs: Seq<PlacedOutput>,
    n: nat,
    k: int,
    width: i32,
)
    requires
        n <= outputs.len(),
        0 <= k < n,
        outputs[k].width == Some(width),
        width >= 0,
        outputs[k].scale >= 1,
        outputs[k].x + width <= i32::MAX,
    ensures
        reach_of(outputs, n) is Some,
        outputs[k].x + width as int / outputs[k].scale as int <= reach_of(outputs, n)->Some_0,
    decreases n,
{
    let o = outputs[k];
    assert(0 <= width as int / o.scale as int <= width) by (nonlinear_arith)
        requires
            width >= 0,
            o.scale >= 1,
    ;
    if k < n - 1 {
        law_outputs_reach_as_far_as_the_furthest(outputs, (n - 1) as nat, k, width);
    }
}

/// Nothing reaches anywhere where no output has a mode; otherwise how far they reach is how
/// far one of them does.
pub proof fn law_some_output_reaches_as_far(outputs: Seq<PlacedOutput>, n: nat)
    requires
        n <= outputs.len(),
    ensures
        reach_of(outputs, n) is None ==> forall|k: int|
            0 <= k < n ==> (#[trigger] outputs[k]).width is None,
        reach_of(outputs, n) matches Some(x) ==> exists|k: int|
            0 <= k < n && (#[trigger] outputs[k]).width is Some && x == crate::scan::reach(
                outputs[k],
                outputs[k].width->Some_0,
            ),
    decreases n,
{
    if n > 0 {
        let m = (n - 1) as nat;
        law_some_output_reaches_as_far(outputs, m);
        if reach_of(outputs, n) is Some {
            if outputs[n - 1].width is Some && reach_of(outputs, n)->Some_0 == crate::scan::reach(
                outputs[n - 1],
                outputs[n - 1].width->Some_0,
            ) {
                assert(outputs[n - 1].width is Some);
            } else {
                let k = choose|k: int|
                    0 <= k < m && (#[trigger] outputs[k]).width is Some && reach_of(
                        outputs,
                        m,
                    )->Some_0 == crate::scan::reach(outputs[k], outputs[k].width->Some_0);
                assert(outputs[k].width is Some);
            }
        }
    }
}

/// An output gets the fastest of its preferred modes, and the first of all where none is
/// preferred. Without a mode it gets none.
pub proof fn law_outputs_get_their_best_mode(modes: Seq<DrmMode>, k: int)
    requires
        0 <= k < modes.len(),
    ensures
        modes[k].preferred ==> (best(modes) matches Some(i) && 0 <= i < modes.len()
            && modes[i].preferred && modes[i].vrefresh >= modes[k].vrefresh),
        (forall|j: int| 0 <= j < modes.len() ==> !(#[trigger] modes[j]).preferred) ==> best(modes)
            == Some(0int),
        best(Seq::empty()) is None,
{
    if modes[k].preferred {
        crate::scan::law_the_fastest_preferred_mode_wins(modes, modes.len(), k);
    }
    if forall|j: int| 0 <= j < modes.len() ==> !(#[trigger] modes[j]).preferred {
        lemma_none_preferred(modes, modes.len());
    }
}

proof fn lemma_none_preferred(modes: Seq<DrmMode>, n: nat)
    requires
        n <= modes.len(),
        forall|j: int| 0 <= j < modes.len() ==> !(#[trigger] modes[j]).preferred,
    ensures
        fastest_preferred(modes, n) is None,
    decreases n,
{
    if n > 0 {
        lemma_none_preferred(modes, (n - 1) as nat);
    }
}

/// A mode is told by its width, its height and its rate in thousandths.
pub proof fn law_rates_are_in_thousandths(m: DrmMode)
    requires
        m.vrefresh <= 1_000_000,
    ensures
        mode_of(m).w == m.width,
        mode_of(m).h == m.height,
        mode_of(m).refresh == 1000 * m.vrefresh,
{
}

/// Every mode of a connector is listed, and no other.
pub proof fn law_every_mode_is_listed(modes: Seq<DrmMode>, n: nat, k: int, j: int)
    requires
        n <= modes.len(),
        0 <= k < n,
    ensures
        distinct(modes, n).contains(mode_of(modes[k])),
        0 <= j < distinct(modes, n).len() ==> exists|i: int|
            0 <= i < n && mode_of(#[trigger] modes[i]) == distinct(modes, n)[j],
    decreases n,
{
    let m = (n - 1) as nat;
    let before = distinct(modes, m);
    let all = distinct(modes, n);
    if k == m {
        if !before.contains(mode_of(modes[k])) {
            assert(all[before.len() as int] == mode_of(modes[k]));
        }
    } else {
        law_every_mode_is_listed(modes, m, k, j);
        let t = choose|t: int| 0 <= t < before.len() && before[t] == mode_of(modes[k]);
        assert(all[t] == mode_of(modes[k]));
    }
    if 0 <= j < all.len() {
        if j < before.len() {
            if m > 0 {
                law_every_mode_is_listed(modes, m, 0, j);
                let i = choose|i: int| 0 <= i < m && mode_of(#[trigger] modes[i]) == before[j];
                assert(mode_of(modes[i]) == all[j]);
            }
        } else {
            assert(mode_of(modes[n - 1]) == all[j]);
        }
    }
}

/// A connector is driven by the first free engine of those that its encoders can use, and
/// of all only where they name none.
pub proof fn law_connectors_get_an_engine_of_theirs(
    c: ConnectorInfo,
    all: Seq<u32>,
    used: Seq<u32>,
)
    ensures
        ({
            let possible = flat(c.encoders@);
            &&& engine(c, all, used) matches Some(e) ==> !used.contains(e)
            &&& possible.len() > 0 ==> (engine(c, all, used) matches Some(e) ==> possible.contains(
                e,
            ))
            &&& possible.len() == 0 ==> (engine(c, all, used) matches Some(e) ==> all.contains(e))
            &&& possible.len() > 0 && !used.contains(possible[0]) ==> engine(c, all, used) == Some(
                possible[0],
            )
            &&& possible.len() == 0 && all.len() > 0 && !used.contains(all[0]) ==> engine(
                c,
                all,
                used,
            ) == Some(all[0])
        }),
{
    crate::scan::law_engines_are_not_shared(flat(c.encoders@), used);
    crate::scan::law_engines_are_not_shared(all, used);
}

/// The wish for a mode is granted without hardware. With it the output has to be driven,
/// and it is set to the first of its modes that is the one wanted; without such a mode the
/// wish is refused.
pub proof fn law_wanted_modes_have_to_be_offered(
    software: bool,
    modes: Vec<DrmMode>,
    wanted: OutputMode,
    k: int,
)
    requires
        0 <= k <= modes@.len(),
        k < modes@.len() ==> mode_of(modes@[k]) == wanted,
        forall|j: int| 0 <= j < k ==> mode_of(#[trigger] modes@[j]) != wanted,
    ensures
        ({
            let s = DrivenSurface { software, modes: Some(modes) };
            &&& k < modes@.len() ==> modeset_of(true, Some(s), wanted) == (Modeset::Apply {
                mode: k as usize,
                software,
            })
            &&& k == modes@.len() ==> modeset_of(true, Some(s), wanted) == Modeset::Refused
            &&& modeset_of(true, None, wanted) == Modeset::Refused
            &&& modeset_of(true, Some(DrivenSurface { software, modes: None }), wanted)
                == Modeset::Refused
            &&& modeset_of(false, Some(s), wanted) == Modeset::Granted
            &&& modeset_of(false, None, wanted) == Modeset::Granted
        }),
{
    lemma_mode_index_is(modes@, wanted, k);
    assert(mode_index(modes@, wanted) == k);
}

/// A picture of high dynamic range is all that an output shows exactly if one window fills
/// the screen with it and no other window is on the output.
pub proof fn law_the_only_window_has_the_output(
    d: Desktop,
    on_output: Seq<bool>,
    hdr: Seq<u64>,
    i: int,
    j: int,
)
    requires
        0 <= i < on_output.len(),
        on_output[i],
        0 <= j < on_output.len(),
        j != i,
    ensures
        on_output[j] ==> !sole_hdr(d, on_output, hdr),
        (forall|k: int| 0 <= k < on_output.len() && k != i ==> !(#[trigger] on_output[k])) ==> (
        sole_hdr(d, on_output, hdr) == is_fullscreen_hdr(d, hdr, i)),
{
    let n = on_output.len();
    if on_output[j] {
        if i < j {
            lemma_count_two(on_output, n, i, j);
        } else {
            lemma_count_two(on_output, n, j, i);
        }
    }
    if forall|k: int| 0 <= k < on_output.len() && k != i ==> !(#[trigger] on_output[k]) {
        lemma_count_one(on_output, n, i);
        assert(count_shown(on_output, n) == 1);
    }
}

/// Every output that a card drives is drawn to, through that card.
pub proof fn law_every_driven_output_is_drawn_to(s: Seq<Card>, n: nat, i: int, j: int)
    requires
        0 <= i < n <= s.len(),
        0 <= j < s[i].driven.len(),
    ensures
        targets_of(s, n).contains((s[i].node, s[i].driven[j].crtc)),
    decreases n,
{
    let before = targets_of(s, (n - 1) as nat);
    let last = s[n - 1].driven.map_values(|d: Driven| (s[n - 1].node, d.crtc));
    let all = targets_of(s, n);
    let x = (s[i].node, s[i].driven[j].crtc);
    assert(all == before + last);
    if i == n - 1 {
        assert(last[j] == x);
        assert(all[before.len() + j] == x);
    } else {
        law_every_driven_output_is_drawn_to(s, (n - 1) as nat, i, j);
        let t = choose|t: int| 0 <= t < before.len() && before[t] == x;
        assert(all[t] == x);
    }
}

/// Emulated input reaches the devices of the seat that there are, as it is: keys the
/// keyboard, buttons and scrolling the pointer. What is meant for one that is missing is
/// dropped.
pub proof fn law_emulated_input_needs_its_device(
    seat: SeatDevices,
    key: u32,
    button: u32,
    pressed: bool,
    dx: i32,
    dy: i32,
    x: bool,
    y: bool,
)
    ensures
        seat.keyboard ==> routed(EisRequest::KeyboardKey { key, pressed }, seat)
            == (EisAction::Key { key, pressed }),
        !seat.keyboard ==> routed(EisRequest::KeyboardKey { key, pressed }, seat)
            == EisAction::Nothing,
        seat.pointer ==> routed(EisRequest::Button { button, pressed }, seat)
            == (EisAction::Button { button, pressed }),
        seat.pointer ==> routed(EisRequest::ScrollDiscrete { dx, dy }, seat)
            == (EisAction::WheelScroll { dx, dy }),
        seat.pointer ==> routed(EisRequest::ScrollDelta, seat) == EisAction::Scroll,
        seat.pointer ==> routed(EisRequest::ScrollStop { x, y }, seat) == (EisAction::StopScroll {
            x,
            y,
        }),
        routed(EisRequest::ScrollCancel { x, y }, seat) == routed(
            EisRequest::ScrollStop { x, y },
            seat,
        ),
        !seat.pointer ==> routed(EisRequest::Button { button, pressed }, seat)
            == EisAction::Nothing && routed(EisRequest::ScrollDelta, seat) == EisAction::Nothing
            && routed(EisRequest::ScrollDiscrete { dx, dy }, seat) == EisAction::Nothing
            && routed(EisRequest::ScrollStop { x, y }, seat) == EisAction::Nothing,
        routed(EisRequest::PointerMotion, seat) == EisAction::MoveBy,
        routed(EisRequest::PointerMotionAbsolute, seat) == EisAction::MoveTo,
        routed(EisRequest::Disconnect, seat) == EisAction::Nothing,
{
}

/// An X11 client that asks for a part of another geometry gets that part and keeps the
/// rest.
pub proof fn law_x11_clients_get_what_they_ask_for(
    geo: Rectangle,
    x: Option<i32>,
    y: Option<i32>,
    w: Option<u32>,
    h: Option<u32>,
)
    ensures
        ({
            let r = requested_geometry(geo, x, y, w, h);
            &&& x matches Some(v) ==> r.loc.x == v
            &&& x is None ==> r.loc.x == geo.loc.x
            &&& y matches Some(v) ==> r.loc.y == v
            &&& y is None ==> r.loc.y == geo.loc.y
            &&& w matches Some(v) ==> (v <= i32::MAX ==> r.size.w == v)
            &&& w is None ==> r.size.w == geo.size.w
            &&& h matches Some(v) ==> (v <= i32::MAX ==> r.size.h == v)
            &&& h is None ==> r.size.h == geo.size.h
            &&& requested_geometry(geo, None, None, None, None) == geo
        }),
{
}

/// The tip of a pen gives the keyboard to the surface under it; in a locked session only
/// to the lock. Where there is none, nothing is asked.
pub proof fn law_pens_give_the_keyboard(d: Desktop, lock: Option<u64>, surface: Option<u64>)
    ensures
        surface is Some ==> d.tipped(false, lock, surface) == (Desktop {
            requests: d.requests.push(Request::Focus { surface }),
            ..d
        }),
        surface is None ==> d.tipped(false, lock, surface) == d,
        lock is Some ==> d.tipped(true, lock, surface) == (Desktop {
            requests: d.requests.push(Request::Focus { surface: lock }),
            ..d
        }),
        lock is None ==> d.tipped(true, lock, surface) == d,
{
}

/// An X11 client that wants its window maximized gets the first output for it, and what is
/// said of another window is not affected; a surface that belongs to none changes nothing.
pub proof fn law_x11_windows_are_maximized_by_surface(d: Desk, i: int, surface: u64)
    requires
        d.sound(),
        0 <= i < d.windows.len(),
        d.windows[i].surface == Some(surface),
        forall|k: int| 0 <= k < i ==> (#[trigger] d.windows[k]).surface != Some(surface),
    ensures
        ({
            let w = d.windows[i];
            let up = d.surface_maximized(surface, true);
            let down = d.surface_maximized(surface, false);
            &&& d.has_surface(surface)
            &&& up.windows[i].is_maximized && !down.windows[i].is_maximized
            &&& location_in(up.space, w.window) == Some(d.primary_output().loc)
            &&& location_in(d.space, w.window) is Some ==> Some(d.place_of_surface(surface))
                == location_in(d.space, w.window)
            &&& location_in(d.space, w.window) is None ==> d.place_of_surface(surface) == (Point {
                x: 0,
                y: 0,
            })
            &&& forall|j: int|
                0 <= j < d.windows.len() && j != i ==> #[trigger] up.windows[j] == d.windows[j]
        }),
{
    lemma_surface_position_is(d.windows, surface, i);
    law_maximized_windows_fill_the_area(d, i, d.primary_output(), 0);
    law_restored_windows_get_their_geometry_back(d, i, d.primary_output(), 0);
}

/// A session without an external shell serves its own control socket; one for HackerLand
/// serves that one's, and one for any other shell the protocol of the shells. Only the
/// desktop of that name has the task bar protocol.
pub proof fn law_sessions_serve_their_shell(name: Seq<char>)
    ensures
        ({
            let own = services_of(None);
            let s = services_of(Some(name));
            &&& own.control && !own.hackerland && !own.shell && !own.toplevels
            &&& !s.control
            &&& s.hackerland == (name == "hackerland"@)
            &&& s.shell == (name != "hackerland"@)
            &&& s.toplevels == (name == "sde"@)
        }),
{
    reveal_strlit("hackerland");
    reveal_strlit("sde");
    assert("hackerland"@.len() != "sde"@.len());
}

} // verus!
