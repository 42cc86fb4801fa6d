//! What becomes of each input event.
use vstd::prelude::*;

use crate::actions::{action_rest_is, decide_key, key_fate, ActionRest, Candidate, KeyFate};
use crate::desk::Desk;
use crate::geometry::Point;
use crate::grabs::Travel;
use crate::hwde::HwdeState;
use crate::input::{Popup, Under};
use crate::render_elements::{all_bars, hit};

verus! {

/// What a finger on a touch screen does.
#[derive(Debug, Clone, Copy, PartialEq, Eq, Structural)]
pub enum TouchKind {
    Down,
    Motion,
    Up,
    Cancel,
    Frame,
}

/// An input event, as far as it decides on anything.
#[derive(Debug)]
pub enum InputEvent {
    /// A key, with whether it is the emergency combination and with the key bindings.
    Keyboard { has_keyboard: bool, pressed: bool, emergency: bool, candidates: Vec<Candidate> },
    PointerMotion,
    PointerMotionAbsolute,
    PointerButton { pressed: bool, at: Point, popups: Vec<Popup>, under: Under },
    /// A scroll, with whether there is any along each axis.
    PointerAxis { horizontal: bool, vertical: bool },
    Touch { has_touch: bool, kind: TouchKind },
    SwipeBegin { fingers: u32 },
    SwipeUpdate,
    SwipeEnd { travel: Travel, cancelled: bool },
    TabletProximity { entering: bool, has_surface: bool },
    TabletAxis { has_tablet: bool, has_tool: bool },
    TabletTip { has_tablet: bool, has_tool: bool, down: bool },
    TabletButton { has_tool: bool },
    Other,
}

/// What is passed on.
#[derive(Debug)]
pub enum SeatCall {
    Nothing,
    /// The client gets the key.
    Key,
    /// The session is reset.
    EmergencyReset,
    /// An action was run; this is left of it.
    Acted(ActionRest),
    /// The pointer moves, by a distance or to a place.
    Motion { relative: bool },
    Button,
    Axis { horizontal: bool, vertical: bool },
    Touch(TouchKind),
    ProximityIn,
    ProximityOut,
    ToolMotion,
    TipDown,
    TipUp,
    ToolButton,
}

/// The desktop after an event, with so many fingers on the touch pad if there are any.
pub open spec fn after(d: Desk, fingers: Option<u32>, event: InputEvent) -> Desk {
    match event {
        InputEvent::Keyboard { has_keyboard, pressed, emergency, candidates } => match key_fate(
            pressed,
            emergency,
            candidates@,
        ) {
            KeyFate::Run(action) => if has_keyboard {
                d.acted(action)
            } else {
                d
            },
            _ => d,
        },
        InputEvent::PointerButton { pressed, at, popups, under } => if pressed {
            d.pressed(at, popups@, under)
        } else {
            d
        },
        InputEvent::SwipeEnd { travel, cancelled } => match fingers {
            Some(n) => d.swiped(n, travel, cancelled),
            None => d,
        },
        _ => d,
    }
}

/// How many fingers swipe after an event.
pub open spec fn fingers_after(fingers: Option<u32>, event: InputEvent) -> Option<u32> {
    match event {
        InputEvent::SwipeBegin { fingers } => Some(fingers),
        InputEvent::SwipeEnd { .. } => None,
        _ => fingers,
    }
}

/// Whether a call is the one that an event leads to.
pub open spec fn leads_to(d: Desk, event: InputEvent, call: SeatCall) -> bool {
    match event {
        InputEvent::Keyboard { has_keyboard, pressed, emergency, candidates } => if has_keyboard {
            match key_fate(pressed, emergency, candidates@) {
                KeyFate::Forward => call is Key,
                KeyFate::EmergencyReset => call is EmergencyReset,
                KeyFate::Run(action) => call matches SeatCall::Acted(rest) && action_rest_is(
                    action,
                    rest,
                ),
            }
        } else {
            call is Nothing
        },
        InputEvent::PointerMotion => call == (SeatCall::Motion { relative: true }),
        InputEvent::PointerMotionAbsolute => call == (SeatCall::Motion { relative: false }),
        InputEvent::PointerButton { pressed, at, popups, under } => if pressed && hit(
            all_bars(d.dismissed(popups@, at)),
            at,
        ) is Some {
            call is Nothing
        } else {
            call is Button
        },
        InputEvent::PointerAxis { horizontal, vertical } => call == (SeatCall::Axis {
            horizontal,
            vertical,
        }),
        InputEvent::Touch { has_touch, kind } => if has_touch {
            call == SeatCall::Touch(kind)
        } else {
            call is Nothing
        },
        InputEvent::TabletProximity { entering, has_surface } => if !entering {
            call is ProximityOut
        } else if has_surface {
            call is ProximityIn
        } else {
            call is Nothing
        },
        InputEvent::TabletAxis { has_tablet, has_tool } => if has_tablet && has_tool {
            call is ToolMotion
        } else {
            call is Nothing
        },
        InputEvent::TabletTip { has_tablet, has_tool, down } => if !(has_tablet && has_tool) {
            call is Nothing
        } else if down {
            call is TipDown
        } else {
            call is TipUp
        },
        InputEvent::TabletButton { has_tool } => if has_tool {
            call is ToolButton
        } else {
            call is Nothing
        },
        InputEvent::SwipeBegin { .. } | InputEvent::SwipeUpdate | InputEvent::SwipeEnd { .. }
        | InputEvent::Other => call is Nothing,
    }
}

impl HwdeState {
    /// Processes an event. `fingers` holds with how many fingers is being swiped.
    pub fn process_input_event(&mut self, fingers: &mut Option<u32>, event: InputEvent) -> (r:
        SeatCall)
        ensures
            final(self)@ == after(old(self)@, *old(fingers), event),
            *final(fingers) == fingers_after(*old(fingers), event),
            leads_to(old(self)@, event, r),
    {
        match event {
            InputEvent::Keyboard { has_keyboard, pressed, emergency, candidates } => {
                if !has_keyboard {
                    return SeatCall::Nothing;
                }
                match decide_key(pressed, emergency, candidates) {
                    KeyFate::Forward => SeatCall::Key,
                    KeyFate::EmergencyReset => SeatCall::EmergencyReset,
                    KeyFate::Run(action) => SeatCall::Acted(self.run_action(action)),
                }
            },
            InputEvent::PointerMotion => SeatCall::Motion { relative: true },
            InputEvent::PointerMotionAbsolute => SeatCall::Motion { relative: false },
            InputEvent::PointerButton { pressed, at, popups, under } => {
                if pressed {
                    let forward = self.pointer_pressed(at, &popups, under);
                    if !forward {
                        return SeatCall::Nothing;
                    }
                }
                SeatCall::Button
            },
            InputEvent::PointerAxis { horizontal, vertical } => SeatCall::Axis {
                horizontal,
                vertical,
            },
            InputEvent::Touch { has_touch, kind } => {
                if has_touch {
                    SeatCall::Touch(kind)
                } else {
                    SeatCall::Nothing
                }
            },
            InputEvent::SwipeBegin { fingers: n } => {
                *fingers = Some(n);
                SeatCall::Nothing
            },
            InputEvent::SwipeUpdate => SeatCall::Nothing,
            InputEvent::SwipeEnd { travel, cancelled } => {
                if let Some(n) = *fingers {
                    self.swipe_ended(n, travel, cancelled);
                }
                *fingers = None;
                SeatCall::Nothing
            },
            InputEvent::TabletProximity { entering, has_surface } => {
                if !entering {
                    SeatCall::ProximityOut
                } else if has_surface {
                    SeatCall::ProximityIn
                } else {
                    SeatCall::Nothing
                }
            },
            InputEvent::TabletAxis { has_tablet, has_tool } => {
                if has_tablet && has_tool {
                    SeatCall::ToolMotion
                } else {
                    SeatCall::Nothing
                }
            },
            InputEvent::TabletTip { has_tablet, has_tool, down } => {
                if !(has_tablet && has_tool) {
                    SeatCall::Nothing
                } else if down {
                    SeatCall::TipDown
                } else {
                    SeatCall::TipUp
                }
            },
            InputEvent::TabletButton { has_tool } => {
                if has_tool {
                    SeatCall::ToolButton
                } else {
                    SeatCall::Nothing
                }
            },
            InputEvent::Other => SeatCall::Nothing,
        }
    }
}

/// A press on a bar does not reach the client under it.
pub proof fn law_bars_take_their_clicks(
    d: Desk,
    at: Point,
    popups: Vec<Popup>,
    under: Under,
    call: SeatCall,
)
    requires
        hit(all_bars(d.dismissed(popups@, at)), at) is Some,
        leads_to(d, InputEvent::PointerButton { pressed: true, at, popups, under }, call),
    ensures
        call is Nothing,
{
}

/// The release of a button changes nothing, and the client gets it.
pub proof fn law_releases_reach_the_client(
    d: Desk,
    fingers: Option<u32>,
    at: Point,
    popups: Vec<Popup>,
    under: Under,
    call: SeatCall,
)
    requires
        leads_to(d, InputEvent::PointerButton { pressed: false, at, popups, under }, call),
    ensures
        call is Button,
        after(d, fingers, InputEvent::PointerButton { pressed: false, at, popups, under }) == d,
{
}

} // verus!
