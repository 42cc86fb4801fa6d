//! What becomes of each input event of the session.
use vstd::prelude::*;

use crate::blue::{same_rest, BlueState};
use crate::desktop::{Desktop, Request};
use crate::desktop_input::{choose_focus, swipe_counts, FocusChoice};
use crate::desktop_laws::{law_keys_keep_the_session_sound, law_pointers_keep_the_session_sound};
use crate::events::TouchKind;
use crate::grabs::Travel;
use crate::keybind::Modifiers;
use crate::power::{Power, Screen};

verus! {

/// An input event, as far as it decides on anything. Surfaces are those at the place
/// of the pointer, of the lock and of a client.
#[derive(Debug, Clone, Copy, PartialEq, Eq, Structural)]
pub enum SessionEvent {
    /// A key, and the surface that has the keyboard.
    Keyboard { mods: Modifiers, sym: u32, pressed: bool, focus: Option<u64> },
    PointerMotion,
    PointerMotionAbsolute,
    PointerButton {
        pressed: bool,
        locked: bool,
        lock_surface: Option<u64>,
        /// The window under the pointer.
        under: Option<u64>,
    },
    PointerAxis,
    Touch { has_touch: bool, kind: TouchKind },
    TabletAxis { has_tablet: bool, has_tool: bool },
    TabletProximity { entering: bool, has_tablet: bool, has_tool: bool, has_surface: bool },
    TabletTip {
        has_tool: bool,
        down: bool,
        locked: bool,
        lock_surface: Option<u64>,
        surface: Option<u64>,
    },
    TabletButton { has_tool: bool },
    SwipeBegin { fingers: u32 },
    SwipeUpdate,
    SwipeEnd { travel: Travel, cancelled: bool },
    DeviceAdded { is_tablet: bool },
    /// A device is gone, and so many other tablets are left.
    DeviceRemoved { is_tablet: bool, tablets_left: usize },
    Other,
}

/// What is done with the seat.
#[derive(Debug, Clone, Copy, PartialEq, Eq, Structural)]
pub enum SessionCall {
    Nothing,
    /// The client gets the key.
    Key,
    /// The pointer moves, by a distance or to a place.
    Motion { relative: bool },
    Button,
    Axis,
    Touch(TouchKind),
    /// The pointer follows the pen; the tool is told too, or not.
    PenMotion { tool: bool },
    /// The pointer follows the pen, which comes near a surface.
    PenNear,
    /// The pointer follows the pen, which goes away.
    PenAway,
    TipDown,
    TipUp,
    ToolButton,
    /// The distance is added to that of the swipe.
    Swipe,
    AddTablet,
    RemoveTablet { clear_tools: bool },
}

impl Desktop {
    /// The session after the tip of a pen went down: it gives the keyboard to the
    /// surface under it, and in a locked session to the lock only.
    pub open spec fn tipped(
        self,
        locked: bool,
        lock_surface: Option<u64>,
        surface: Option<u64>,
    ) -> Desktop {
        let target = if locked {
            lock_surface
        } else {
            surface
        };
        if target is Some {
            self.ask(Request::Focus { surface: target })
        } else {
            self
        }
    }

    /// The session after an event, while a swipe is going on or not.
    pub open spec fn experienced(self, swiping: bool, event: SessionEvent) -> Desktop {
        match event {
            SessionEvent::Keyboard { mods, sym, pressed, focus } => self.keyed(
                mods,
                sym,
                pressed,
                focus,
            ).0,
            SessionEvent::PointerButton { pressed, locked, lock_surface, under } => if pressed {
                self.clicked(locked, lock_surface, under)
            } else {
                self
            },
            SessionEvent::TabletTip { has_tool, down, locked, lock_surface, surface } => if has_tool
                && down {
                self.tipped(locked, lock_surface, surface)
            } else {
                self
            },
            SessionEvent::SwipeEnd { travel, cancelled } => if swiping {
                self.swiped(travel, cancelled)
            } else {
                self
            },
            _ => self,
        }
    }

    /// What is done with the seat after an event.
    pub open spec fn called(self, swiping: bool, event: SessionEvent) -> SessionCall {
        match event {
            SessionEvent::Keyboard { mods, sym, pressed, focus } => if self.keyed(
                mods,
                sym,
                pressed,
                focus,
            ).1 {
                SessionCall::Nothing
            } else {
                SessionCall::Key
            },
            SessionEvent::PointerMotion => SessionCall::Motion { relative: true },
            SessionEvent::PointerMotionAbsolute => SessionCall::Motion { relative: false },
            SessionEvent::PointerButton { .. } => SessionCall::Button,
            SessionEvent::PointerAxis => SessionCall::Axis,
            SessionEvent::Touch { has_touch, kind } => if has_touch {
                SessionCall::Touch(kind)
            } else {
                SessionCall::Nothing
            },
            SessionEvent::TabletAxis { has_tablet, has_tool } => SessionCall::PenMotion {
                tool: has_tablet && has_tool,
            },
            SessionEvent::TabletProximity { entering, has_tablet, has_tool, has_surface } => if !(
            has_tablet && has_tool && has_surface) {
                SessionCall::PenMotion { tool: false }
            } else if entering {
                SessionCall::PenNear
            } else {
                SessionCall::PenAway
            },
            SessionEvent::TabletTip { has_tool, down, .. } => if !has_tool {
                SessionCall::Nothing
            } else if down {
                SessionCall::TipDown
            } else {
                SessionCall::TipUp
            },
            SessionEvent::TabletButton { has_tool } => if has_tool {
                SessionCall::ToolButton
            } else {
                SessionCall::Nothing
            },
            SessionEvent::SwipeUpdate => if swiping {
                SessionCall::Swipe
            } else {
                SessionCall::Nothing
            },
            SessionEvent::DeviceAdded { is_tablet } => if is_tablet {
                SessionCall::AddTablet
            } else {
                SessionCall::Nothing
            },
            SessionEvent::DeviceRemoved { is_tablet, tablets_left } => if is_tablet {
                SessionCall::RemoveTablet { clear_tools: tablets_left == 0 }
            } else {
                SessionCall::Nothing
            },
            SessionEvent::SwipeBegin { .. } | SessionEvent::SwipeEnd { .. }
            | SessionEvent::Other => SessionCall::Nothing,
        }
    }
}

/// Whether a swipe is going on after an event.
pub open spec fn swiping_after(swiping: bool, event: SessionEvent) -> bool {
    match event {
        SessionEvent::SwipeBegin { fingers } => fingers >= 3,
        SessionEvent::SwipeEnd { .. } => false,
        _ => swiping,
    }
}

impl BlueState {
    fn tip_down(&mut self, locked: bool, lock_surface: Option<u64>, surface: Option<u64>)
        ensures
            final(self)@ == old(self)@.tipped(locked, lock_surface, surface),
            same_rest(*final(self), *old(self)),
    {
        match choose_focus(locked, lock_surface.is_some(), surface.is_some()) {
            FocusChoice::Lock => self.requests.push(Request::Focus { surface: lock_surface }),
            FocusChoice::Window => self.requests.push(Request::Focus { surface }),
            FocusChoice::Nobody => {},
        }
    }

    /// Takes an event. Every one of them ends what the session does when it is idle:
    /// the result also tells what becomes of the outputs that were blanked, and of
    /// those of an idle session.
    pub fn handle_input(
        &mut self,
        power: &mut Power,
        swiping: &mut bool,
        event: SessionEvent,
    ) -> (r: (SessionCall, (Screen, Screen)))
        requires
            old(self)@.sound(),
        ensures
            final(self)@ == old(self)@.experienced(*old(swiping), event),
            same_rest(*final(self), *old(self)),
            r.0 == old(self)@.called(*old(swiping), event),
            *final(swiping) == swiping_after(*old(swiping), event),
            *final(power) == (Power { dpms_blanked: false, is_idle: false, ..*old(power) }),
            r.1.0 == (if old(power).dpms_blanked {
                Screen::Wake
            } else {
                Screen::Keep
            }),
            r.1.1 == (if old(power).is_idle {
                Screen::Wake
            } else {
                Screen::Keep
            }),
    {
        let screens = power.record_input();
        let call = match event {
            SessionEvent::Keyboard { mods, sym, pressed, focus } => {
                if self.handle_keyboard(mods, sym, pressed, focus) {
                    SessionCall::Nothing
                } else {
                    SessionCall::Key
                }
            },
            SessionEvent::PointerMotion => SessionCall::Motion { relative: true },
            SessionEvent::PointerMotionAbsolute => SessionCall::Motion { relative: false },
            SessionEvent::PointerButton { pressed, locked, lock_surface, under } => {
                if pressed {
                    self.pointer_pressed(locked, lock_surface, under);
                }
                SessionCall::Button
            },
            SessionEvent::PointerAxis => SessionCall::Axis,
            SessionEvent::Touch { has_touch, kind } => {
                if has_touch {
                    SessionCall::Touch(kind)
                } else {
                    SessionCall::Nothing
                }
            },
            SessionEvent::TabletAxis { has_tablet, has_tool } => SessionCall::PenMotion {
                tool: has_tablet && has_tool,
            },
            SessionEvent::TabletProximity { entering, has_tablet, has_tool, has_surface } => {
                if !(has_tablet && has_tool && has_surface) {
                    SessionCall::PenMotion { tool: false }
                } else if entering {
                    SessionCall::PenNear
                } else {
                    SessionCall::PenAway
                }
            },
            SessionEvent::TabletTip { has_tool, down, locked, lock_surface, surface } => {
                if !has_tool {
                    SessionCall::Nothing
                } else if down {
                    self.tip_down(locked, lock_surface, surface);
                    SessionCall::TipDown
                } else {
                    SessionCall::TipUp
                }
            },
            SessionEvent::TabletButton { has_tool } => {
                if has_tool {
                    SessionCall::ToolButton
                } else {
                    SessionCall::Nothing
                }
            },
            SessionEvent::SwipeBegin { fingers } => {
                *swiping = swipe_counts(fingers);
                SessionCall::Nothing
            },
            SessionEvent::SwipeUpdate => {
                if *swiping {
                    SessionCall::Swipe
                } else {
                    SessionCall::Nothing
                }
            },
            SessionEvent::SwipeEnd { travel, cancelled } => {
                if *swiping {
                    self.swipe_ended(travel, cancelled);
                }
                *swiping = false;
                SessionCall::Nothing
            },
            SessionEvent::DeviceAdded { is_tablet } => {
                if is_tablet {
                    SessionCall::AddTablet
                } else {
                    SessionCall::Nothing
                }
            },
            SessionEvent::DeviceRemoved { is_tablet, tablets_left } => {
                if is_tablet {
                    SessionCall::RemoveTablet { clear_tools: tablets_left == 0 }
                } else {
                    SessionCall::Nothing
                }
            },
            SessionEvent::Other => SessionCall::Nothing,
        };
        (call, screens)
    }
}

/// No event makes the session unsound.
pub proof fn law_events_keep_the_session_sound(d: Desktop, swiping: bool, event: SessionEvent)
    requires
        d.sound(),
    ensures
        d.experienced(swiping, event).sound(),
{
    match event {
        SessionEvent::Keyboard { mods, sym, pressed, focus } => {
            law_keys_keep_the_session_sound(d, mods, sym, pressed, focus);
        },
        SessionEvent::PointerButton { pressed, locked, lock_surface, under } => {
            let still = Travel { floor: 0, ceil: 0 };
            law_pointers_keep_the_session_sound(d, locked, lock_surface, under, still, true);
        },
        SessionEvent::SwipeEnd { travel, cancelled } => {
            law_pointers_keep_the_session_sound(d, false, None, None, travel, cancelled);
        },
        _ => {},
    }
}

/// A pen in a locked session gives the keyboard to the lock, or to no one.
pub proof fn law_a_pen_does_not_unlock(
    d: Desktop,
    lock_surface: Option<u64>,
    surface: Option<u64>,
)
    ensures
        d.tipped(true, lock_surface, surface) == (if lock_surface is Some {
            d.ask(Request::Focus { surface: lock_surface })
        } else {
            d
        }),
{
}

} // verus!
