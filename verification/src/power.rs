//! When the screen is blanked, dimmed and woken.
use vstd::prelude::*;

use crate::text::join3;

verus! {

/// What is to be done with the outputs.
#[derive(Debug, Clone, Copy, PartialEq, Eq, Structural)]
pub enum Screen {
    Keep,
    Blank,
    Wake,
}

/// Whether the session is idle, and whether its outputs are blanked. Times are in
/// nanoseconds.
#[derive(Debug, Clone, Copy, PartialEq, Eq, Structural)]
pub struct Power {
    pub is_idle: bool,
    pub dpms_blanked: bool,
    pub dpms_timeout: u128,
    /// How many surfaces keep the session from becoming idle.
    pub inhibitors: usize,
}

/// After how long the outputs are blanked: five minutes.
pub const DPMS_TIMEOUT: u128 = 300_000_000_000;

impl Default for Power {
    fn default() -> (r: Power)
        ensures
            r == (Power {
                is_idle: false,
                dpms_blanked: false,
                dpms_timeout: DPMS_TIMEOUT,
                inhibitors: 0,
            }),
    {
        Power {
            is_idle: false,
            dpms_blanked: false,
            dpms_timeout: DPMS_TIMEOUT,
            inhibitors: 0,
        }
    }
}

impl Power {
    /// The session once its idle timer has run out, and what becomes of the outputs.
    pub open spec fn timed_out(self) -> (Power, Screen) {
        if self.is_idle || self.inhibitors > 0 {
            (self, Screen::Keep)
        } else {
            (Power { is_idle: true, ..self }, Screen::Blank)
        }
    }

    /// The session once there has been no input for so long, and what becomes of the
    /// outputs.
    pub open spec fn watched(self, idle: u128) -> (Power, Screen) {
        let off = idle > self.dpms_timeout;
        (
            Power { dpms_blanked: off, ..self },
            if off == self.dpms_blanked {
                Screen::Keep
            } else if off {
                Screen::Blank
            } else {
                Screen::Wake
            },
        )
    }

    /// The session after an input, and what becomes of blanked outputs and of those of an
    /// idle session.
    pub open spec fn woken(self) -> (Power, (Screen, Screen)) {
        (
            Power { dpms_blanked: false, is_idle: false, ..self },
            (
                if self.dpms_blanked {
                    Screen::Wake
                } else {
                    Screen::Keep
                },
                if self.is_idle {
                    Screen::Wake
                } else {
                    Screen::Keep
                },
            ),
        )
    }

    /// Whether the idle timer runs at all.
    pub fn is_timed(&self) -> (r: bool)
        ensures
            r == (self.dpms_timeout != 0),
    {
        self.dpms_timeout != 0
    }

    pub fn is_idle_inhibited(&self) -> (r: bool)
        ensures
            r == (self.inhibitors > 0),
    {
        self.inhibitors > 0
    }

    /// The idle timer has run out. The session becomes idle unless it is already, or a
    /// client keeps it from that.
    pub fn on_idle(&mut self) -> (r: Screen)
        ensures
            (*final(self), r) == old(self).timed_out(),
            old(self).is_idle || old(self).inhibitors > 0 ==> *final(self) == *old(self) && r
                == Screen::Keep,
            !old(self).is_idle && old(self).inhibitors == 0 ==> *final(self) == (Power {
                is_idle: true,
                ..*old(self)
            }) && r == Screen::Blank,
    {
        if self.is_idle {
            return Screen::Keep;
        }
        if self.is_idle_inhibited() {
            return Screen::Keep;
        }
        self.is_idle = true;
        Screen::Blank
    }

    /// Something was typed or moved.
    pub fn reset_idle(&mut self) -> (r: Screen)
        ensures
            *final(self) == (Power { is_idle: false, ..*old(self) }),
            r == (if old(self).is_idle {
                Screen::Wake
            } else {
                Screen::Keep
            }),
    {
        if !self.is_idle {
            return Screen::Keep;
        }
        self.is_idle = false;
        Screen::Wake
    }

    /// Looks at how long there has been no input.
    pub fn handle_dpms(&mut self, idle: u128) -> (r: Screen)
        ensures
            (*final(self), r) == old(self).watched(idle),
            final(self).dpms_blanked == (idle > old(self).dpms_timeout),
            *final(self) == (Power { dpms_blanked: final(self).dpms_blanked, ..*old(self) }),
            r == (if final(self).dpms_blanked == old(self).dpms_blanked {
                Screen::Keep
            } else if final(self).dpms_blanked {
                Screen::Blank
            } else {
                Screen::Wake
            }),
    {
        if idle > self.dpms_timeout && !self.dpms_blanked {
            self.dpms_blanked = true;
            Screen::Blank
        } else if idle <= self.dpms_timeout && self.dpms_blanked {
            self.dpms_blanked = false;
            Screen::Wake
        } else {
            Screen::Keep
        }
    }

    /// An input: the outputs are woken, and the session is not idle any more. Returns
    /// what that means for blanked outputs and for an idle session.
    pub fn record_input(&mut self) -> (r: (Screen, Screen))
        ensures
            (*final(self), r) == old(self).woken(),
            *final(self) == (Power { dpms_blanked: false, is_idle: false, ..*old(self) }),
            r.0 == (if old(self).dpms_blanked {
                Screen::Wake
            } else {
                Screen::Keep
            }),
            r.1 == (if old(self).is_idle {
                Screen::Wake
            } else {
                Screen::Keep
            }),
    {
        let woken = if self.dpms_blanked {
            self.dpms_blanked = false;
            Screen::Wake
        } else {
            Screen::Keep
        };
        (woken, self.reset_idle())
    }
}

/// The shell command that turns an output off or on.
pub open spec fn output_command(name: Seq<char>, on: bool) -> Seq<char> {
    "wlr-randr --output "@ + name + (if on {
        " --on 2>/dev/null || xset dpms force on 2>/dev/null"@
    } else {
        " --off 2>/dev/null || xset dpms force off 2>/dev/null"@
    })
}

/// The shell command for an output, if there is something to be done.
pub fn command_for(screen: Screen, name: &str) -> (r: Option<String>)
    ensures
        match screen {
            Screen::Keep => r is None,
            Screen::Blank => r matches Some(s) && s@ == output_command(name@, false),
            Screen::Wake => r matches Some(s) && s@ == output_command(name@, true),
        },
{
    match screen {
        Screen::Keep => None,
        Screen::Blank => Some(
            join3(
                "wlr-randr --output ",
                name,
                " --off 2>/dev/null || xset dpms force off 2>/dev/null",
            ),
        ),
        Screen::Wake => Some(
            join3(
                "wlr-randr --output ",
                name,
                " --on 2>/dev/null || xset dpms force on 2>/dev/null",
            ),
        ),
    }
}

/// Whether the picture is dimmed: after so many seconds without input, if that is
/// wanted at all and no client keeps the session awake.
pub fn is_dimmed(timeout_secs: u32, inhibited: bool, elapsed_secs: u64) -> (r: bool)
    ensures
        r == (timeout_secs > 0 && !inhibited && elapsed_secs >= timeout_secs),
{
    timeout_secs > 0 && !inhibited && elapsed_secs >= timeout_secs as u64
}

/// An idle session is woken by an input: outputs that were blanked are woken exactly once,
/// and the session is then as it was before it became idle.
pub proof fn law_input_wakes_what_was_blanked(p: Power)
    requires
        !p.is_idle,
        !p.dpms_blanked,
    ensures
        p.inhibitors == 0 ==> p.timed_out().1 == Screen::Blank,
        p.inhibitors == 0 ==> p.timed_out().0.woken() == (p, (Screen::Keep, Screen::Wake)),
        p.timed_out().0.timed_out().1 == Screen::Keep,
        p.inhibitors > 0 ==> p.timed_out() == (p, Screen::Keep),
        p.woken() == (p, (Screen::Keep, Screen::Keep)),
{
}

/// The outputs are blanked once there was no input for longer than the timeout, not before,
/// and only once; an input, or a shorter time, wakes them.
pub proof fn law_outputs_are_blanked_after_the_timeout(p: Power, idle: u128, later: u128)
    requires
        !p.dpms_blanked,
        p.dpms_timeout < later,
    ensures
        idle <= p.dpms_timeout ==> p.watched(idle) == (p, Screen::Keep),
        p.watched(later).1 == Screen::Blank,
        p.watched(later).0.watched(later).1 == Screen::Keep,
        idle <= p.dpms_timeout ==> p.watched(later).0.watched(idle) == (p, Screen::Wake),
        p.watched(later).0.woken().1.0 == Screen::Wake,
        !p.watched(later).0.woken().0.dpms_blanked,
        p.watched(later).0.is_idle == p.is_idle,
        p.watched(later).0.inhibitors == p.inhibitors,
{
}

} // verus!
