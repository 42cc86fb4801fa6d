//! Remote-desktop sessions, and the input that their clients emulate.
use vstd::prelude::*;

use crate::paths::{join_path, joined};
use crate::text::{join3, text_eq};

verus! {

/// The devices that a session asked for: one for the keyboard, two for the pointer,
/// four for the touch screen.
#[derive(Debug, Clone, Copy, PartialEq, Eq, Structural)]
pub struct Session {
    pub devices: u32,
}

/// The table of sessions that a list stands for; later entries win.
pub open spec fn sessions_of(s: Seq<(String, Session)>) -> Map<Seq<char>, Session>
    decreases s.len(),
{
    if s.len() == 0 {
        Map::empty()
    } else {
        sessions_of(s.drop_last()).insert(s.last().0@, s.last().1)
    }
}

/// The sessions, by name.
#[derive(Debug)]
pub struct PortalState {
    pub sessions: Vec<(String, Session)>,
}

impl View for PortalState {
    type V = Map<Seq<char>, Session>;

    open spec fn view(&self) -> Map<Seq<char>, Session> {
        sessions_of(self.sessions@)
    }
}

/// The response to every request: it is granted.
pub const GRANTED: u32 = 0;

proof fn lemma_no_session(s: Seq<(String, Session)>, name: Seq<char>)
    requires
        forall|k: int| 0 <= k < s.len() ==> (#[trigger] s[k]).0@ != name,
    ensures
        !sessions_of(s).contains_key(name),
    decreases s.len(),
{
    if s.len() > 0 {
        let t = s.drop_last();
        assert forall|k: int| 0 <= k < t.len() implies (#[trigger] t[k]).0@ != name by {
            assert(t[k] == s[k]);
        }
        lemma_no_session(t, name);
    }
}

/// Overwriting the last entry of a name overwrites the session of that name.
proof fn lemma_last_entry(s: Seq<(String, Session)>, i: int, name: String, v: Session)
    requires
        0 <= i < s.len(),
        s[i].0@ == name@,
        forall|k: int| i < k < s.len() ==> (#[trigger] s[k]).0@ != name@,
    ensures
        sessions_of(s).contains_key(name@),
        sessions_of(s.update(i, (name, v))) == sessions_of(s).insert(name@, v),
    decreases s.len(),
{
    let u = s.update(i, (name, v));
    let t = s.drop_last();
    if i == s.len() - 1 {
        assert(u.drop_last() =~= t);
        assert(sessions_of(u) =~= sessions_of(s).insert(name@, v));
    } else {
        assert(u.drop_last() =~= t.update(i, (name, v)));
        assert(u.last() == s.last());
        assert forall|k: int| i < k < t.len() implies (#[trigger] t[k]).0@ != name@ by {
            assert(t[k] == s[k]);
        }
        lemma_last_entry(t, i, name, v);
        assert(s.last().0@ != name@) by {
            assert(s[s.len() - 1].0@ != name@);
        }
        assert(sessions_of(u) =~= sessions_of(s).insert(name@, v));
    }
}

/// The devices that are noted for what a session asked.
pub open spec fn devices_of(types: Option<u32>) -> u32 {
    match types {
        Some(d) => d,
        None => 0,
    }
}

impl PortalState {
    pub fn new() -> (r: PortalState)
        ensures
            r@ == Map::<Seq<char>, Session>::empty(),
    {
        PortalState { sessions: Vec::new() }
    }

    fn find(&self, session: &str) -> (r: Option<usize>)
        ensures
            match r {
                Some(i) => i < self.sessions.len() && self.sessions@[i as int].0@ == session@
                    && forall|k: int|
                    i < k < self.sessions.len() ==> (#[trigger] self.sessions@[k]).0@ != session@,
                None => !self@.contains_key(session@),
            },
    {
        let mut i: usize = self.sessions.len();
        while i > 0
            invariant
                i <= self.sessions.len(),
                forall|k: int|
                    i <= k < self.sessions.len() ==> (#[trigger] self.sessions@[k]).0@ != session@,
            decreases i,
        {
            i = i - 1;
            if text_eq(self.sessions[i].0.as_str(), session) {
                return Some(i);
            }
        }
        proof {
            lemma_no_session(self.sessions@, session@);
        }
        None
    }

    /// Opens a session, without any devices.
    pub fn create_session(&mut self, session: String) -> (r: u32)
        ensures
            final(self)@ == old(self)@.insert(session@, Session { devices: 0 }),
            r == GRANTED,
    {
        match self.find(session.as_str()) {
            Some(i) => {
                proof {
                    lemma_last_entry(
                        self.sessions@,
                        i as int,
                        session,
                        Session { devices: 0 },
                    );
                }
                self.sessions[i] = (session, Session { devices: 0 });
            },
            None => {
                self.sessions.push((session, Session { devices: 0 }));
                assert(self.sessions@.drop_last() =~= old(self).sessions@);
            },
        }
        GRANTED
    }

    /// Notes the devices that a session asks for. One that was never opened is not
    /// noted.
    pub fn select_devices(&mut self, session: String, types: Option<u32>) -> (r: u32)
        ensures
            final(self)@ == (if old(self)@.contains_key(session@) {
                old(self)@.insert(session@, Session { devices: devices_of(types) })
            } else {
                old(self)@
            }),
            r == GRANTED,
    {
        let devices: u32 = match types {
            Some(d) => d,
            None => 0,
        };
        if let Some(i) = self.find(session.as_str()) {
            proof {
                lemma_last_entry(self.sessions@, i as int, session, Session { devices });
            }
            self.sessions[i] = (session, Session { devices });
        }
        GRANTED
    }

    /// Starts a session; nothing is left to decide.
    pub fn start(&self) -> (r: u32)
        ensures
            r == GRANTED,
    {
        GRANTED
    }
}

/// The text of the failure to reach the socket of the emulated input.
pub fn connect_failure(path: &str, reason: &str) -> (r: String)
    ensures
        r@ == "failed to connect to internal EIS socket at "@ + path@ + (": "@ + reason@),
{
    let tail = crate::text::join2(": ", reason);
    join3("failed to connect to internal EIS socket at ", path, tail.as_str())
}

/// Where the socket of the emulated input stands.
pub fn eis_socket_path(runtime_dir: Option<&str>) -> (r: String)
    ensures
        r@ == joined(
            match runtime_dir {
                Some(d) => d@,
                None => "/tmp"@,
            },
            "eis-blue"@,
        ),
{
    let dir = match runtime_dir {
        Some(d) => d,
        None => "/tmp",
    };
    join_path(dir, "eis-blue")
}

/// What a client of the emulated input asks for. Distances are not part of it.
#[derive(Debug, Clone, Copy, PartialEq, Eq, Structural)]
pub enum EisRequest {
    Disconnect,
    DeviceClosed,
    PointerMotion,
    PointerMotionAbsolute,
    Button { button: u32, pressed: bool },
    ScrollDelta,
    ScrollDiscrete { dx: i32, dy: i32 },
    ScrollStop { x: bool, y: bool },
    ScrollCancel { x: bool, y: bool },
    KeyboardKey { key: u32, pressed: bool },
    Other,
}

/// Which devices of the seat there are.
#[derive(Debug, Clone, Copy, PartialEq, Eq, Structural)]
pub struct SeatDevices {
    pub pointer: bool,
    pub keyboard: bool,
}

/// What is passed on to the seat.
#[derive(Debug, Clone, Copy, PartialEq, Eq, Structural)]
pub enum EisAction {
    Nothing,
    /// Move the pointer, within the bounds of the output.
    MoveBy,
    MoveTo,
    Button { button: u32, pressed: bool },
    Scroll,
    /// Scroll as a wheel does.
    WheelScroll { dx: i32, dy: i32 },
    StopScroll { x: bool, y: bool },
    /// Always to the focused client: the shortcuts of the session are not for it.
    Key { key: u32, pressed: bool },
}

pub open spec fn routed(request: EisRequest, seat: SeatDevices) -> EisAction {
    match request {
        EisRequest::Disconnect | EisRequest::DeviceClosed | EisRequest::Other => EisAction::Nothing,
        EisRequest::PointerMotion => EisAction::MoveBy,
        EisRequest::PointerMotionAbsolute => EisAction::MoveTo,
        EisRequest::KeyboardKey { key, pressed } => if seat.keyboard {
            EisAction::Key { key, pressed }
        } else {
            EisAction::Nothing
        },
        EisRequest::Button { button, pressed } => if seat.pointer {
            EisAction::Button { button, pressed }
        } else {
            EisAction::Nothing
        },
        EisRequest::ScrollDelta => if seat.pointer {
            EisAction::Scroll
        } else {
            EisAction::Nothing
        },
        EisRequest::ScrollDiscrete { dx, dy } => if seat.pointer {
            EisAction::WheelScroll { dx, dy }
        } else {
            EisAction::Nothing
        },
        EisRequest::ScrollStop { x, y } => if seat.pointer {
            EisAction::StopScroll { x, y }
        } else {
            EisAction::Nothing
        },
        EisRequest::ScrollCancel { x, y } => if seat.pointer {
            EisAction::StopScroll { x, y }
        } else {
            EisAction::Nothing
        },
    }
}

/// What becomes of a request for emulated input.
pub fn handle_request(request: EisRequest, seat: SeatDevices) -> (r: EisAction)
    ensures
        r == routed(request, seat),
{
    match request {
        EisRequest::Disconnect | EisRequest::DeviceClosed | EisRequest::Other => EisAction::Nothing,
        EisRequest::PointerMotion => EisAction::MoveBy,
        EisRequest::PointerMotionAbsolute => EisAction::MoveTo,
        EisRequest::KeyboardKey { key, pressed } => {
            if seat.keyboard {
                EisAction::Key { key, pressed }
            } else {
                EisAction::Nothing
            }
        },
        other => {
            if !seat.pointer {
                return EisAction::Nothing;
            }
            match other {
                EisRequest::Button { button, pressed } => EisAction::Button { button, pressed },
                EisRequest::ScrollDelta => EisAction::Scroll,
                EisRequest::ScrollDiscrete { dx, dy } => EisAction::WheelScroll { dx, dy },
                EisRequest::ScrollStop { x, y } => EisAction::StopScroll { x, y },
                EisRequest::ScrollCancel { x, y } => EisAction::StopScroll { x, y },
                _ => EisAction::Nothing,
            }
        },
    }
}

} // verus!
