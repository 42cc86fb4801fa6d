//! What a session is made of when it starts.
use vstd::prelude::*;

use crate::paths::{join_path, joined};
use crate::text::{join2, join3, text_eq};

verus! {

/// What the session runs on.
#[derive(Debug, Clone, Copy, PartialEq, Eq, Structural)]
pub enum Backend {
    /// In a window of another session.
    Nested,
    /// On the hardware itself.
    Hardware,
}

/// What a session runs on: in a window where there is a display, be it Wayland or X11.
pub fn choose_backend(has_wayland: bool, has_x11: bool) -> (r: Backend)
    ensures
        r == (if has_wayland || has_x11 {
            Backend::Nested
        } else {
            Backend::Hardware
        }),
{
    if has_wayland || has_x11 {
        Backend::Nested
    } else {
        Backend::Hardware
    }
}

/// By what the session gets at the devices of its seat.
#[derive(Debug, Clone, Copy, PartialEq, Eq, Structural)]
pub enum SeatAccess {
    Logind,
    Seatd,
    /// There is systemd, but neither a session of it nor seatd.
    NoSession,
    /// There is neither systemd nor, so far, seatd.
    NeedsSeatd,
}

pub fn seat_access(has_systemd: bool, has_session_id: bool, has_seatd: bool) -> (r: SeatAccess)
    ensures
        r == (if has_systemd && has_session_id {
            SeatAccess::Logind
        } else if has_seatd {
            SeatAccess::Seatd
        } else if has_systemd {
            SeatAccess::NoSession
        } else {
            SeatAccess::NeedsSeatd
        }),
{
    if has_systemd && has_session_id {
        SeatAccess::Logind
    } else if has_seatd {
        SeatAccess::Seatd
    } else if has_systemd {
        SeatAccess::NoSession
    } else {
        SeatAccess::NeedsSeatd
    }
}

/// Where the log goes: to the system's place if that can be written to, and else below
/// the home directory.
pub fn log_dir(system_writable: bool, home: &str) -> (r: String)
    ensures
        r@ == (if system_writable {
            "/var/log/Blue-Environment"@
        } else {
            joined(home@, ".cache/Blue-Environment/compositor/logs"@)
        }),
{
    if system_writable {
        String::from_str("/var/log/Blue-Environment")
    } else {
        join_path(home, ".cache/Blue-Environment/compositor/logs")
    }
}

/// Where the entry of the session stands.
pub fn desktop_entry_path(home: &str) -> (r: String)
    ensures
        r@ == joined(home@, ".local/share/wayland-sessions/blue-environment.desktop"@),
{
    join_path(home, ".local/share/wayland-sessions/blue-environment.desktop")
}

/// The entry by which a login manager offers the session.
pub fn desktop_entry(executable: &str) -> (r: String)
    ensures
        r@
            == "[Desktop Entry]\nName=Blue Environment\nComment=Blue Wayland Compositor\nExec="@
            + executable@ + "\nType=Application\nCategories=System;\n"@,
{
    join3(
        "[Desktop Entry]\nName=Blue Environment\nComment=Blue Wayland Compositor\nExec=",
        executable,
        "\nType=Application\nCategories=System;\n",
    )
}

/// Which sockets and protocols a session serves.
#[derive(Debug, Clone, Copy, PartialEq, Eq, Structural)]
pub struct Services {
    /// The compositor's own control socket.
    pub control: bool,
    /// The control socket of HackerLand.
    pub hackerland: bool,
    /// The socket of an external shell.
    pub shell: bool,
    /// The list of windows for task bars.
    pub toplevels: bool,
}

/// The services of a session, on the hardware or in a window, by the name of the external
/// shell that it is for.
pub open spec fn services_of(shell: Option<Seq<char>>) -> Services {
    match shell {
        None => Services { control: true, hackerland: false, shell: false, toplevels: false },
        Some(name) => if name == "hackerland"@ {
            Services { control: false, hackerland: true, shell: false, toplevels: false }
        } else {
            Services {
                control: false,
                hackerland: false,
                shell: true,
                toplevels: name == "sde"@,
            }
        },
    }
}

pub fn services(shell: Option<&str>) -> (r: Services)
    ensures
        r == services_of(
            match shell {
                Some(s) => Some(s@),
                None => None,
            },
        ),
{
    match shell {
        None => Services { control: true, hackerland: false, shell: false, toplevels: false },
        Some(name) => {
            if text_eq(name, "hackerland") {
                proof {
                    reveal_strlit("hackerland");
                    reveal_strlit("sde");
                }
                Services { control: false, hackerland: true, shell: false, toplevels: false }
            } else {
                Services {
                    control: false,
                    hackerland: false,
                    shell: true,
                    toplevels: text_eq(name, "sde"),
                }
            }
        },
    }
}

/// A session serves one control socket.
pub proof fn law_one_socket_is_served(shell: Option<Seq<char>>)
    ensures
        ({
            let s = services_of(shell);
            &&& s.control || s.hackerland || s.shell
            &&& !(s.control && s.hackerland)
            &&& !(s.control && s.shell)
            &&& !(s.hackerland && s.shell)
            &&& s.toplevels ==> s.shell
        }),
{
}

/// The graphics card of a session: the one it was told, or the primary one of the
/// seat, or the first one there is.
pub fn choose_gpu(
    told: Option<String>,
    primary: Option<String>,
    first: Option<String>,
) -> (r: Option<String>)
    ensures
        r == (match told {
            Some(p) => Some(p),
            None => match primary {
                Some(p) => Some(p),
                None => first,
            },
        }),
{
    match told {
        Some(p) => Some(p),
        None => match primary {
            Some(p) => Some(p),
            None => first,
        },
    }
}

/// A text in upper case, as `str::to_uppercase` has it.
pub uninterp spec fn upper_case(s: Seq<char>) -> Seq<char>;

/// `str::to_uppercase`: every character is replaced by its upper-case form, by the
/// tables of Unicode. Not stated: what those forms are.
#[verifier::external_body]
fn to_uppercase(s: &str) -> (r: String)
    ensures
        r@ == upper_case(s@),
{
    s.to_uppercase()
}

/// The name and the make of the output of a session in a window.
#[derive(Debug)]
pub struct OutputIdentity {
    pub name: String,
    pub make: String,
}

/// The identity of the output for the upper-case name of the external shell, or for
/// none.
pub fn identity_of(upper: Option<&str>) -> (r: OutputIdentity)
    ensures
        match upper {
            Some(u) => r.name@ == u@ + "-1"@ && r.make@ == u@,
            None => r.name@ == "HWDE-1"@ && r.make@ == "HWDE"@,
        },
{
    match upper {
        Some(u) => OutputIdentity { name: join2(u, "-1"), make: String::from_str(u) },
        None => OutputIdentity {
            name: String::from_str("HWDE-1"),
            make: String::from_str("HWDE"),
        },
    }
}

/// The identity of the output for the name of the external shell, or for none.
pub fn output_identity(shell: Option<&str>) -> (r: OutputIdentity)
    ensures
        match shell {
            Some(s) => r.name@ == upper_case(s@) + "-1"@ && r.make@ == upper_case(s@),
            None => r.name@ == "HWDE-1"@ && r.make@ == "HWDE"@,
        },
{
    match shell {
        Some(s) => {
            let upper = to_uppercase(s);
            identity_of(Some(upper.as_str()))
        },
        None => identity_of(None),
    }
}

/// Whether the start of a session in a window is tried once more without the
/// hardware's renderer: unless it was told so already.
pub fn retries_in_software(failed: bool, already_software: bool) -> (r: bool)
    ensures
        r == (failed && !already_software),
{
    failed && !already_software
}

} // verus!
