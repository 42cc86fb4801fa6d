//! The windows that the compositor manages, and what it asks of its surroundings.
use vstd::prelude::*;

use crate::geometry::{Point, Rectangle, Size};

verus! {

/// A managed window. `window` is the handle under which it stands in the space,
/// `surface` that of its surface; title, application id and size are what the client
/// last reported.
#[derive(Debug)]
pub struct ManagedWindow {
    pub id: u64,
    pub window: u64,
    pub surface: Option<u64>,
    pub title: String,
    pub app_id: String,
    /// The process of the client, where it is known.
    pub pid: Option<i32>,
    pub is_x11: bool,
    pub size: Size,
    pub is_minimized: bool,
    pub is_maximized: bool,
    pub is_fullscreen: bool,
    pub is_ssd: bool,
    pub saved_geometry: Option<Rectangle>,
    /// The geometry to return to from filling the screen.
    pub windowed_geometry: Option<Rectangle>,
    pub workspace: u32,
    pub saved_workspace_location: Option<Point>,
}

/// What a client's window is made of when it first appears.
#[derive(Debug)]
pub struct NewWindow {
    pub window: u64,
    pub surface: Option<u64>,
    pub title: String,
    pub app_id: String,
    pub pid: Option<i32>,
    pub is_x11: bool,
    pub size: Size,
}

/// The window that is managed for a new client window.
pub open spec fn managed(id: u64, new: NewWindow, workspace: u32) -> ManagedWindow {
    ManagedWindow {
        id,
        window: new.window,
        surface: new.surface,
        title: new.title,
        app_id: new.app_id,
        pid: new.pid,
        is_x11: new.is_x11,
        size: new.size,
        is_minimized: false,
        is_maximized: false,
        is_fullscreen: false,
        is_ssd: false,
        saved_geometry: None,
        windowed_geometry: None,
        workspace,
        saved_workspace_location: None,
    }
}

/// Something the compositor asks of the display server.
#[derive(Debug, Clone, Copy, PartialEq, Eq, Structural)]
pub enum Effect {
    /// Show a window at a place, above all others.
    Show { window: u64, location: Point, activate: bool },
    /// Stop showing a window.
    Hide { window: u64 },
    /// Put a window above all others.
    Raise { window: u64, activate: bool },
    /// Tell a Wayland client its size.
    Configure { window: u64, size: Size },
    /// Tell an X11 client its place and size.
    ConfigureX11 { window: u64, geometry: Rectangle },
    /// Tell a Wayland client whether it is maximized, and its size.
    Maximize { window: u64, maximized: bool, size: Size },
    /// Tell an X11 client whether it is maximized, and its place and size.
    MaximizeX11 { window: u64, maximized: bool, geometry: Rectangle },
    /// Tell a Wayland client whether it fills the screen, and its size.
    Fullscreen { window: u64, fullscreen: bool, size: Size },
    /// Tell an X11 client whether it fills the screen, and its place and size.
    FullscreenX11 { window: u64, fullscreen: bool, geometry: Rectangle },
    /// Ask a client to close its window.
    Close { window: u64 },
    /// Give the keyboard to a surface.
    Focus { surface: u64 },
    /// Give the keyboard the layout of the settings.
    SetKeyboardLayout,
    /// Tell a popup that it is done.
    DismissPopup { popup: u64 },
    /// Begin to move a window with the pointer.
    StartMove { window: u64, location: Point },
}

/// The index of the first window with an id, or the number of windows.
pub open spec fn position(s: Seq<ManagedWindow>, id: u64) -> nat
    decreases s.len(),
{
    if s.len() == 0 || s[0].id == id {
        0
    } else {
        1 + position(s.skip(1), id)
    }
}

pub proof fn lemma_position(s: Seq<ManagedWindow>, id: u64)
    ensures
        position(s, id) <= s.len(),
        position(s, id) < s.len() ==> s[position(s, id) as int].id == id,
        forall|i: int| 0 <= i < position(s, id) ==> (#[trigger] s[i]).id != id,
    decreases s.len(),
{
    if s.len() > 0 && s[0].id != id {
        let t = s.skip(1);
        lemma_position(t, id);
        assert forall|i: int| 0 <= i < position(s, id) implies (#[trigger] s[i]).id != id by {
            if i > 0 {
                assert(t[i - 1] == s[i]);
            }
        }
    }
}

pub proof fn lemma_position_is(s: Seq<ManagedWindow>, id: u64, n: int)
    requires
        0 <= n <= s.len(),
        n < s.len() ==> s[n].id == id,
        forall|i: int| 0 <= i < n ==> (#[trigger] s[i]).id != id,
    ensures
        position(s, id) == n,
{
    lemma_position(s, id);
    let k = position(s, id) as int;
    if k < n {
        assert(s[k].id != id);
    } else if n < k {
        assert(s[n].id != id);
    }
}

pub fn find_window(windows: &Vec<ManagedWindow>, id: u64) -> (r: Option<usize>)
    ensures
        match r {
            Some(i) => i < windows.len() && i == position(windows@, id) && windows@[i as int].id
                == id,
            None => position(windows@, id) == windows.len(),
        },
{
    let mut i: usize = 0;
    while i < windows.len()
        invariant
            i <= windows.len(),
            forall|k: int| 0 <= k < i ==> (#[trigger] windows@[k]).id != id,
        decreases windows.len() - i,
    {
        if windows[i].id == id {
            proof {
                lemma_position_is(windows@, id, i as int);
            }
            return Some(i);
        }
        i = i + 1;
    }
    proof {
        lemma_position_is(windows@, id, i as int);
    }
    None
}

/// The index of the first window with a surface, or the number of windows.
pub open spec fn surface_position(s: Seq<ManagedWindow>, surface: u64) -> nat
    decreases s.len(),
{
    if s.len() == 0 || s[0].surface == Some(surface) {
        0
    } else {
        1 + surface_position(s.skip(1), surface)
    }
}

pub proof fn lemma_surface_position_is(s: Seq<ManagedWindow>, surface: u64, n: int)
    requires
        0 <= n <= s.len(),
        n < s.len() ==> s[n].surface == Some(surface),
        forall|i: int| 0 <= i < n ==> (#[trigger] s[i]).surface != Some(surface),
    ensures
        surface_position(s, surface) == n,
    decreases n,
{
    if n > 0 {
        let t = s.skip(1);
        assert(s[0].surface != Some(surface));
        assert forall|i: int| 0 <= i < n - 1 implies (#[trigger] t[i]).surface != Some(
            surface,
        ) by {
            assert(t[i] == s[i + 1]);
        }
        lemma_surface_position_is(t, surface, n - 1);
    }
}

pub fn find_surface(windows: &Vec<ManagedWindow>, surface: u64) -> (r: Option<usize>)
    ensures
        match r {
            Some(i) => i < windows.len() && i == surface_position(windows@, surface),
            None => surface_position(windows@, surface) == windows.len(),
        },
{
    let mut i: usize = 0;
    while i < windows.len()
        invariant
            i <= windows.len(),
            forall|k: int| 0 <= k < i ==> (#[trigger] windows@[k]).surface != Some(surface),
        decreases windows.len() - i,
    {
        if let Some(s) = windows[i].surface {
            if s == surface {
                proof {
                    lemma_surface_position_is(windows@, surface, i as int);
                }
                return Some(i);
            }
        }
        i = i + 1;
    }
    proof {
        lemma_surface_position_is(windows@, surface, i as int);
    }
    None
}

/// The first index at which a number stands in a list, or the list's length.
pub open spec fn rank(ids: Seq<u64>, id: u64) -> nat
    decreases ids.len(),
{
    if ids.len() == 0 || ids[0] == id {
        0
    } else {
        1 + rank(ids.skip(1), id)
    }
}

pub proof fn lemma_rank_is(ids: Seq<u64>, id: u64, n: int)
    requires
        0 <= n <= ids.len(),
        n < ids.len() ==> ids[n] == id,
        forall|i: int| 0 <= i < n ==> (#[trigger] ids[i]) != id,
    ensures
        rank(ids, id) == n,
    decreases n,
{
    if n > 0 {
        let t = ids.skip(1);
        assert(ids[0] != id);
        assert forall|i: int| 0 <= i < n - 1 implies (#[trigger] t[i]) != id by {
            assert(t[i] == ids[i + 1]);
        }
        lemma_rank_is(t, id, n - 1);
    }
}

pub fn find_rank(ids: &Vec<u64>, id: u64) -> (r: usize)
    ensures
        r == rank(ids@, id),
        r <= ids.len(),
        r < ids.len() ==> ids@[r as int] == id,
{
    let mut i: usize = 0;
    while i < ids.len() && ids[i] != id
        invariant
            i <= ids.len(),
            forall|k: int| 0 <= k < i ==> (#[trigger] ids@[k]) != id,
        decreases ids.len() - i,
    {
        i = i + 1;
    }
    proof {
        lemma_rank_is(ids@, id, i as int);
    }
    i
}

} // verus!
