//! What clients ask for their windows, by surface.
use vstd::prelude::*;

use crate::desk::{or_else, Desk};
use crate::geometry::{Point, Rectangle, Size};
use crate::hwde::HwdeState;
use crate::space::location_in;
use crate::window::{find_surface, surface_position};

verus! {

/// The geometry of an X11 window after its client asked for another one: what it asks
/// for holds, the rest stays.
pub open spec fn requested_geometry(
    geo: Rectangle,
    x: Option<i32>,
    y: Option<i32>,
    w: Option<u32>,
    h: Option<u32>,
) -> Rectangle {
    Rectangle {
        loc: Point {
            x: match x {
                Some(x) => x,
                None => geo.loc.x,
            },
            y: match y {
                Some(y) => y,
                None => geo.loc.y,
            },
        },
        size: Size {
            w: match w {
                Some(w) => w as i32,
                None => geo.size.w,
            },
            h: match h {
                Some(h) => h as i32,
                None => geo.size.h,
            },
        },
    }
}

pub fn configure_request(
    geo: Rectangle,
    x: Option<i32>,
    y: Option<i32>,
    w: Option<u32>,
    h: Option<u32>,
) -> (r: Rectangle)
    ensures
        r == requested_geometry(geo, x, y, w, h),
{
    let mut r = geo;
    if let Some(w) = w {
        r.size.w = w as i32;
    }
    if let Some(h) = h {
        r.size.h = h as i32;
    }
    if let Some(x) = x {
        r.loc.x = x;
    }
    if let Some(y) = y {
        r.loc.y = y;
    }
    r
}

/// The start of a move: the window and the place that the move goes by.
#[derive(Debug, Clone, Copy, PartialEq, Eq, Structural)]
pub struct MoveStart {
    pub window: u64,
    pub location: Point,
}

/// The start of a resize.
#[derive(Debug, Clone, Copy, PartialEq, Eq, Structural)]
pub struct ResizeStart {
    pub window: u64,
    pub location: Point,
    pub size: Size,
}

/// Where the move of an X11 window starts: a maximized one is taken from under the
/// pointer. Also tells whether the client is told that it is not maximized any more.
pub fn x11_move_start(location: Option<Point>, maximized: bool, pointer: Point) -> (r: (
    Point,
    bool,
))
    ensures
        r.0 == (if maximized {
            pointer
        } else {
            or_else(location, Point { x: 0, y: 0 })
        }),
        r.1 == maximized,
{
    if maximized {
        return (pointer, true);
    }
    match location {
        Some(p) => (p, false),
        None => (Point { x: 0, y: 0 }, false),
    }
}

impl Desk {
    /// Whether a surface belongs to a managed window.
    pub open spec fn has_surface(self, surface: u64) -> bool {
        surface_position(self.windows, surface) < self.windows.len()
    }

    pub open spec fn id_of_surface(self, surface: u64) -> u64 {
        self.windows[surface_position(self.windows, surface) as int].id
    }

    pub open spec fn window_of_surface(self, surface: u64) -> u64 {
        self.windows[surface_position(self.windows, surface) as int].window
    }

    pub open spec fn surface_maximized(self, surface: u64, on: bool) -> Desk {
        if self.has_surface(surface) {
            self.maximized(self.id_of_surface(surface), on, self.primary_output())
        } else {
            self
        }
    }

    pub open spec fn place_of_surface(self, surface: u64) -> Point {
        or_else(
            location_in(self.space, self.window_of_surface(surface)),
            Point { x: 0, y: 0 },
        )
    }
}

impl HwdeState {
    /// A client wants its window maximized, or not any more. Returns whether the
    /// window is managed; the client of any other is only told its state again.
    pub fn maximize_request(&mut self, surface: u64, maximized: bool) -> (r: bool)
        ensures
            r == old(self)@.has_surface(surface),
            final(self)@ == old(self)@.surface_maximized(surface, maximized),
    {
        match self.window_id_for_surface(surface) {
            Some(id) => {
                let area = self.primary_output_geometry();
                self.maximize_window_by_id(id, maximized, area);
                true
            },
            None => false,
        }
    }

    /// A client wants its window to fill the screen, or not any more. Returns whether
    /// the window is managed.
    pub fn fullscreen_request(&mut self, surface: u64, fullscreen: bool) -> (r: bool)
        ensures
            r == old(self)@.has_surface(surface),
            final(self)@ == (if old(self)@.has_surface(surface) {
                old(self)@.fullscreened(
                    old(self)@.id_of_surface(surface),
                    fullscreen,
                    old(self)@.primary_output(),
                )
            } else {
                old(self)@
            }),
    {
        match self.window_id_for_surface(surface) {
            Some(id) => {
                let area = self.primary_output_geometry();
                self.fullscreen_window_by_id(id, fullscreen, area);
                true
            },
            None => false,
        }
    }

    /// A client wants its window minimized, or not any more.
    pub fn minimize_request(&mut self, surface: u64, minimized: bool)
        ensures
            final(self)@ == (if !old(self)@.has_surface(surface) {
                old(self)@
            } else if minimized {
                old(self)@.minimized(old(self)@.id_of_surface(surface))
            } else {
                old(self)@.focus(old(self)@.id_of_surface(surface))
            }),
    {
        if let Some(id) = self.window_id_for_surface(surface) {
            if minimized {
                self.minimize_window_by_id(id);
            } else {
                self.unminimize_window_by_id(id);
            }
        }
    }

    /// A client wants its window to be moved with the pointer, which has to be over a
    /// surface of that client. The window is not maximized any more; the move goes by
    /// the place that it had.
    pub fn move_request(&mut self, surface: u64, same_client: bool) -> (r: Option<MoveStart>)
        ensures
            !(same_client && old(self)@.has_surface(surface)) ==> r is None && final(self)@ == old(
                self,
            )@,
            same_client && old(self)@.has_surface(surface) ==> r == Some(
                MoveStart {
                    window: old(self)@.window_of_surface(surface),
                    location: old(self)@.place_of_surface(surface),
                },
            ) && final(self)@ == old(self)@.surface_maximized(surface, false),
    {
        if !same_client {
            return None;
        }
        match find_surface(&self.windows, surface) {
            Some(i) => {
                let window: u64 = self.windows[i].window;
                let location = match self.space.element_location(window) {
                    Some(p) => p,
                    None => Point { x: 0, y: 0 },
                };
                self.maximize_request(surface, false);
                Some(MoveStart { window, location })
            },
            None => None,
        }
    }

    /// A client wants its window to be resized with the pointer, which has to be over
    /// a surface of that client.
    pub fn resize_request(&self, surface: u64, same_client: bool) -> (r: Option<ResizeStart>)
        ensures
            r == (if same_client && self@.has_surface(surface) {
                Some(
                    ResizeStart {
                        window: self@.window_of_surface(surface),
                        location: self@.place_of_surface(surface),
                        size: self@.windows[surface_position(
                            self@.windows,
                            surface,
                        ) as int].size,
                    },
                )
            } else {
                None
            }),
    {
        if !same_client {
            return None;
        }
        match find_surface(&self.windows, surface) {
            Some(i) => {
                let w = &self.windows[i];
                let location = match self.space.element_location(w.window) {
                    Some(p) => p,
                    None => Point { x: 0, y: 0 },
                };
                Some(ResizeStart { window: w.window, location, size: w.size })
            },
            None => None,
        }
    }

    /// An X11 window that places itself, such as a menu, appeared. It is shown where
    /// it wants to be, and is not managed.
    pub fn mapped_override_redirect_window(&mut self, window: u64, location: Point)
        ensures
            final(self)@ == old(self)@.show(window, location, true),
    {
        self.show(window, location, true);
    }

    /// An X11 window disappeared; if it was shown, it is not any more. Returns whether
    /// its client is told so: one that places itself is not.
    pub fn unmapped_window(&mut self, window: u64, override_redirect: bool) -> (r: bool)
        ensures
            final(self)@ == (if location_in(old(self)@.space, window) is Some {
                old(self)@.conceal(window)
            } else {
                old(self)@
            }),
            r == !override_redirect,
    {
        if self.space.element_location(window).is_some() {
            self.conceal(window);
        }
        !override_redirect
    }

    /// An X11 window that is shown was given another geometry: it is shown there.
    pub fn configure_notify(&mut self, window: u64, geometry: Rectangle)
        ensures
            final(self)@ == (if location_in(old(self)@.space, window) is Some {
                old(self)@.show(window, geometry.loc, false)
            } else {
                old(self)@
            }),
    {
        if self.space.element_location(window).is_some() {
            self.show(window, geometry.loc, false);
        }
    }
}

} // verus!
