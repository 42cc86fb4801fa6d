//! Interactive moving and resizing of a window with the pointer.
use vstd::prelude::*;

use crate::geometry::{at_least, at_most, max_i32, min_i32, sat, sat_i64, Point, Rectangle, Size};

verus! {

/// The edges by which a window is resized, as the xdg-shell protocol numbers them:
/// top 1, bottom 2, left 4, right 8, and their sums.
#[derive(Debug, Clone, Copy, PartialEq, Eq, Structural)]
pub struct ResizeEdge {
    pub top: bool,
    pub bottom: bool,
    pub left: bool,
    pub right: bool,
}

/// The edges that a protocol number stands for; a number that is no sum of edges
/// stands for none.
pub open spec fn edges_of(bits: nat) -> ResizeEdge {
    if bits < 16 {
        ResizeEdge {
            top: bits % 2 == 1,
            bottom: (bits / 2) % 2 == 1,
            left: (bits / 4) % 2 == 1,
            right: bits / 8 == 1,
        }
    } else {
        ResizeEdge { top: false, bottom: false, left: false, right: false }
    }
}

/// An edge or corner as the X11 window manager names it.
#[derive(Debug, Clone, Copy, PartialEq, Eq, Structural)]
pub enum X11ResizeEdge {
    Top,
    Bottom,
    Left,
    Right,
    TopLeft,
    TopRight,
    BottomLeft,
    BottomRight,
}

pub open spec fn touches_top(e: X11ResizeEdge) -> bool {
    e is Top || e is TopLeft || e is TopRight
}

pub open spec fn touches_bottom(e: X11ResizeEdge) -> bool {
    e is Bottom || e is BottomLeft || e is BottomRight
}

pub open spec fn touches_left(e: X11ResizeEdge) -> bool {
    e is Left || e is TopLeft || e is BottomLeft
}

pub open spec fn touches_right(e: X11ResizeEdge) -> bool {
    e is Right || e is TopRight || e is BottomRight
}

impl ResizeEdge {
    pub fn empty() -> (r: ResizeEdge)
        ensures
            r == (ResizeEdge { top: false, bottom: false, left: false, right: false }),
    {
        ResizeEdge { top: false, bottom: false, left: false, right: false }
    }

    pub fn from_xdg(bits: u32) -> (r: ResizeEdge)
        ensures
            r == edges_of(bits as nat),
    {
        if bits < 16 {
            ResizeEdge {
                top: bits % 2 == 1,
                bottom: (bits / 2) % 2 == 1,
                left: (bits / 4) % 2 == 1,
                right: bits / 8 == 1,
            }
        } else {
            ResizeEdge::empty()
        }
    }

    pub fn from_x11(e: X11ResizeEdge) -> (r: ResizeEdge)
        ensures
            r.top == touches_top(e),
            r.bottom == touches_bottom(e),
            r.left == touches_left(e),
            r.right == touches_right(e),
    {
        let none = ResizeEdge::empty();
        match e {
            X11ResizeEdge::Top => ResizeEdge { top: true, ..none },
            X11ResizeEdge::Bottom => ResizeEdge { bottom: true, ..none },
            X11ResizeEdge::Left => ResizeEdge { left: true, ..none },
            X11ResizeEdge::Right => ResizeEdge { right: true, ..none },
            X11ResizeEdge::TopLeft => ResizeEdge { top: true, left: true, ..none },
            X11ResizeEdge::TopRight => ResizeEdge { top: true, right: true, ..none },
            X11ResizeEdge::BottomLeft => ResizeEdge { bottom: true, left: true, ..none },
            X11ResizeEdge::BottomRight => ResizeEdge { bottom: true, right: true, ..none },
        }
    }
}

/// How far the pointer has gone along one axis: the whole pixels just below and
/// just above the exact distance.
#[derive(Debug, Clone, Copy, PartialEq, Eq, Structural)]
pub struct Travel {
    pub floor: i32,
    pub ceil: i32,
}

/// The length of a window dragged at its near edge (left, top), at its far edge
/// (right, bottom), or at neither. The near edge wins where both are held.
pub open spec fn dragged(len: int, near: bool, far: bool, travel: Travel) -> int {
    if near {
        sat(len - travel.ceil)
    } else if far {
        sat(len + travel.floor)
    } else {
        len
    }
}

/// The length within the client's limits: at least one pixel, and no upper limit
/// where the client names none. Where the limits contradict, the upper one holds.
pub open spec fn limited(len: int, min: int, max: int) -> int {
    at_most(at_least(len, at_least(min, 1)), if max == 0 {
        i32::MAX as int
    } else {
        max
    })
}

/// A window's size after the pointer went `dx`, `dy` with these edges held.
pub open spec fn resized(
    edges: ResizeEdge,
    size: Size,
    dx: Travel,
    dy: Travel,
    min: Size,
    max: Size,
) -> Size {
    Size {
        w: limited(
            dragged(size.w as int, edges.left, edges.right, dx),
            min.w as int,
            max.w as int,
        ) as i32,
        h: limited(
            dragged(size.h as int, edges.top, edges.bottom, dy),
            min.h as int,
            max.h as int,
        ) as i32,
    }
}

fn drag(len: i32, near: bool, far: bool, travel: Travel) -> (r: i32)
    ensures
        r == dragged(len as int, near, far, travel),
{
    if near {
        sat_i64(len as i64 - travel.ceil as i64)
    } else if far {
        sat_i64(len as i64 + travel.floor as i64)
    } else {
        len
    }
}

fn limit(len: i32, min: i32, max: i32) -> (r: i32)
    ensures
        r == limited(len as int, min as int, max as int),
{
    let high: i32 = if max == 0 {
        i32::MAX
    } else {
        max
    };
    min_i32(max_i32(len, max_i32(min, 1)), high)
}

/// What a grab asks of the rest of the compositor.
#[derive(Debug, Clone, Copy, PartialEq, Eq, Structural)]
pub enum GrabAction {
    /// The window is gone: let go of the pointer.
    Release,
    /// Show the window at a new place.
    MoveTo { location: Point },
    /// Tell a Wayland client its new size, and whether the resize goes on.
    Configure { size: Size, resizing: bool },
    /// Tell an X11 client its new place and size.
    ConfigureX11 { geometry: Rectangle },
    /// Nothing to do.
    Keep,
}

/// A window being moved.
#[derive(Debug, Clone, Copy, PartialEq, Eq, Structural)]
pub struct MoveSurfaceGrab {
    pub window: u64,
    pub initial_window_location: Point,
}

impl MoveSurfaceGrab {
    /// The pointer moved; `target` is the initial place plus the way it went.
    pub fn motion(&self, alive: bool, target: Point) -> (r: GrabAction)
        ensures
            r == (if alive {
                GrabAction::MoveTo { location: target }
            } else {
                GrabAction::Release
            }),
    {
        if alive {
            GrabAction::MoveTo { location: target }
        } else {
            GrabAction::Release
        }
    }

    /// A button changed; the grab ends with the last pressed button.
    pub fn button(&self, pressed_count: usize) -> (r: GrabAction)
        ensures
            r == (if pressed_count == 0 {
                GrabAction::Release
            } else {
                GrabAction::Keep
            }),
    {
        if pressed_count == 0 {
            GrabAction::Release
        } else {
            GrabAction::Keep
        }
    }
}

/// A window being resized.
#[derive(Debug, Clone, Copy, PartialEq, Eq, Structural)]
pub struct ResizeSurfaceGrab {
    pub window: u64,
    pub edges: ResizeEdge,
    pub initial_window_location: Point,
    pub initial_window_size: Size,
    pub last_window_size: Size,
}

/// The limits that a client set for its window's size; zero stands for none.
#[derive(Debug, Clone, Copy, PartialEq, Eq, Structural)]
pub struct SizeLimits {
    pub min: Size,
    pub max: Size,
}

impl ResizeSurfaceGrab {
    /// The pointer went `dx`, `dy` from where the grab began.
    pub fn motion(
        &mut self,
        alive: bool,
        dx: Travel,
        dy: Travel,
        limits: SizeLimits,
        is_x11: bool,
        current_location: Option<Point>,
    ) -> (r: GrabAction)
        ensures
            final(self).window == old(self).window,
            final(self).edges == old(self).edges,
            final(self).initial_window_location == old(self).initial_window_location,
            final(self).initial_window_size == old(self).initial_window_size,
            !alive ==> *final(self) == *old(self) && r == GrabAction::Release,
            alive ==> final(self).last_window_size == resized(
                old(self).edges,
                old(self).initial_window_size,
                dx,
                dy,
                limits.min,
                limits.max,
            ),
            alive && !is_x11 ==> r == (GrabAction::Configure {
                size: final(self).last_window_size,
                resizing: true,
            }),
            alive && is_x11 ==> r == (GrabAction::ConfigureX11 {
                geometry: Rectangle {
                    loc: (match current_location {
                        Some(p) => p,
                        None => old(self).initial_window_location,
                    }),
                    size: final(self).last_window_size,
                },
            }),
    {
        if !alive {
            return GrabAction::Release;
        }
        let w: i32 = drag(self.initial_window_size.w, self.edges.left, self.edges.right, dx);
        let h: i32 = drag(self.initial_window_size.h, self.edges.top, self.edges.bottom, dy);
        let size = Size {
            w: limit(w, limits.min.w, limits.max.w),
            h: limit(h, limits.min.h, limits.max.h),
        };
        self.last_window_size = size;
        if is_x11 {
            let loc = match current_location {
                Some(p) => p,
                None => self.initial_window_location,
            };
            GrabAction::ConfigureX11 { geometry: Rectangle { loc, size } }
        } else {
            GrabAction::Configure { size, resizing: true }
        }
    }

    /// A button changed; with the last pressed button the resize ends, and a
    /// Wayland client is told its last size.
    pub fn button(&self, pressed_count: usize, is_x11: bool) -> (r: (GrabAction, bool))
        ensures
            r.1 == (pressed_count == 0),
            r.0 == (if pressed_count == 0 && !is_x11 {
                GrabAction::Configure { size: self.last_window_size, resizing: false }
            } else {
                GrabAction::Keep
            }),
    {
        if pressed_count == 0 {
            if is_x11 {
                (GrabAction::Keep, true)
            } else {
                (GrabAction::Configure { size: self.last_window_size, resizing: false }, true)
            }
        } else {
            (GrabAction::Keep, false)
        }
    }
}

/// A resized window is at least one pixel wide and high, unless the client's own
/// upper limit is less.
pub proof fn law_resized_windows_stay_visible(
    edges: ResizeEdge,
    size: Size,
    dx: Travel,
    dy: Travel,
    min: Size,
    max: Size,
)
    requires
        max.w >= 0,
        max.h >= 0,
    ensures
        resized(edges, size, dx, dy, min, max).w >= 1,
        resized(edges, size, dx, dy, min, max).h >= 1,
        max.w > 0 ==> resized(edges, size, dx, dy, min, max).w <= max.w,
        max.h > 0 ==> resized(edges, size, dx, dy, min, max).h <= max.h,
{
}

/// Dragging an edge by nothing leaves a window whose size the limits allow as it is.
pub proof fn law_no_travel_keeps_the_size(edges: ResizeEdge, size: Size, min: Size, max: Size)
    requires
        at_least(min.w as int, 1) <= size.w,
        at_least(min.h as int, 1) <= size.h,
        max.w == 0 || size.w <= max.w,
        max.h == 0 || size.h <= max.h,
    ensures
        resized(
            edges,
            size,
            Travel { floor: 0, ceil: 0 },
            Travel { floor: 0, ceil: 0 },
            min,
            max,
        ) == size,
{
}

/// Whether a length is one that a client's limits allow, and at least a pixel.
pub open spec fn allowed(len: int, min: i32, max: i32) -> bool {
    1 <= len <= i32::MAX && min <= len && (max == 0 || len <= max)
}

/// Within the limits, a held edge follows the pointer, and the edge opposite stays. With
/// the left edge held, the new width and the way that the pointer went to the right add up
/// to the old width: the window gets narrower by what the edge goes to the right, and
/// wider by what it goes to the left. With the right edge held, the window gets wider by
/// what the pointer goes to the right. With neither, its width stays. Likewise the height,
/// with the upper and the lower edge.
pub proof fn law_held_edges_follow_the_pointer(
    edges: ResizeEdge,
    size: Size,
    dx: Travel,
    dy: Travel,
    min: Size,
    max: Size,
)
    ensures
        ({
            let r = resized(edges, size, dx, dy, min, max);
            &&& edges.left && allowed(size.w - dx.ceil, min.w, max.w) ==> r.w + dx.ceil == size.w
            &&& edges.right && !edges.left && allowed(size.w + dx.floor, min.w, max.w) ==> r.w
                == size.w + dx.floor
            &&& !edges.left && !edges.right && allowed(size.w as int, min.w, max.w) ==> r.w
                == size.w
            &&& edges.top && allowed(size.h - dy.ceil, min.h, max.h) ==> r.h + dy.ceil == size.h
            &&& edges.bottom && !edges.top && allowed(size.h + dy.floor, min.h, max.h) ==> r.h
                == size.h + dy.floor
            &&& !edges.top && !edges.bottom && allowed(size.h as int, min.h, max.h) ==> r.h
                == size.h
        }),
{
}

/// Where a client's limits stand in the way, the window has the size of the limit: no
/// drag makes it smaller than the least size that the client allows, or than a pixel, and
/// none makes it larger than the greatest.
pub proof fn law_limits_stop_the_edge(
    edges: ResizeEdge,
    size: Size,
    dx: Travel,
    dy: Travel,
    min: Size,
    max: Size,
)
    requires
        max.w == 0 || (max.w >= 1 && max.w >= min.w),
        max.h == 0 || (max.h >= 1 && max.h >= min.h),
    ensures
        ({
            let r = resized(edges, size, dx, dy, min, max);
            &&& r.w >= 1 && r.w >= min.w
            &&& r.h >= 1 && r.h >= min.h
            &&& max.w > 0 ==> r.w <= max.w
            &&& max.h > 0 ==> r.h <= max.h
            &&& edges.left && size.w - dx.ceil < 1 && min.w <= 1 ==> r.w == 1
            &&& edges.left && size.w - dx.ceil < min.w && min.w >= 1 ==> r.w == min.w
            &&& edges.left && max.w > 0 && size.w - dx.ceil > max.w ==> r.w == max.w
            &&& edges.right && !edges.left && size.w + dx.floor < 1 && min.w <= 1 ==> r.w == 1
            &&& edges.right && !edges.left && size.w + dx.floor < min.w && min.w >= 1 ==> r.w
                == min.w
            &&& edges.right && !edges.left && max.w > 0 && size.w + dx.floor > max.w ==> r.w
                == max.w
            &&& edges.top && size.h - dy.ceil < 1 && min.h <= 1 ==> r.h == 1
            &&& edges.top && size.h - dy.ceil < min.h && min.h >= 1 ==> r.h == min.h
            &&& edges.top && max.h > 0 && size.h - dy.ceil > max.h ==> r.h == max.h
            &&& edges.bottom && !edges.top && size.h + dy.floor < 1 && min.h <= 1 ==> r.h == 1
            &&& edges.bottom && !edges.top && size.h + dy.floor < min.h && min.h >= 1 ==> r.h
                == min.h
            &&& edges.bottom && !edges.top && max.h > 0 && size.h + dy.floor > max.h ==> r.h
                == max.h
        }),
{
}

/// The edges of a protocol number add up to it: the upper one counts 1, the lower one 2,
/// the left one 4 and the right one 8. A greater number names no edge.
pub proof fn law_edges_add_up(bits: nat)
    ensures
        ({
            let e = edges_of(bits);
            let sum = (if e.top {
                1int
            } else {
                0
            }) + (if e.bottom {
                2int
            } else {
                0
            }) + (if e.left {
                4int
            } else {
                0
            }) + (if e.right {
                8int
            } else {
                0
            });
            &&& bits < 16 ==> sum == bits
            &&& bits >= 16 ==> sum == 0
        }),
{
}

/// An edge touches its own side and no other, a corner its two sides.
pub proof fn law_corners_touch_two_sides(e: X11ResizeEdge)
    ensures
        !(touches_top(e) && touches_bottom(e)),
        !(touches_left(e) && touches_right(e)),
        e is Top ==> touches_top(e) && !touches_left(e) && !touches_right(e),
        e is Bottom ==> touches_bottom(e) && !touches_left(e) && !touches_right(e),
        e is Left ==> touches_left(e) && !touches_top(e) && !touches_bottom(e),
        e is Right ==> touches_right(e) && !touches_top(e) && !touches_bottom(e),
        e is TopLeft ==> touches_top(e) && touches_left(e),
        e is TopRight ==> touches_top(e) && touches_right(e),
        e is BottomLeft ==> touches_bottom(e) && touches_left(e),
        e is BottomRight ==> touches_bottom(e) && touches_right(e),
{
}

} // verus!
