//! The state of the desktop as mathematics: what each operation of the compositor
//! makes of it.
use vstd::prelude::*;

use crate::geometry::{at_least, point, quotient, rectangle, Point, Rectangle, Size};
use crate::single::{clamped, scaled};
use crate::space::{location_in, mapped, raised, without, Mapped};
use crate::text::text_eq;
use crate::window::{managed, position, rank, surface_position, Effect, ManagedWindow, NewWindow};

verus! {

/// The edge of the output to which a surface is pinned.
#[derive(Debug, Clone, Copy, PartialEq, Eq, Structural)]
pub enum PinnedEdge {
    Top,
    Bottom,
}

/// How the windows of an application are pinned.
#[derive(Debug, Clone, Copy, PartialEq, Eq, Structural)]
pub struct Pin {
    pub edge: PinnedEdge,
    pub thickness: u32,
    /// The process that asked for it, where it is known.
    pub owner: Option<i32>,
}

/// The layout of the keyboard, by the names that keyboard maps are made from.
#[derive(Debug, Clone)]
pub struct KeyboardLayout {
    pub layout: String,
    pub variant: String,
    pub model: String,
    pub options: Option<String>,
}

/// The names of a keyboard layout.
#[verifier::ext_equal]
pub struct LayoutNames {
    pub layout: Seq<char>,
    pub variant: Seq<char>,
    pub model: Seq<char>,
    pub options: Option<Seq<char>>,
}

impl View for KeyboardLayout {
    type V = LayoutNames;

    open spec fn view(&self) -> LayoutNames {
        LayoutNames {
            layout: self.layout@,
            variant: self.variant@,
            model: self.model@,
            options: match self.options {
                Some(options) => Some(options@),
                None => None,
            },
        }
    }
}

impl KeyboardLayout {
    pub fn same(&self, other: &KeyboardLayout) -> (r: bool)
        ensures
            r == (self@ == other@),
    {
        let same_options: bool = match (&self.options, &other.options) {
            (Some(a), Some(b)) => text_eq(a.as_str(), b.as_str()),
            (None, None) => true,
            _ => false,
        };
        text_eq(self.layout.as_str(), other.layout.as_str()) && text_eq(
            self.variant.as_str(),
            other.variant.as_str(),
        ) && text_eq(self.model.as_str(), other.model.as_str()) && same_options
    }
}

impl Default for KeyboardLayout {
    /// What the keyboard has where nothing is chosen.
    fn default() -> (r: KeyboardLayout)
        ensures
            r@ == (LayoutNames {
                layout: Seq::empty(),
                variant: Seq::empty(),
                model: Seq::empty(),
                options: None,
            }),
    {
        let r = KeyboardLayout {
            layout: String::new(),
            variant: String::new(),
            model: String::new(),
            options: None,
        };
        assert(r@ =~= LayoutNames {
            layout: Seq::empty(),
            variant: Seq::empty(),
            model: Seq::empty(),
            options: None,
        });
        r
    }
}

/// The settings that window management goes by. The master ratio is a
/// single-precision number, held by its bit pattern.
#[derive(Debug, Clone, Copy, PartialEq, Eq, Structural)]
pub struct CompositorConfig {
    pub workspace_count: u32,
    pub gaps: i32,
    pub border_width: i32,
    pub master_ratio: u32,
    pub idle_dim_timeout_secs: u32,
}

/// The share of the master window where nothing else is chosen: fifty-five hundredths.
pub const STANDARD_SHARE: u32 = 0x3F0C_CCCD;

impl Default for CompositorConfig {
    /// What holds where nothing else is chosen. The picture is dimmed after five minutes.
    fn default() -> (r: CompositorConfig)
        ensures
            r.workspace_count == 5,
            r.gaps == 8,
            r.border_width == 2,
            r.master_ratio == STANDARD_SHARE,
            r.idle_dim_timeout_secs == 300,
    {
        CompositorConfig {
            workspace_count: 5,
            gaps: 8,
            border_width: 2,
            master_ratio: STANDARD_SHARE,
            idle_dim_timeout_secs: 300,
        }
    }
}

/// An output. The scale is held by the bit pattern of a double.
#[derive(Debug)]
pub struct OutputState {
    pub name: String,
    pub geometry: Option<Rectangle>,
    pub scale_bits: u64,
    pub refresh_mhz: i32,
}

/// The desktop.
#[verifier::ext_equal]
pub struct Desk {
    pub windows: Seq<ManagedWindow>,
    pub space: Seq<Mapped>,
    pub outputs: Seq<OutputState>,
    pub next_id: u64,
    pub active: u32,
    pub focused: Option<u64>,
    pub tiling: Set<u32>,
    pub floating: Set<u64>,
    pub pinned: Seq<(Seq<char>, Pin)>,
    pub config: CompositorConfig,
    pub keyboard: LayoutNames,
    pub running: bool,
    pub wallpaper: Seq<char>,
    pub reload_wallpaper: bool,
    pub effects: Seq<Effect>,
}

/// The pin of an application.
pub open spec fn pin_named(s: Seq<(Seq<char>, Pin)>, app_id: Seq<char>) -> Option<Pin>
    decreases s.len(),
{
    if s.len() == 0 {
        None
    } else if s.last().0 == app_id {
        Some(s.last().1)
    } else {
        pin_named(s.drop_last(), app_id)
    }
}

/// The latest pin that a process asked for.
pub open spec fn pin_owned(s: Seq<(Seq<char>, Pin)>, pid: Option<i32>) -> Option<Pin>
    decreases s.len(),
{
    if s.len() == 0 || pid is None {
        None
    } else if s.last().1.owner == pid {
        Some(s.last().1)
    } else {
        pin_owned(s.drop_last(), pid)
    }
}

/// The pin of a window: that of its application, or else one that its process asked
/// for.
pub open spec fn pin_for(
    s: Seq<(Seq<char>, Pin)>,
    app_id: Seq<char>,
    pid: Option<i32>,
) -> Option<Pin> {
    match pin_named(s, app_id) {
        Some(p) => Some(p),
        None => pin_owned(s, pid),
    }
}

/// The pins but that of an application.
pub open spec fn unpinned(s: Seq<(Seq<char>, Pin)>, app_id: Seq<char>) -> Seq<(Seq<char>, Pin)>
    decreases s.len(),
{
    if s.len() == 0 {
        s
    } else if s.last().0 == app_id {
        unpinned(s.drop_last(), app_id)
    } else {
        unpinned(s.drop_last(), app_id).push(s.last())
    }
}

/// Whether a pin of an application, asked for by a process, is meant for a window.
pub open spec fn is_pinned(w: ManagedWindow, app_id: Seq<char>, owner: Option<i32>) -> bool {
    w.app_id@ == app_id || (owner is Some && w.pid == owner)
}

/// The geometry of an output that is not there.
pub open spec fn fallback_geometry() -> Rectangle {
    Rectangle { loc: Point { x: 0, y: 0 }, size: Size { w: 1920, h: 1080 } }
}

/// The geometry to which a window returns that never had another.
pub open spec fn default_restore() -> Rectangle {
    Rectangle { loc: Point { x: 80, y: 60 }, size: Size { w: 800, h: 600 } }
}

/// Where a window is shown that comes to a workspace for the first time.
pub open spec fn first_place() -> Point {
    Point { x: 80, y: 60 }
}

pub open spec fn or_else(p: Option<Point>, q: Point) -> Point {
    match p {
        Some(v) => v,
        None => q,
    }
}

/// The place of a pinned surface along an edge of the output.
pub open spec fn pin_rectangle(output: Rectangle, edge: PinnedEdge, thickness: int) -> Rectangle {
    match edge {
        PinnedEdge::Top => rectangle(
            output.loc.x as int,
            output.loc.y as int,
            output.size.w as int,
            thickness,
        ),
        PinnedEdge::Bottom => rectangle(
            output.loc.x as int,
            output.loc.y + output.size.h - thickness,
            output.size.w as int,
            thickness,
        ),
    }
}

/// The width of the master window: the whole width where it is alone.
pub open spec fn master_width(width: int, count: int, ratio: int) -> int {
    if count > 1 {
        scaled(width, ratio)
    } else {
        width
    }
}

/// The place of tiled window `i` of `count` in the area. The first is the master, on
/// the left; the others share the rest of the width, one above the other.
pub open spec fn tile(area: Rectangle, gap: int, master: int, count: int, i: int) -> Rectangle {
    if i == 0 {
        let half = if count > 1 {
            gap / 2
        } else {
            0
        };
        rectangle(
            area.loc.x + gap,
            area.loc.y + gap,
            at_least(master - gap - half, 1),
            at_least(area.size.h - 2 * gap, 1),
        )
    } else {
        let stack = count - 1;
        let slot = at_least(quotient(area.size.h - gap * (stack + 1), stack), 1);
        rectangle(
            area.loc.x + master + gap / 2,
            area.loc.y + gap + (i - 1) * (slot + gap),
            at_least(area.size.w - master - gap - gap / 2, 1),
            slot,
        )
    }
}

/// No two managed windows stand for one window of the space.
pub open spec fn distinct_handles(s: Seq<ManagedWindow>) -> bool {
    forall|i: int, j: int|
        0 <= i < j < s.len() ==> (#[trigger] s[i]).window != (#[trigger] s[j]).window
}

impl Desk {
    /// Window ids are unique and below the next one, each managed window stands for one
    /// of its own, no window is shown twice, and the active workspace is one of those
    /// there are.
    pub open spec fn sound(self) -> bool {
        &&& forall|i: int, j: int|
            0 <= i < j < self.windows.len() ==> (#[trigger] self.windows[i]).id != (
            #[trigger] self.windows[j]).id
        &&& forall|i: int|
            0 <= i < self.windows.len() ==> (#[trigger] self.windows[i]).id < self.next_id
        &&& distinct_handles(self.windows)
        &&& crate::space::shown_once(self.space)
        &&& self.active < self.workspace_count()
    }

    pub open spec fn workspace_count(self) -> u32 {
        if self.config.workspace_count < 1 {
            1
        } else {
            self.config.workspace_count
        }
    }

    pub open spec fn primary_output(self) -> Rectangle {
        if self.outputs.len() > 0 {
            match self.outputs[0].geometry {
                Some(g) => g,
                None => fallback_geometry(),
            }
        } else {
            fallback_geometry()
        }
    }

    pub open spec fn note(self, e: Effect) -> Desk {
        Desk { effects: self.effects.push(e), ..self }
    }

    pub open spec fn show(self, w: u64, location: Point, activate: bool) -> Desk {
        Desk { space: mapped(self.space, w, location), ..self }.note(
            Effect::Show { window: w, location, activate },
        )
    }

    pub open spec fn conceal(self, w: u64) -> Desk {
        Desk { space: without(self.space, w), ..self }.note(Effect::Hide { window: w })
    }

    pub open spec fn lift(self, w: u64, activate: bool) -> Desk {
        Desk { space: raised(self.space, w), ..self }.note(Effect::Raise { window: w, activate })
    }

    pub open spec fn with_window(self, i: int, w: ManagedWindow) -> Desk {
        Desk { windows: self.windows.update(i, w), ..self }
    }

    /// Whether the window at index `i` takes part in the tiling of the active
    /// workspace.
    pub open spec fn is_tiled(self, i: int) -> bool {
        let w = self.windows[i];
        w.workspace == self.active && !w.is_minimized && !w.is_maximized && !self.floating.contains(
            w.id,
        )
    }

    /// The ids of the tiled windows among the first `n`.
    pub open spec fn tiled_ids(self, n: nat) -> Seq<u64>
        decreases n,
    {
        if n == 0 {
            Seq::empty()
        } else {
            let before = self.tiled_ids((n - 1) as nat);
            if self.is_tiled(n - 1) {
                before.push(self.windows[n - 1].id)
            } else {
                before
            }
        }
    }

    /// The ids of the first `n` windows that can be seen on the active workspace.
    pub open spec fn visible_ids(self, n: nat) -> Seq<u64>
        decreases n,
    {
        if n == 0 {
            Seq::empty()
        } else {
            let before = self.visible_ids((n - 1) as nat);
            let w = self.windows[n - 1];
            if w.workspace == self.active && !w.is_minimized {
                before.push(w.id)
            } else {
                before
            }
        }
    }

    /// Gives a window its tile.
    pub open spec fn set_tile(self, id: u64, r: Rectangle) -> Desk {
        let i = position(self.windows, id);
        if i < self.windows.len() {
            let w = self.windows[i as int];
            let told = if w.is_x11 {
                self.note(Effect::ConfigureX11 { window: w.window, geometry: r })
            } else {
                self.note(Effect::Configure { window: w.window, size: r.size })
            };
            told.show(w.window, r.loc, false)
        } else {
            self
        }
    }

    pub open spec fn tile_of(self, count: int, i: int) -> Rectangle {
        let area = self.primary_output();
        tile(
            area,
            at_least(self.config.gaps as int, 0),
            master_width(area.size.w as int, count, self.config.master_ratio as int),
            count,
            i,
        )
    }

    /// Gives the first `n` of the windows `ids` their tiles.
    pub open spec fn set_tiles(self, ids: Seq<u64>, n: nat) -> Desk
        decreases n,
    {
        if n == 0 {
            self
        } else {
            self.set_tiles(ids, (n - 1) as nat).set_tile(
                ids[n - 1],
                self.tile_of(ids.len() as int, n - 1),
            )
        }
    }

    /// The desktop after the tiling layout was applied to the active workspace.
    pub open spec fn tiled(self) -> Desk {
        if self.tiling.contains(self.active) {
            let ids = self.tiled_ids(self.windows.len());
            self.set_tiles(ids, ids.len())
        } else {
            self
        }
    }

    /// Asks a Wayland client for a size; X11 clients are not asked.
    pub open spec fn request_size(self, w: u64, is_x11: bool, size: Size) -> Desk {
        if is_x11 {
            self
        } else {
            self.note(Effect::Configure { window: w, size })
        }
    }

    pub open spec fn pin_place(self, pin: Pin) -> Rectangle {
        pin_rectangle(self.primary_output(), pin.edge, (pin.thickness as i32) as int)
    }

    /// A new window appears: pinned where its application or its process is, and otherwise one step
    /// below and to the right for every window that is shown already.
    pub open spec fn placed(self, new: NewWindow, activate: bool) -> Desk {
        let id = self.next_id;
        let w = managed(id, new, self.active);
        let base = Desk { next_id: (id + 1) as u64, ..self };
        if let Some(pin) = pin_for(self.pinned, new.app_id@, new.pid) {
            let r = self.pin_place(pin);
            let shown = base.request_size(new.window, new.is_x11, r.size).show(
                new.window,
                r.loc,
                activate,
            );
            Desk {
                windows: self.windows.push(w),
                floating: self.floating.insert(id),
                ..shown
            }.lift(new.window, true)
        } else {
            let n = self.space.len() as int;
            let shown = base.show(new.window, point(80 + n * 24, 60 + n * 24), activate);
            Desk {
                windows: self.windows.push(w),
                floating: self.floating.remove(id),
                ..shown
            }.tiled()
        }
    }

    /// Pins the windows that a pin is meant for among the first `n`.
    pub open spec fn pin_windows(
        self,
        app_id: Seq<char>,
        owner: Option<i32>,
        r: Rectangle,
        n: nat,
    ) -> Desk
        decreases n,
    {
        if n == 0 {
            self
        } else {
            let before = self.pin_windows(app_id, owner, r, (n - 1) as nat);
            let w = self.windows[n - 1];
            if is_pinned(w, app_id, owner) {
                let shown = before.request_size(w.window, w.is_x11, r.size).show(
                    w.window,
                    r.loc,
                    false,
                );
                Desk { floating: shown.floating.insert(w.id), ..shown }.lift(w.window, true)
            } else {
                before
            }
        }
    }

    pub open spec fn pinned_surface(self, app_id: Seq<char>, pin: Pin) -> Desk {
        let d = Desk { pinned: unpinned(self.pinned, app_id).push((app_id, pin)), ..self };
        d.pin_windows(app_id, pin.owner, self.pin_place(pin), self.windows.len()).tiled()
    }

    /// The windows, those of the active workspace with the place where they are shown
    /// kept in mind.
    pub open spec fn remembered(self) -> Seq<ManagedWindow> {
        Seq::new(
            self.windows.len(),
            |i: int|
                if self.windows[i].workspace == self.active {
                    ManagedWindow {
                        saved_workspace_location: location_in(self.space, self.windows[i].window),
                        ..self.windows[i]
                    }
                } else {
                    self.windows[i]
                },
        )
    }

    /// Hides the windows of the active workspace among the first `n`.
    pub open spec fn hide_workspace(self, n: nat) -> Desk
        decreases n,
    {
        if n == 0 {
            self
        } else {
            let before = self.hide_workspace((n - 1) as nat);
            if self.windows[n - 1].workspace == self.active {
                before.conceal(self.windows[n - 1].window)
            } else {
                before
            }
        }
    }

    /// Shows the windows of a workspace among the first `n` that are not minimized,
    /// each where it was.
    pub open spec fn show_workspace(self, workspace: u32, n: nat) -> Desk
        decreases n,
    {
        if n == 0 {
            self
        } else {
            let before = self.show_workspace(workspace, (n - 1) as nat);
            let w = self.windows[n - 1];
            if w.workspace == workspace && !w.is_minimized {
                before.show(w.window, or_else(w.saved_workspace_location, first_place()), false)
            } else {
                before
            }
        }
    }

    /// The desktop with `target` shown in place of the active workspace, before tiling.
    pub open spec fn exchanged(self, target: u32) -> Desk {
        let kept = Desk { windows: self.remembered(), ..self };
        let shown = kept.hide_workspace(kept.windows.len()).show_workspace(
            target,
            kept.windows.len(),
        );
        Desk { active: target, ..shown }
    }

    pub open spec fn switched(self, target: u32) -> Desk {
        if target >= self.workspace_count() || target == self.active {
            self
        } else {
            self.exchanged(target).tiled()
        }
    }

    pub open spec fn moved(self, id: u64, to: u32) -> Desk {
        let target = if to > self.workspace_count() - 1 {
            (self.workspace_count() - 1) as u32
        } else {
            to
        };
        let i = position(self.windows, id) as int;
        if i >= self.windows.len() || self.windows[i].workspace == target {
            self
        } else {
            let w = self.windows[i];
            let gone = ManagedWindow { workspace: target, ..w };
            if w.workspace == self.active {
                self.with_window(
                    i,
                    ManagedWindow {
                        saved_workspace_location: location_in(self.space, w.window),
                        ..gone
                    },
                ).conceal(w.window).tiled()
            } else if target == self.active && !w.is_minimized {
                self.with_window(i, gone).show(
                    w.window,
                    or_else(w.saved_workspace_location, first_place()),
                    true,
                ).tiled()
            } else {
                self.with_window(i, gone).tiled()
            }
        }
    }

    pub open spec fn focus(self, id: u64) -> Desk {
        let i = position(self.windows, id) as int;
        if i >= self.windows.len() {
            self
        } else {
            let w = self.windows[i];
            let at = or_else(location_in(self.space, w.window), Point { x: 0, y: 0 });
            let d = Desk {
                focused: Some(id),
                ..self.with_window(i, ManagedWindow { is_minimized: false, ..w })
            }.show(w.window, at, true).lift(w.window, true);
            let d = match w.surface {
                Some(surface) => d.note(Effect::Focus { surface }),
                None => d,
            };
            d.tiled()
        }
    }

    pub open spec fn closed(self, id: u64) -> Desk {
        let i = position(self.windows, id) as int;
        if i >= self.windows.len() {
            self
        } else {
            self.note(Effect::Close { window: self.windows[i].window })
        }
    }

    pub open spec fn minimized(self, id: u64) -> Desk {
        let i = position(self.windows, id) as int;
        if i >= self.windows.len() || self.windows[i].is_minimized {
            self
        } else {
            let w = self.windows[i];
            self.with_window(i, ManagedWindow { is_minimized: true, ..w }).conceal(w.window).tiled()
        }
    }

    pub open spec fn tell_maximized(self, w: ManagedWindow, on: bool, r: Rectangle) -> Desk {
        if w.is_x11 {
            self.note(Effect::MaximizeX11 { window: w.window, maximized: on, geometry: r })
        } else {
            self.note(Effect::Maximize { window: w.window, maximized: on, size: r.size })
        }
    }

    pub open spec fn maximized(self, id: u64, on: bool, area: Rectangle) -> Desk {
        let i = position(self.windows, id) as int;
        if i >= self.windows.len() {
            self
        } else {
            let w = self.windows[i];
            if on {
                let at = or_else(location_in(self.space, w.window), Point { x: 0, y: 0 });
                self.with_window(
                    i,
                    ManagedWindow {
                        is_minimized: false,
                        is_maximized: true,
                        saved_geometry: Some(Rectangle { loc: at, size: w.size }),
                        ..w
                    },
                ).tell_maximized(w, true, area).show(w.window, area.loc, true)
            } else {
                let back = match w.saved_geometry {
                    Some(r) => r,
                    None => default_restore(),
                };
                self.with_window(
                    i,
                    ManagedWindow {
                        is_minimized: false,
                        is_maximized: false,
                        saved_geometry: None,
                        ..w
                    },
                ).tell_maximized(w, false, back).show(w.window, back.loc, true)
            }
        }
    }

    pub open spec fn tell_fullscreen(self, w: ManagedWindow, on: bool, r: Rectangle) -> Desk {
        if w.is_x11 {
            self.note(Effect::FullscreenX11 { window: w.window, fullscreen: on, geometry: r })
        } else {
            self.note(Effect::Fullscreen { window: w.window, fullscreen: on, size: r.size })
        }
    }

    /// A window fills an area, or not any more. One that is also maximized returns to
    /// the maximized geometry, any other to the one that it had.
    pub open spec fn fullscreened(self, id: u64, on: bool, area: Rectangle) -> Desk {
        let i = position(self.windows, id) as int;
        if i >= self.windows.len() {
            self
        } else {
            let w = self.windows[i];
            if on {
                let at = or_else(location_in(self.space, w.window), Point { x: 0, y: 0 });
                self.with_window(
                    i,
                    ManagedWindow {
                        is_minimized: false,
                        is_fullscreen: true,
                        windowed_geometry: Some(Rectangle { loc: at, size: w.size }),
                        ..w
                    },
                ).tell_fullscreen(w, true, area).show(w.window, area.loc, true)
            } else {
                let back = if w.is_maximized {
                    area
                } else {
                    match w.windowed_geometry {
                        Some(r) => r,
                        None => default_restore(),
                    }
                };
                self.with_window(
                    i,
                    ManagedWindow {
                        is_minimized: false,
                        is_fullscreen: false,
                        windowed_geometry: None,
                        ..w
                    },
                ).tell_fullscreen(w, false, back).show(w.window, back.loc, true)
            }
        }
    }

    pub open spec fn floating_toggled(self, id: u64) -> Desk {
        Desk {
            floating: if self.floating.contains(id) {
                self.floating.remove(id)
            } else {
                self.floating.insert(id)
            },
            ..self
        }.tiled()
    }

    pub open spec fn tiling_set(self, workspace: u32, on: bool) -> Desk {
        let d = Desk {
            tiling: if on {
                self.tiling.insert(workspace)
            } else {
                self.tiling.remove(workspace)
            },
            ..self
        };
        if workspace == self.active {
            d.tiled()
        } else {
            d
        }
    }

    pub open spec fn tiling_toggled(self) -> Desk {
        Desk {
            tiling: if self.tiling.contains(self.active) {
                self.tiling.remove(self.active)
            } else {
                self.tiling.insert(self.active)
            },
            ..self
        }.tiled()
    }

    /// Exchanges the focused window with the master of the active workspace.
    pub open spec fn master_swapped(self) -> Desk {
        let ids = self.tiled_ids(self.windows.len());
        match self.focused {
            Some(id) => if ids.len() == 0 || ids[0] == id {
                self
            } else {
                let a = position(self.windows, ids[0]) as int;
                let b = position(self.windows, id) as int;
                if b < self.windows.len() {
                    Desk {
                        windows: self.windows.update(a, self.windows[b]).update(
                            b,
                            self.windows[a],
                        ),
                        ..self
                    }.tiled()
                } else {
                    self.tiled()
                }
            },
            None => self,
        }
    }

    pub open spec fn ratio_set(self, ratio: u32) -> Desk {
        Desk {
            config: CompositorConfig { master_ratio: clamped(ratio as int) as u32, ..self.config },
            ..self
        }.tiled()
    }

    /// The id that follows the focused one, round and round; the first if none of them
    /// has the focus.
    pub open spec fn next_focus(self) -> Option<u64> {
        let ids = self.visible_ids(self.windows.len());
        if ids.len() == 0 {
            None
        } else {
            match self.focused {
                Some(id) => {
                    let k = rank(ids, id) as int;
                    if k < ids.len() {
                        Some(ids[(k + 1) % (ids.len() as int)])
                    } else {
                        Some(ids[0])
                    }
                },
                None => Some(ids[0]),
            }
        }
    }

    /// The id before the focused one, round and round; the last if none of them has
    /// the focus.
    pub open spec fn previous_focus(self) -> Option<u64> {
        let ids = self.visible_ids(self.windows.len());
        if ids.len() == 0 {
            None
        } else {
            match self.focused {
                Some(id) => {
                    let k = rank(ids, id) as int;
                    if k < ids.len() {
                        Some(ids[(k + ids.len() - 1) % (ids.len() as int)])
                    } else {
                        Some(ids.last())
                    }
                },
                None => Some(ids.last()),
            }
        }
    }

    pub open spec fn focus_option(self, id: Option<u64>) -> Desk {
        match id {
            Some(id) => self.focus(id),
            None => self,
        }
    }

    pub open spec fn forgotten(self, surface: u64) -> Desk {
        let i = surface_position(self.windows, surface) as int;
        if i < self.windows.len() {
            let w = self.windows[i];
            let d = Desk { windows: self.windows.remove(i), ..self }.conceal(w.window);
            Desk { floating: d.floating.remove(w.id), ..d }.tiled()
        } else {
            self.tiled()
        }
    }

    /// The desktop with other settings. The keyboard is given its layout if that has
    /// changed. An active workspace that there is no more gives way to the last one.
    pub open spec fn reloaded(self, config: CompositorConfig, keyboard: LayoutNames) -> Desk {
        let d = Desk { config, keyboard, ..self };
        let d = if keyboard != self.keyboard {
            d.note(Effect::SetKeyboardLayout)
        } else {
            d
        };
        if d.active < d.workspace_count() {
            d
        } else {
            d.switched((d.workspace_count() - 1) as u32)
        }
    }

    /// How many of the first `n` windows belong to a workspace.
    pub open spec fn count_on(self, workspace: u32, n: nat) -> nat
        decreases n,
    {
        if n == 0 {
            0
        } else {
            self.count_on(workspace, (n - 1) as nat) + (if self.windows[n - 1].workspace
                == workspace {
                1nat
            } else {
                0nat
            })
        }
    }
}

} // verus!
