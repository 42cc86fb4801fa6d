//! The desktop session as mathematics: windows, workspaces, tiling and panels.
use vstd::prelude::*;

use crate::config::Config;
use crate::geometry::{at_least, point, Point, Rectangle, Size};
use crate::layout::{layout_rect, Rect, StackSide, TilingConfig};
use crate::ratio::{Ratio, STANDARD};

verus! {

/// Which edge of the screen a surface is pinned to.
#[derive(Debug, Clone, Copy, PartialEq, Eq, Structural)]
pub enum PinnedEdge {
    Top,
    Bottom,
}

/// A surface that is pinned to an edge of the screen.
#[derive(Debug)]
pub struct PinnedSurface {
    pub app_id: String,
    pub edge: PinnedEdge,
    pub thickness_px: u32,
    pub owner_pid: Option<i32>,
}

/// The wallpaper that is wanted, if any.
#[derive(Debug)]
pub struct WallpaperState {
    pub path: Option<String>,
}

impl Default for WallpaperState {
    fn default() -> (r: WallpaperState)
        ensures
            r.path is None,
    {
        WallpaperState { path: None }
    }
}

impl WallpaperState {
    pub fn set_path(&mut self, path: String)
        ensures
            final(self).path == Some(path),
    {
        self.path = Some(path);
    }
}

/// What the session keeps of a window besides its place.
#[derive(Debug)]
pub struct WindowMeta {
    pub title: String,
    pub app_id: String,
    pub is_fullscreen: bool,
    pub is_minimized: bool,
    pub is_floating: bool,
    pub is_maximized: bool,
    pub workspace: usize,
}

impl Clone for WindowMeta {
    fn clone(&self) -> (r: WindowMeta)
        ensures
            r == *self,
    {
        WindowMeta {
            title: self.title.clone(),
            app_id: self.app_id.clone(),
            is_fullscreen: self.is_fullscreen,
            is_minimized: self.is_minimized,
            is_floating: self.is_floating,
            is_maximized: self.is_maximized,
            workspace: self.workspace,
        }
    }
}

impl WindowMeta {
    /// That of a window of which nothing is known.
    pub open spec fn is_blank(self) -> bool {
        &&& self.title@ == Seq::<char>::empty()
        &&& self.app_id@ == Seq::<char>::empty()
        &&& !self.is_fullscreen
        &&& !self.is_minimized
        &&& !self.is_floating
        &&& !self.is_maximized
        &&& self.workspace == 0
    }
}

impl Default for WindowMeta {
    fn default() -> (r: WindowMeta)
        ensures
            r.is_blank(),
    {
        WindowMeta {
            title: String::new(),
            app_id: String::new(),
            is_fullscreen: false,
            is_minimized: false,
            is_floating: false,
            is_maximized: false,
            workspace: 0,
        }
    }
}

/// The entry of a window, by the number of its surface.
#[derive(Debug)]
pub struct MetaEntry {
    pub id: u64,
    pub meta: WindowMeta,
}

/// A window that is shown. `window` and `surface` are handles; `id` is the number by
/// which clients know the surface, and zero without one.
#[derive(Debug, Clone, Copy, PartialEq, Eq, Structural)]
pub struct Shown {
    pub window: u64,
    pub surface: Option<u64>,
    pub id: u64,
    pub is_x11: bool,
    pub size: Size,
    pub location: Point,
}

/// The mode of an output: its size in pixels and its refresh rate.
#[derive(Debug, Clone, Copy, PartialEq, Eq, Structural)]
pub struct Mode {
    pub size: Size,
    pub refresh: i32,
}

/// An output of the session. The scale is held by the bit pattern of a double.
#[derive(Debug)]
pub struct DesktopOutput {
    pub name: String,
    pub geometry: Option<Rectangle>,
    pub mode: Option<Mode>,
    pub scale_bits: u64,
}

/// What a client is told of its size.
#[derive(Debug, Clone, Copy, PartialEq, Eq, Structural)]
pub enum SizeHint {
    /// What it was told before holds.
    Keep,
    /// It chooses.
    Free,
    To(Size),
}

/// Something the session asks of the display server.
#[derive(Debug, Clone, Copy, PartialEq, Eq, Structural)]
pub enum Request {
    Show { window: u64, location: Point, activate: bool },
    Hide { window: u64 },
    Raise { window: u64 },
    /// Give the keyboard to a surface, or to none.
    Focus { surface: Option<u64> },
    Configure { window: u64, size: Size },
    Maximize { window: u64, maximized: bool, size: SizeHint },
    /// Maximize a window if it is not, and the other way round.
    FlipMaximized { window: u64 },
    /// The same for filling the screen.
    FlipFullscreen { window: u64 },
    Close { window: u64 },
    /// Tell the clients of the workspace protocol.
    WorkspaceSwitched { from: usize, to: usize },
    /// Tell the clients that list windows.
    Mapped { id: u64 },
    Unmapped { id: u64 },
    LaunchTerminal,
    TakeScreenshot,
}

/// The panels and keys of the session.
#[derive(Debug, Clone, Copy, PartialEq, Eq, Structural)]
pub struct Panels {
    pub show_switcher: bool,
    pub switcher_index: usize,
    pub super_pressed: bool,
    pub super_used: bool,
    pub start_menu_visible: bool,
    pub fullscreen_menu_visible: bool,
}

/// The session.
#[verifier::ext_equal]
pub struct Desktop {
    pub shown: Seq<Shown>,
    pub metas: Seq<MetaEntry>,
    pub outputs: Seq<DesktopOutput>,
    pub current: usize,
    pub count: usize,
    pub tiling: Set<usize>,
    pub pinned: Seq<PinnedSurface>,
    pub panels: Panels,
    pub config: Config,
    pub requests: Seq<Request>,
}

/// The shown windows without the one with a handle.
pub open spec fn taken(s: Seq<Shown>, w: u64) -> Seq<Shown>
    decreases s.len(),
{
    if s.len() == 0 {
        s
    } else if s.last().window == w {
        taken(s.drop_last(), w)
    } else {
        taken(s.drop_last(), w).push(s.last())
    }
}

/// The index of the first window whose surface has a number, or the number of windows.
pub open spec fn with_id(s: Seq<Shown>, id: u64) -> nat
    decreases s.len(),
{
    if s.len() == 0 || (s[0].surface is Some && s[0].id == id) {
        0
    } else {
        1 + with_id(s.skip(1), id)
    }
}

/// The index of the first window with a surface, or the number of windows.
pub open spec fn with_surface(s: Seq<Shown>, surface: u64) -> nat
    decreases s.len(),
{
    if s.len() == 0 || s[0].surface == Some(surface) {
        0
    } else {
        1 + with_surface(s.skip(1), surface)
    }
}

/// The index of the entry of a window, or the number of entries.
pub open spec fn entry_of(s: Seq<MetaEntry>, id: u64) -> nat
    decreases s.len(),
{
    if s.len() == 0 || s[0].id == id {
        0
    } else {
        1 + entry_of(s.skip(1), id)
    }
}

/// The index of the pin of an application, or the number of pins.
pub open spec fn pin_of(s: Seq<PinnedSurface>, app_id: Seq<char>) -> nat
    decreases s.len(),
{
    if s.len() == 0 || s[0].app_id@ == app_id {
        0
    } else {
        1 + pin_of(s.skip(1), app_id)
    }
}

/// How many of the first `n` entries are on a workspace.
pub open spec fn entries_on(s: Seq<MetaEntry>, workspace: usize, n: nat) -> nat
    decreases n,
{
    if n == 0 {
        0
    } else {
        entries_on(s, workspace, (n - 1) as nat) + if s[n - 1].meta.workspace == workspace {
            1nat
        } else {
            0nat
        }
    }
}

impl Desktop {
    /// There is a workspace, the current one is among them, and no window has two
    /// entries.
    pub open spec fn sound(self) -> bool {
        &&& self.count >= 1
        &&& self.current < self.count
        &&& forall|i: int, j: int|
            0 <= i < j < self.metas.len() ==> (#[trigger] self.metas[i]).id != (
            #[trigger] self.metas[j]).id
    }

    pub open spec fn ask(self, r: Request) -> Desktop {
        Desktop { requests: self.requests.push(r), ..self }
    }

    /// Whether a window has an entry.
    pub open spec fn knows(self, id: u64) -> bool {
        entry_of(self.metas, id) < self.metas.len()
    }

    pub open spec fn meta(self, id: u64) -> WindowMeta {
        self.metas[entry_of(self.metas, id) as int].meta
    }

    /// The title of a window; one without an entry has none.
    pub open spec fn title_of(self, id: u64) -> Seq<char> {
        if self.knows(id) {
            self.meta(id).title@
        } else {
            Seq::empty()
        }
    }

    pub open spec fn app_id_of(self, id: u64) -> Seq<char> {
        if self.knows(id) {
            self.meta(id).app_id@
        } else {
            Seq::empty()
        }
    }

    /// The workspace of a window; one without an entry is on the first.
    pub open spec fn workspace_of(self, id: u64) -> usize {
        if self.knows(id) {
            self.meta(id).workspace
        } else {
            0
        }
    }

    /// With another entry in place of that of a window which has one.
    pub open spec fn with_meta(self, id: u64, meta: WindowMeta) -> Desktop {
        Desktop {
            metas: self.metas.update(
                entry_of(self.metas, id) as int,
                MetaEntry { id, meta },
            ),
            ..self
        }
    }

    /// With a window shown at a place, above all others.
    pub open spec fn show(self, w: Shown, location: Point, activate: bool) -> Desktop {
        Desktop {
            shown: taken(self.shown, w.window).push(Shown { location, ..w }),
            ..self
        }.ask(Request::Show { window: w.window, location, activate })
    }

    pub open spec fn raise(self, w: Shown) -> Desktop {
        Desktop { shown: taken(self.shown, w.window).push(w), ..self }.ask(
            Request::Raise { window: w.window },
        )
    }

    /// Whether a shown window takes part in the tiling of a workspace.
    pub open spec fn in_tiling(self, w: Shown, workspace: usize) -> bool {
        self.knows(w.id) && self.meta(w.id).workspace == workspace && !self.meta(w.id).is_floating
            && !self.meta(w.id).is_minimized
    }

    /// Those of the lowest `n` windows that take part in the tiling of a workspace.
    pub open spec fn tiled_windows(self, workspace: usize, n: nat) -> Seq<Shown>
        decreases n,
    {
        if n == 0 {
            Seq::empty()
        } else {
            let before = self.tiled_windows(workspace, (n - 1) as nat);
            if self.in_tiling(self.shown[n - 1], workspace) {
                before.push(self.shown[n - 1])
            } else {
                before
            }
        }
    }

    pub open spec fn primary_output(self) -> Option<Rectangle> {
        if self.outputs.len() > 0 {
            self.outputs[0].geometry
        } else {
            None
        }
    }

    /// The place of window `i` of `count` on an output.
    pub open spec fn slot(self, area: Rectangle, count: int, i: int) -> Rect {
        layout_rect(
            Rect { x: area.loc.x, y: area.loc.y, w: area.size.w, h: area.size.h },
            count,
            TilingConfig {
                master_ratio: Ratio { bits: STANDARD },
                gaps_px: self.config.general.gaps_px as i32,
                stack_side: StackSide::Right,
            },
            i,
        )
    }

    /// With a window put into a slot.
    pub open spec fn put(self, w: Shown, slot: Rect) -> Desktop {
        let size = Size {
            w: at_least(slot.w as int, 1) as i32,
            h: at_least(slot.h as int, 1) as i32,
        };
        let d = if w.is_x11 {
            self
        } else {
            self.ask(Request::Configure { window: w.window, size })
        };
        d.show(w, Point { x: slot.x, y: slot.y }, false)
    }

    /// With the first `n` of some windows put into their slots.
    pub open spec fn put_all(self, windows: Seq<Shown>, area: Rectangle, n: nat) -> Desktop
        decreases n,
    {
        if n == 0 {
            self
        } else {
            self.put_all(windows, area, (n - 1) as nat).put(
                windows[n - 1],
                self.slot(area, windows.len() as int, n - 1),
            )
        }
    }

    /// With a workspace tiled, if it is one that is tiled and there is an output.
    pub open spec fn tiled(self, workspace: usize) -> Desktop {
        match self.primary_output() {
            Some(area) => if self.tiling.contains(workspace) {
                let windows = self.tiled_windows(workspace, self.shown.len());
                self.put_all(windows, area, windows.len())
            } else {
                self
            },
            None => self,
        }
    }

    pub open spec fn last_workspace(self) -> usize {
        (self.count - 1) as usize
    }

    /// The workspace that is meant by an index: one beyond the last is the last.
    pub open spec fn meant(self, index: usize) -> usize {
        if index > self.last_workspace() {
            self.last_workspace()
        } else {
            index
        }
    }

    pub open spec fn switched(self, index: usize) -> Desktop {
        let next = self.meant(index);
        let d = Desktop { current: next, ..self };
        let d = if self.current != next {
            d.ask(Request::WorkspaceSwitched { from: self.current, to: next })
        } else {
            d
        };
        d.tiled(next)
    }

    pub open spec fn moved(self, id: u64, workspace: usize) -> Desktop {
        let target = self.meant(workspace);
        if self.knows(id) {
            let previous = self.meta(id).workspace;
            self.with_meta(id, WindowMeta { workspace: target, ..self.meta(id) }).tiled(
                previous,
            ).tiled(target)
        } else {
            self.tiled(target)
        }
    }

    pub open spec fn tiling_set(self, workspace: usize, on: bool) -> Desktop {
        Desktop {
            tiling: if on {
                self.tiling.insert(workspace)
            } else {
                self.tiling.remove(workspace)
            },
            ..self
        }.tiled(workspace)
    }

    pub open spec fn pinned_to(self, p: PinnedSurface) -> Desktop {
        let i = pin_of(self.pinned, p.app_id@) as int;
        Desktop {
            pinned: if i < self.pinned.len() {
                self.pinned.update(i, p)
            } else {
                self.pinned.push(p)
            },
            ..self
        }
    }

    /// Raises a window and gives it the keyboard.
    pub open spec fn activated(self, w: Shown) -> Desktop {
        let d = self.raise(w);
        if w.surface is Some {
            d.ask(Request::Focus { surface: w.surface })
        } else {
            d
        }
    }

    pub open spec fn focused(self, id: u64) -> Desktop {
        let i = with_id(self.shown, id) as int;
        if i < self.shown.len() {
            self.activated(self.shown[i])
        } else {
            self
        }
    }

    pub open spec fn closed(self, id: u64) -> Desktop {
        let i = with_id(self.shown, id) as int;
        if i < self.shown.len() && !self.shown[i].is_x11 {
            self.ask(Request::Close { window: self.shown[i].window })
        } else {
            self
        }
    }

    pub open spec fn minimized_set(self, id: u64, on: bool) -> Desktop {
        if self.knows(id) {
            self.with_meta(id, WindowMeta { is_minimized: on, ..self.meta(id) })
        } else {
            self
        }
    }

    /// A maximized window does not float; one that is not any more chooses its size.
    pub open spec fn maximized(self, id: u64, on: bool, area: Option<Rectangle>) -> Desktop {
        let i = with_id(self.shown, id) as int;
        if i >= self.shown.len() {
            self
        } else {
            let w = self.shown[i];
            let d = if self.knows(id) {
                let m = self.meta(id);
                self.with_meta(
                    id,
                    WindowMeta { is_floating: m.is_floating && !on, is_maximized: on, ..m },
                )
            } else {
                self
            };
            if w.is_x11 {
                d
            } else {
                let size = if !on {
                    SizeHint::Free
                } else {
                    match area {
                        Some(r) => SizeHint::To(r.size),
                        None => SizeHint::Keep,
                    }
                };
                let d = d.ask(Request::Maximize { window: w.window, maximized: on, size });
                match area {
                    Some(r) => if on {
                        d.show(w, r.loc, true)
                    } else {
                        d
                    },
                    None => d,
                }
            }
        }
    }

    pub open spec fn floating_toggled(self, id: u64) -> Desktop {
        if self.knows(id) {
            let m = self.meta(id);
            self.with_meta(id, WindowMeta { is_floating: !m.is_floating, ..m })
        } else {
            self
        }
    }

    /// With a new window: a little further down and to the right than the one before,
    /// on the current workspace.
    pub open spec fn opened(self, w: Shown, blank: WindowMeta) -> Desktop {
        let n = self.shown.len() as int;
        let d = self.show(w, point(n * 30 + 150, n * 30 + 80), true);
        let entry = MetaEntry { id: w.id, meta: WindowMeta { workspace: self.current, ..blank } };
        let i = entry_of(d.metas, w.id) as int;
        Desktop {
            metas: if i < d.metas.len() {
                d.metas.update(i, entry)
            } else {
                d.metas.push(entry)
            },
            ..d
        }.ask(Request::Mapped { id: w.id }).tiled(self.current)
    }

    /// Without a window whose client destroyed it.
    pub open spec fn destroyed(self, id: u64, surface: u64) -> Desktop {
        let i = entry_of(self.metas, id) as int;
        let d = Desktop {
            metas: if i < self.metas.len() {
                self.metas.remove(i)
            } else {
                self.metas
            },
            ..self
        }.ask(Request::Unmapped { id });
        let k = with_surface(d.shown, surface) as int;
        if k < d.shown.len() {
            let w = d.shown[k].window;
            Desktop { shown: taken(d.shown, w), ..d }.ask(Request::Hide { window: w })
        } else {
            d
        }
    }

    /// With the selection of the switcher moved on by one window, or back by one; it
    /// wraps around.
    pub open spec fn cycled(self, forward: bool) -> Desktop {
        let n = self.shown.len() as int;
        if n == 0 {
            self
        } else {
            let i = self.panels.switcher_index as int;
            let next = if forward {
                (i + 1) % n
            } else {
                (i + n - 1) % n
            };
            Desktop { panels: Panels { switcher_index: next as usize, ..self.panels }, ..self }
        }
    }

    /// With the selected window raised and the switcher gone.
    pub open spec fn selected(self) -> Desktop {
        let i = self.panels.switcher_index as int;
        let d = if i < self.shown.len() {
            self.activated(self.shown[i])
        } else {
            self
        };
        Desktop { panels: Panels { show_switcher: false, ..d.panels }, ..d }
    }

    /// With the switcher open, or moved on if it is.
    pub open spec fn switcher_advanced(self) -> Desktop {
        if self.panels.show_switcher {
            self.cycled(true)
        } else {
            Desktop {
                panels: Panels { show_switcher: true, switcher_index: 0, ..self.panels },
                ..self
            }
        }
    }
}

} // verus!
