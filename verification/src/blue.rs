//! The desktop session: windows, workspaces, tiling and panels.
use std::collections::HashSet;

use vstd::prelude::*;

use crate::config::Config;
use crate::desktop::{
    entries_on, entry_of, pin_of, taken, with_id, with_surface, Desktop, DesktopOutput, MetaEntry,
    Panels, PinnedEdge, PinnedSurface, Request, Shown, SizeHint, WallpaperState, WindowMeta,
};
use crate::geometry::{max_i32, sat_i128, Point, Rectangle, Size};
use crate::layout::{compute_layout, Rect, StackSide, TilingConfig};
use crate::ratio::{Ratio, STANDARD};
use crate::summaries::{OutputSummary, WindowSummary, WorkspaceSummary};
use crate::text::text_eq;

verus! {

broadcast use vstd::std_specs::hash::group_hash_axioms;

/// The session. What it asks of the display server is kept in `requests` until it is
/// fetched.
#[derive(Debug)]
pub struct BlueState {
    pub shown: Vec<Shown>,
    pub window_meta: Vec<MetaEntry>,
    pub outputs: Vec<DesktopOutput>,
    pub current_workspace: usize,
    pub workspace_count: usize,
    pub tiling_workspaces: HashSet<usize>,
    pub pinned_surfaces: Vec<PinnedSurface>,
    pub panels: Panels,
    pub config: Config,
    pub requests: Vec<Request>,
    pub socket_name: String,
    pub extern_name: Option<String>,
    pub wallpaper: WallpaperState,
    pub pending_wallpaper_reload: bool,
    pub running: bool,
    pub should_exit: bool,
}

impl View for BlueState {
    type V = Desktop;

    open spec fn view(&self) -> Desktop {
        Desktop {
            shown: self.shown@,
            metas: self.window_meta@,
            outputs: self.outputs@,
            current: self.current_workspace,
            count: self.workspace_count,
            tiling: self.tiling_workspaces@,
            pinned: self.pinned_surfaces@,
            panels: self.panels,
            config: self.config,
            requests: self.requests@,
        }
    }
}

/// The rest of the session, which window management leaves alone.
pub open spec fn same_rest(a: BlueState, b: BlueState) -> bool {
    &&& a.socket_name == b.socket_name
    &&& a.extern_name == b.extern_name
    &&& a.wallpaper == b.wallpaper
    &&& a.pending_wallpaper_reload == b.pending_wallpaper_reload
    &&& a.running == b.running
    &&& a.should_exit == b.should_exit
}

pub proof fn lemma_with_id_is(s: Seq<Shown>, id: u64, n: int)
    requires
        0 <= n <= s.len(),
        forall|k: int| 0 <= k < n ==> !((#[trigger] s[k]).surface is Some && s[k].id == id),
        n < s.len() ==> s[n].surface is Some && s[n].id == id,
    ensures
        with_id(s, id) == n,
    decreases s.len(),
{
    if n > 0 {
        assert(!(s[0].surface is Some && s[0].id == id));
        let t = s.skip(1);
        assert forall|k: int| 0 <= k < n - 1 implies !((#[trigger] t[k]).surface is Some && t[k].id
            == id) by {
            assert(t[k] == s[k + 1]);
        }
        lemma_with_id_is(t, id, n - 1);
    }
}

pub proof fn lemma_with_surface_is(s: Seq<Shown>, surface: u64, n: int)
    requires
        0 <= n <= s.len(),
        forall|k: int| 0 <= k < n ==> (#[trigger] s[k]).surface != Some(surface),
        n < s.len() ==> s[n].surface == Some(surface),
    ensures
        with_surface(s, surface) == n,
    decreases s.len(),
{
    if n > 0 {
        assert(s[0].surface != Some(surface));
        let t = s.skip(1);
        assert forall|k: int| 0 <= k < n - 1 implies (#[trigger] t[k]).surface != Some(
            surface,
        ) by {
            assert(t[k] == s[k + 1]);
        }
        lemma_with_surface_is(t, surface, n - 1);
    }
}

pub proof fn lemma_entry_is(s: Seq<MetaEntry>, id: u64, n: int)
    requires
        0 <= n <= s.len(),
        forall|k: int| 0 <= k < n ==> (#[trigger] s[k]).id != id,
        n < s.len() ==> s[n].id == id,
    ensures
        entry_of(s, id) == n,
    decreases s.len(),
{
    if n > 0 {
        assert(s[0].id != id);
        let t = s.skip(1);
        assert forall|k: int| 0 <= k < n - 1 implies (#[trigger] t[k]).id != id by {
            assert(t[k] == s[k + 1]);
        }
        lemma_entry_is(t, id, n - 1);
    }
}

pub proof fn lemma_pin_is(s: Seq<PinnedSurface>, app_id: Seq<char>, n: int)
    requires
        0 <= n <= s.len(),
        forall|k: int| 0 <= k < n ==> (#[trigger] s[k]).app_id@ != app_id,
        n < s.len() ==> s[n].app_id@ == app_id,
    ensures
        pin_of(s, app_id) == n,
    decreases s.len(),
{
    if n > 0 {
        assert(s[0].app_id@ != app_id);
        let t = s.skip(1);
        assert forall|k: int| 0 <= k < n - 1 implies (#[trigger] t[k]).app_id@ != app_id by {
            assert(t[k] == s[k + 1]);
        }
        lemma_pin_is(t, app_id, n - 1);
    }
}

fn find_id(shown: &Vec<Shown>, id: u64) -> (r: Option<usize>)
    ensures
        match r {
            Some(i) => i == with_id(shown@, id) && i < shown.len(),
            None => with_id(shown@, id) == shown.len(),
        },
{
    let mut i: usize = 0;
    while i < shown.len()
        invariant
            i <= shown.len(),
            forall|k: int|
                0 <= k < i ==> !((#[trigger] shown@[k]).surface is Some && shown@[k].id == id),
        decreases shown.len() - i,
    {
        if shown[i].surface.is_some() && shown[i].id == id {
            proof {
                lemma_with_id_is(shown@, id, i as int);
            }
            return Some(i);
        }
        i = i + 1;
    }
    proof {
        lemma_with_id_is(shown@, id, shown.len() as int);
    }
    None
}

fn find_shown_surface(shown: &Vec<Shown>, surface: u64) -> (r: Option<usize>)
    ensures
        match r {
            Some(i) => i == with_surface(shown@, surface) && i < shown.len(),
            None => with_surface(shown@, surface) == shown.len(),
        },
{
    let mut i: usize = 0;
    while i < shown.len()
        invariant
            i <= shown.len(),
            forall|k: int| 0 <= k < i ==> (#[trigger] shown@[k]).surface != Some(surface),
        decreases shown.len() - i,
    {
        let found = match shown[i].surface {
            Some(s) => s == surface,
            None => false,
        };
        if found {
            proof {
                lemma_with_surface_is(shown@, surface, i as int);
            }
            return Some(i);
        }
        i = i + 1;
    }
    proof {
        lemma_with_surface_is(shown@, surface, shown.len() as int);
    }
    None
}

fn find_entry(metas: &Vec<MetaEntry>, id: u64) -> (r: Option<usize>)
    ensures
        match r {
            Some(i) => i == entry_of(metas@, id) && i < metas.len() && metas@[i as int].id == id,
            None => entry_of(metas@, id) == metas.len(),
        },
{
    let mut i: usize = 0;
    while i < metas.len()
        invariant
            i <= metas.len(),
            forall|k: int| 0 <= k < i ==> (#[trigger] metas@[k]).id != id,
        decreases metas.len() - i,
    {
        if metas[i].id == id {
            proof {
                lemma_entry_is(metas@, id, i as int);
            }
            return Some(i);
        }
        i = i + 1;
    }
    proof {
        lemma_entry_is(metas@, id, metas.len() as int);
    }
    None
}

fn take_out(shown: &Vec<Shown>, w: u64) -> (r: Vec<Shown>)
    ensures
        r@ == taken(shown@, w),
{
    let mut out: Vec<Shown> = Vec::new();
    let mut i: usize = 0;
    assert(shown@.take(0) =~= Seq::empty());
    while i < shown.len()
        invariant
            i <= shown.len(),
            out@ == taken(shown@.take(i as int), w),
        decreases shown.len() - i,
    {
        proof {
            let next = shown@.take(i as int + 1);
            assert(next.drop_last() =~= shown@.take(i as int));
            assert(next.last() == shown@[i as int]);
        }
        if shown[i].window != w {
            out.push(shown[i]);
        }
        i = i + 1;
    }
    assert(shown@.take(shown.len() as int) =~= shown@);
    out
}

/// The workspaces that are tiled from the start: all, or none.
fn initial_tiling(count: usize, tiled: bool) -> (r: HashSet<usize>)
    ensures
        forall|w: usize| r@.contains(w) <==> tiled && w < count,
{
    let mut set: HashSet<usize> = HashSet::new();
    if tiled {
        let mut i: usize = 0;
        while i < count
            invariant
                i <= count,
                forall|w: usize| set@.contains(w) <==> w < i,
            decreases count - i,
        {
            set.insert(i);
            i = i + 1;
        }
    }
    set
}

impl BlueState {
    /// A session without windows and outputs, as a configuration has it.
    pub fn new_with_extern_name(
        config: Config,
        socket_name: String,
        extern_name: Option<String>,
    ) -> (r: BlueState)
        ensures
            r@.sound(),
            r@.count == (if config.workspaces.count < 1 {
                1
            } else {
                config.workspaces.count
            }),
            r@.current == 0,
            forall|w: usize|
                r@.tiling.contains(w) <==> config.general.default_tiling && w < r@.count,
            r@.shown.len() == 0,
            r@.metas.len() == 0,
            r@.outputs.len() == 0,
            r@.pinned.len() == 0,
            r@.requests.len() == 0,
            r@.config == config,
            r@.panels == (Panels {
                show_switcher: false,
                switcher_index: 0,
                super_pressed: false,
                super_used: false,
                start_menu_visible: false,
                fullscreen_menu_visible: false,
            }),
            r.socket_name == socket_name,
            r.extern_name == extern_name,
            r.wallpaper.path is None,
            !r.pending_wallpaper_reload,
            r.running,
            !r.should_exit,
    {
        let count: usize = if config.workspaces.count < 1 {
            1
        } else {
            config.workspaces.count
        };
        let tiling = initial_tiling(count, config.general.default_tiling);
        BlueState {
            shown: Vec::new(),
            window_meta: Vec::new(),
            outputs: Vec::new(),
            current_workspace: 0,
            workspace_count: count,
            tiling_workspaces: tiling,
            pinned_surfaces: Vec::new(),
            panels: Panels {
                show_switcher: false,
                switcher_index: 0,
                super_pressed: false,
                super_used: false,
                start_menu_visible: false,
                fullscreen_menu_visible: false,
            },
            config,
            requests: Vec::new(),
            socket_name,
            extern_name,
            wallpaper: WallpaperState::default(),
            pending_wallpaper_reload: false,
            running: true,
            should_exit: false,
        }
    }

    pub fn socket_name(&self) -> (r: &str)
        ensures
            r@ == self.socket_name@,
    {
        self.socket_name.as_str()
    }

    /// Whether the session is to end.
    pub fn should_exit(&self) -> (r: bool)
        ensures
            r == (self.should_exit || !self.running),
    {
        self.should_exit || !self.running
    }

    /// What is asked of the display server, in order; nothing of it is kept.
    pub fn take_requests(&mut self) -> (r: Vec<Request>)
        ensures
            r@ == old(self)@.requests,
            final(self)@ == (Desktop { requests: Seq::empty(), ..old(self)@ }),
            same_rest(*final(self), *old(self)),
    {
        let mut out: Vec<Request> = Vec::new();
        out.append(&mut self.requests);
        assert(out@ =~= old(self)@.requests);
        out
    }

    /// The window with a surface.
    pub fn window_by_surface(&self, surface: u64) -> (r: Option<Shown>)
        ensures
            match r {
                Some(w) => with_surface(self@.shown, surface) < self@.shown.len() && w
                    == self@.shown[with_surface(self@.shown, surface) as int],
                None => with_surface(self@.shown, surface) == self@.shown.len(),
            },
    {
        match find_shown_surface(&self.shown, surface) {
            Some(i) => Some(self.shown[i]),
            None => None,
        }
    }

    /// The window whose surface has a number.
    pub fn window_by_id(&self, id: u64) -> (r: Option<Shown>)
        ensures
            match r {
                Some(w) => with_id(self@.shown, id) < self@.shown.len() && w
                    == self@.shown[with_id(self@.shown, id) as int],
                None => with_id(self@.shown, id) == self@.shown.len(),
            },
    {
        match find_id(&self.shown, id) {
            Some(i) => Some(self.shown[i]),
            None => None,
        }
    }

    /// The number of a window: that of its surface, and zero without one.
    pub fn window_id(win: &Shown) -> (r: u64)
        ensures
            r == win.id,
    {
        win.id
    }

    fn show(&mut self, w: Shown, location: Point, activate: bool)
        ensures
            final(self)@ == old(self)@.show(w, location, activate),
            same_rest(*final(self), *old(self)),
    {
        self.shown = take_out(&self.shown, w.window);
        self.shown.push(Shown { location, ..w });
        self.requests.push(Request::Show { window: w.window, location, activate });
    }

    fn raise(&mut self, w: Shown)
        ensures
            final(self)@ == old(self)@.raise(w),
            same_rest(*final(self), *old(self)),
    {
        self.shown = take_out(&self.shown, w.window);
        self.shown.push(w);
        self.requests.push(Request::Raise { window: w.window });
    }

    pub(crate) fn activate_window(&mut self, w: Shown)
        ensures
            final(self)@ == old(self)@.activated(w),
            same_rest(*final(self), *old(self)),
    {
        self.raise(w);
        if w.surface.is_some() {
            self.requests.push(Request::Focus { surface: w.surface });
        }
    }

    pub fn toggle_start_menu(&mut self)
        ensures
            final(self)@ == (Desktop {
                panels: Panels {
                    start_menu_visible: !old(self)@.panels.start_menu_visible,
                    ..old(self)@.panels
                },
                ..old(self)@
            }),
            same_rest(*final(self), *old(self)),
    {
        self.panels = Panels {
            start_menu_visible: !self.panels.start_menu_visible,
            ..self.panels
        };
    }

    pub fn toggle_fullscreen_menu(&mut self)
        ensures
            final(self)@ == (Desktop {
                panels: Panels {
                    fullscreen_menu_visible: !old(self)@.panels.fullscreen_menu_visible,
                    ..old(self)@.panels
                },
                ..old(self)@
            }),
            same_rest(*final(self), *old(self)),
    {
        self.panels = Panels {
            fullscreen_menu_visible: !self.panels.fullscreen_menu_visible,
            ..self.panels
        };
    }

    /// Moves the selection of the switcher.
    pub fn cycle_switcher(&mut self, forward: bool)
        ensures
            final(self)@ == old(self)@.cycled(forward),
            same_rest(*final(self), *old(self)),
    {
        let count: usize = self.shown.len();
        if count == 0 {
            return;
        }
        let i: u128 = self.panels.switcher_index as u128;
        let n: u128 = count as u128;
        let next: u128 = if forward {
            (i + 1) % n
        } else {
            (i + n - 1) % n
        };
        assert(next < n);
        self.panels = Panels { switcher_index: next as usize, ..self.panels };
    }

    /// Takes the selection of the switcher.
    pub fn apply_switcher_selection(&mut self)
        ensures
            final(self)@ == old(self)@.selected(),
            same_rest(*final(self), *old(self)),
    {
        let i: usize = self.panels.switcher_index;
        if i < self.shown.len() {
            self.activate_window(self.shown[i]);
        }
        self.panels = Panels { show_switcher: false, ..self.panels };
    }

    /// Opens the switcher, or moves its selection on.
    pub fn advance_switcher(&mut self)
        ensures
            final(self)@ == old(self)@.switcher_advanced(),
            same_rest(*final(self), *old(self)),
    {
        if self.panels.show_switcher {
            self.cycle_switcher(true);
        } else {
            self.panels = Panels { show_switcher: true, switcher_index: 0, ..self.panels };
        }
    }

    pub fn is_tiling(&self, workspace: usize) -> (r: bool)
        ensures
            r == self@.tiling.contains(workspace),
    {
        self.tiling_workspaces.contains(&workspace)
    }

    pub fn primary_output_geometry(&self) -> (r: Option<Rectangle>)
        ensures
            r == self@.primary_output(),
    {
        if self.outputs.len() > 0 {
            self.outputs[0].geometry
        } else {
            None
        }
    }

    fn windows_to_tile(&self, workspace: usize) -> (r: Vec<Shown>)
        ensures
            r@ == self@.tiled_windows(workspace, self@.shown.len()),
    {
        let mut out: Vec<Shown> = Vec::new();
        let mut i: usize = 0;
        while i < self.shown.len()
            invariant
                i <= self.shown.len(),
                out@ == self@.tiled_windows(workspace, i as nat),
            decreases self.shown.len() - i,
        {
            let w = self.shown[i];
            match find_entry(&self.window_meta, w.id) {
                Some(k) => {
                    let m = &self.window_meta[k].meta;
                    if m.workspace == workspace && !m.is_floating && !m.is_minimized {
                        out.push(w);
                    }
                },
                None => {},
            }
            i = i + 1;
        }
        out
    }

    fn put(&mut self, w: Shown, slot: Rect)
        ensures
            final(self)@ == old(self)@.put(w, slot),
            same_rest(*final(self), *old(self)),
    {
        let size = Size { w: max_i32(slot.w, 1), h: max_i32(slot.h, 1) };
        if !w.is_x11 {
            self.requests.push(Request::Configure { window: w.window, size });
        }
        self.show(w, Point { x: slot.x, y: slot.y }, false);
    }

    /// Tiles a workspace.
    pub fn apply_tiling_layout(&mut self, workspace: usize)
        ensures
            final(self)@ == old(self)@.tiled(workspace),
            same_rest(*final(self), *old(self)),
    {
        if !self.is_tiling(workspace) {
            return;
        }
        let area = match self.primary_output_geometry() {
            Some(area) => area,
            None => {
                return;
            },
        };
        let windows = self.windows_to_tile(workspace);
        let config = TilingConfig {
            master_ratio: Ratio { bits: STANDARD },
            gaps_px: self.config.general.gaps_px as i32,
            stack_side: StackSide::Right,
        };
        let rects = compute_layout(
            Rect::new(area.loc.x, area.loc.y, area.size.w, area.size.h),
            windows.len(),
            &config,
        );
        let ghost start = self@;
        let mut i: usize = 0;
        while i < windows.len()
            invariant
                i <= windows.len(),
                rects.len() == windows.len(),
                forall|k: int|
                    0 <= k < rects.len() ==> #[trigger] rects@[k] == start.slot(
                        area,
                        windows@.len() as int,
                        k,
                    ),
                self@ == start.put_all(windows@, area, i as nat),
                same_rest(*self, *old(self)),
            decreases windows.len() - i,
        {
            self.put(windows[i], rects[i]);
            i = i + 1;
        }
    }

    /// Switches to a workspace, or to the last one where there are not so many.
    pub fn switch_workspace(&mut self, index: usize)
        requires
            old(self)@.count >= 1,
        ensures
            final(self)@ == old(self)@.switched(index),
            same_rest(*final(self), *old(self)),
    {
        let last: usize = self.workspace_count - 1;
        let next: usize = if index > last {
            last
        } else {
            index
        };
        let previous: usize = self.current_workspace;
        self.current_workspace = next;
        if previous != next {
            self.requests.push(Request::WorkspaceSwitched { from: previous, to: next });
        }
        self.apply_tiling_layout(next);
    }

    pub fn move_window_to_workspace(&mut self, id: u64, workspace: usize)
        requires
            old(self)@.count >= 1,
        ensures
            final(self)@ == old(self)@.moved(id, workspace),
            same_rest(*final(self), *old(self)),
    {
        let last: usize = self.workspace_count - 1;
        let target: usize = if workspace > last {
            last
        } else {
            workspace
        };
        match find_entry(&self.window_meta, id) {
            Some(i) => {
                let previous: usize = self.window_meta[i].meta.workspace;
                self.window_meta[i].meta.workspace = target;
                assert(self@ =~= old(self)@.with_meta(
                    id,
                    WindowMeta { workspace: target, ..old(self)@.meta(id) },
                ));
                self.apply_tiling_layout(previous);
            },
            None => {},
        }
        self.apply_tiling_layout(target);
    }

    pub fn set_tiling(&mut self, workspace: usize, enabled: bool)
        ensures
            final(self)@ == old(self)@.tiling_set(workspace, enabled),
            same_rest(*final(self), *old(self)),
    {
        if enabled {
            self.tiling_workspaces.insert(workspace);
        } else {
            self.tiling_workspaces.remove(&workspace);
        }
        self.apply_tiling_layout(workspace);
    }

    /// Pins the surfaces of an application to an edge; an earlier pin is replaced.
    pub fn pin_surface(
        &mut self,
        app_id: String,
        edge: PinnedEdge,
        thickness_px: u32,
        owner_pid: Option<i32>,
    )
        ensures
            final(self)@ == old(self)@.pinned_to(
                PinnedSurface { app_id, edge, thickness_px, owner_pid },
            ),
            same_rest(*final(self), *old(self)),
    {
        let mut i: usize = 0;
        while i < self.pinned_surfaces.len()
            invariant
                i <= self.pinned_surfaces.len(),
                *self == *old(self),
                forall|k: int|
                    0 <= k < i ==> (#[trigger] self.pinned_surfaces@[k]).app_id@ != app_id@,
            decreases self.pinned_surfaces.len() - i,
        {
            if text_eq(self.pinned_surfaces[i].app_id.as_str(), app_id.as_str()) {
                proof {
                    lemma_pin_is(self.pinned_surfaces@, app_id@, i as int);
                }
                self.pinned_surfaces[i] = PinnedSurface { app_id, edge, thickness_px, owner_pid };
                return;
            }
            i = i + 1;
        }
        proof {
            lemma_pin_is(self.pinned_surfaces@, app_id@, self.pinned_surfaces@.len() as int);
        }
        self.pinned_surfaces.push(PinnedSurface { app_id, edge, thickness_px, owner_pid });
    }

    pub fn focus_window_by_id(&mut self, id: u64)
        ensures
            final(self)@ == old(self)@.focused(id),
            same_rest(*final(self), *old(self)),
    {
        if let Some(w) = self.window_by_id(id) {
            self.activate_window(w);
        }
    }

    /// Asks a window's client to close it.
    pub fn close_window_by_id(&mut self, id: u64)
        ensures
            final(self)@ == old(self)@.closed(id),
            same_rest(*final(self), *old(self)),
    {
        if let Some(w) = self.window_by_id(id) {
            if !w.is_x11 {
                self.requests.push(Request::Close { window: w.window });
            }
        }
    }

    fn set_minimized(&mut self, id: u64, on: bool)
        ensures
            final(self)@ == old(self)@.minimized_set(id, on),
            same_rest(*final(self), *old(self)),
    {
        if let Some(i) = find_entry(&self.window_meta, id) {
            self.window_meta[i].meta.is_minimized = on;
            assert(self@ =~= old(self)@.minimized_set(id, on));
        }
    }

    pub fn minimize_window_by_id(&mut self, id: u64)
        ensures
            final(self)@ == old(self)@.minimized_set(id, true),
            same_rest(*final(self), *old(self)),
    {
        self.set_minimized(id, true);
    }

    pub fn unminimize_window_by_id(&mut self, id: u64)
        ensures
            final(self)@ == old(self)@.minimized_set(id, false).focused(id),
            same_rest(*final(self), *old(self)),
    {
        self.set_minimized(id, false);
        self.focus_window_by_id(id);
    }

    pub fn maximize_window_by_id(
        &mut self,
        id: u64,
        maximized: bool,
        output_geo: Option<Rectangle>,
    )
        ensures
            final(self)@ == old(self)@.maximized(id, maximized, output_geo),
            same_rest(*final(self), *old(self)),
    {
        let w = match self.window_by_id(id) {
            Some(w) => w,
            None => {
                return;
            },
        };
        let ghost before = self@;
        if let Some(i) = find_entry(&self.window_meta, id) {
            let floating = self.window_meta[i].meta.is_floating;
            self.window_meta[i].meta.is_floating = floating && !maximized;
            self.window_meta[i].meta.is_maximized = maximized;
            assert(self@ =~= before.with_meta(
                id,
                WindowMeta {
                    is_floating: before.meta(id).is_floating && !maximized,
                    is_maximized: maximized,
                    ..before.meta(id)
                },
            ));
        }
        if w.is_x11 {
            return;
        }
        let size = if !maximized {
            SizeHint::Free
        } else {
            match output_geo {
                Some(r) => SizeHint::To(r.size),
                None => SizeHint::Keep,
            }
        };
        self.requests.push(Request::Maximize { window: w.window, maximized, size });
        if maximized {
            if let Some(r) = output_geo {
                self.show(w, r.loc, true);
            }
        }
    }

    pub fn toggle_floating_by_id(&mut self, id: u64)
        ensures
            final(self)@ == old(self)@.floating_toggled(id),
            same_rest(*final(self), *old(self)),
    {
        if let Some(i) = find_entry(&self.window_meta, id) {
            let floating = self.window_meta[i].meta.is_floating;
            self.window_meta[i].meta.is_floating = !floating;
            assert(self@ =~= old(self)@.floating_toggled(id));
        }
    }

    /// A client has a new window. Its place is chosen here, whatever `w` says of it.
    pub fn new_toplevel(&mut self, w: Shown)
        ensures
            exists|blank: WindowMeta|
                #![trigger old(self)@.opened(w, blank)]
                blank.is_blank() && final(self)@ == old(self)@.opened(w, blank),
            same_rest(*final(self), *old(self)),
    {
        let count: i128 = self.shown.len() as i128;
        let location = Point {
            x: sat_i128(count * 30 + 150),
            y: sat_i128(count * 30 + 80),
        };
        let ghost before = self@;
        self.show(w, location, true);
        let blank = WindowMeta::default();
        let ghost b = blank;
        let workspace: usize = self.current_workspace;
        let entry = MetaEntry { id: w.id, meta: WindowMeta { workspace, ..blank } };
        match find_entry(&self.window_meta, w.id) {
            Some(i) => {
                self.window_meta[i] = entry;
            },
            None => {
                self.window_meta.push(entry);
            },
        }
        self.requests.push(Request::Mapped { id: w.id });
        self.apply_tiling_layout(workspace);
        assert(self@ == before.opened(w, b));
    }

    /// A client's window is gone.
    pub fn toplevel_destroyed(&mut self, id: u64, surface: u64)
        ensures
            final(self)@ == old(self)@.destroyed(id, surface),
            same_rest(*final(self), *old(self)),
    {
        if let Some(i) = find_entry(&self.window_meta, id) {
            self.window_meta.remove(i);
        }
        self.requests.push(Request::Unmapped { id });
        if let Some(k) = find_shown_surface(&self.shown, surface) {
            let w: u64 = self.shown[k].window;
            self.shown = take_out(&self.shown, w);
            self.requests.push(Request::Hide { window: w });
        }
    }
}

/// A window as the panels are told of it.
#[derive(Debug)]
pub struct WindowInfo {
    pub id: u64,
    pub title: String,
    pub app_id: String,
    pub x: i32,
    pub y: i32,
    pub width: u32,
    pub height: u32,
    pub is_fullscreen: bool,
    pub is_minimized: bool,
    pub workspace: u32,
}

pub open spec fn info_is(d: Desktop, w: Shown, r: WindowInfo) -> bool {
    &&& r.id == w.id
    &&& r.title@ == d.title_of(w.id)
    &&& r.app_id@ == d.app_id_of(w.id)
    &&& r.x == w.location.x
    &&& r.y == w.location.y
    &&& r.width == w.size.w as u32
    &&& r.height == w.size.h as u32
    &&& r.is_fullscreen == (d.knows(w.id) && d.meta(w.id).is_fullscreen)
    &&& r.is_minimized == (d.knows(w.id) && d.meta(w.id).is_minimized)
    &&& r.workspace == d.workspace_of(w.id) as u32
}

pub open spec fn summary_is(d: Desktop, w: Shown, r: WindowSummary) -> bool {
    &&& r.id == w.id
    &&& r.title@ == d.title_of(w.id)
    &&& r.app_id@ == d.app_id_of(w.id)
    &&& r.workspace == d.workspace_of(w.id)
    &&& r.is_fullscreen == (d.knows(w.id) && d.meta(w.id).is_fullscreen)
    &&& r.is_minimized == (d.knows(w.id) && d.meta(w.id).is_minimized)
    &&& r.is_floating == (d.knows(w.id) && d.meta(w.id).is_floating)
    &&& r.is_maximized == (d.knows(w.id) && d.meta(w.id).is_maximized)
    &&& r.is_xwayland == w.is_x11
}

impl BlueState {
    /// Whether a window is known to fill the screen.
    pub fn is_fullscreen(&self, id: u64) -> (r: bool)
        ensures
            r == (self@.knows(id) && self@.meta(id).is_fullscreen),
    {
        match find_entry(&self.window_meta, id) {
            Some(i) => self.window_meta[i].meta.is_fullscreen,
            None => false,
        }
    }

    fn meta_of(&self, id: u64) -> (r: WindowMeta)
        ensures
            self@.knows(id) ==> r == self@.meta(id),
            !self@.knows(id) ==> r.is_blank(),
    {
        match find_entry(&self.window_meta, id) {
            Some(i) => self.window_meta[i].meta.clone(),
            None => WindowMeta::default(),
        }
    }

    /// Every shown window, from the lowest to the highest, for the panels.
    pub fn ipc_windows(&self) -> (r: Vec<WindowInfo>)
        ensures
            r@.len() == self@.shown.len(),
            forall|i: int|
                0 <= i < r@.len() ==> info_is(self@, self@.shown[i], #[trigger] r@[i]),
    {
        let mut out: Vec<WindowInfo> = Vec::new();
        let mut i: usize = 0;
        while i < self.shown.len()
            invariant
                i <= self.shown.len(),
                out.len() == i,
                forall|k: int|
                    0 <= k < i ==> info_is(self@, self@.shown[k], #[trigger] out@[k]),
            decreases self.shown.len() - i,
        {
            let w = self.shown[i];
            let m = self.meta_of(w.id);
            out.push(
                WindowInfo {
                    id: w.id,
                    title: m.title,
                    app_id: m.app_id,
                    x: w.location.x,
                    y: w.location.y,
                    width: w.size.w as u32,
                    height: w.size.h as u32,
                    is_fullscreen: m.is_fullscreen,
                    is_minimized: m.is_minimized,
                    workspace: m.workspace as u32,
                },
            );
            i = i + 1;
        }
        out
    }

    /// Every shown window, from the lowest to the highest.
    pub fn window_summaries(&self) -> (r: Vec<WindowSummary>)
        ensures
            r@.len() == self@.shown.len(),
            forall|i: int|
                0 <= i < r@.len() ==> summary_is(self@, self@.shown[i], #[trigger] r@[i]),
    {
        let mut out: Vec<WindowSummary> = Vec::new();
        let mut i: usize = 0;
        while i < self.shown.len()
            invariant
                i <= self.shown.len(),
                out.len() == i,
                forall|k: int|
                    0 <= k < i ==> summary_is(self@, self@.shown[k], #[trigger] out@[k]),
            decreases self.shown.len() - i,
        {
            let w = self.shown[i];
            let m = self.meta_of(w.id);
            out.push(
                WindowSummary {
                    id: w.id,
                    title: m.title,
                    app_id: m.app_id,
                    workspace: m.workspace,
                    is_fullscreen: m.is_fullscreen,
                    is_minimized: m.is_minimized,
                    is_floating: m.is_floating,
                    is_maximized: m.is_maximized,
                    is_xwayland: w.is_x11,
                },
            );
            i = i + 1;
        }
        out
    }

    fn count_on(&self, workspace: usize) -> (r: usize)
        ensures
            r == entries_on(self@.metas, workspace, self@.metas.len()),
    {
        let mut count: usize = 0;
        let mut i: usize = 0;
        while i < self.window_meta.len()
            invariant
                i <= self.window_meta.len(),
                count <= i,
                count == entries_on(self@.metas, workspace, i as nat),
            decreases self.window_meta.len() - i,
        {
            if self.window_meta[i].meta.workspace == workspace {
                count = count + 1;
            }
            i = i + 1;
        }
        count
    }

    /// Every workspace, with how many windows have an entry on it.
    pub fn workspace_summaries(&self) -> (r: Vec<WorkspaceSummary>)
        ensures
            r@ == Seq::new(
                self@.count as nat,
                |i: int|
                    WorkspaceSummary {
                        id: i as usize,
                        window_count: entries_on(
                            self@.metas,
                            i as usize,
                            self@.metas.len(),
                        ) as usize,
                        is_tiling: self@.tiling.contains(i as usize),
                        is_active: i == self@.current,
                    },
            ),
    {
        let mut out: Vec<WorkspaceSummary> = Vec::new();
        let mut id: usize = 0;
        while id < self.workspace_count
            invariant
                id <= self.workspace_count,
                out.len() == id,
                forall|k: int|
                    0 <= k < id ==> #[trigger] out@[k] == (WorkspaceSummary {
                        id: k as usize,
                        window_count: entries_on(
                            self@.metas,
                            k as usize,
                            self@.metas.len(),
                        ) as usize,
                        is_tiling: self@.tiling.contains(k as usize),
                        is_active: k == self@.current,
                    }),
            decreases self.workspace_count - id,
        {
            let window_count: usize = self.count_on(id);
            out.push(
                WorkspaceSummary {
                    id,
                    window_count,
                    is_tiling: self.is_tiling(id),
                    is_active: id == self.current_workspace,
                },
            );
            id = id + 1;
        }
        assert(out@ =~= Seq::new(
            self@.count as nat,
            |i: int|
                WorkspaceSummary {
                    id: i as usize,
                    window_count: entries_on(self@.metas, i as usize, self@.metas.len()) as usize,
                    is_tiling: self@.tiling.contains(i as usize),
                    is_active: i == self@.current,
                },
        ));
        out
    }

    /// Every output; the first one is the primary.
    pub fn output_summaries(&self) -> (r: Vec<OutputSummary>)
        ensures
            r@ == Seq::new(self@.outputs.len(), |i: int| output_summary(self@.outputs[i], i)),
    {
        let mut out: Vec<OutputSummary> = Vec::new();
        let mut i: usize = 0;
        while i < self.outputs.len()
            invariant
                i <= self.outputs.len(),
                out.len() == i,
                forall|k: int|
                    0 <= k < i ==> #[trigger] out@[k] == output_summary(self@.outputs[k], k),
            decreases self.outputs.len() - i,
        {
            let o = &self.outputs[i];
            let loc = match o.geometry {
                Some(g) => g.loc,
                None => Point { x: 0, y: 0 },
            };
            let (size, refresh_mhz) = match o.mode {
                Some(m) => (m.size, m.refresh),
                None => (Size { w: 0, h: 0 }, 0),
            };
            out.push(
                OutputSummary {
                    name: o.name.clone(),
                    x: loc.x,
                    y: loc.y,
                    width: size.w,
                    height: size.h,
                    refresh_mhz,
                    scale_bits: o.scale_bits,
                    is_primary: i == 0,
                },
            );
            i = i + 1;
        }
        assert(out@ =~= Seq::new(
            self@.outputs.len(),
            |i: int| output_summary(self@.outputs[i], i),
        ));
        out
    }
}

/// An output at an index: at its place, and as large as its mode.
pub open spec fn output_summary(o: DesktopOutput, i: int) -> OutputSummary {
    let loc = match o.geometry {
        Some(g) => g.loc,
        None => Point { x: 0, y: 0 },
    };
    OutputSummary {
        name: o.name,
        x: loc.x,
        y: loc.y,
        width: match o.mode {
            Some(m) => m.size.w,
            None => 0,
        },
        height: match o.mode {
            Some(m) => m.size.h,
            None => 0,
        },
        refresh_mhz: match o.mode {
            Some(m) => m.refresh,
            None => 0,
        },
        scale_bits: o.scale_bits,
        is_primary: i == 0,
    }
}

} // verus!
