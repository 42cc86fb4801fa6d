//! The compositor's state and its window management.
use std::collections::HashSet;

use vstd::prelude::*;

use crate::desk::{
    master_width, pin_for, pin_named, pin_owned, tile, unpinned, CompositorConfig, Desk,
    KeyboardLayout, OutputState, Pin, PinnedEdge,
};
use crate::geometry::{
    at_least, make_rectangle, max_i32, quotient, sat_i128, Point, Rectangle, Size,
};
use crate::space::Space;
use crate::text::text_eq;
use crate::window::{
    find_rank, find_surface, find_window, position, surface_position, Effect, ManagedWindow,
    NewWindow,
};

verus! {

broadcast use vstd::std_specs::hash::group_hash_axioms;

/// The pins that a list holds.
pub open spec fn pins(s: Seq<(String, Pin)>) -> Seq<(Seq<char>, Pin)> {
    s.map_values(|e: (String, Pin)| (e.0@, e.1))
}

fn find_pin(list: &Vec<(String, Pin)>, app_id: &str, pid: Option<i32>) -> (r: Option<Pin>)
    ensures
        r == pin_for(pins(list@), app_id@, pid),
{
    let ghost all = pins(list@);
    let mut i: usize = list.len();
    assert(all.take(i as int) =~= all);
    while i > 0
        invariant
            i <= list.len(),
            all == pins(list@),
            pin_named(all, app_id@) == pin_named(all.take(i as int), app_id@),
        decreases i,
    {
        let ghost cur = all.take(i as int);
        assert(cur.drop_last() =~= all.take(i as int - 1));
        assert(cur.last() == all[i as int - 1]);
        if text_eq(list[i - 1].0.as_str(), app_id) {
            return Some(list[i - 1].1);
        }
        i = i - 1;
    }
    let owner: i32 = match pid {
        Some(p) => p,
        None => {
            return None;
        },
    };
    let mut i: usize = list.len();
    while i > 0
        invariant
            i <= list.len(),
            all == pins(list@),
            pid == Some(owner),
            pin_named(all, app_id@) is None,
            pin_owned(all, pid) == pin_owned(all.take(i as int), pid),
        decreases i,
    {
        let ghost cur = all.take(i as int);
        assert(cur.drop_last() =~= all.take(i as int - 1));
        assert(cur.last() == all[i as int - 1]);
        if let Some(o) = list[i - 1].1.owner {
            if o == owner {
                return Some(list[i - 1].1);
            }
        }
        i = i - 1;
    }
    None
}

fn without_pin(list: &Vec<(String, Pin)>, app_id: &str) -> (r: Vec<(String, Pin)>)
    ensures
        pins(r@) == unpinned(pins(list@), app_id@),
{
    let ghost all = pins(list@);
    let mut out: Vec<(String, Pin)> = Vec::new();
    let mut i: usize = 0;
    assert(all.take(0) =~= Seq::empty());
    assert(pins(out@) =~= Seq::empty());
    while i < list.len()
        invariant
            i <= list.len(),
            all == pins(list@),
            pins(out@) == unpinned(all.take(i as int), app_id@),
        decreases list.len() - i,
    {
        let ghost next = all.take(i as int + 1);
        assert(next.drop_last() =~= all.take(i as int));
        assert(next.last() == all[i as int]);
        if !text_eq(list[i].0.as_str(), app_id) {
            let ghost kept = out@;
            out.push((list[i].0.clone(), list[i].1));
            assert(pins(out@) =~= pins(kept).push(all[i as int]));
        }
        i = i + 1;
    }
    assert(all.take(list.len() as int) =~= all);
    out
}

/// The compositor. What it asks of the display server is kept in `effects` until it is
/// fetched.
#[derive(Debug)]
pub struct HwdeState {
    pub windows: Vec<ManagedWindow>,
    pub space: Space,
    pub outputs: Vec<OutputState>,
    pub next_window_id: u64,
    pub active_workspace: u32,
    pub focused_window: Option<u64>,
    pub tiling_enabled: HashSet<u32>,
    pub floating_windows: HashSet<u64>,
    pub pinned_surfaces: Vec<(String, Pin)>,
    pub config: CompositorConfig,
    pub keyboard: KeyboardLayout,
    pub running: bool,
    pub wallpaper: String,
    pub pending_wallpaper_reload: bool,
    pub effects: Vec<Effect>,
}

impl View for HwdeState {
    type V = Desk;

    open spec fn view(&self) -> Desk {
        Desk {
            windows: self.windows@,
            space: self.space@,
            outputs: self.outputs@,
            next_id: self.next_window_id,
            active: self.active_workspace,
            focused: self.focused_window,
            tiling: self.tiling_enabled@,
            floating: self.floating_windows@,
            pinned: pins(self.pinned_surfaces@),
            config: self.config,
            keyboard: self.keyboard@,
            running: self.running,
            wallpaper: self.wallpaper@,
            reload_wallpaper: self.pending_wallpaper_reload,
            effects: self.effects@,
        }
    }
}

/// The tile of window `i` of `count`.
fn compute_tile(area: Rectangle, gap: i32, master: i32, count: usize, i: usize) -> (r: Rectangle)
    requires
        0 <= gap,
        i < count,
    ensures
        r == tile(area, gap as int, master as int, count as int, i as int),
{
    let x: i64 = area.loc.x as i64;
    let y: i64 = area.loc.y as i64;
    let w: i64 = area.size.w as i64;
    let h: i64 = area.size.h as i64;
    let g: i64 = gap as i64;
    let m: i64 = master as i64;
    if i == 0 {
        let half: i64 = if count > 1 {
            g / 2
        } else {
            0
        };
        let tw: i64 = m - g - half;
        let th: i64 = h - 2 * g;
        make_rectangle(
            x + g,
            y + g,
            if tw < 1 {
                1
            } else {
                tw
            },
            if th < 1 {
                1
            } else {
                th
            },
        )
    } else {
        let stack: i128 = count as i128 - 1;
        assert(0 <= g * (stack + 1) <= 0x8000_0000 * 0x1_0000_0000_0000_0000) by (nonlinear_arith)
            requires
                0 <= g < 0x8000_0000,
                1 <= stack <= 0x1_0000_0000_0000_0000 - 1,
        ;
        let free: i128 = h as i128 - g as i128 * (stack + 1);
        let slot: i128 = if free < stack {
            1
        } else {
            free / stack
        };
        proof {
            if free < 0 {
                assert((-free) / (stack as int) >= 0) by (nonlinear_arith)
                    requires
                        free < 0,
                        stack >= 1,
                ;
            } else if free < stack {
                assert((free as int) / (stack as int) == 0) by (nonlinear_arith)
                    requires
                        0 <= free < stack,
                ;
            } else {
                assert(1 <= (free as int) / (stack as int) <= free) by (nonlinear_arith)
                    requires
                        1 <= stack <= free,
                ;
            }
            assert(slot == at_least(
                quotient(h - g * (stack + 1), stack as int),
                1,
            ));
            assert(0 <= (i - 1) * (slot + g) <= 0x1_0000_0000_0000_0000 * 0x1_0000_0000)
                by (nonlinear_arith)
                requires
                    1 <= i < 0x1_0000_0000_0000_0000,
                    0 <= slot + g <= 0x1_0000_0000,
            ;
        }
        let ty: i128 = y as i128 + g as i128 + (i as i128 - 1) * (slot + g as i128);
        let tw: i64 = w - m - g - g / 2;
        let r = make_rectangle(
            x + m + g / 2,
            sat_i128(ty) as i64,
            if tw < 1 {
                1
            } else {
                tw
            },
            sat_i128(slot) as i64,
        );
        r
    }
}

impl HwdeState {
    /// A compositor without windows and outputs.
    pub fn new(config: CompositorConfig, keyboard: KeyboardLayout, wallpaper: String) -> (r:
        HwdeState)
        ensures
            r@ == (Desk {
                windows: Seq::empty(),
                space: Seq::empty(),
                outputs: Seq::empty(),
                next_id: 1,
                active: 0,
                focused: None,
                tiling: Set::empty(),
                floating: Set::empty(),
                pinned: Seq::empty(),
                config,
                keyboard: keyboard@,
                running: true,
                wallpaper: wallpaper@,
                reload_wallpaper: false,
                effects: Seq::empty(),
            }),
            r@.sound(),
    {
        HwdeState {
            windows: Vec::new(),
            space: Space::new(),
            outputs: Vec::new(),
            next_window_id: 1,
            active_workspace: 0,
            focused_window: None,
            tiling_enabled: HashSet::new(),
            floating_windows: HashSet::new(),
            pinned_surfaces: Vec::new(),
            config,
            keyboard,
            running: true,
            wallpaper,
            pending_wallpaper_reload: false,
            effects: Vec::new(),
        }
    }

    /// What is asked of the display server, in order; nothing of it is kept.
    pub fn take_effects(&mut self) -> (r: Vec<Effect>)
        ensures
            r@ == old(self)@.effects,
            final(self)@ == (Desk { effects: Seq::empty(), ..old(self)@ }),
    {
        let mut out: Vec<Effect> = Vec::new();
        out.append(&mut self.effects);
        assert(out@ =~= old(self)@.effects);
        out
    }

    pub(crate) fn show(&mut self, w: u64, location: Point, activate: bool)
        ensures
            final(self)@ == old(self)@.show(w, location, activate),
    {
        self.space.map(w, location);
        self.effects.push(Effect::Show { window: w, location, activate });
    }

    pub(crate) fn conceal(&mut self, w: u64)
        ensures
            final(self)@ == old(self)@.conceal(w),
    {
        self.space.unmap(w);
        self.effects.push(Effect::Hide { window: w });
    }

    fn lift(&mut self, w: u64, activate: bool)
        ensures
            final(self)@ == old(self)@.lift(w, activate),
    {
        self.space.raise(w);
        self.effects.push(Effect::Raise { window: w, activate });
    }

    pub fn primary_output_geometry(&self) -> (r: Rectangle)
        ensures
            r == self@.primary_output(),
    {
        let fallback = Rectangle { loc: Point { x: 0, y: 0 }, size: Size { w: 1920, h: 1080 } };
        if self.outputs.len() > 0 {
            match self.outputs[0].geometry {
                Some(g) => g,
                None => fallback,
            }
        } else {
            fallback
        }
    }

    pub fn workspace_count(&self) -> (r: u32)
        ensures
            r == self@.workspace_count(),
            r >= 1,
    {
        if self.config.workspace_count < 1 {
            1
        } else {
            self.config.workspace_count
        }
    }

    fn tiled_windows(&self) -> (r: Vec<u64>)
        ensures
            r@ == self@.tiled_ids(self@.windows.len()),
            r.len() <= self.windows.len(),
    {
        let mut ids: Vec<u64> = Vec::new();
        let mut i: usize = 0;
        while i < self.windows.len()
            invariant
                i <= self.windows.len(),
                ids.len() <= i,
                ids@ == self@.tiled_ids(i as nat),
            decreases self.windows.len() - i,
        {
            let w = &self.windows[i];
            if w.workspace == self.active_workspace && !w.is_minimized && !w.is_maximized
                && !self.floating_windows.contains(&w.id) {
                ids.push(w.id);
            }
            i = i + 1;
        }
        ids
    }

    fn visible_windows(&self) -> (r: Vec<u64>)
        ensures
            r@ == self@.visible_ids(self@.windows.len()),
            r.len() <= self.windows.len(),
    {
        let mut ids: Vec<u64> = Vec::new();
        let mut i: usize = 0;
        while i < self.windows.len()
            invariant
                i <= self.windows.len(),
                ids.len() <= i,
                ids@ == self@.visible_ids(i as nat),
            decreases self.windows.len() - i,
        {
            let w = &self.windows[i];
            if w.workspace == self.active_workspace && !w.is_minimized {
                ids.push(w.id);
            }
            i = i + 1;
        }
        ids
    }

    fn apply_tile_geometry(&mut self, id: u64, r: Rectangle)
        ensures
            final(self)@ == old(self)@.set_tile(id, r),
    {
        if let Some(i) = find_window(&self.windows, id) {
            let w: u64 = self.windows[i].window;
            if self.windows[i].is_x11 {
                self.effects.push(Effect::ConfigureX11 { window: w, geometry: r });
            } else {
                self.effects.push(Effect::Configure { window: w, size: r.size });
            }
            self.show(w, r.loc, false);
        }
    }

    /// Lays out the tiled windows of the active workspace, if it is tiled.
    pub fn apply_tiling_layout(&mut self)
        ensures
            final(self)@ == old(self)@.tiled(),
    {
        if !self.tiling_enabled.contains(&self.active_workspace) {
            return;
        }
        let area = self.primary_output_geometry();
        let gap: i32 = max_i32(self.config.gaps, 0);
        let ids = self.tiled_windows();
        let count: usize = ids.len();
        let master: i32 = if count > 1 {
            crate::single::scale(area.size.w, self.config.master_ratio)
        } else {
            area.size.w
        };
        let ghost start = self@;
        let mut i: usize = 0;
        while i < count
            invariant
                i <= count,
                count == ids.len(),
                0 <= gap,
                gap == at_least(start.config.gaps as int, 0),
                area == start.primary_output(),
                master == master_width(
                    area.size.w as int,
                    count as int,
                    start.config.master_ratio as int,
                ),
                self@ == start.set_tiles(ids@, i as nat),
            decreases count - i,
        {
            let r = compute_tile(area, gap, master, count, i);
            self.apply_tile_geometry(ids[i], r);
            i = i + 1;
        }
    }

    fn request_size(&mut self, w: u64, is_x11: bool, size: Size)
        ensures
            final(self)@ == old(self)@.request_size(w, is_x11, size),
    {
        if !is_x11 {
            self.effects.push(Effect::Configure { window: w, size });
        }
    }

    /// Where a pinned surface stands.
    pub fn pin_geometry(&self, edge: PinnedEdge, thickness: u32) -> (r: Rectangle)
        ensures
            forall|owner: Option<i32>|
                r == #[trigger] self@.pin_place(Pin { edge, thickness, owner }),
    {
        let output = self.primary_output_geometry();
        let t: i64 = (thickness as i32) as i64;
        match edge {
            PinnedEdge::Top => make_rectangle(
                output.loc.x as i64,
                output.loc.y as i64,
                output.size.w as i64,
                t,
            ),
            PinnedEdge::Bottom => make_rectangle(
                output.loc.x as i64,
                output.loc.y as i64 + output.size.h as i64 - t,
                output.size.w as i64,
                t,
            ),
        }
    }

    /// Takes a new window in and shows it. Returns its id.
    pub fn place_new_window(&mut self, new: NewWindow, activate: bool) -> (r: u64)
        requires
            old(self)@.next_id < u64::MAX,
        ensures
            r == old(self)@.next_id,
            final(self)@ == old(self)@.placed(new, activate),
    {
        let id: u64 = self.next_window_id;
        self.next_window_id = id + 1;
        let handle: u64 = new.window;
        let is_x11: bool = new.is_x11;
        let pin = find_pin(&self.pinned_surfaces, new.app_id.as_str(), new.pid);
        let n: i128 = self.space.elements.len() as i128;
        let w = ManagedWindow {
            id,
            window: new.window,
            surface: new.surface,
            title: new.title,
            app_id: new.app_id,
            pid: new.pid,
            is_x11: new.is_x11,
            size: new.size,
            is_minimized: false,
            is_maximized: false,
            is_fullscreen: false,
            is_ssd: false,
            saved_geometry: None,
            windowed_geometry: None,
            workspace: self.active_workspace,
            saved_workspace_location: None,
        };
        match pin {
            Some(p) => {
                let r = self.pin_geometry(p.edge, p.thickness);
                assert(r == self@.pin_place(
                    Pin { edge: p.edge, thickness: p.thickness, owner: p.owner },
                ));
                self.request_size(handle, is_x11, r.size);
                self.show(handle, r.loc, activate);
                self.windows.push(w);
                self.floating_windows.insert(id);
                self.lift(handle, true);
            },
            None => {
                let at = Point { x: sat_i128(80 + n * 24), y: sat_i128(60 + n * 24) };
                self.show(handle, at, activate);
                self.windows.push(w);
                self.floating_windows.remove(&id);
                self.apply_tiling_layout();
            },
        }
        id
    }

    /// Pins the windows of an application and of the process that asks for it, those
    /// that are there and those to come.
    pub fn pin_surface(
        &mut self,
        app_id: String,
        edge: PinnedEdge,
        thickness: u32,
        owner: Option<i32>,
    )
        ensures
            final(self)@ == old(self)@.pinned_surface(app_id@, Pin { edge, thickness, owner }),
    {
        let r = self.pin_geometry(edge, thickness);
        assert(r == self@.pin_place(Pin { edge, thickness, owner }));
        let name = app_id.clone();
        let mut list = without_pin(&self.pinned_surfaces, name.as_str());
        let ghost kept = list@;
        list.push((app_id, Pin { edge, thickness, owner }));
        assert(pins(list@) =~= pins(kept).push((app_id@, Pin { edge, thickness, owner })));
        self.pinned_surfaces = list;
        let ghost start = self@;
        assert(start =~= (Desk {
            pinned: unpinned(old(self)@.pinned, app_id@).push(
                (app_id@, Pin { edge, thickness, owner }),
            ),
            ..old(self)@
        }));
        let n: usize = self.windows.len();
        let mut i: usize = 0;
        while i < n
            invariant
                i <= n,
                n == self.windows.len(),
                self.windows@ == start.windows,
                name@ == app_id@,
                self@ == start.pin_windows(app_id@, owner, r, i as nat),
            decreases n - i,
        {
            let same_process = match (owner, self.windows[i].pid) {
                (Some(o), Some(p)) => o == p,
                _ => false,
            };
            if same_process || text_eq(self.windows[i].app_id.as_str(), name.as_str()) {
                let handle: u64 = self.windows[i].window;
                let is_x11: bool = self.windows[i].is_x11;
                let id: u64 = self.windows[i].id;
                self.request_size(handle, is_x11, r.size);
                self.show(handle, r.loc, false);
                self.floating_windows.insert(id);
                self.lift(handle, true);
            }
            i = i + 1;
        }
        self.apply_tiling_layout();
    }

    fn remember_places(&mut self)
        ensures
            final(self)@ == (Desk { windows: old(self)@.remembered(), ..old(self)@ }),
    {
        let ghost goal = self@.remembered();
        let n: usize = self.windows.len();
        let mut i: usize = 0;
        while i < n
            invariant
                i <= n,
                n == self.windows.len(),
                n == old(self).windows.len(),
                goal == old(self)@.remembered(),
                goal.len() == n,
                self@ == (Desk { windows: self.windows@, ..old(self)@ }),
                forall|k: int| 0 <= k < i ==> #[trigger] self.windows@[k] == goal[k],
                forall|k: int|
                    i <= k < n ==> #[trigger] self.windows@[k] == old(self).windows@[k],
            decreases n - i,
        {
            if self.windows[i].workspace == self.active_workspace {
                let at = self.space.element_location(self.windows[i].window);
                self.windows[i].saved_workspace_location = at;
            }
            i = i + 1;
        }
        assert(self.windows@ =~= goal);
    }

    /// Shows another workspace in place of the active one.
    pub fn switch_workspace(&mut self, target: u32)
        ensures
            final(self)@ == old(self)@.switched(target),
    {
        if target >= self.workspace_count() || target == self.active_workspace {
            return;
        }
        self.remember_places();
        let ghost kept = self@;
        let n: usize = self.windows.len();
        let mut i: usize = 0;
        while i < n
            invariant
                i <= n,
                n == self.windows.len(),
                self.windows@ == kept.windows,
                self.active_workspace == kept.active,
                self@ == kept.hide_workspace(i as nat),
            decreases n - i,
        {
            if self.windows[i].workspace == self.active_workspace {
                let handle: u64 = self.windows[i].window;
                self.conceal(handle);
            }
            i = i + 1;
        }
        let ghost hidden = self@;
        let mut j: usize = 0;
        while j < n
            invariant
                j <= n,
                n == self.windows.len(),
                self.windows@ == hidden.windows,
                self@ == hidden.show_workspace(target, j as nat),
            decreases n - j,
        {
            if self.windows[j].workspace == target && !self.windows[j].is_minimized {
                let handle: u64 = self.windows[j].window;
                let at = match self.windows[j].saved_workspace_location {
                    Some(p) => p,
                    None => Point { x: 80, y: 60 },
                };
                self.show(handle, at, false);
            }
            j = j + 1;
        }
        self.active_workspace = target;
        assert(self@ =~= old(self)@.exchanged(target));
        self.apply_tiling_layout();
    }

    pub fn move_window_to_workspace(&mut self, id: u64, to: u32)
        ensures
            final(self)@ == old(self)@.moved(id, to),
    {
        let last: u32 = self.workspace_count() - 1;
        let target: u32 = if to > last {
            last
        } else {
            to
        };
        let i: usize = match find_window(&self.windows, id) {
            Some(i) => i,
            None => return,
        };
        let previous: u32 = self.windows[i].workspace;
        if previous == target {
            return;
        }
        let handle: u64 = self.windows[i].window;
        let minimized: bool = self.windows[i].is_minimized;
        self.windows[i].workspace = target;
        if previous == self.active_workspace {
            let at = self.space.element_location(handle);
            self.windows[i].saved_workspace_location = at;
            proof {
                let w = old(self)@.windows[i as int];
                assert(self.windows@ =~= old(self).windows@.update(
                    i as int,
                    ManagedWindow { workspace: target, saved_workspace_location: at, ..w },
                ));
            }
            self.conceal(handle);
        } else if target == self.active_workspace && !minimized {
            let at = match self.windows[i].saved_workspace_location {
                Some(p) => p,
                None => Point { x: 80, y: 60 },
            };
            self.show(handle, at, true);
        }
        self.apply_tiling_layout();
    }

    /// Gives a window the focus, on top of all others.
    pub fn focus_window_by_id(&mut self, id: u64)
        ensures
            final(self)@ == old(self)@.focus(id),
    {
        let i: usize = match find_window(&self.windows, id) {
            Some(i) => i,
            None => return,
        };
        self.windows[i].is_minimized = false;
        self.focused_window = Some(id);
        let handle: u64 = self.windows[i].window;
        let at = match self.space.element_location(handle) {
            Some(p) => p,
            None => Point { x: 0, y: 0 },
        };
        self.show(handle, at, true);
        self.lift(handle, true);
        if let Some(surface) = self.windows[i].surface {
            self.effects.push(Effect::Focus { surface });
        }
        self.apply_tiling_layout();
    }

    /// Asks a window to close.
    pub fn close_window_by_id(&mut self, id: u64)
        ensures
            final(self)@ == old(self)@.closed(id),
    {
        if let Some(i) = find_window(&self.windows, id) {
            let handle: u64 = self.windows[i].window;
            self.effects.push(Effect::Close { window: handle });
        }
    }

    pub fn minimize_window_by_id(&mut self, id: u64)
        ensures
            final(self)@ == old(self)@.minimized(id),
    {
        let i: usize = match find_window(&self.windows, id) {
            Some(i) => i,
            None => return,
        };
        if self.windows[i].is_minimized {
            return;
        }
        self.windows[i].is_minimized = true;
        let handle: u64 = self.windows[i].window;
        self.conceal(handle);
        self.apply_tiling_layout();
    }

    pub fn unminimize_window_by_id(&mut self, id: u64)
        ensures
            final(self)@ == old(self)@.focus(id),
    {
        self.focus_window_by_id(id);
    }

    fn tell_maximized(&mut self, i: usize, on: bool, r: Rectangle)
        requires
            i < old(self).windows.len(),
        ensures
            final(self)@ == old(self)@.tell_maximized(old(self)@.windows[i as int], on, r),
    {
        let handle: u64 = self.windows[i].window;
        if self.windows[i].is_x11 {
            self.effects.push(
                Effect::MaximizeX11 { window: handle, maximized: on, geometry: r },
            );
        } else {
            self.effects.push(Effect::Maximize { window: handle, maximized: on, size: r.size });
        }
    }

    /// Makes a window fill `output_geo`, or gives it back the geometry it had.
    pub fn maximize_window_by_id(&mut self, id: u64, maximize: bool, output_geo: Rectangle)
        ensures
            final(self)@ == old(self)@.maximized(id, maximize, output_geo),
    {
        let i: usize = match find_window(&self.windows, id) {
            Some(i) => i,
            None => return,
        };
        let handle: u64 = self.windows[i].window;
        self.windows[i].is_minimized = false;
        if maximize {
            let at = match self.space.element_location(handle) {
                Some(p) => p,
                None => Point { x: 0, y: 0 },
            };
            let size = self.windows[i].size;
            self.windows[i].saved_geometry = Some(Rectangle { loc: at, size });
            self.windows[i].is_maximized = true;
            self.tell_maximized(i, true, output_geo);
            self.show(handle, output_geo.loc, true);
        } else {
            let back = match self.windows[i].saved_geometry {
                Some(r) => r,
                None => Rectangle { loc: Point { x: 80, y: 60 }, size: Size { w: 800, h: 600 } },
            };
            self.windows[i].saved_geometry = None;
            self.windows[i].is_maximized = false;
            self.tell_maximized(i, false, back);
            self.show(handle, back.loc, true);
        }
    }

    fn tell_fullscreen(&mut self, i: usize, on: bool, r: Rectangle)
        requires
            i < old(self)@.windows.len(),
        ensures
            final(self)@ == old(self)@.tell_fullscreen(old(self)@.windows[i as int], on, r),
    {
        let window: u64 = self.windows[i].window;
        if self.windows[i].is_x11 {
            self.effects.push(Effect::FullscreenX11 { window, fullscreen: on, geometry: r });
        } else {
            self.effects.push(Effect::Fullscreen { window, fullscreen: on, size: r.size });
        }
    }

    /// Lets a window fill an area, or not any more.
    pub fn fullscreen_window_by_id(&mut self, id: u64, fullscreen: bool, output_geo: Rectangle)
        ensures
            final(self)@ == old(self)@.fullscreened(id, fullscreen, output_geo),
    {
        let i = match find_window(&self.windows, id) {
            Some(i) => i,
            None => {
                return;
            },
        };
        let ghost w = self.windows@[i as int];
        let ghost before = self@;
        let handle: u64 = self.windows[i].window;
        if fullscreen {
            let at = match self.space.element_location(handle) {
                Some(p) => p,
                None => Point { x: 0, y: 0 },
            };
            let size = self.windows[i].size;
            self.windows[i].is_minimized = false;
            self.windows[i].is_fullscreen = true;
            self.windows[i].windowed_geometry = Some(Rectangle { loc: at, size });
            assert(self@ =~= before.with_window(
                i as int,
                ManagedWindow {
                    is_minimized: false,
                    is_fullscreen: true,
                    windowed_geometry: Some(Rectangle { loc: at, size }),
                    ..w
                },
            ));
            self.tell_fullscreen(i, true, output_geo);
            self.show(handle, output_geo.loc, true);
        } else {
            let back = if self.windows[i].is_maximized {
                output_geo
            } else {
                match self.windows[i].windowed_geometry {
                    Some(r) => r,
                    None => Rectangle {
                        loc: Point { x: 80, y: 60 },
                        size: Size { w: 800, h: 600 },
                    },
                }
            };
            self.windows[i].is_minimized = false;
            self.windows[i].is_fullscreen = false;
            self.windows[i].windowed_geometry = None;
            assert(self@ =~= before.with_window(
                i as int,
                ManagedWindow {
                    is_minimized: false,
                    is_fullscreen: false,
                    windowed_geometry: None,
                    ..w
                },
            ));
            self.tell_fullscreen(i, false, back);
            self.show(handle, back.loc, true);
        }
    }

    pub fn toggle_floating_by_id(&mut self, id: u64)
        ensures
            final(self)@ == old(self)@.floating_toggled(id),
    {
        if self.floating_windows.contains(&id) {
            self.floating_windows.remove(&id);
        } else {
            self.floating_windows.insert(id);
        }
        self.apply_tiling_layout();
    }

    pub fn set_tiling(&mut self, workspace: u32, enabled: bool)
        ensures
            final(self)@ == old(self)@.tiling_set(workspace, enabled),
    {
        if enabled {
            self.tiling_enabled.insert(workspace);
        } else {
            self.tiling_enabled.remove(&workspace);
        }
        if workspace == self.active_workspace {
            self.apply_tiling_layout();
        }
    }

    pub fn toggle_tiling(&mut self)
        ensures
            final(self)@ == old(self)@.tiling_toggled(),
    {
        let workspace: u32 = self.active_workspace;
        if self.tiling_enabled.contains(&workspace) {
            self.tiling_enabled.remove(&workspace);
        } else {
            self.tiling_enabled.insert(workspace);
        }
        self.apply_tiling_layout();
    }

    /// Exchanges the focused window with the master.
    pub fn swap_with_master(&mut self)
        ensures
            final(self)@ == old(self)@.master_swapped(),
    {
        let focused: u64 = match self.focused_window {
            Some(id) => id,
            None => return,
        };
        let ids = self.tiled_windows();
        if ids.len() == 0 || ids[0] == focused {
            return;
        }
        let master: u64 = ids[0];
        proof {
            lemma_tiled_id_has_window(self@, self@.windows.len(), 0);
        }
        let a = find_window(&self.windows, master);
        let b = find_window(&self.windows, focused);
        if let Some(a) = a {
            if let Some(b) = b {
                swap_windows(&mut self.windows, a, b);
            }
        }
        self.apply_tiling_layout();
    }

    /// Sets the master ratio, held between a tenth and nine tenths.
    pub fn adjust_master_ratio(&mut self, ratio: u32)
        ensures
            final(self)@ == old(self)@.ratio_set(ratio),
    {
        self.config.master_ratio = crate::single::clamp(ratio);
        self.apply_tiling_layout();
    }

    pub fn focus_next_window(&mut self)
        ensures
            final(self)@ == old(self)@.focus_option(old(self)@.next_focus()),
    {
        let ids = self.visible_windows();
        if ids.len() == 0 {
            return;
        }
        let mut next: u64 = ids[0];
        if let Some(id) = self.focused_window {
            let k: usize = find_rank(&ids, id);
            if k < ids.len() {
                if k + 1 < ids.len() {
                    next = ids[k + 1];
                    assert((k + 1) % (ids.len() as int) == k + 1) by (nonlinear_arith)
                        requires
                            0 <= k,
                            k + 1 < ids.len(),
                    ;
                } else {
                    assert((k + 1) % (ids.len() as int) == 0) by (nonlinear_arith)
                        requires
                            k + 1 == ids.len(),
                    ;
                }
            }
        }
        self.focus_window_by_id(next);
    }

    pub fn focus_prev_window(&mut self)
        ensures
            final(self)@ == old(self)@.focus_option(old(self)@.previous_focus()),
    {
        let ids = self.visible_windows();
        if ids.len() == 0 {
            return;
        }
        let mut previous: u64 = ids[ids.len() - 1];
        if let Some(id) = self.focused_window {
            let k: usize = find_rank(&ids, id);
            if k < ids.len() {
                if k > 0 {
                    previous = ids[k - 1];
                    assert((k + ids.len() - 1) % (ids.len() as int) == k - 1) by (nonlinear_arith)
                        requires
                            0 < k < ids.len(),
                    ;
                } else {
                    assert((0 + ids.len() - 1) % (ids.len() as int) == ids.len() - 1)
                        by (nonlinear_arith)
                        requires
                            0 < ids.len(),
                    ;
                }
            }
        }
        self.focus_window_by_id(previous);
    }

    /// A client's surface is gone, and with it the window, if it was managed.
    pub fn forget_window_by_surface(&mut self, surface: u64)
        ensures
            final(self)@ == old(self)@.forgotten(surface),
    {
        if let Some(i) = find_surface(&self.windows, surface) {
            let gone = self.windows.remove(i);
            self.conceal(gone.window);
            self.floating_windows.remove(&gone.id);
        }
        self.apply_tiling_layout();
    }

    pub fn window_id_for_surface(&self, surface: u64) -> (r: Option<u64>)
        ensures
            r == (if surface_position(self@.windows, surface) < self@.windows.len() {
                Some(self@.windows[surface_position(self@.windows, surface) as int].id)
            } else {
                None
            }),
    {
        match find_surface(&self.windows, surface) {
            Some(i) => Some(self.windows[i].id),
            None => None,
        }
    }

    pub fn set_ssd_by_surface(&mut self, surface: u64, is_ssd: bool)
        ensures
            ({
                let i = surface_position(old(self)@.windows, surface) as int;
                final(self)@ == (if i < old(self)@.windows.len() {
                    old(self)@.with_window(
                        i,
                        ManagedWindow { is_ssd, ..old(self)@.windows[i] },
                    )
                } else {
                    old(self)@
                })
            }),
    {
        if let Some(i) = find_surface(&self.windows, surface) {
            self.windows[i].is_ssd = is_ssd;
        }
    }
}

fn swap_windows(v: &mut Vec<ManagedWindow>, a: usize, b: usize)
    requires
        a < old(v).len(),
        b < old(v).len(),
    ensures
        final(v)@ == old(v)@.update(a as int, old(v)@[b as int]).update(b as int, old(v)@[a as int]),
{
    if a == b {
        assert(v@ =~= old(v)@.update(a as int, old(v)@[b as int]).update(
            b as int,
            old(v)@[a as int],
        ));
        return;
    }
    let (lo, hi): (usize, usize) = if a < b {
        (a, b)
    } else {
        (b, a)
    };
    let y = v.remove(hi);
    let x = v.remove(lo);
    v.insert(lo, y);
    v.insert(hi, x);
    assert(v@ =~= old(v)@.update(a as int, old(v)@[b as int]).update(b as int, old(v)@[a as int]));
}

pub proof fn lemma_tiled_id_has_window(d: Desk, n: nat, k: int)
    requires
        n <= d.windows.len(),
        0 <= k < d.tiled_ids(n).len(),
    ensures
        exists|i: int|
            0 <= i < n && (#[trigger] d.windows[i]).id == d.tiled_ids(n)[k] && d.is_tiled(i),
        position(d.windows, d.tiled_ids(n)[k]) < d.windows.len(),
    decreases n,
{
    let m = (n - 1) as nat;
    if d.is_tiled(n - 1) && k == d.tiled_ids(m).len() {
        assert(d.windows[n - 1].id == d.tiled_ids(n)[k]);
    } else {
        lemma_tiled_id_has_window(d, m, k);
        assert(d.tiled_ids(n)[k] == d.tiled_ids(m)[k]);
        let i = choose|i: int|
            0 <= i < m && (#[trigger] d.windows[i]).id == d.tiled_ids(m)[k] && d.is_tiled(i);
        assert(d.windows[i].id == d.tiled_ids(n)[k]);
    }
    crate::window::lemma_position(d.windows, d.tiled_ids(n)[k]);
}

} // verus!
