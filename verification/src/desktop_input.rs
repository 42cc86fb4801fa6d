//! What keys, clicks and swipes do to the session.
use vstd::prelude::*;

use crate::blue::{same_rest, BlueState};
use crate::desktop::{with_surface, Desktop, Panels, Request, Shown};
use crate::geometry::{sat, sat_i64, Rectangle};
use crate::grabs::Travel;
use crate::keybind::{bound, Keybindings, Modifiers};
use crate::text::{
    chars_of, decimal, decimal_text, join2, lower, parse_number, parsed_number, same_chars,
    slice_of, string_of, text_eq,
};

verus! {

pub const KEY_TAB: u32 = 0xff09;

pub const KEY_RETURN: u32 = 0xff0d;

pub const KEY_ESCAPE: u32 = 0xff1b;

pub const KEY_BACKSPACE: u32 = 0xff08;

pub const KEY_DELETE: u32 = 0xffff;

pub const KEY_LEFT: u32 = 0xff51;

pub const KEY_UP: u32 = 0xff52;

pub const KEY_RIGHT: u32 = 0xff53;

pub const KEY_DOWN: u32 = 0xff54;

pub const KEY_PRINT: u32 = 0xff61;

pub const KEY_F1: u32 = 0xffbe;

pub const KEY_F4: u32 = 0xffc1;

pub const KEY_F12: u32 = 0xffc9;

pub const KEY_ALT_L: u32 = 0xffe9;

pub const KEY_ALT_R: u32 = 0xffea;

pub const KEY_SUPER_L: u32 = 0xffeb;

pub const KEY_SUPER_R: u32 = 0xffec;

pub const KEY_SPACE: u32 = 0x20;

pub const KEY_0: u32 = 0x30;

pub const KEY_1: u32 = 0x31;

pub const KEY_4: u32 = 0x34;

pub const KEY_9: u32 = 0x39;

pub const KEY_A: u32 = 0x61;

pub const KEY_T: u32 = 0x74;

pub const KEY_Z: u32 = 0x7a;

/// The name of a key in key combinations. Letters and digits are named by themselves,
/// function keys by their number.
pub open spec fn key_name(sym: u32) -> Option<Seq<char>> {
    if (KEY_A <= sym && sym <= KEY_Z) || (KEY_0 <= sym && sym <= KEY_9) {
        Some(seq![(sym as u8) as char])
    } else if KEY_F1 <= sym && sym <= KEY_F12 {
        Some("f"@ + decimal((sym - KEY_F1 + 1) as nat))
    } else if sym == KEY_RETURN {
        Some("return"@)
    } else if sym == KEY_TAB {
        Some("tab"@)
    } else if sym == KEY_SPACE {
        Some("space"@)
    } else if sym == KEY_ESCAPE {
        Some("escape"@)
    } else if sym == KEY_BACKSPACE {
        Some("backspace"@)
    } else if sym == KEY_DELETE {
        Some("delete"@)
    } else if sym == KEY_LEFT {
        Some("left"@)
    } else if sym == KEY_RIGHT {
        Some("right"@)
    } else if sym == KEY_UP {
        Some("up"@)
    } else if sym == KEY_DOWN {
        Some("down"@)
    } else if sym == KEY_PRINT {
        Some("print"@)
    } else {
        None
    }
}

/// The name of a key, by its X11 number.
pub fn keysym_name(sym: u32) -> (r: Option<String>)
    ensures
        match r {
            Some(s) => key_name(sym) == Some(s@),
            None => key_name(sym) is None,
        },
{
    if (KEY_A <= sym && sym <= KEY_Z) || (KEY_0 <= sym && sym <= KEY_9) {
        let mut s: Vec<char> = Vec::new();
        s.push((sym as u8) as char);
        assert(s@ =~= seq![(sym as u8) as char]);
        Some(string_of(&s))
    } else if KEY_F1 <= sym && sym <= KEY_F12 {
        let number = decimal_text((sym - KEY_F1 + 1) as u128);
        Some(join2("f", number.as_str()))
    } else if sym == KEY_RETURN {
        Some(String::from_str("return"))
    } else if sym == KEY_TAB {
        Some(String::from_str("tab"))
    } else if sym == KEY_SPACE {
        Some(String::from_str("space"))
    } else if sym == KEY_ESCAPE {
        Some(String::from_str("escape"))
    } else if sym == KEY_BACKSPACE {
        Some(String::from_str("backspace"))
    } else if sym == KEY_DELETE {
        Some(String::from_str("delete"))
    } else if sym == KEY_LEFT {
        Some(String::from_str("left"))
    } else if sym == KEY_RIGHT {
        Some(String::from_str("right"))
    } else if sym == KEY_UP {
        Some(String::from_str("up"))
    } else if sym == KEY_DOWN {
        Some(String::from_str("down"))
    } else if sym == KEY_PRINT {
        Some(String::from_str("print"))
    } else {
        None
    }
}

/// The workspace, counted from one, that an action of the form `workspace_3` names.
pub open spec fn named_workspace(action: Seq<char>) -> Option<nat> {
    let p = "workspace_"@;
    if action.len() >= p.len() && action.take(p.len() as int) == p {
        parsed_number(action.skip(p.len() as int), usize::MAX as nat)
    } else {
        None
    }
}

pub fn workspace_named(action: &str) -> (r: Option<usize>)
    ensures
        match r {
            Some(n) => named_workspace(action@) == Some(n as nat),
            None => named_workspace(action@) is None,
        },
{
    let prefix = chars_of("workspace_");
    let all = chars_of(action);
    if all.len() < prefix.len() {
        return None;
    }
    let start = slice_of(&all, 0, prefix.len());
    assert(start@ =~= action@.take(prefix@.len() as int));
    if !same_chars(&start, &prefix) {
        return None;
    }
    let rest = slice_of(&all, prefix.len(), all.len());
    assert(rest@ =~= action@.skip(prefix@.len() as int));
    let text = string_of(&rest);
    match parse_number(text.as_str(), usize::MAX as u64) {
        Some(n) => Some(n as usize),
        None => None,
    }
}

impl Desktop {
    /// The window that has the keyboard, given the surface that has it.
    pub open spec fn keyboard_window(self, focus: Option<u64>) -> Option<Shown> {
        match focus {
            Some(surface) => {
                let i = with_surface(self.shown, surface) as int;
                if i < self.shown.len() {
                    Some(self.shown[i])
                } else {
                    None
                }
            },
            None => None,
        }
    }

    /// Whether an action of a key binding is known.
    pub open spec fn is_action(action: Seq<char>) -> bool {
        action == "close_window"@ || action == "toggle_fullscreen"@ || action
            == "toggle_floating"@ || action == "cycle_windows"@ || action == "launch_terminal"@
            || (named_workspace(action) matches Some(n) && n >= 1)
    }

    /// The session after an action of a key binding.
    pub open spec fn acted(self, action: Seq<char>, focus: Option<u64>) -> Desktop {
        let w = self.keyboard_window(focus);
        if action == "close_window"@ {
            match w {
                Some(w) => self.closed(w.id),
                None => self,
            }
        } else if action == "toggle_fullscreen"@ {
            match w {
                Some(w) => if w.is_x11 {
                    self
                } else {
                    self.ask(Request::FlipFullscreen { window: w.window })
                },
                None => self,
            }
        } else if action == "toggle_floating"@ {
            match w {
                Some(w) => self.floating_toggled(w.id),
                None => self,
            }
        } else if action == "cycle_windows"@ {
            self.switcher_advanced()
        } else if action == "launch_terminal"@ {
            self.ask(Request::LaunchTerminal)
        } else {
            match named_workspace(action) {
                Some(n) => if n >= 1 {
                    self.switched((n - 1) as usize)
                } else {
                    self
                },
                None => self,
            }
        }
    }

    pub open spec fn super_noted(self) -> Desktop {
        Desktop { panels: Panels { super_used: true, ..self.panels }, ..self }
    }

    /// The session after the Super key went down or up: pressed and released alone it
    /// toggles the start menu.
    pub open spec fn super_key(self, pressed: bool) -> Desktop {
        let p = self.panels;
        Desktop {
            panels: if pressed {
                Panels { super_pressed: true, super_used: false, ..p }
            } else {
                Panels {
                    super_pressed: false,
                    super_used: false,
                    start_menu_visible: if p.super_pressed && !p.super_used {
                        !p.start_menu_visible
                    } else {
                        p.start_menu_visible
                    },
                    ..p
                }
            },
            ..self
        }
    }

    /// The action that the configuration binds to a key.
    pub open spec fn bound_action(self, mods: Modifiers, sym: u32) -> Option<Seq<char>> {
        match key_name(sym) {
            Some(name) => {
                let table = bound(self.config.keybindings@);
                if table.contains_key((mods, lower(name))) {
                    Some(table[(mods, lower(name))])
                } else {
                    None
                }
            },
            None => None,
        }
    }

    /// The session after a key, and whether the client does not get it. The built-in
    /// combinations come before those of the configuration.
    pub open spec fn keyed(
        self,
        mods: Modifiers,
        sym: u32,
        pressed: bool,
        focus: Option<u64>,
    ) -> (Desktop, bool) {
        let w = self.keyboard_window(focus);
        if mods.alt && mods.shift && sym == KEY_TAB && pressed {
            (
                if self.panels.show_switcher {
                    self.cycled(false)
                } else {
                    self
                },
                true,
            )
        } else if mods.alt && sym == KEY_TAB && pressed {
            (self.switcher_advanced(), true)
        } else if (sym == KEY_ALT_L || sym == KEY_ALT_R) && !pressed && self.panels.show_switcher {
            (self.selected(), true)
        } else if sym == KEY_SUPER_L || sym == KEY_SUPER_R {
            (self.super_key(pressed), true)
        } else if mods.super_ && sym == KEY_TAB && pressed {
            let d = self.super_noted();
            (
                Desktop {
                    panels: Panels {
                        fullscreen_menu_visible: !d.panels.fullscreen_menu_visible,
                        ..d.panels
                    },
                    ..d
                },
                true,
            )
        } else if mods.super_ && pressed && KEY_1 <= sym && sym <= KEY_4 {
            (self.super_noted().switched((sym - KEY_1) as usize), true)
        } else if mods.super_ && sym == KEY_RIGHT && pressed {
            (self.super_noted().switched(self.meant((self.current + 1) as usize)), true)
        } else if mods.super_ && sym == KEY_LEFT && pressed {
            (
                self.super_noted().switched(
                    if self.current == 0 {
                        0
                    } else {
                        (self.current - 1) as usize
                    },
                ),
                true,
            )
        } else if mods.super_ && sym == KEY_UP && pressed {
            let d = self.super_noted();
            (
                match w {
                    Some(w) => if w.is_x11 {
                        d
                    } else {
                        d.ask(Request::FlipMaximized { window: w.window })
                    },
                    None => d,
                },
                true,
            )
        } else if mods.super_ && sym == KEY_DOWN && pressed {
            let d = self.super_noted();
            (
                match w {
                    Some(w) => d.minimized_set(w.id, true),
                    None => d,
                },
                true,
            )
        } else if mods.alt && sym == KEY_F4 && pressed {
            (
                match w {
                    Some(w) => if w.is_x11 {
                        self
                    } else {
                        self.ask(Request::Close { window: w.window })
                    },
                    None => self,
                },
                true,
            )
        } else if mods.ctrl && mods.alt && sym == KEY_T && pressed {
            (self.ask(Request::LaunchTerminal), true)
        } else if sym == KEY_PRINT && pressed {
            (self.ask(Request::TakeScreenshot), true)
        } else if sym == KEY_ESCAPE && pressed && self.panels.show_switcher {
            (Desktop { panels: Panels { show_switcher: false, ..self.panels }, ..self }, true)
        } else if pressed {
            match self.bound_action(mods, sym) {
                Some(action) => if Desktop::is_action(action) {
                    (self.acted(action, focus), true)
                } else {
                    (self, false)
                },
                None => (self, false),
            }
        } else {
            (self, false)
        }
    }

    /// The index of a shown window by its handle, or the number of windows.
    pub open spec fn shown_as(self, w: u64) -> int
    {
        crate::desktop_input::with_handle(self.shown, w) as int
    }

    /// The session after a click: on a window it is raised and gets the keyboard, on
    /// nothing no one has it; a locked session only ever gives it to the lock.
    pub open spec fn clicked(
        self,
        locked: bool,
        lock_surface: Option<u64>,
        under: Option<u64>,
    ) -> Desktop {
        if locked {
            self.ask(Request::Focus { surface: lock_surface })
        } else {
            match under {
                Some(w) => if self.shown_as(w) < self.shown.len() {
                    self.activated(self.shown[self.shown_as(w)])
                } else {
                    self.ask(Request::Focus { surface: None })
                },
                None => self.ask(Request::Focus { surface: None }),
            }
        }
    }

    /// The session after a swipe, which went far enough or not: to the left is the
    /// next workspace, to the right the one before, and around at the ends.
    pub open spec fn swiped(self, travel: Travel, cancelled: bool) -> Desktop {
        if cancelled || self.count == 0 {
            self
        } else if travel.ceil <= -WORKSPACE_SWIPE_THRESHOLD {
            self.switched(((self.current + 1) % self.count as int) as usize)
        } else if travel.floor >= WORKSPACE_SWIPE_THRESHOLD {
            self.switched(((self.current + self.count - 1) % self.count as int) as usize)
        } else {
            self
        }
    }
}

pub open spec fn with_handle(s: Seq<Shown>, w: u64) -> nat
    decreases s.len(),
{
    if s.len() == 0 || s[0].window == w {
        0
    } else {
        1 + with_handle(s.skip(1), w)
    }
}

pub proof fn lemma_with_handle_is(s: Seq<Shown>, w: u64, n: int)
    requires
        0 <= n <= s.len(),
        forall|k: int| 0 <= k < n ==> (#[trigger] s[k]).window != w,
        n < s.len() ==> s[n].window == w,
    ensures
        with_handle(s, w) == n,
    decreases s.len(),
{
    if n > 0 {
        assert(s[0].window != w);
        let t = s.skip(1);
        assert forall|k: int| 0 <= k < n - 1 implies (#[trigger] t[k]).window != w by {
            assert(t[k] == s[k + 1]);
        }
        lemma_with_handle_is(t, w, n - 1);
    }
}

/// How far a swipe has to go to switch workspaces.
pub const WORKSPACE_SWIPE_THRESHOLD: i32 = 80;

/// Whether a swipe with so many fingers can switch workspaces.
pub fn swipe_counts(fingers: u32) -> (r: bool)
    ensures
        r == (fingers >= 3),
{
    fingers >= 3
}

impl BlueState {
    fn keyboard_window(&self, focus: Option<u64>) -> (r: Option<Shown>)
        ensures
            r == self@.keyboard_window(focus),
    {
        match focus {
            Some(surface) => self.window_by_surface(surface),
            None => None,
        }
    }

    /// Runs an action of a key binding. Returns whether it is one.
    pub fn dispatch_keybind_action(&mut self, action: &str, focus: Option<u64>) -> (r: bool)
        requires
            old(self)@.count >= 1,
        ensures
            r == Desktop::is_action(action@),
            final(self)@ == old(self)@.acted(action@, focus),
            same_rest(*final(self), *old(self)),
    {
        let w = self.keyboard_window(focus);
        if text_eq(action, "close_window") {
            if let Some(w) = w {
                self.close_window_by_id(w.id);
            }
            true
        } else if text_eq(action, "toggle_fullscreen") {
            if let Some(w) = w {
                if !w.is_x11 {
                    self.requests.push(Request::FlipFullscreen { window: w.window });
                }
            }
            true
        } else if text_eq(action, "toggle_floating") {
            if let Some(w) = w {
                self.toggle_floating_by_id(w.id);
            }
            true
        } else if text_eq(action, "cycle_windows") {
            self.advance_switcher();
            true
        } else if text_eq(action, "launch_terminal") {
            self.requests.push(Request::LaunchTerminal);
            true
        } else {
            match workspace_named(action) {
                Some(n) => {
                    if n >= 1 {
                        self.switch_workspace(n - 1);
                        true
                    } else {
                        false
                    }
                },
                None => false,
            }
        }
    }

    fn note_super(&mut self)
        ensures
            final(self)@ == old(self)@.super_noted(),
            same_rest(*final(self), *old(self)),
    {
        self.panels = Panels { super_used: true, ..self.panels };
    }

    fn super_key(&mut self, pressed: bool)
        ensures
            final(self)@ == old(self)@.super_key(pressed),
            same_rest(*final(self), *old(self)),
    {
        if pressed {
            self.panels = Panels { super_pressed: true, super_used: false, ..self.panels };
        } else {
            if self.panels.super_pressed && !self.panels.super_used {
                self.toggle_start_menu();
            }
            self.panels = Panels { super_pressed: false, super_used: false, ..self.panels };
        }
    }

    fn bound_key(&mut self, mods: Modifiers, sym: u32, focus: Option<u64>) -> (r: bool)
        requires
            old(self)@.count >= 1,
        ensures
            r == (old(self)@.bound_action(mods, sym) matches Some(a) && Desktop::is_action(a)),
            final(self)@ == (if r {
                old(self)@.acted(old(self)@.bound_action(mods, sym)->0, focus)
            } else {
                old(self)@
            }),
            same_rest(*final(self), *old(self)),
    {
        let name = match keysym_name(sym) {
            Some(name) => name,
            None => {
                return false;
            },
        };
        let (bindings, _errors) = Keybindings::from_config(&self.config.keybindings);
        let action: String = match bindings.action_for(mods, name.as_str()) {
            Some(action) => String::from_str(action),
            None => {
                return false;
            },
        };
        let done = self.dispatch_keybind_action(action.as_str(), focus);
        done
    }

    /// A key, with the surface that has the keyboard. Returns whether the client does
    /// not get it.
    pub fn handle_keyboard(
        &mut self,
        mods: Modifiers,
        sym: u32,
        pressed: bool,
        focus: Option<u64>,
    ) -> (r: bool)
        requires
            old(self)@.sound(),
        ensures
            (final(self)@, r) == old(self)@.keyed(mods, sym, pressed, focus),
            same_rest(*final(self), *old(self)),
    {
        if mods.alt && mods.shift && sym == KEY_TAB && pressed {
            if self.panels.show_switcher {
                self.cycle_switcher(false);
            }
            return true;
        }
        if mods.alt && sym == KEY_TAB && pressed {
            self.advance_switcher();
            return true;
        }
        if (sym == KEY_ALT_L || sym == KEY_ALT_R) && !pressed && self.panels.show_switcher {
            self.apply_switcher_selection();
            return true;
        }
        if sym == KEY_SUPER_L || sym == KEY_SUPER_R {
            self.super_key(pressed);
            return true;
        }
        if mods.super_ && sym == KEY_TAB && pressed {
            self.note_super();
            self.toggle_fullscreen_menu();
            return true;
        }
        if mods.super_ && pressed && KEY_1 <= sym && sym <= KEY_4 {
            self.note_super();
            self.switch_workspace((sym - KEY_1) as usize);
            return true;
        }
        if mods.super_ && sym == KEY_RIGHT && pressed {
            self.note_super();
            let last: usize = self.workspace_count - 1;
            let next: usize = if self.current_workspace + 1 > last {
                last
            } else {
                self.current_workspace + 1
            };
            self.switch_workspace(next);
            return true;
        }
        if mods.super_ && sym == KEY_LEFT && pressed {
            self.note_super();
            let previous: usize = if self.current_workspace == 0 {
                0
            } else {
                self.current_workspace - 1
            };
            self.switch_workspace(previous);
            return true;
        }
        if mods.super_ && sym == KEY_UP && pressed {
            let w = self.keyboard_window(focus);
            self.note_super();
            if let Some(w) = w {
                if !w.is_x11 {
                    self.requests.push(Request::FlipMaximized { window: w.window });
                }
            }
            return true;
        }
        if mods.super_ && sym == KEY_DOWN && pressed {
            let w = self.keyboard_window(focus);
            self.note_super();
            if let Some(w) = w {
                self.minimize_window_by_id(w.id);
            }
            return true;
        }
        if mods.alt && sym == KEY_F4 && pressed {
            let w = self.keyboard_window(focus);
            if let Some(w) = w {
                if !w.is_x11 {
                    self.requests.push(Request::Close { window: w.window });
                }
            }
            return true;
        }
        if mods.ctrl && mods.alt && sym == KEY_T && pressed {
            self.requests.push(Request::LaunchTerminal);
            return true;
        }
        if sym == KEY_PRINT && pressed {
            self.requests.push(Request::TakeScreenshot);
            return true;
        }
        if sym == KEY_ESCAPE && pressed && self.panels.show_switcher {
            self.panels = Panels { show_switcher: false, ..self.panels };
            return true;
        }
        if pressed {
            return self.bound_key(mods, sym, focus);
        }
        false
    }

    fn find_handle(&self, w: u64) -> (r: Option<Shown>)
        ensures
            match r {
                Some(s) => self@.shown_as(w) < self@.shown.len() && s
                    == self@.shown[self@.shown_as(w)],
                None => self@.shown_as(w) == self@.shown.len(),
            },
    {
        let mut i: usize = 0;
        while i < self.shown.len()
            invariant
                i <= self.shown.len(),
                forall|k: int| 0 <= k < i ==> (#[trigger] self.shown@[k]).window != w,
            decreases self.shown.len() - i,
        {
            if self.shown[i].window == w {
                proof {
                    lemma_with_handle_is(self.shown@, w, i as int);
                }
                return Some(self.shown[i]);
            }
            i = i + 1;
        }
        proof {
            lemma_with_handle_is(self.shown@, w, self.shown.len() as int);
        }
        None
    }

    /// A click. `lock_surface` is the lock of the output under the pointer, `under` the
    /// window there.
    pub fn pointer_pressed(
        &mut self,
        locked: bool,
        lock_surface: Option<u64>,
        under: Option<u64>,
    )
        ensures
            final(self)@ == old(self)@.clicked(locked, lock_surface, under),
            same_rest(*final(self), *old(self)),
    {
        if locked {
            self.requests.push(Request::Focus { surface: lock_surface });
            return;
        }
        if let Some(w) = under {
            if let Some(s) = self.find_handle(w) {
                self.activate_window(s);
                return;
            }
        }
        self.requests.push(Request::Focus { surface: None });
    }

    /// The end of a swipe that counts.
    pub fn swipe_ended(&mut self, travel: Travel, cancelled: bool)
        ensures
            final(self)@ == old(self)@.swiped(travel, cancelled),
            same_rest(*final(self), *old(self)),
    {
        if cancelled || self.workspace_count == 0 {
            return;
        }
        let current: u128 = self.current_workspace as u128;
        let count: u128 = self.workspace_count as u128;
        if travel.ceil <= -WORKSPACE_SWIPE_THRESHOLD {
            let next: u128 = (current + 1) % count;
            self.switch_workspace(next as usize);
        } else if travel.floor >= WORKSPACE_SWIPE_THRESHOLD {
            let next: u128 = (current + count - 1) % count;
            self.switch_workspace(next as usize);
        }
    }
}

/// Who gets the pointer, a touch or a pen.
#[derive(Debug, Clone, Copy, PartialEq, Eq, Structural)]
pub enum FocusChoice {
    Lock,
    Window,
    Nobody,
}

/// Who gets an input. A locked session gives it to the lock, and to no one while the
/// lock has no surface there.
pub fn choose_focus(locked: bool, has_lock_surface: bool, has_window: bool) -> (r: FocusChoice)
    ensures
        r == (if locked {
            if has_lock_surface {
                FocusChoice::Lock
            } else {
                FocusChoice::Nobody
            }
        } else if has_window {
            FocusChoice::Window
        } else {
            FocusChoice::Nobody
        }),
        locked ==> r != FocusChoice::Window,
{
    if locked {
        if has_lock_surface {
            FocusChoice::Lock
        } else {
            FocusChoice::Nobody
        }
    } else if has_window {
        FocusChoice::Window
    } else {
        FocusChoice::Nobody
    }
}

/// The whole coordinates that the pointer is held between.
#[derive(Debug, Clone, Copy, PartialEq, Eq, Structural)]
pub struct OutputBounds {
    pub min_x: i32,
    pub min_y: i32,
    pub max_x: i32,
    pub max_y: i32,
}

/// The bounds of the pointer on the first output, or on a common one without any.
pub fn output_bounds(output: Option<Rectangle>) -> (r: OutputBounds)
    ensures
        match output {
            Some(g) => r.min_x == g.loc.x && r.min_y == g.loc.y && r.max_x == sat(
                g.loc.x + g.size.w,
            ) && r.max_y == sat(g.loc.y + g.size.h),
            None => r == (OutputBounds { min_x: 0, min_y: 0, max_x: 1920, max_y: 1080 }),
        },
{
    match output {
        Some(g) => OutputBounds {
            min_x: g.loc.x,
            min_y: g.loc.y,
            max_x: sat_i64(g.loc.x as i64 + g.size.w as i64),
            max_y: sat_i64(g.loc.y as i64 + g.size.h as i64),
        },
        None => OutputBounds { min_x: 0, min_y: 0, max_x: 1920, max_y: 1080 },
    }
}

} // verus!
