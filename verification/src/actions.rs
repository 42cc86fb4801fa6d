//! The actions that keys are bound to.
use vstd::prelude::*;

use crate::desk::Desk;
use crate::desktop_input::{named_workspace, workspace_named, KEY_ESCAPE};
use crate::hwde::HwdeState;
use crate::keybind::Modifiers;
use crate::text::text_eq;
use crate::window::{find_window, position};

verus! {

/// An action. `AdjustMaster` holds the new share of the master window, a
/// single-precision number by its bit pattern; workspaces are counted from one.
#[derive(Debug)]
pub enum Action {
    Spawn(String),
    CloseWindow,
    ToggleMaximize,
    ToggleTiling,
    ToggleFloating,
    SwapMaster,
    AdjustMaster(u32),
    FocusNext,
    FocusPrev,
    Quit,
    ReloadConfig,
    DimNow,
    SwitchWorkspace(u32),
    MoveToWorkspace(u32),
}

/// What is left to do after an action: nothing, to start a program, to load the
/// configuration anew, or to dim the picture.
#[derive(Debug)]
pub enum ActionRest {
    Nothing,
    Spawn(String),
    Reload,
    /// Dim the picture until the next input.
    Dim,
}

/// The number from zero of a workspace that is counted from one.
pub open spec fn from_zero(n: u32) -> u32 {
    if n == 0 {
        0
    } else {
        (n - 1) as u32
    }
}

impl Desk {
    /// Whether the window with an id is there and maximized.
    pub open spec fn is_maximized(self, id: u64) -> bool {
        let i = position(self.windows, id) as int;
        i < self.windows.len() && self.windows[i].is_maximized
    }

    /// The desktop after an action.
    pub open spec fn acted(self, action: Action) -> Desk {
        match action {
            Action::CloseWindow => match self.focused {
                Some(id) => self.closed(id),
                None => self,
            },
            Action::ToggleMaximize => match self.focused {
                Some(id) => self.maximized(id, !self.is_maximized(id), self.primary_output()),
                None => self,
            },
            Action::ToggleTiling => self.tiling_toggled(),
            Action::ToggleFloating => match self.focused {
                Some(id) => self.floating_toggled(id),
                None => self,
            },
            Action::SwapMaster => self.master_swapped(),
            Action::AdjustMaster(ratio) => self.ratio_set(ratio),
            Action::FocusNext => self.focus_option(self.next_focus()),
            Action::FocusPrev => self.focus_option(self.previous_focus()),
            Action::Quit => Desk { running: false, ..self },
            Action::SwitchWorkspace(n) => self.switched(from_zero(n)),
            Action::MoveToWorkspace(n) => match self.focused {
                Some(id) => self.moved(id, from_zero(n)),
                None => self,
            },
            Action::Spawn(_) | Action::ReloadConfig | Action::DimNow => self,
        }
    }
}

/// Whether `rest` is what an action leaves to do.
pub open spec fn action_rest_is(action: Action, rest: ActionRest) -> bool {
    match action {
        Action::Spawn(command) => rest == ActionRest::Spawn(command),
        Action::ReloadConfig => rest is Reload,
        Action::DimNow => rest is Dim,
        _ => rest is Nothing,
    }
}

/// The action that a name of the key bindings stands for; `terminal` is the program that
/// a terminal is started with.
pub open spec fn action_of(name: Seq<char>, terminal: String) -> Option<Action> {
    if name == "close_window"@ {
        Some(Action::CloseWindow)
    } else if name == "toggle_floating"@ {
        Some(Action::ToggleFloating)
    } else if name == "cycle_windows"@ {
        Some(Action::FocusNext)
    } else if name == "launch_terminal"@ {
        Some(Action::Spawn(terminal))
    } else {
        match named_workspace(name) {
            Some(n) => if 1 <= n <= u32::MAX {
                Some(Action::SwitchWorkspace(n as u32))
            } else {
                None
            },
            None => None,
        }
    }
}

pub fn action_named(name: &str, terminal: String) -> (r: Option<Action>)
    ensures
        r == action_of(name@, terminal),
{
    if text_eq(name, "close_window") {
        return Some(Action::CloseWindow);
    }
    if text_eq(name, "toggle_floating") {
        return Some(Action::ToggleFloating);
    }
    if text_eq(name, "cycle_windows") {
        return Some(Action::FocusNext);
    }
    if text_eq(name, "launch_terminal") {
        return Some(Action::Spawn(terminal));
    }
    match workspace_named(name) {
        Some(n) => if n >= 1 && n as u64 <= u32::MAX as u64 {
            Some(Action::SwitchWorkspace(n as u32))
        } else {
            None
        },
        None => None,
    }
}

/// Whether a key is the combination for emergencies: Ctrl+Alt+Shift+Escape.
pub fn is_emergency_reset(mods: Modifiers, sym: u32) -> (r: bool)
    ensures
        r == (mods.ctrl && mods.alt && mods.shift && sym == KEY_ESCAPE),
{
    mods.ctrl && mods.alt && mods.shift && sym == KEY_ESCAPE
}

impl HwdeState {
    /// Runs an action.
    pub fn run_action(&mut self, action: Action) -> (r: ActionRest)
        ensures
            final(self)@ == old(self)@.acted(action),
            action_rest_is(action, r),
    {
        match action {
            Action::Spawn(command) => {
                return ActionRest::Spawn(command);
            },
            Action::CloseWindow => {
                if let Some(id) = self.focused_window {
                    self.close_window_by_id(id);
                }
            },
            Action::ToggleMaximize => {
                if let Some(id) = self.focused_window {
                    let on = match find_window(&self.windows, id) {
                        Some(i) => self.windows[i].is_maximized,
                        None => false,
                    };
                    let area = self.primary_output_geometry();
                    self.maximize_window_by_id(id, !on, area);
                }
            },
            Action::ToggleTiling => self.toggle_tiling(),
            Action::ToggleFloating => {
                if let Some(id) = self.focused_window {
                    self.toggle_floating_by_id(id);
                }
            },
            Action::SwapMaster => self.swap_with_master(),
            Action::AdjustMaster(ratio) => self.adjust_master_ratio(ratio),
            Action::FocusNext => self.focus_next_window(),
            Action::FocusPrev => self.focus_prev_window(),
            Action::Quit => self.stop(),
            Action::ReloadConfig => {
                return ActionRest::Reload;
            },
            Action::DimNow => {
                return ActionRest::Dim;
            },
            Action::SwitchWorkspace(n) => {
                let target: u32 = if n == 0 {
                    0
                } else {
                    n - 1
                };
                self.switch_workspace(target);
            },
            Action::MoveToWorkspace(n) => {
                let target: u32 = if n == 0 {
                    0
                } else {
                    n - 1
                };
                if let Some(id) = self.focused_window {
                    self.move_window_to_workspace(id, target);
                }
            },
        }
        ActionRest::Nothing
    }
}

/// A key binding, as far as a key press is concerned: whether it matches the key, and
/// the action it stands for, if it stands for any.
#[derive(Debug)]
pub struct Candidate {
    pub matches: bool,
    pub action: Option<Action>,
}

/// What becomes of a key.
#[derive(Debug)]
pub enum KeyFate {
    /// The client gets it.
    Forward,
    /// It resets the session.
    EmergencyReset,
    /// It runs an action.
    Run(Action),
}

/// The index of the first binding that matches, or their number.
pub open spec fn first_match(c: Seq<Candidate>) -> nat
    decreases c.len(),
{
    if c.len() == 0 || c[0].matches {
        0
    } else {
        1 + first_match(c.skip(1))
    }
}

/// What becomes of a key: only a press can do more than go to the client; the
/// emergency combination comes before every binding; of the bindings the first one
/// that matches decides, even if it stands for no action.
pub open spec fn key_fate(
    pressed: bool,
    emergency: bool,
    candidates: Seq<Candidate>,
) -> KeyFate {
    let i = first_match(candidates) as int;
    if !pressed {
        KeyFate::Forward
    } else if emergency {
        KeyFate::EmergencyReset
    } else if i < candidates.len() {
        match candidates[i].action {
            Some(action) => KeyFate::Run(action),
            None => KeyFate::Forward,
        }
    } else {
        KeyFate::Forward
    }
}

pub proof fn lemma_first_match_is(c: Seq<Candidate>, n: int)
    requires
        0 <= n <= c.len(),
        forall|k: int| 0 <= k < n ==> !(#[trigger] c[k]).matches,
        n < c.len() ==> c[n].matches,
    ensures
        first_match(c) == n,
    decreases c.len(),
{
    if n > 0 {
        assert(!c[0].matches);
        let t = c.skip(1);
        assert forall|k: int| 0 <= k < n - 1 implies !(#[trigger] t[k]).matches by {
            assert(t[k] == c[k + 1]);
        }
        lemma_first_match_is(t, n - 1);
    }
}

/// Decides on a key.
pub fn decide_key(pressed: bool, emergency: bool, candidates: Vec<Candidate>) -> (r: KeyFate)
    ensures
        r == key_fate(pressed, emergency, candidates@),
{
    if !pressed {
        return KeyFate::Forward;
    }
    if emergency {
        return KeyFate::EmergencyReset;
    }
    let mut list = candidates;
    let mut i: usize = 0;
    while i < list.len()
        invariant
            i <= list.len(),
            list@ == candidates@,
            pressed,
            !emergency,
            forall|k: int| 0 <= k < i ==> !(#[trigger] candidates@[k]).matches,
        decreases list.len() - i,
    {
        if list[i].matches {
            proof {
                lemma_first_match_is(candidates@, i as int);
            }
            let c = list.swap_remove(i);
            return match c.action {
                Some(action) => KeyFate::Run(action),
                None => KeyFate::Forward,
            };
        }
        i = i + 1;
    }
    proof {
        lemma_first_match_is(candidates@, candidates@.len() as int);
    }
    KeyFate::Forward
}

/// The emergency combination can not be bound away.
pub proof fn law_emergency_comes_first(candidates: Seq<Candidate>)
    ensures
        key_fate(true, true, candidates) == KeyFate::EmergencyReset,
{
}

} // verus!
