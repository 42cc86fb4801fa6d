//! What each key, click and swipe does to the session.
use vstd::prelude::*;

use crate::blue::lemma_with_surface_is;
use crate::desktop::{Desktop, MetaEntry, Panels, Request, WindowMeta};
use crate::desktop_input::{lemma_with_handle_is, named_workspace};
use crate::grabs::Travel;
use crate::keybind::{
    combo_of, has_empty_part, law_modifiers_are_a_set, modifiers_of, names_modifier, parts_of,
    Modifiers,
};
use crate::session_laws::{
    law_going_to_a_workspace_makes_it_current, law_minimizing_is_noted,
};
use crate::text::lower;

verus! {

/// Whether the window at index `k` has the keyboard.
pub open spec fn has_the_keyboard(d: Desktop, k: int, focus: Option<u64>) -> bool {
    &&& 0 <= k < d.shown.len()
    &&& focus is Some
    &&& d.shown[k].surface == focus
    &&& forall|j: int| 0 <= j < k ==> (#[trigger] d.shown[j]).surface != focus
}

proof fn lemma_keyboard(d: Desktop, k: int, focus: Option<u64>)
    requires
        has_the_keyboard(d, k, focus),
    ensures
        d.keyboard_window(focus) == Some(d.shown[k]),
{
    lemma_with_surface_is(d.shown, focus->Some_0, k);
}

/// Super with a digit from 1 to 4 goes to the workspace of that number, or to the last one
/// where there are fewer, and counts as a use of Super. No entry of a window changes.
pub proof fn law_super_and_a_digit_go_to_a_workspace(
    d: Desktop,
    mods: Modifiers,
    n: u32,
    focus: Option<u64>,
)
    requires
        d.sound(),
        mods.super_,
        1 <= n <= 4,
    ensures
        ({
            let r = d.keyed(mods, (0x30 + n) as u32, true, focus);
            &&& r.1
            &&& n <= d.count ==> r.0.current == n - 1
            &&& n > d.count ==> r.0.current == d.count - 1
            &&& r.0.panels == (Panels { super_used: true, ..d.panels })
            &&& r.0.metas == d.metas
        }),
{
    law_going_to_a_workspace_makes_it_current(d.super_noted(), (n - 1) as usize);
}

/// Super with the right arrow goes to the next workspace, with the left arrow to the one
/// before; at the last and at the first one it stays.
pub proof fn law_super_and_an_arrow_go_to_the_neighbour(
    d: Desktop,
    mods: Modifiers,
    focus: Option<u64>,
)
    requires
        d.sound(),
        mods.super_,
        d.count < usize::MAX,
    ensures
        ({
            let right = d.keyed(mods, 0xff53, true, focus);
            let left = d.keyed(mods, 0xff51, true, focus);
            &&& right.1 && left.1
            &&& d.current + 1 < d.count ==> right.0.current == d.current + 1
            &&& d.current + 1 == d.count ==> right.0.current == d.current
            &&& d.current > 0 ==> left.0.current == d.current - 1
            &&& d.current == 0 ==> left.0.current == 0
            &&& right.0.metas == d.metas && left.0.metas == d.metas
        }),
{
    let s = d.super_noted();
    law_going_to_a_workspace_makes_it_current(s, d.meant((d.current + 1) as usize));
    law_going_to_a_workspace_makes_it_current(
        s,
        if d.current == 0 {
            0
        } else {
            (d.current - 1) as usize
        },
    );
}

/// Super with the up arrow asks to maximize the window that has the keyboard, or to
/// restore it, if its client speaks Wayland. Without one nothing is asked.
pub proof fn law_super_and_up_turn_the_maximized_state(
    d: Desktop,
    mods: Modifiers,
    k: int,
    focus: Option<u64>,
)
    requires
        mods.super_,
        has_the_keyboard(d, k, focus),
    ensures
        ({
            let r = d.keyed(mods, 0xff52, true, focus);
            let w = d.shown[k];
            &&& r.1
            &&& !w.is_x11 ==> r.0.requests == d.requests.push(
                Request::FlipMaximized { window: w.window },
            )
            &&& w.is_x11 ==> r.0.requests == d.requests
            &&& r.0.shown == d.shown && r.0.metas == d.metas && r.0.current == d.current
            &&& d.keyed(mods, 0xff52, true, None).0.requests == d.requests
        }),
{
    lemma_keyboard(d, k, focus);
}

/// Super with the down arrow minimizes the window that has the keyboard, and no other.
pub proof fn law_super_and_down_minimize(
    d: Desktop,
    mods: Modifiers,
    k: int,
    e: int,
    focus: Option<u64>,
)
    requires
        d.sound(),
        mods.super_,
        has_the_keyboard(d, k, focus),
        0 <= e < d.metas.len(),
        d.metas[e].id == d.shown[k].id,
    ensures
        ({
            let r = d.keyed(mods, 0xff54, true, focus);
            &&& r.1
            &&& r.0.metas == d.metas.update(
                e,
                MetaEntry {
                    id: d.metas[e].id,
                    meta: WindowMeta { is_minimized: true, ..d.metas[e].meta },
                },
            )
            &&& r.0.requests == d.requests && r.0.shown == d.shown
            &&& d.keyed(mods, 0xff54, true, None).0.metas == d.metas
        }),
{
    lemma_keyboard(d, k, focus);
    law_minimizing_is_noted(d.super_noted(), e, true);
}

/// Alt+F4 asks the Wayland client of the window that has the keyboard to close it, and
/// does nothing else; without such a window it does nothing.
pub proof fn law_alt_f4_closes(d: Desktop, mods: Modifiers, k: int, focus: Option<u64>)
    requires
        mods.alt,
        has_the_keyboard(d, k, focus),
    ensures
        ({
            let w = d.shown[k];
            let r = d.keyed(mods, 0xffc1, true, focus);
            &&& r.1
            &&& !w.is_x11 ==> r.0 == (Desktop {
                requests: d.requests.push(Request::Close { window: w.window }),
                ..d
            })
            &&& w.is_x11 ==> r.0 == d
            &&& d.keyed(mods, 0xffc1, true, None) == (d, true)
        }),
{
    lemma_keyboard(d, k, focus);
}

/// Ctrl+Alt+T asks for a terminal, and the Print key for a screenshot, once and with
/// nothing else; no client gets them.
pub proof fn law_some_keys_start_programs(d: Desktop, mods: Modifiers, focus: Option<u64>)
    ensures
        mods.ctrl && mods.alt && !mods.super_ ==> d.keyed(mods, 0x74, true, focus) == (
            Desktop { requests: d.requests.push(Request::LaunchTerminal), ..d },
            true,
        ),
        d.keyed(mods, 0xff61, true, focus) == (
            Desktop { requests: d.requests.push(Request::TakeScreenshot), ..d },
            true,
        ),
{
}

/// Alt+Tab opens the switcher at the first window; while it is open, releasing Alt chooses
/// and Escape leaves it without a choice. Super+Tab turns the large menu on and off.
pub proof fn law_keys_of_the_panels(d: Desktop, mods: Modifiers, focus: Option<u64>)
    ensures
        mods.alt && !mods.shift && !d.panels.show_switcher ==> d.keyed(mods, 0xff09, true, focus)
            == (
            Desktop {
                panels: Panels { show_switcher: true, switcher_index: 0, ..d.panels },
                ..d
            },
            true,
        ),
        mods.alt && mods.shift && !d.panels.show_switcher ==> d.keyed(mods, 0xff09, true, focus)
            == (d, true),
        d.panels.show_switcher ==> d.keyed(mods, 0xffe9, false, focus) == (d.selected(), true),
        d.panels.show_switcher ==> d.keyed(mods, 0xffea, false, focus) == (d.selected(), true),
        !d.panels.show_switcher ==> d.keyed(mods, 0xffe9, false, focus) == (d, false),
        !d.panels.show_switcher ==> d.keyed(mods, 0xffea, false, focus) == (d, false),
        d.panels.show_switcher ==> d.keyed(mods, 0xff1b, true, focus) == (
            Desktop { panels: Panels { show_switcher: false, ..d.panels }, ..d },
            true,
        ),
        mods.super_ && !mods.alt ==> d.keyed(mods, 0xff09, true, focus) == (
            Desktop {
                panels: Panels {
                    super_used: true,
                    fullscreen_menu_visible: !d.panels.fullscreen_menu_visible,
                    ..d.panels
                },
                ..d
            },
            true,
        ),
{
}

/// A key that is released goes to the client and changes nothing, but for Super, and for
/// Alt while the switcher is open.
pub proof fn law_released_keys_go_to_the_client(
    d: Desktop,
    mods: Modifiers,
    sym: u32,
    focus: Option<u64>,
)
    requires
        sym != 0xffeb && sym != 0xffec,
        (sym != 0xffe9 && sym != 0xffea) || !d.panels.show_switcher,
    ensures
        d.keyed(mods, sym, false, focus) == (d, false),
{
}

/// The actions of key bindings. They close the window that has the keyboard, let it fill
/// the screen or float, or not any more; they go on in the switcher or ask for a terminal.
pub proof fn law_actions_concern_the_window_with_the_keyboard(
    d: Desktop,
    k: int,
    focus: Option<u64>,
)
    requires
        has_the_keyboard(d, k, focus),
    ensures
        ({
            let w = d.shown[k];
            &&& d.acted("close_window"@, focus) == d.closed(w.id)
            &&& !w.is_x11 ==> d.acted("toggle_fullscreen"@, focus) == (Desktop {
                requests: d.requests.push(Request::FlipFullscreen { window: w.window }),
                ..d
            })
            &&& w.is_x11 ==> d.acted("toggle_fullscreen"@, focus) == d
            &&& d.acted("toggle_floating"@, focus) == d.floating_toggled(w.id)
            &&& d.acted("cycle_windows"@, focus) == d.switcher_advanced()
            &&& d.acted("launch_terminal"@, focus) == (Desktop {
                requests: d.requests.push(Request::LaunchTerminal),
                ..d
            })
        }),
{
    lemma_keyboard(d, k, focus);
    lemma_action_names();
}

/// Without a window that has the keyboard, the actions on one do nothing.
pub proof fn law_actions_need_a_window(d: Desktop)
    ensures
        d.acted("close_window"@, None) == d,
        d.acted("toggle_fullscreen"@, None) == d,
        d.acted("toggle_floating"@, None) == d,
{
    lemma_action_names();
}

proof fn lemma_action_names()
    ensures
        "close_window"@ != "toggle_fullscreen"@,
        "close_window"@ != "toggle_floating"@,
        "close_window"@ != "cycle_windows"@,
        "close_window"@ != "launch_terminal"@,
        "toggle_fullscreen"@ != "toggle_floating"@,
        "toggle_fullscreen"@ != "cycle_windows"@,
        "toggle_fullscreen"@ != "launch_terminal"@,
        "toggle_floating"@ != "cycle_windows"@,
        "toggle_floating"@ != "launch_terminal"@,
        "cycle_windows"@ != "launch_terminal"@,
{
    reveal_strlit("close_window");
    reveal_strlit("toggle_fullscreen");
    reveal_strlit("toggle_floating");
    reveal_strlit("cycle_windows");
    reveal_strlit("launch_terminal");
    assert("close_window"@[0] != "toggle_fullscreen"@[0]);
    assert("close_window"@[0] != "toggle_floating"@[0]);
    assert("close_window"@[1] != "cycle_windows"@[1]);
    assert("close_window"@[0] != "launch_terminal"@[0]);
    assert("toggle_fullscreen"@.len() != "toggle_floating"@.len());
    assert("toggle_fullscreen"@[0] != "cycle_windows"@[0]);
    assert("toggle_fullscreen"@[0] != "launch_terminal"@[0]);
    assert("toggle_floating"@[0] != "cycle_windows"@[0]);
    assert("toggle_floating"@[0] != "launch_terminal"@[0]);
    assert("cycle_windows"@[0] != "launch_terminal"@[0]);
}

/// The action `workspace_` with a number goes to the workspace of that number, counted
/// from one, or to the last one where there are fewer.
pub proof fn law_workspace_actions_count_from_one(
    d: Desktop,
    action: Seq<char>,
    n: nat,
    focus: Option<u64>,
)
    requires
        d.sound(),
        1 <= n <= usize::MAX,
        named_workspace(action) == Some(n),
    ensures
        n <= d.count ==> d.acted(action, focus).current == n - 1,
        n > d.count ==> d.acted(action, focus).current == d.count - 1,
        d.acted(action, focus).metas == d.metas,
        d.acted(action, focus).panels == d.panels,
{
    reveal_strlit("close_window");
    reveal_strlit("toggle_fullscreen");
    reveal_strlit("toggle_floating");
    reveal_strlit("cycle_windows");
    reveal_strlit("launch_terminal");
    reveal_strlit("workspace_");
    assert(action.take(10)[0] == action[0]);
    assert(action[0] == 'w');
    law_going_to_a_workspace_makes_it_current(d, (n - 1) as usize);
}

/// A click on a window of a session that is not locked raises it and gives it the
/// keyboard; a click on nothing takes the keyboard from all. Nothing else changes.
pub proof fn law_clicks_raise_the_window(d: Desktop, lock: Option<u64>, k: int)
    requires
        0 <= k < d.shown.len(),
        forall|j: int| 0 <= j < k ==> (#[trigger] d.shown[j]).window != d.shown[k].window,
    ensures
        ({
            let w = d.shown[k];
            let c = d.clicked(false, lock, Some(w.window));
            let raised = d.requests.push(Request::Raise { window: w.window });
            &&& c.shown.last() == w
            &&& w.surface is Some ==> c.requests == raised.push(
                Request::Focus { surface: w.surface },
            )
            &&& w.surface is None ==> c.requests == raised
            &&& c.metas == d.metas && c.current == d.current && c.panels == d.panels
            &&& d.clicked(false, lock, None) == (Desktop {
                requests: d.requests.push(Request::Focus { surface: None }),
                ..d
            })
        }),
{
    lemma_with_handle_is(d.shown, d.shown[k].window, k);
}

/// A swipe to the left of at least 80 pixels goes to the next workspace, and from the last
/// to the first; one to the right goes to the one before, and from the first to the last.
/// A shorter one, or one that is broken off, does nothing.
pub proof fn law_swipes_go_to_the_neighbour(d: Desktop, travel: Travel)
    requires
        d.sound(),
        travel.floor <= travel.ceil,
    ensures
        ({
            let s = d.swiped(travel, false);
            &&& travel.ceil <= -80 && d.current + 1 < d.count ==> s.current == d.current + 1
            &&& travel.ceil <= -80 && d.current + 1 == d.count ==> s.current == 0
            &&& travel.floor >= 80 && d.current > 0 ==> s.current == d.current - 1
            &&& travel.floor >= 80 && d.current == 0 ==> s.current == d.count - 1
            &&& travel.ceil > -80 && travel.floor < 80 ==> s == d
            &&& s.metas == d.metas
            &&& d.swiped(travel, true) == d
        }),
{
    let i = d.current as int;
    let n = d.count as int;
    if i + 1 < n {
        vstd::arithmetic::div_mod::lemma_small_mod((i + 1) as nat, n as nat);
    } else {
        vstd::arithmetic::div_mod::lemma_mod_self_0(n);
    }
    if i > 0 {
        vstd::arithmetic::div_mod::lemma_small_mod((i - 1) as nat, n as nat);
        vstd::arithmetic::div_mod::lemma_mod_add_multiples_vanish(i - 1, n);
    } else {
        vstd::arithmetic::div_mod::lemma_small_mod((n - 1) as nat, n as nat);
    }
    law_going_to_a_workspace_makes_it_current(d, ((i + 1) % n) as usize);
    law_going_to_a_workspace_makes_it_current(d, ((i + n - 1) % n) as usize);
}

/// A combination is read from its parts: the last one is the key, in lower case, and each
/// part before it is a modifier, whatever its case. Super is also called mod4, win, logo
/// and cmd, Ctrl also control, Alt also mod1 and meta. With another word before the key,
/// with a part left empty, or with nothing at all it is none.
pub proof fn law_combinations_are_read_from_their_parts(s: Seq<char>, i: int)
    requires
        0 <= i < parts_of(s).len() - 1,
    ensures
        ({
            let parts = parts_of(s);
            let word = lower(parts[i]);
            let of_super = word == "super"@ || word == "mod4"@ || word == "win"@ || word == "logo"@
                || word == "cmd"@;
            let of_ctrl = word == "ctrl"@ || word == "control"@;
            let of_alt = word == "alt"@ || word == "mod1"@ || word == "meta"@;
            &&& combo_of(s) matches Ok(c) ==> c.1 == lower(parts.last())
            &&& combo_of(s) matches Ok(c) ==> (of_super ==> c.0.super_)
            &&& combo_of(s) matches Ok(c) ==> (word == "shift"@ ==> c.0.shift)
            &&& combo_of(s) matches Ok(c) ==> (of_ctrl ==> c.0.ctrl)
            &&& combo_of(s) matches Ok(c) ==> (of_alt ==> c.0.alt)
            &&& !of_super && word != "shift"@ && !of_ctrl && !of_alt ==> combo_of(s) is Err
            &&& parts[i].len() == 0 || parts.last().len() == 0 ==> combo_of(s) is Err
            &&& combo_of(Seq::empty()) is Err
        }),
{
    let parts = parts_of(s);
    let n = (parts.len() - 1) as nat;
    law_modifiers_are_a_set(parts, n);
    if modifiers_of(parts, n) is Ok {
        assert(names_modifier(lower(parts[i])));
    }
    assert(parts[i].len() == 0 ==> has_empty_part(parts));
    assert(parts.last() == parts[parts.len() - 1]);
    assert(parts.last().len() == 0 ==> has_empty_part(parts));
}

} // verus!
