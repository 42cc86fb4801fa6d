//! What the requests of clients do to the desktop, and what they are told of it.
use vstd::prelude::*;

use crate::desk::Desk;
use crate::desk_laws::law_tiling_moves_windows_only;
use crate::hackerland::{covered, lemma_actions_differ, ordered, read, Order};
use crate::ipc::{
    all_outputs, all_windows, all_workspaces, environment, requested, IpcRequest,
};
use crate::sde::SdeCall;
use crate::shell_ipc::{called, sde_outputs, sde_windows};
use crate::space::location_in;
use crate::text::{decimal, law_decimal_round_trip};
use crate::window::Effect;
use crate::window_laws::{
    law_closing_asks_the_client, law_maximized_windows_fill_the_area,
    law_minimized_windows_are_not_shown, law_moved_windows_follow_their_workspace,
    law_restored_windows_get_their_geometry_back, lemma_found,
};

verus! {

/// A request that names a window concerns that window and no other: it is closed by its
/// client, minimized and then not shown, restored and given the focus, maximized on the
/// first output or not any more, made to float or not any more, and moved to a workspace.
pub proof fn law_requests_concern_their_window(d: Desk, i: int, on: bool, workspace: u32)
    requires
        d.sound(),
        0 <= i < d.windows.len(),
        workspace < d.workspace_count(),
    ensures
        ({
            let w = d.windows[i];
            let id = w.id;
            let close = requested(d, IpcRequest::CloseWindow { id });
            let hide = requested(d, IpcRequest::MinimizeWindow { id });
            let back = requested(d, IpcRequest::UnminimizeWindow { id });
            let focus = requested(d, IpcRequest::FocusWindow { id });
            let fill = requested(d, IpcRequest::MaximizeWindow { id, maximized: on });
            let float = requested(d, IpcRequest::ToggleFloatingWindow { id });
            let there = requested(d, IpcRequest::MoveWindowToWorkspace { id, workspace });
            &&& close.effects == d.effects.push(Effect::Close { window: w.window })
            &&& close.windows == d.windows
            &&& hide.windows[i].is_minimized
            &&& !w.is_minimized ==> location_in(hide.space, w.window) is None
            &&& back.focused == Some(id) && !back.windows[i].is_minimized
            &&& focus.focused == Some(id) && !focus.windows[i].is_minimized
            &&& location_in(focus.space, w.window) is Some
            &&& fill.windows[i].is_maximized == on
            &&& on ==> location_in(fill.space, w.window) == Some(d.primary_output().loc)
            &&& float.floating.contains(id) == !d.floating.contains(id)
            &&& there.windows[i].workspace == workspace
            &&& forall|j: int|
                0 <= j < d.windows.len() && j != i ==> #[trigger] d.windows[j] == hide.windows[j]
                    && d.windows[j] == fill.windows[j] && d.windows[j] == there.windows[j]
                    && d.windows[j] == focus.windows[j] && d.windows[j] == back.windows[j]
        }),
{
    let w = d.windows[i];
    lemma_found(d, i);
    law_closing_asks_the_client(d, i);
    if !w.is_minimized {
        law_minimized_windows_are_not_shown(d, i, 0);
    }
    crate::desk_laws::law_focus_is_given(d, w.id);
    law_maximized_windows_fill_the_area(d, i, d.primary_output(), 0);
    law_restored_windows_get_their_geometry_back(d, i, d.primary_output(), 0);
    crate::layout_laws::law_one_window_floats(d, w.id, 0);
    if w.workspace != workspace {
        law_moved_windows_follow_their_workspace(d, i, workspace, workspace, 0);
    }
}

/// A request that names a workspace concerns that one: it becomes the active one if there
/// is such a one, and it is tiled or not any more. Shutting down ends the session, and a
/// wallpaper is taken over. What only asks changes nothing.
pub proof fn law_other_requests(d: Desk, id: u32, on: bool, path: String)
    requires
        d.sound(),
    ensures
        id < d.workspace_count() ==> requested(d, IpcRequest::SwitchWorkspace { id }).active == id,
        id >= d.workspace_count() ==> requested(d, IpcRequest::SwitchWorkspace { id }) == d,
        requested(d, IpcRequest::SetTiling { workspace: id, enabled: on }).tiling.contains(id)
            == on,
        requested(d, IpcRequest::Shutdown) == (Desk { running: false, ..d }),
        requested(d, IpcRequest::SetWallpaper { path }) == (Desk {
            wallpaper: path@,
            reload_wallpaper: true,
            ..d
        }),
        requested(d, IpcRequest::Ping) == d,
        requested(d, IpcRequest::ListWindows) == d,
        requested(d, IpcRequest::ListWorkspaces) == d,
        requested(d, IpcRequest::ListOutputs) == d,
        requested(d, IpcRequest::ReloadConfig) == d,
{
    crate::desk_laws::lemma_exchange_frame(d, id);
    law_tiling_moves_windows_only(d.exchanged(id));
    crate::layout_laws::law_tiling_is_set_for_one_workspace(d, id, on, id);
}

/// The three protocols mean the same: a request, the call of the shell and the order of the
/// control socket that go by one name lead to one desktop.
pub proof fn law_the_protocols_agree(
    d: Desk,
    id: u64,
    on: bool,
    workspace: u32,
    path: String,
    args: Seq<Seq<char>>,
    peer: Option<i32>,
)
    requires
        args.len() > 0,
        args[0] == path@,
    ensures
        requested(d, IpcRequest::FocusWindow { id }) == ordered(d, Order::Focus { id }, args),
        requested(d, IpcRequest::FocusWindow { id }) == called(
            d,
            SdeCall::FocusWindow { id },
            peer,
        ),
        requested(d, IpcRequest::CloseWindow { id }) == ordered(d, Order::Close { id }, args),
        requested(d, IpcRequest::CloseWindow { id }) == called(
            d,
            SdeCall::CloseWindow { id },
            peer,
        ),
        requested(d, IpcRequest::MinimizeWindow { id }) == ordered(
            d,
            Order::Minimize { id },
            args,
        ),
        requested(d, IpcRequest::MinimizeWindow { id }) == called(
            d,
            SdeCall::MinimizeWindow { id },
            peer,
        ),
        requested(d, IpcRequest::UnminimizeWindow { id }) == ordered(
            d,
            Order::Unminimize { id },
            args,
        ),
        requested(d, IpcRequest::UnminimizeWindow { id }) == called(
            d,
            SdeCall::UnminimizeWindow { id },
            peer,
        ),
        requested(d, IpcRequest::MaximizeWindow { id, maximized: on }) == ordered(
            d,
            Order::Maximize { id, maximized: on },
            args,
        ),
        requested(d, IpcRequest::MaximizeWindow { id, maximized: on }) == called(
            d,
            SdeCall::MaximizeWindow { id, maximized: on },
            peer,
        ),
        requested(d, IpcRequest::ToggleFloatingWindow { id }) == ordered(
            d,
            Order::ToggleFloating { id },
            args,
        ),
        requested(d, IpcRequest::ToggleFloatingWindow { id }) == called(
            d,
            SdeCall::ToggleFloatingWindow { id },
            peer,
        ),
        requested(d, IpcRequest::SwitchWorkspace { id: workspace }) == ordered(
            d,
            Order::Switch { workspace },
            args,
        ),
        requested(d, IpcRequest::SwitchWorkspace { id: workspace }) == called(
            d,
            SdeCall::SwitchWorkspace { id: workspace },
            peer,
        ),
        requested(d, IpcRequest::MoveWindowToWorkspace { id, workspace }) == ordered(
            d,
            Order::Move { id, workspace },
            args,
        ),
        requested(d, IpcRequest::MoveWindowToWorkspace { id, workspace }) == called(
            d,
            SdeCall::MoveWindowToWorkspace { id, workspace },
            peer,
        ),
        requested(d, IpcRequest::SetTiling { workspace, enabled: on }) == ordered(
            d,
            Order::Tile { workspace, enabled: on },
            args,
        ),
        requested(d, IpcRequest::SetTiling { workspace, enabled: on }) == called(
            d,
            SdeCall::SetTiling { workspace, enabled: on },
            peer,
        ),
        requested(d, IpcRequest::SetWallpaper { path }) == ordered(d, Order::SetWallpaper, args),
        requested(d, IpcRequest::SetWallpaper { path }) == called(
            d,
            SdeCall::SetWallpaper { path },
            peer,
        ),
        requested(d, IpcRequest::Shutdown) == ordered(d, Order::Exit, args),
        requested(d, IpcRequest::Shutdown) == called(d, SdeCall::Shutdown, peer),
        ordered(d, Order::Launch, args) == d,
        ordered(d, Order::Reload, args) == d,
        called(d, SdeCall::Ping, peer) == d,
        called(d, SdeCall::ListWindows, peer) == d,
        called(d, SdeCall::ListWorkspaces, peer) == d,
        called(d, SdeCall::ListOutputs, peer) == d,
        called(d, SdeCall::ReloadConfig, peer) == d,
        called(d, SdeCall::Subscribe, peer) == d,
{
}

/// Pinning by a call of the shell pins for the process that calls, at the edge and as thick
/// as it says.
pub proof fn law_calls_pin_for_their_process(
    d: Desk,
    app_id: String,
    edge: crate::sde::PinnedEdge,
    thickness_px: u32,
    peer: Option<i32>,
    pid: Option<i32>,
)
    ensures
        ({
            let p = called(d, SdeCall::PinSurface { app_id, edge, thickness_px }, peer);
            let pin = crate::desk::pin_for(p.pinned, app_id@, pid);
            &&& pin is Some
            &&& pin->Some_0.thickness == thickness_px
            &&& pin->Some_0.owner == peer
            &&& (pin->Some_0.edge is Top) == (edge is Top)
            &&& (pin->Some_0.edge is Bottom) == (edge is Bottom)
        }),
{
    let pin = crate::desk::Pin {
        edge: crate::shell_ipc::desk_edge(edge),
        thickness: thickness_px,
        owner: peer,
    };
    crate::desk_laws::law_the_latest_pin_holds(d, app_id@, pin, pid, app_id@);
}

/// An action with its arguments written out is read as the order of that name: ids and
/// workspaces by their digits, what is switched by `on` or `off`.
pub proof fn law_actions_are_read_from_their_words(id: u64, workspace: u32)
    ensures
        ({
            let one = seq![decimal(id as nat)];
            let place = seq![decimal(workspace as nat)];
            let both = seq![decimal(id as nat), decimal(workspace as nat)];
            let none = Seq::<Seq<char>>::empty();
            &&& read("focuswindow"@, one) == Ok::<Order, Seq<char>>(Order::Focus { id })
            &&& read("closewindow"@, one) == Ok::<Order, Seq<char>>(Order::Close { id })
            &&& read("minimizewindow"@, one) == Ok::<Order, Seq<char>>(Order::Minimize { id })
            &&& read("unminimizewindow"@, one) == Ok::<Order, Seq<char>>(Order::Unminimize { id })
            &&& read("maximizewindow"@, one) == Ok::<Order, Seq<char>>(
                Order::Maximize { id, maximized: true },
            )
            &&& read("togglefloating"@, one) == Ok::<Order, Seq<char>>(
                Order::ToggleFloating { id },
            )
            &&& read("workspace"@, place) == Ok::<Order, Seq<char>>(Order::Switch { workspace })
            &&& read("movetoworkspace"@, both) == Ok::<Order, Seq<char>>(
                Order::Move { id, workspace },
            )
            &&& read("setwallpaper"@, one) == Ok::<Order, Seq<char>>(Order::SetWallpaper)
            &&& read("launch"@, one) == Ok::<Order, Seq<char>>(Order::Launch)
            &&& read("reload"@, none) == Ok::<Order, Seq<char>>(Order::Reload)
            &&& read("exit"@, none) == Ok::<Order, Seq<char>>(Order::Exit)
            &&& read("focuswindow"@, none) is Err && read("workspace"@, none) is Err
            &&& read("movetoworkspace"@, one) is Err && read("settiling"@, place) is Err
            &&& read("setwallpaper"@, none) is Err && read("launch"@, none) is Err
        }),
{
    law_decimal_round_trip(id as nat, u64::MAX as nat);
    law_decimal_round_trip(workspace as nat, u32::MAX as nat);
    lemma_actions_differ();
    lemma_covered();
}

/// What is switched is switched on by `on` and by `true`, off by `off` and by `false`, and
/// by no other word.
pub proof fn law_switches_are_read_from_their_words(id: u64, workspace: u32, word: Seq<char>)
    ensures
        ({
            let w = seq![decimal(id as nat), word];
            let t = seq![decimal(workspace as nat), word];
            let on = word == "on"@ || word == "true"@;
            let off = word == "off"@ || word == "false"@;
            &&& on ==> read("maximizewindow"@, w) == Ok::<Order, Seq<char>>(
                Order::Maximize { id, maximized: true },
            )
            &&& off ==> read("maximizewindow"@, w) == Ok::<Order, Seq<char>>(
                Order::Maximize { id, maximized: false },
            )
            &&& on ==> read("settiling"@, t) == Ok::<Order, Seq<char>>(
                Order::Tile { workspace, enabled: true },
            )
            &&& off ==> read("settiling"@, t) == Ok::<Order, Seq<char>>(
                Order::Tile { workspace, enabled: false },
            )
            &&& !on && !off ==> read("maximizewindow"@, w) is Err && read("settiling"@, t) is Err
        }),
{
    law_decimal_round_trip(id as nat, u64::MAX as nat);
    law_decimal_round_trip(workspace as nat, u32::MAX as nat);
    lemma_actions_differ();
    lemma_covered();
    reveal_strlit("on");
    reveal_strlit("off");
    reveal_strlit("true");
    reveal_strlit("false");
    assert("on"@.len() != "off"@.len());
    assert("on"@.len() != "false"@.len());
    assert("true"@.len() != "off"@.len());
    assert("true"@.len() != "false"@.len());
}

proof fn lemma_covered()
    ensures
        covered().len() == 13,
        covered()[0] == "focuswindow"@,
        covered()[1] == "closewindow"@,
        covered()[2] == "minimizewindow"@,
        covered()[3] == "unminimizewindow"@,
        covered()[4] == "maximizewindow"@,
        covered()[5] == "togglefloating"@,
        covered()[6] == "workspace"@,
        covered()[7] == "movetoworkspace"@,
        covered()[8] == "settiling"@,
        covered()[9] == "setwallpaper"@,
        covered()[10] == "launch"@,
        covered()[11] == "reload"@,
        covered()[12] == "exit"@,
{
}

/// Clients are told of every window, in order, what is known of it: in both protocols the
/// same, and the shell also which one has the focus.
pub proof fn law_windows_are_told_as_they_are(d: Desk, i: int)
    requires
        0 <= i < d.windows.len(),
    ensures
        all_windows(d).len() == d.windows.len(),
        sde_windows(d).len() == d.windows.len(),
        ({
            let w = d.windows[i];
            let a = all_windows(d)[i];
            let b = sde_windows(d)[i];
            &&& a.id == w.id && b.id == w.id
            &&& a.title == w.title && b.title == w.title
            &&& a.app_id == w.app_id && b.app_id == w.app_id
            &&& a.is_xwayland == w.is_x11
            &&& a.is_minimized == w.is_minimized && b.minimized == w.is_minimized
            &&& a.is_maximized == w.is_maximized && b.maximized == w.is_maximized
            &&& a.is_floating == d.floating.contains(w.id)
            &&& b.floating == d.floating.contains(w.id)
            &&& b.workspace == w.workspace
            &&& b.focused == (d.focused == Some(w.id))
        }),
{
}

/// Clients are told of every output, in order, where it is, how large it is and how it is
/// driven; one of unknown geometry is taken for one of 1920 by 1080 at the origin. The
/// first is the primary one.
pub proof fn law_outputs_are_told_as_they_are(d: Desk, i: int)
    requires
        0 <= i < d.outputs.len(),
    ensures
        all_outputs(d).len() == d.outputs.len(),
        sde_outputs(d).len() == d.outputs.len(),
        ({
            let o = d.outputs[i];
            let a = all_outputs(d)[i];
            let b = sde_outputs(d)[i];
            &&& a.name == o.name && b.name == o.name
            &&& o.geometry matches Some(g) ==> a.x == g.loc.x && a.y == g.loc.y && a.width
                == g.size.w && a.height == g.size.h
            &&& o.geometry is None ==> a.x == 0 && a.y == 0 && a.width == 1920 && a.height == 1080
            &&& b.width == a.width && b.height == a.height
            &&& a.refresh_mhz == o.refresh_mhz && b.refresh_mhz == o.refresh_mhz
            &&& a.scale_bits == o.scale_bits && b.scale_bits == o.scale_bits
            &&& i == 0 ==> a.is_primary && b.primary
            &&& o.name@ != d.outputs[0].name@ ==> !a.is_primary && !b.primary
        }),
{
}

/// Clients are told of every workspace, in order, whether it is the active one, whether it
/// is tiled, and how many windows belong to it.
pub proof fn law_workspaces_are_told_as_they_are(d: Desk, i: int)
    requires
        0 <= i < d.workspace_count(),
        d.windows.len() <= u32::MAX,
    ensures
        all_workspaces(d).len() == d.workspace_count(),
        all_workspaces(d)[i].id == i,
        all_workspaces(d)[i].is_active == (i == d.active),
        all_workspaces(d)[i].is_tiling == d.tiling.contains(i as u32),
        members(d, i as u32, d.windows.len()).finite(),
        all_workspaces(d)[i].window_count == members(d, i as u32, d.windows.len()).len(),
{
    lemma_members(d, i as u32, d.windows.len());
}

/// The indices of the first `n` windows that belong to a workspace.
pub open spec fn members(d: Desk, workspace: u32, n: nat) -> Set<int> {
    Set::new(|i: int| 0 <= i < n && d.windows[i].workspace == workspace)
}

proof fn lemma_members(d: Desk, workspace: u32, n: nat)
    requires
        n <= d.windows.len(),
    ensures
        members(d, workspace, n).finite(),
        members(d, workspace, n).len() == d.count_on(workspace, n),
        d.count_on(workspace, n) <= n,
    decreases n,
{
    let s = members(d, workspace, n);
    if n == 0 {
        assert(s =~= Set::empty());
    } else {
        let m = (n - 1) as nat;
        lemma_members(d, workspace, m);
        let t = members(d, workspace, m);
        if d.windows[n - 1].workspace == workspace {
            assert(s =~= t.insert(n - 1));
        } else {
            assert(s =~= t);
        }
    }
}

/// A program that is started learns where the compositor listens, which X11 server there
/// is, and the theme of the cursor, each where it is known, and nothing else.
pub proof fn law_programs_learn_where_the_compositor_is(
    socket: Option<Seq<char>>,
    display: Option<u32>,
    theme: Option<Seq<char>>,
)
    ensures
        ({
            let e = environment(socket, display, theme);
            let a = if socket is Some {
                1int
            } else {
                0
            };
            let b = if display is Some {
                1int
            } else {
                0
            };
            let c = if theme is Some {
                1int
            } else {
                0
            };
            &&& e.len() == a + b + c
            &&& socket is Some ==> e[0] == ("WAYLAND_DISPLAY"@, socket->Some_0)
            &&& display is Some ==> e[a] == (
                "DISPLAY"@,
                ":"@ + decimal(display->Some_0 as nat),
            )
            &&& theme is Some ==> e[a + b] == ("XCURSOR_THEME"@, theme->Some_0)
        }),
{
}

} // verus!
