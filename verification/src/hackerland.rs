//! The control socket of a HackerLand session: text commands and their replies.
use vstd::prelude::*;

use crate::desk::Desk;
use crate::hwde::HwdeState;
use crate::ipc::{
    all_outputs, all_windows, all_workspaces, OutputSummary, WindowSummary, WorkspaceSummary,
};
use crate::text::{
    chars_of, join2, join3, parse_number, parsed_number, string_of, text_eq, trim, trim_chars,
    views, words, words_of,
};

verus! {

/// What an action asks for. The path of a wallpaper and the command to launch are the
/// action's own arguments.
#[derive(Debug, Clone, Copy, PartialEq, Eq, Structural)]
pub enum Order {
    Focus { id: u64 },
    Close { id: u64 },
    Minimize { id: u64 },
    Unminimize { id: u64 },
    Maximize { id: u64, maximized: bool },
    ToggleFloating { id: u64 },
    Switch { workspace: u32 },
    Move { id: u64, workspace: u32 },
    Tile { workspace: u32, enabled: bool },
    SetWallpaper,
    Launch,
    Reload,
    Exit,
}

pub open spec fn texts(args: Seq<String>) -> Seq<Seq<char>> {
    args.map_values(|s: String| s@)
}

pub open spec fn usage_error(usage: Seq<char>) -> Seq<char> {
    "usage: "@ + usage
}

/// The number at an index of the arguments: a 64-bit id.
pub open spec fn id_at(args: Seq<Seq<char>>, i: int, usage: Seq<char>) -> Result<u64, Seq<char>> {
    if i >= args.len() {
        Err(usage_error(usage))
    } else {
        match parsed_number(args[i], u64::MAX as nat) {
            Some(n) => Ok(n as u64),
            None => Err("`"@ + args[i] + "` is not a valid id"@),
        }
    }
}

/// The number at an index of the arguments: a 32-bit workspace.
pub open spec fn number_at(args: Seq<Seq<char>>, i: int, usage: Seq<char>) -> Result<
    u32,
    Seq<char>,
> {
    if i >= args.len() {
        Err(usage_error(usage))
    } else {
        match parsed_number(args[i], u32::MAX as nat) {
            Some(n) => Ok(n as u32),
            None => Err("`"@ + args[i] + "` is not a valid number"@),
        }
    }
}

/// What the word for a switch means.
pub open spec fn on_or_off(word: Seq<char>) -> Option<bool> {
    if word == "on"@ || word == "true"@ {
        Some(true)
    } else if word == "off"@ || word == "false"@ {
        Some(false)
    } else {
        None
    }
}

pub open spec fn unknown_action(action: Seq<char>) -> Seq<char> {
    "unknown dispatch action `"@ + action
        + "` (see `comphwde wm --help` for the full list)"@
}

/// What an action with its arguments asks for, or why it is refused.
pub open spec fn read(action: Seq<char>, args: Seq<Seq<char>>) -> Result<Order, Seq<char>> {
    if action == "focuswindow"@ {
        match id_at(args, 0, "focuswindow <id>"@) {
            Ok(id) => Ok(Order::Focus { id }),
            Err(e) => Err(e),
        }
    } else if action == "closewindow"@ {
        match id_at(args, 0, "closewindow <id>"@) {
            Ok(id) => Ok(Order::Close { id }),
            Err(e) => Err(e),
        }
    } else if action == "minimizewindow"@ {
        match id_at(args, 0, "minimizewindow <id>"@) {
            Ok(id) => Ok(Order::Minimize { id }),
            Err(e) => Err(e),
        }
    } else if action == "unminimizewindow"@ {
        match id_at(args, 0, "unminimizewindow <id>"@) {
            Ok(id) => Ok(Order::Unminimize { id }),
            Err(e) => Err(e),
        }
    } else if action == "maximizewindow"@ {
        match id_at(args, 0, "maximizewindow <id> [on|off]"@) {
            Ok(id) => if args.len() < 2 {
                Ok(Order::Maximize { id, maximized: true })
            } else {
                match on_or_off(args[1]) {
                    Some(maximized) => Ok(Order::Maximize { id, maximized }),
                    None => Err("`"@ + args[1] + "` is not `on`/`off`"@),
                }
            },
            Err(e) => Err(e),
        }
    } else if action == "togglefloating"@ {
        match id_at(args, 0, "togglefloating <id>"@) {
            Ok(id) => Ok(Order::ToggleFloating { id }),
            Err(e) => Err(e),
        }
    } else if action == "workspace"@ {
        match number_at(args, 0, "workspace <id>"@) {
            Ok(workspace) => Ok(Order::Switch { workspace }),
            Err(e) => Err(e),
        }
    } else if action == "movetoworkspace"@ {
        match id_at(args, 0, "movetoworkspace <id> <workspace>"@) {
            Ok(id) => match number_at(args, 1, "movetoworkspace <id> <workspace>"@) {
                Ok(workspace) => Ok(Order::Move { id, workspace }),
                Err(e) => Err(e),
            },
            Err(e) => Err(e),
        }
    } else if action == "settiling"@ {
        match number_at(args, 0, "settiling <workspace> <on|off>"@) {
            Ok(workspace) => if args.len() < 2 {
                Err("expected `on` or `off`"@)
            } else {
                match on_or_off(args[1]) {
                    Some(enabled) => Ok(Order::Tile { workspace, enabled }),
                    None => Err("expected `on` or `off`"@),
                }
            },
            Err(e) => Err(e),
        }
    } else if action == "setwallpaper"@ {
        if args.len() > 0 {
            Ok(Order::SetWallpaper)
        } else {
            Err("usage: setwallpaper <path>"@)
        }
    } else if action == "launch"@ {
        if args.len() > 0 {
            Ok(Order::Launch)
        } else {
            Err("usage: launch <command> [args...]"@)
        }
    } else if action == "reload"@ {
        Ok(Order::Reload)
    } else if action == "exit"@ {
        Ok(Order::Exit)
    } else {
        Err(unknown_action(action))
    }
}

/// Whether an executable result is the one of the mathematics.
pub open spec fn same_outcome<T>(r: Result<T, String>, s: Result<T, Seq<char>>) -> bool {
    match r {
        Ok(v) => s == Ok::<T, Seq<char>>(v),
        Err(e) => s == Err::<T, Seq<char>>(e@),
    }
}

fn require_u64(args: &Vec<String>, idx: usize, usage: &str) -> (r: Result<u64, String>)
    ensures
        same_outcome(r, id_at(texts(args@), idx as int, usage@)),
{
    if idx >= args.len() {
        return Err(join2("usage: ", usage));
    }
    let word = args[idx].as_str();
    match parse_number(word, u64::MAX) {
        Some(n) => Ok(n),
        None => Err(join3("`", word, "` is not a valid id")),
    }
}

fn require_u32(args: &Vec<String>, idx: usize, usage: &str) -> (r: Result<u32, String>)
    ensures
        same_outcome(r, number_at(texts(args@), idx as int, usage@)),
{
    if idx >= args.len() {
        return Err(join2("usage: ", usage));
    }
    let word = args[idx].as_str();
    match parse_number(word, u32::MAX as u64) {
        Some(n) => Ok(n as u32),
        None => Err(join3("`", word, "` is not a valid number")),
    }
}

fn switch_word(word: &str) -> (r: Option<bool>)
    ensures
        r == on_or_off(word@),
{
    if text_eq(word, "on") || text_eq(word, "true") {
        Some(true)
    } else if text_eq(word, "off") || text_eq(word, "false") {
        Some(false)
    } else {
        None
    }
}

fn read_maximize(args: &Vec<String>) -> (r: Result<Order, String>)
    ensures
        same_outcome(r, read("maximizewindow"@, texts(args@))),
{
    proof {
        lemma_actions_differ();
    }
    match require_u64(args, 0, "maximizewindow <id> [on|off]") {
        Ok(id) => {
            if args.len() < 2 {
                return Ok(Order::Maximize { id, maximized: true });
            }
            let word = args[1].as_str();
            match switch_word(word) {
                Some(maximized) => Ok(Order::Maximize { id, maximized }),
                None => Err(join3("`", word, "` is not `on`/`off`")),
            }
        },
        Err(e) => Err(e),
    }
}

fn read_move(args: &Vec<String>) -> (r: Result<Order, String>)
    ensures
        same_outcome(r, read("movetoworkspace"@, texts(args@))),
{
    proof {
        lemma_actions_differ();
    }
    match require_u64(args, 0, "movetoworkspace <id> <workspace>") {
        Ok(id) => match require_u32(args, 1, "movetoworkspace <id> <workspace>") {
            Ok(workspace) => Ok(Order::Move { id, workspace }),
            Err(e) => Err(e),
        },
        Err(e) => Err(e),
    }
}

fn read_tiling(args: &Vec<String>) -> (r: Result<Order, String>)
    ensures
        same_outcome(r, read("settiling"@, texts(args@))),
{
    proof {
        lemma_actions_differ();
    }
    match require_u32(args, 0, "settiling <workspace> <on|off>") {
        Ok(workspace) => {
            if args.len() < 2 {
                return Err(String::from_str("expected `on` or `off`"));
            }
            match switch_word(args[1].as_str()) {
                Some(enabled) => Ok(Order::Tile { workspace, enabled }),
                None => Err(String::from_str("expected `on` or `off`")),
            }
        },
        Err(e) => Err(e),
    }
}

/// Reads an action with its arguments.
pub fn read_action(action: &str, args: &Vec<String>) -> (r: Result<Order, String>)
    ensures
        same_outcome(r, read(action@, texts(args@))),
{
    if text_eq(action, "focuswindow") {
        match require_u64(args, 0, "focuswindow <id>") {
            Ok(id) => Ok(Order::Focus { id }),
            Err(e) => Err(e),
        }
    } else if text_eq(action, "closewindow") {
        match require_u64(args, 0, "closewindow <id>") {
            Ok(id) => Ok(Order::Close { id }),
            Err(e) => Err(e),
        }
    } else if text_eq(action, "minimizewindow") {
        match require_u64(args, 0, "minimizewindow <id>") {
            Ok(id) => Ok(Order::Minimize { id }),
            Err(e) => Err(e),
        }
    } else if text_eq(action, "unminimizewindow") {
        match require_u64(args, 0, "unminimizewindow <id>") {
            Ok(id) => Ok(Order::Unminimize { id }),
            Err(e) => Err(e),
        }
    } else if text_eq(action, "maximizewindow") {
        read_maximize(args)
    } else if text_eq(action, "togglefloating") {
        match require_u64(args, 0, "togglefloating <id>") {
            Ok(id) => Ok(Order::ToggleFloating { id }),
            Err(e) => Err(e),
        }
    } else if text_eq(action, "workspace") {
        match require_u32(args, 0, "workspace <id>") {
            Ok(workspace) => Ok(Order::Switch { workspace }),
            Err(e) => Err(e),
        }
    } else if text_eq(action, "movetoworkspace") {
        read_move(args)
    } else if text_eq(action, "settiling") {
        read_tiling(args)
    } else if text_eq(action, "setwallpaper") {
        if args.len() > 0 {
            Ok(Order::SetWallpaper)
        } else {
            Err(String::from_str("usage: setwallpaper <path>"))
        }
    } else if text_eq(action, "launch") {
        if args.len() > 0 {
            Ok(Order::Launch)
        } else {
            Err(String::from_str("usage: launch <command> [args...]"))
        }
    } else if text_eq(action, "reload") {
        Ok(Order::Reload)
    } else if text_eq(action, "exit") {
        Ok(Order::Exit)
    } else {
        Err(
            join3(
                "unknown dispatch action `",
                action,
                "` (see `comphwde wm --help` for the full list)",
            ),
        )
    }
}

/// The desktop after an order.
pub open spec fn ordered(d: Desk, order: Order, args: Seq<Seq<char>>) -> Desk {
    match order {
        Order::Focus { id } => d.focus(id),
        Order::Close { id } => d.closed(id),
        Order::Minimize { id } => d.minimized(id),
        Order::Unminimize { id } => d.focus(id),
        Order::Maximize { id, maximized } => d.maximized(id, maximized, d.primary_output()),
        Order::ToggleFloating { id } => d.floating_toggled(id),
        Order::Switch { workspace } => d.switched(workspace),
        Order::Move { id, workspace } => d.moved(id, workspace),
        Order::Tile { workspace, enabled } => d.tiling_set(workspace, enabled),
        Order::SetWallpaper => Desk { wallpaper: args[0], reload_wallpaper: true, ..d },
        Order::Exit => Desk { running: false, ..d },
        Order::Launch | Order::Reload => d,
    }
}

/// What is left to do after an action: nothing, to start a program and reply with how
/// that went, or to load the configuration anew.
#[derive(Debug)]
pub enum Rest {
    Nothing,
    Launch { command: String, args: Vec<String> },
    Reload,
}

/// Whether `rest` is what an order leaves to do.
pub open spec fn rest_is(order: Order, args: Seq<Seq<char>>, rest: Rest) -> bool {
    match order {
        Order::Launch => rest matches Rest::Launch { command, args: tail } && command@ == args[0]
            && texts(tail@) == args.skip(1),
        Order::Reload => rest is Reload,
        _ => rest is Nothing,
    }
}

fn tail_of(args: &Vec<String>) -> (r: Vec<String>)
    requires
        args.len() > 0,
    ensures
        r@ == args@.skip(1),
{
    let mut out: Vec<String> = Vec::new();
    let mut i: usize = 1;
    while i < args.len()
        invariant
            1 <= i <= args.len(),
            out@ == args@.subrange(1, i as int),
        decreases args.len() - i,
    {
        out.push(args[i].clone());
        i = i + 1;
        assert(out@ =~= args@.subrange(1, i as int));
    }
    assert(args@.skip(1) =~= args@.subrange(1, args.len() as int));
    out
}

/// Whether an order has the arguments that it goes by.
pub open spec fn has_arguments(order: Order, args: Seq<Seq<char>>) -> bool {
    (order is SetWallpaper || order is Launch) ==> args.len() > 0
}

fn run_order(order: Order, args: &Vec<String>, state: &mut HwdeState) -> (r: Rest)
    requires
        has_arguments(order, texts(args@)),
    ensures
        final(state)@ == ordered(old(state)@, order, texts(args@)),
        rest_is(order, texts(args@), r),
{
    match order {
        Order::Focus { id } => {
            state.focus_window_by_id(id);
            Rest::Nothing
        },
        Order::Close { id } => {
            state.close_window_by_id(id);
            Rest::Nothing
        },
        Order::Minimize { id } => {
            state.minimize_window_by_id(id);
            Rest::Nothing
        },
        Order::Unminimize { id } => {
            state.unminimize_window_by_id(id);
            Rest::Nothing
        },
        Order::Maximize { id, maximized } => {
            let area = state.primary_output_geometry();
            state.maximize_window_by_id(id, maximized, area);
            Rest::Nothing
        },
        Order::ToggleFloating { id } => {
            state.toggle_floating_by_id(id);
            Rest::Nothing
        },
        Order::Switch { workspace } => {
            state.switch_workspace(workspace);
            Rest::Nothing
        },
        Order::Move { id, workspace } => {
            state.move_window_to_workspace(id, workspace);
            Rest::Nothing
        },
        Order::Tile { workspace, enabled } => {
            state.set_tiling(workspace, enabled);
            Rest::Nothing
        },
        Order::SetWallpaper => {
            state.set_wallpaper(args[0].clone());
            Rest::Nothing
        },
        Order::Launch => {
            let tail = tail_of(args);
            assert(texts(tail@) =~= texts(args@).skip(1));
            Rest::Launch { command: args[0].clone(), args: tail }
        },
        Order::Reload => Rest::Reload,
        Order::Exit => {
            state.stop();
            Rest::Nothing
        },
    }
}

/// Runs an action with its arguments. A refused action changes nothing.
pub fn dispatch_action(action: &str, args: &Vec<String>, state: &mut HwdeState) -> (r: Result<
    Rest,
    String,
>)
    ensures
        match read(action@, texts(args@)) {
            Ok(order) => {
                &&& final(state)@ == ordered(old(state)@, order, texts(args@))
                &&& r matches Ok(rest) && rest_is(order, texts(args@), rest)
            },
            Err(text) => {
                &&& final(state)@ == old(state)@
                &&& r matches Err(e) && e@ == text
            },
        },
{
    match read_action(action, args) {
        Ok(order) => Ok(run_order(order, args, state)),
        Err(e) => Err(e),
    }
}

/// A command of the control socket.
#[derive(Debug)]
pub enum Command {
    Ping,
    Windows,
    Workspaces,
    Outputs,
    Dispatch { action: String, args: Vec<String> },
}

/// Whether a line is read as a command, or refused with a text.
pub open spec fn read_as(line: Seq<char>, r: Result<Command, String>) -> bool {
    let w = words(line);
    if w.len() > 0 && w[0] == "ping"@ {
        r matches Ok(Command::Ping)
    } else if w.len() > 0 && w[0] == "windows"@ {
        r matches Ok(Command::Windows)
    } else if w.len() > 0 && w[0] == "workspaces"@ {
        r matches Ok(Command::Workspaces)
    } else if w.len() > 0 && w[0] == "outputs"@ {
        r matches Ok(Command::Outputs)
    } else if w.len() > 0 && w[0] == "dispatch"@ {
        if w.len() > 1 {
            r matches Ok(Command::Dispatch { action, args }) && action@ == w[1] && texts(args@)
                == w.skip(2)
        } else {
            r matches Err(text) && text@ == usage_error("dispatch <action> [args...]"@)
        }
    } else {
        r matches Err(text) && text@ == "unknown command `"@ + trim(line) + "`"@
    }
}

impl Command {
    /// Reads a line of the control socket.
    pub fn parse(line: &str) -> (r: Result<Command, String>)
        ensures
            read_as(line@, r),
    {
        let all = chars_of(line);
        let list = words_of(&all);
        assert(views(list@).len() == list.len());
        assert forall|i: int| 0 <= i < list.len() implies (#[trigger] list@[i])@ == words(
            line@,
        )[i] by {
            assert(views(list@)[i] == list@[i]@);
        }
        if list.len() > 0 {
            let first = string_of(&list[0]);
            if text_eq(first.as_str(), "ping") {
                return Ok(Command::Ping);
            }
            if text_eq(first.as_str(), "windows") {
                return Ok(Command::Windows);
            }
            if text_eq(first.as_str(), "workspaces") {
                return Ok(Command::Workspaces);
            }
            if text_eq(first.as_str(), "outputs") {
                return Ok(Command::Outputs);
            }
            if text_eq(first.as_str(), "dispatch") {
                if list.len() == 1 {
                    return Err(join2("usage: ", "dispatch <action> [args...]"));
                }
                let action = string_of(&list[1]);
                let mut args: Vec<String> = Vec::new();
                let mut i: usize = 2;
                while i < list.len()
                    invariant
                        2 <= i <= list.len(),
                        args.len() == i - 2,
                        forall|k: int| 0 <= k < args.len() ==> (#[trigger] args@[k])@ == list@[k
                            + 2]@,
                    decreases list.len() - i,
                {
                    args.push(string_of(&list[i]));
                    i = i + 1;
                }
                assert(texts(args@) =~= words(line@).skip(2));
                return Ok(Command::Dispatch { action, args });
            }
        }
        let shown = string_of(&trim_chars(&all));
        Err(join3("unknown command `", shown.as_str(), "`"))
    }
}

/// The reply to a command, or what has to be done before there is one.
#[derive(Debug)]
pub enum Reply {
    Line(String),
    Windows(Vec<WindowSummary>),
    Workspaces(Vec<WorkspaceSummary>),
    Outputs(Vec<OutputSummary>),
    /// Start a program; `launched` gives the reply.
    Launch { command: String, args: Vec<String> },
    /// Load the configuration anew and take it over; the reply is `ok`.
    Reload,
}

pub open spec fn line_is(r: Reply, text: Seq<char>) -> bool {
    r matches Reply::Line(s) && s@ == text
}

/// Whether a reply is the one to a command.
pub open spec fn replies(d: Desk, cmd: Command, r: Reply) -> bool {
    match cmd {
        Command::Ping => line_is(r, "pong"@),
        Command::Windows => r matches Reply::Windows(v) && v@ == all_windows(d),
        Command::Workspaces => r matches Reply::Workspaces(v) && v@ == all_workspaces(d),
        Command::Outputs => r matches Reply::Outputs(v) && v@ == all_outputs(d),
        Command::Dispatch { action, args } => match read(action@, texts(args@)) {
            Ok(Order::Launch) => r matches Reply::Launch { command, args: tail } && command@
                == args@[0]@ && texts(tail@) == texts(args@).skip(1),
            Ok(Order::Reload) => r is Reload,
            Ok(_) => line_is(r, "ok"@),
            Err(text) => line_is(r, "error: "@ + text),
        },
    }
}

/// The desktop after a command.
pub open spec fn commanded(d: Desk, cmd: Command) -> Desk {
    match cmd {
        Command::Dispatch { action, args } => match read(action@, texts(args@)) {
            Ok(order) => ordered(d, order, texts(args@)),
            Err(_) => d,
        },
        _ => d,
    }
}

/// Runs a command.
pub fn dispatch(cmd: Command, state: &mut HwdeState) -> (r: Reply)
    ensures
        final(state)@ == commanded(old(state)@, cmd),
        replies(old(state)@, cmd, r),
{
    match cmd {
        Command::Ping => Reply::Line(String::from_str("pong")),
        Command::Windows => Reply::Windows(state.window_summaries()),
        Command::Workspaces => Reply::Workspaces(state.workspace_summaries()),
        Command::Outputs => Reply::Outputs(state.output_summaries()),
        Command::Dispatch { action, args } => {
            match dispatch_action(action.as_str(), &args, state) {
                Ok(Rest::Nothing) => Reply::Line(String::from_str("ok")),
                Ok(Rest::Launch { command, args: tail }) => Reply::Launch { command, args: tail },
                Ok(Rest::Reload) => Reply::Reload,
                Err(e) => Reply::Line(join2("error: ", e.as_str())),
            }
        },
    }
}

/// The reply once a program was started, or failed to start.
pub fn launched(outcome: Result<(), String>) -> (r: String)
    ensures
        match outcome {
            Ok(_) => r@ == "ok"@,
            Err(text) => r@ == "error: "@ + text@,
        },
{
    match outcome {
        Ok(_) => String::from_str("ok"),
        Err(text) => join2("error: ", text.as_str()),
    }
}

/// The actions that the usage text lists.
pub open spec fn covered() -> Seq<Seq<char>> {
    seq![
        "focuswindow"@,
        "closewindow"@,
        "minimizewindow"@,
        "unminimizewindow"@,
        "maximizewindow"@,
        "togglefloating"@,
        "workspace"@,
        "movetoworkspace"@,
        "settiling"@,
        "setwallpaper"@,
        "launch"@,
        "reload"@,
        "exit"@,
    ]
}

/// The names of all actions.
pub fn protocol_actions_covered() -> (r: Vec<String>)
    ensures
        texts(r@) == covered(),
{
    let r = vec![
        String::from_str("focuswindow"),
        String::from_str("closewindow"),
        String::from_str("minimizewindow"),
        String::from_str("unminimizewindow"),
        String::from_str("maximizewindow"),
        String::from_str("togglefloating"),
        String::from_str("workspace"),
        String::from_str("movetoworkspace"),
        String::from_str("settiling"),
        String::from_str("setwallpaper"),
        String::from_str("launch"),
        String::from_str("reload"),
        String::from_str("exit"),
    ];
    assert(texts(r@) =~= covered());
    r
}

/// The names of the actions are different from one another.
pub proof fn lemma_actions_differ()
    ensures
        covered().no_duplicates(),
{
    reveal_strlit("focuswindow");
    reveal_strlit("closewindow");
    reveal_strlit("minimizewindow");
    reveal_strlit("unminimizewindow");
    reveal_strlit("maximizewindow");
    reveal_strlit("togglefloating");
    reveal_strlit("workspace");
    reveal_strlit("movetoworkspace");
    reveal_strlit("settiling");
    reveal_strlit("setwallpaper");
    reveal_strlit("launch");
    reveal_strlit("reload");
    reveal_strlit("exit");
    let c = covered();
    assert forall|i: int, j: int| 0 <= i < j < c.len() implies c[i] != c[j] by {
        assert(c[i].len() != c[j].len() || c[i][0] != c[j][0] || c[i][2] != c[j][2] || c[i][3]
            != c[j][3]);
    }
}

/// Every action of the usage text is known: whatever its arguments are, it is not
/// refused as unknown.
pub proof fn law_listed_actions_are_known(action: Seq<char>, args: Seq<Seq<char>>)
    requires
        covered().contains(action),
    ensures
        read(action, args) != Err::<Order, Seq<char>>(unknown_action(action)),
{
    reveal_strlit("unknown dispatch action `");
    reveal_strlit("usage: ");
    reveal_strlit("usage: setwallpaper <path>");
    reveal_strlit("usage: launch <command> [args...]");
    reveal_strlit("`");
    reveal_strlit("expected `on` or `off`");
    let unknown = unknown_action(action);
    assert(unknown.len() > 1);
    assert(unknown[0] == 'u' && unknown[1] == 'n');
    assert(forall|u: Seq<char>|
        #![trigger usage_error(u)]
        usage_error(u).len() > 1 && usage_error(u)[1] == 's');
    if args.len() > 0 {
        assert(("`"@ + args[0] + "` is not a valid id"@)[0] == '`');
        assert(("`"@ + args[0] + "` is not a valid number"@)[0] == '`');
    }
    if args.len() > 1 {
        assert(("`"@ + args[1] + "` is not `on`/`off`"@)[0] == '`');
        assert(("`"@ + args[1] + "` is not a valid number"@)[0] == '`');
    }
    let i = choose|i: int| 0 <= i < covered().len() && covered()[i] == action;
    assert(covered()[i] == action);
    assert("usage: setwallpaper <path>"@[1] == 's');
    assert("usage: launch <command> [args...]"@[1] == 's');
    assert("expected `on` or `off`"@[0] == 'e');
}

/// An action that the usage text does not list is refused by name, and the desktop
/// stays as it was.
pub proof fn law_other_actions_are_refused(d: Desk, action: String, args: Vec<String>)
    requires
        !covered().contains(action@),
    ensures
        read(action@, texts(args@)) == Err::<Order, Seq<char>>(unknown_action(action@)),
        commanded(d, Command::Dispatch { action, args }) == d,
{
    let c = covered();
    assert(c[0] == "focuswindow"@ && c[1] == "closewindow"@ && c[2] == "minimizewindow"@ && c[3]
        == "unminimizewindow"@ && c[4] == "maximizewindow"@ && c[5] == "togglefloating"@ && c[6]
        == "workspace"@ && c[7] == "movetoworkspace"@ && c[8] == "settiling"@ && c[9]
        == "setwallpaper"@ && c[10] == "launch"@ && c[11] == "reload"@ && c[12] == "exit"@);
}

} // verus!
