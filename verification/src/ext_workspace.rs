//! The workspaces as panels are told of them.
use vstd::prelude::*;

use crate::text::{decimal, decimal_text};

verus! {

/// A message to a panel. Managers, groups and handles are objects of the display
/// server, known by number.
#[derive(Debug)]
pub enum WorkspaceSent {
    Group { manager: u64, group: u64 },
    /// A group allows nothing of its own.
    GroupCapabilities { group: u64 },
    /// The outputs that the client has.
    Outputs { group: u64 },
    Workspace { manager: u64, handle: u64 },
    Name { handle: u64, name: String },
    State { handle: u64, active: bool },
    /// A workspace can be activated.
    Capabilities { handle: u64 },
    Enter { group: u64, handle: u64 },
    Done { manager: u64 },
    Finished { manager: u64 },
}

/// A message as mathematics.
#[verifier::ext_equal]
pub enum WorkspaceMessage {
    Group { manager: u64, group: u64 },
    GroupCapabilities { group: u64 },
    Outputs { group: u64 },
    Workspace { manager: u64, handle: u64 },
    Name { handle: u64, name: Seq<char> },
    State { handle: u64, active: bool },
    Capabilities { handle: u64 },
    Enter { group: u64, handle: u64 },
    Done { manager: u64 },
    Finished { manager: u64 },
}

impl View for WorkspaceSent {
    type V = WorkspaceMessage;

    open spec fn view(&self) -> WorkspaceMessage {
        match *self {
            WorkspaceSent::Group { manager, group } => WorkspaceMessage::Group { manager, group },
            WorkspaceSent::GroupCapabilities { group } => WorkspaceMessage::GroupCapabilities {
                group,
            },
            WorkspaceSent::Outputs { group } => WorkspaceMessage::Outputs { group },
            WorkspaceSent::Workspace { manager, handle } => WorkspaceMessage::Workspace {
                manager,
                handle,
            },
            WorkspaceSent::Name { handle, name } => WorkspaceMessage::Name { handle, name: name@ },
            WorkspaceSent::State { handle, active } => WorkspaceMessage::State { handle, active },
            WorkspaceSent::Capabilities { handle } => WorkspaceMessage::Capabilities { handle },
            WorkspaceSent::Enter { group, handle } => WorkspaceMessage::Enter { group, handle },
            WorkspaceSent::Done { manager } => WorkspaceMessage::Done { manager },
            WorkspaceSent::Finished { manager } => WorkspaceMessage::Finished { manager },
        }
    }
}

pub open spec fn told(v: Seq<WorkspaceSent>) -> Seq<WorkspaceMessage> {
    v.map_values(|s: WorkspaceSent| s@)
}

/// A panel that has bound the protocol. `workspaces[i]` is its handle for workspace
/// `i`, if one could be made.
#[derive(Debug)]
pub struct WorkspaceManagerInstance {
    pub manager: u64,
    pub group: u64,
    pub workspaces: Vec<Option<u64>>,
}

/// What of a panel the messages go by.
#[verifier::ext_equal]
pub struct Panel {
    pub manager: u64,
    pub group: u64,
    pub handles: Seq<Option<u64>>,
}

impl View for WorkspaceManagerInstance {
    type V = Panel;

    open spec fn view(&self) -> Panel {
        Panel { manager: self.manager, group: self.group, handles: self.workspaces@ }
    }
}

/// Which numbered workspace a handle stands for.
#[derive(Debug, Clone, Copy, PartialEq, Eq, Structural)]
pub struct WorkspaceHandleData {
    pub index: usize,
}

#[derive(Debug)]
pub struct ExtWorkspaceState {
    pub global: Option<u64>,
    pub instances: Vec<WorkspaceManagerInstance>,
}

impl View for ExtWorkspaceState {
    type V = Seq<Panel>;

    open spec fn view(&self) -> Seq<Panel> {
        self.instances@.map_values(|i: WorkspaceManagerInstance| i@)
    }
}

/// What a panel is told of one workspace.
pub open spec fn introduction(p: Panel, i: int, current: int) -> Seq<WorkspaceMessage> {
    match p.handles[i] {
        Some(handle) => seq![
            WorkspaceMessage::Workspace { manager: p.manager, handle },
            WorkspaceMessage::Name { handle, name: decimal((i + 1) as nat) },
            WorkspaceMessage::State { handle, active: i == current },
            WorkspaceMessage::Capabilities { handle },
            WorkspaceMessage::Enter { group: p.group, handle },
        ],
        None => Seq::empty(),
    }
}

/// What a panel is told of the first `n` workspaces.
pub open spec fn introductions(p: Panel, current: int, n: nat) -> Seq<WorkspaceMessage>
    decreases n,
{
    if n == 0 {
        Seq::empty()
    } else {
        introductions(p, current, (n - 1) as nat) + introduction(p, n - 1, current)
    }
}

/// Everything a panel is told when it binds the protocol.
pub open spec fn welcome(p: Panel, current: int) -> Seq<WorkspaceMessage> {
    seq![
        WorkspaceMessage::Group { manager: p.manager, group: p.group },
        WorkspaceMessage::GroupCapabilities { group: p.group },
        WorkspaceMessage::Outputs { group: p.group },
    ] + introductions(p, current, p.handles.len()) + seq![
        WorkspaceMessage::Done { manager: p.manager },
    ]
}

/// The state of one workspace, if the panel has a handle of it.
pub open spec fn state_of(p: Panel, index: int, active: bool) -> Seq<WorkspaceMessage> {
    if index < p.handles.len() {
        match p.handles[index] {
            Some(handle) => seq![WorkspaceMessage::State { handle, active }],
            None => Seq::empty(),
        }
    } else {
        Seq::empty()
    }
}

/// What a panel is told of a switch: the states of both workspaces, and that this is
/// all.
pub open spec fn switch_messages(p: Panel, from: int, to: int) -> Seq<WorkspaceMessage> {
    state_of(p, from, false) + state_of(p, to, true) + seq![
        WorkspaceMessage::Done { manager: p.manager },
    ]
}

/// What the first `n` panels are told of a switch.
pub open spec fn all_switch_messages(
    panels: Seq<Panel>,
    from: int,
    to: int,
    n: nat,
) -> Seq<WorkspaceMessage>
    decreases n,
{
    if n == 0 {
        Seq::empty()
    } else {
        all_switch_messages(panels, from, to, (n - 1) as nat) + switch_messages(
            panels[n - 1],
            from,
            to,
        )
    }
}

/// Those of the panels that are still there, of the first `n`.
pub open spec fn alive_of(panels: Seq<Panel>, alive: Seq<bool>, n: nat) -> Seq<Panel>
    decreases n,
{
    if n == 0 {
        Seq::empty()
    } else {
        let before = alive_of(panels, alive, (n - 1) as nat);
        if alive[n - 1] {
            before.push(panels[n - 1])
        } else {
            before
        }
    }
}

/// The panels but those of a manager.
pub open spec fn without_manager(panels: Seq<Panel>, manager: u64) -> Seq<Panel>
    decreases panels.len(),
{
    if panels.len() == 0 {
        panels
    } else if panels.last().manager == manager {
        without_manager(panels.drop_last(), manager)
    } else {
        without_manager(panels.drop_last(), manager).push(panels.last())
    }
}

/// The protocol, registered under a number of the display server.
pub fn init_ext_workspace(global: u64) -> (r: ExtWorkspaceState)
    ensures
        r.global == Some(global),
        r@ == Seq::<Panel>::empty(),
{
    let r = ExtWorkspaceState { global: Some(global), instances: Vec::new() };
    assert(r@ =~= Seq::empty());
    r
}

fn push_state(
    out: &mut Vec<WorkspaceSent>,
    p: &WorkspaceManagerInstance,
    index: usize,
    active: bool,
)
    ensures
        told(final(out)@) == told(old(out)@) + state_of(p@, index as int, active),
{
    if index < p.workspaces.len() {
        if let Some(handle) = p.workspaces[index] {
            out.push(WorkspaceSent::State { handle, active });
        }
    }
    assert(told(out@) =~= told(old(out)@) + state_of(p@, index as int, active));
}

impl ExtWorkspaceState {
    /// A panel binds the protocol. `handles` holds, for each workspace, the handle
    /// that was made for it, if one could be made.
    pub fn bind(
        &mut self,
        manager: u64,
        group: u64,
        handles: Vec<Option<u64>>,
        current: usize,
    ) -> (r: Vec<WorkspaceSent>)
        ensures
            final(self)@ == old(self)@.push(Panel { manager, group, handles: handles@ }),
            final(self).global == old(self).global,
            told(r@) == welcome(Panel { manager, group, handles: handles@ }, current as int),
    {
        let ghost p = Panel { manager, group, handles: handles@ };
        let mut out: Vec<WorkspaceSent> = Vec::new();
        out.push(WorkspaceSent::Group { manager, group });
        out.push(WorkspaceSent::GroupCapabilities { group });
        out.push(WorkspaceSent::Outputs { group });
        let ghost head = told(out@);
        let mut i: usize = 0;
        assert(told(out@) =~= head + introductions(p, current as int, 0));
        while i < handles.len()
            invariant
                i <= handles.len(),
                p == (Panel { manager, group, handles: handles@ }),
                told(out@) == head + introductions(p, current as int, i as nat),
            decreases handles.len() - i,
        {
            if let Some(handle) = handles[i] {
                let ghost before = out@;
                let name = decimal_text(i as u128 + 1);
                out.push(WorkspaceSent::Workspace { manager, handle });
                out.push(WorkspaceSent::Name { handle, name });
                out.push(WorkspaceSent::State { handle, active: i == current });
                out.push(WorkspaceSent::Capabilities { handle });
                out.push(WorkspaceSent::Enter { group, handle });
                assert(told(out@) =~= told(before) + introduction(p, i as int, current as int));
            }
            i = i + 1;
            assert(told(out@) =~= head + introductions(p, current as int, i as nat));
        }
        out.push(WorkspaceSent::Done { manager });
        assert(told(out@) =~= welcome(p, current as int)) by {
            assert(head =~= seq![
                WorkspaceMessage::Group { manager, group },
                WorkspaceMessage::GroupCapabilities { group },
                WorkspaceMessage::Outputs { group },
            ]);
        }
        self.instances.push(WorkspaceManagerInstance { manager, group, workspaces: handles });
        assert(self@ =~= old(self)@.push(p));
        out
    }

    /// The session has switched workspaces. `alive` tells which panels are still
    /// there; the others are forgotten.
    pub fn notify_workspace_switched(
        &mut self,
        alive: &Vec<bool>,
        old_index: usize,
        new_index: usize,
    ) -> (r: Vec<WorkspaceSent>)
        requires
            alive.len() == old(self)@.len(),
        ensures
            final(self)@ == alive_of(old(self)@, alive@, alive@.len()),
            final(self).global == old(self).global,
            told(r@) == all_switch_messages(
                final(self)@,
                old_index as int,
                new_index as int,
                final(self)@.len(),
            ),
    {
        let ghost before = self@;
        let mut kept: Vec<WorkspaceManagerInstance> = Vec::new();
        let mut rest: Vec<WorkspaceManagerInstance> = Vec::new();
        rest.append(&mut self.instances);
        let ghost all = rest@;
        let mut i: usize = alive.len();
        let mut reversed: Vec<WorkspaceManagerInstance> = Vec::new();
        while i > 0
            invariant
                i <= all.len(),
                rest@ == all.take(i as int),
                reversed@.len() == all.len() - i,
                forall|k: int| 0 <= k < reversed@.len() ==> reversed@[k] == all[all.len() - 1 - k],
            decreases i,
        {
            i = i - 1;
            match rest.pop() {
                Some(p) => {
                    reversed.push(p);
                },
                None => {},
            }
            assert(rest@ =~= all.take(i as int));
        }
        let ghost panels = all.map_values(|p: WorkspaceManagerInstance| p@);
        assert(panels =~= before);
        assert(kept@.map_values(|p: WorkspaceManagerInstance| p@) =~= alive_of(before, alive@, 0));
        while i < alive.len()
            invariant
                i <= alive.len(),
                alive.len() == all.len(),
                panels == all.map_values(|p: WorkspaceManagerInstance| p@),
                panels == before,
                reversed@.len() == all.len() - i,
                forall|k: int| 0 <= k < reversed@.len() ==> reversed@[k] == all[all.len() - 1 - k],
                kept@.map_values(|p: WorkspaceManagerInstance| p@) == alive_of(
                    before,
                    alive@,
                    i as nat,
                ),
            decreases alive.len() - i,
        {
            let ghost done = kept@.map_values(|p: WorkspaceManagerInstance| p@);
            match reversed.pop() {
                Some(p) => {
                    assert(p == all[i as int]);
                    assert(p@ == before[i as int]);
                    if alive[i] {
                        kept.push(p);
                        assert(kept@.map_values(|p: WorkspaceManagerInstance| p@) =~= done.push(
                            before[i as int],
                        ));
                    }
                },
                None => {},
            }
            i = i + 1;
        }
        self.instances = kept;
        let mut out: Vec<WorkspaceSent> = Vec::new();
        let mut k: usize = 0;
        assert(told(out@) =~= Seq::empty());
        while k < self.instances.len()
            invariant
                k <= self.instances.len(),
                told(out@) == all_switch_messages(
                    self@,
                    old_index as int,
                    new_index as int,
                    k as nat,
                ),
            decreases self.instances.len() - k,
        {
            let p = &self.instances[k];
            let ghost start = told(out@);
            push_state(&mut out, p, old_index, false);
            push_state(&mut out, p, new_index, true);
            let ghost states = out@;
            out.push(WorkspaceSent::Done { manager: p.manager });
            assert(p@ == self@[k as int]);
            assert(told(out@) =~= told(states).push(
                WorkspaceMessage::Done { manager: p.manager },
            ));
            assert(told(out@) =~= start + switch_messages(
                p@,
                old_index as int,
                new_index as int,
            ));
            k = k + 1;
        }
        out
    }

    /// A panel does not want to hear more.
    pub fn stop(&mut self, manager: u64) -> (r: Vec<WorkspaceSent>)
        ensures
            final(self)@ == without_manager(old(self)@, manager),
            final(self).global == old(self).global,
            told(r@) == seq![WorkspaceMessage::Finished { manager }],
    {
        let ghost before = self@;
        let mut rest: Vec<WorkspaceManagerInstance> = Vec::new();
        rest.append(&mut self.instances);
        let ghost all = rest@;
        assert(before =~= all.map_values(|p: WorkspaceManagerInstance| p@));
        let mut kept: Vec<WorkspaceManagerInstance> = Vec::new();
        let ghost n = all.len();
        let mut reversed: Vec<WorkspaceManagerInstance> = Vec::new();
        assert(rest@ =~= all.take(n as int));
        while rest.len() > 0
            invariant
                rest@.len() <= all.len(),
                n == all.len(),
                rest@ == all.take(rest@.len() as int),
                reversed@.len() == n - rest@.len(),
                forall|k: int| 0 <= k < reversed@.len() ==> reversed@[k] == all[n - 1 - k],
            decreases rest.len(),
        {
            let ghost m = rest@.len();
            match rest.pop() {
                Some(p) => {
                    reversed.push(p);
                },
                None => {},
            }
            assert(rest@ =~= all.take(m - 1));
        }
        assert(before.take(0) =~= Seq::empty());
        assert(kept@.map_values(|p: WorkspaceManagerInstance| p@) =~= without_manager(
            before.take(0),
            manager,
        ));
        while reversed.len() > 0
            invariant
                reversed@.len() <= n,
                n == all.len(),
                before == all.map_values(|p: WorkspaceManagerInstance| p@),
                forall|k: int| 0 <= k < reversed@.len() ==> reversed@[k] == all[n - 1 - k],
                kept@.map_values(|p: WorkspaceManagerInstance| p@) == without_manager(
                    before.take(n - reversed@.len()),
                    manager,
                ),
            decreases reversed.len(),
        {
            let ghost i = n - reversed@.len();
            let ghost done = kept@.map_values(|p: WorkspaceManagerInstance| p@);
            proof {
                let next = before.take(i + 1);
                assert(next.drop_last() =~= before.take(i));
                assert(next.last() == before[i]);
            }
            match reversed.pop() {
                Some(p) => {
                    assert(p == all[i]);
                    assert(p@ == before[i]);
                    if p.manager != manager {
                        kept.push(p);
                        assert(kept@.map_values(|p: WorkspaceManagerInstance| p@) =~= done.push(
                            before[i],
                        ));
                    }
                },
                None => {},
            }
        }
        assert(before.take(n as int) =~= before);
        self.instances = kept;
        let mut out: Vec<WorkspaceSent> = Vec::new();
        out.push(WorkspaceSent::Finished { manager });
        assert(told(out@) =~= seq![WorkspaceMessage::Finished { manager }]);
        out
    }
}

/// Which workspaces a panel takes for active after some messages, given which it took
/// for active before: by handle.
pub open spec fn believed(active: Set<u64>, m: Seq<WorkspaceMessage>) -> Set<u64>
    decreases m.len(),
{
    if m.len() == 0 {
        active
    } else {
        let before = believed(active, m.drop_last());
        match m.last() {
            WorkspaceMessage::State { handle, active } => if active {
                before.insert(handle)
            } else {
                before.remove(handle)
            },
            _ => before,
        }
    }
}

/// A panel that took the old workspace for the active one, and no other, takes the new
/// one for it after a switch, and no other.
pub proof fn law_one_workspace_is_active(p: Panel, from: int, to: int)
    requires
        0 <= from < p.handles.len(),
        0 <= to < p.handles.len(),
        from != to,
        p.handles[from] is Some,
        p.handles[to] is Some,
        p.handles[from] != p.handles[to],
    ensures
        believed(Set::empty().insert(p.handles[from]->0), switch_messages(p, from, to))
            == Set::empty().insert(p.handles[to]->0),
{
    let a = p.handles[from]->0;
    let b = p.handles[to]->0;
    let start = Set::<u64>::empty().insert(a);
    let m = switch_messages(p, from, to);
    let one = seq![WorkspaceMessage::State { handle: a, active: false }];
    let two = one.push(WorkspaceMessage::State { handle: b, active: true });
    assert(m =~= two.push(WorkspaceMessage::Done { manager: p.manager }));
    assert(m.drop_last() =~= two);
    assert(two.drop_last() =~= one);
    assert(one.drop_last() =~= Seq::empty());
    assert(believed(start, Seq::empty()) == start);
    assert(believed(start, one) == start.remove(a));
    assert(believed(start, two) == start.remove(a).insert(b));
    assert(start.remove(a).insert(b) =~= Set::empty().insert(b));
}

} // verus!
