use vstd::prelude::*;
use vstd::string::StringExecFns;
use crate::outside::{fresh_uuid, lemma_uuid_text_injective, uuid_string, uuid_text};

verus! {

/// A node of a dataflow, aliases resolved, with the machine it is deployed to.
#[derive(Debug)]
pub struct ResolvedNode {
    pub id: String,
    pub machine: Option<String>,
}

/// How the nodes of a dataflow reach each other; topics are namespaced under `topic_prefix`.
#[derive(Debug)]
pub struct CommunicationConfig {
    pub topic_prefix: String,
}

/// `base` with `p` appended as one more namespace level.
pub open spec fn prefixed(base: Seq<char>, p: Seq<char>) -> Seq<char> {
    base + seq!['/'] + p
}

impl CommunicationConfig {
    /// Namespaces every topic one level deeper, under `prefix`.
    pub fn add_topic_prefix(&mut self, prefix: &str)
        ensures
            final(self).topic_prefix@ == prefixed(old(self).topic_prefix@, prefix@),
    {
        proof {
            reveal_strlit("/");
        }
        self.topic_prefix.append("/");
        self.topic_prefix.append(prefix);
    }
}

/// The configuration that a dataflow instance uses: the descriptor's, with its
/// topics namespaced under the instance's identifier text.
pub open spec fn instance_config(config: Option<CommunicationConfig>, id_text: Seq<char>) -> Option<Seq<char>> {
    match config {
        None => None,
        Some(c) => Some(prefixed(c.topic_prefix@, id_text)),
    }
}

/// Scopes `config` to one dataflow instance, whose identifier reads `id_text`.
pub fn instance_communication(config: Option<CommunicationConfig>, id_text: &str) -> (r: Option<CommunicationConfig>)
    ensures
        match r {
            None => instance_config(config, id_text@) is None,
            Some(c) => instance_config(config, id_text@) == Some(c.topic_prefix@),
        },
{
    match config {
        None => None,
        Some(mut c) => {
            c.add_topic_prefix(id_text);
            Some(c)
        },
    }
}

/// Two instances whose identifiers differ get different topic namespaces, even
/// from the same descriptor configuration.
pub proof fn lemma_instance_prefixes_differ(base: Seq<char>, id_a: Seq<char>, id_b: Seq<char>)
    requires
        id_a != id_b,
    ensures
        prefixed(base, id_a) != prefixed(base, id_b),
{
    let n = base.len() as int + 1;
    if prefixed(base, id_a) == prefixed(base, id_b) {
        assert(prefixed(base, id_a).subrange(n, prefixed(base, id_a).len() as int) =~= id_a);
        assert(prefixed(base, id_b).subrange(n, prefixed(base, id_b).len() as int) =~= id_b);
    }
}

/// Two dataflow instances with different UUIDs, spawned from the same
/// communication configuration, get different topic namespaces.
pub proof fn lemma_distinct_ids_distinct_prefixes(config: CommunicationConfig, a: u128, b: u128)
    requires
        a != b,
    ensures
        instance_config(Some(config), uuid_text(a)) != instance_config(Some(config), uuid_text(b)),
{
    lemma_uuid_text_injective(a, b);
    lemma_instance_prefixes_differ(config.topic_prefix@, uuid_text(a), uuid_text(b));
}

/// The machines that the nodes name, each once, in order of first mention.
pub open spec fn distinct_machines(nodes: Seq<ResolvedNode>) -> Seq<Seq<char>>
    decreases nodes.len(),
{
    if nodes.len() == 0 {
        Seq::empty()
    } else {
        let prev = distinct_machines(nodes.drop_last());
        match nodes.last().machine {
            Some(m) => if prev.contains(m@) {
                prev
            } else {
                prev.push(m@)
            },
            None => prev,
        }
    }
}

/// Node `n` is deployed to machine `m`.
pub open spec fn deployed_to(n: ResolvedNode, m: Seq<char>) -> bool {
    n.machine matches Some(x) && x@ == m
}

/// Some node is deployed to machine `m`.
pub open spec fn names_machine(nodes: Seq<ResolvedNode>, m: Seq<char>) -> bool {
    exists|i: int| 0 <= i < nodes.len() && #[trigger] deployed_to(nodes[i], m)
}

/// The machine list holds each machine that a node names, once, and no other.
pub proof fn lemma_distinct_machines(nodes: Seq<ResolvedNode>)
    ensures
        distinct_machines(nodes).no_duplicates(),
        forall|m: Seq<char>| distinct_machines(nodes).contains(m) <==> names_machine(nodes, m),
    decreases nodes.len(),
{
    if nodes.len() > 0 {
        let init = nodes.drop_last();
        lemma_distinct_machines(init);
        let prev = distinct_machines(init);
        let last = nodes.len() - 1;
        assert forall|m: Seq<char>| names_machine(init, m) implies names_machine(nodes, m) by {
            let i = choose|i: int| 0 <= i < init.len() && #[trigger] deployed_to(init[i], m);
            assert(nodes[i] == init[i]);
        }
        assert forall|m: Seq<char>| names_machine(nodes, m) && !names_machine(init, m) implies
            deployed_to(nodes[last], m) by {
            let i = choose|i: int| 0 <= i < nodes.len() && #[trigger] deployed_to(nodes[i], m);
            if i < last {
                assert(init[i] == nodes[i]);
            }
        }
        match nodes.last().machine {
            Some(x) => {
                assert(deployed_to(nodes[last], x@));
                if !prev.contains(x@) {
                    let r = prev.push(x@);
                    assert forall|i: int, j: int| 0 <= i < r.len() && 0 <= j < r.len() && i != j implies r[i] != r[j] by {
                        if i == r.len() - 1 {
                            assert(prev[j] == r[j]);
                        } else if j == r.len() - 1 {
                            assert(prev[i] == r[i]);
                        }
                    }
                    assert forall|m: Seq<char>| r.contains(m) implies names_machine(nodes, m) by {
                        if m != x@ {
                            let k = choose|k: int| 0 <= k < r.len() && r[k] == m;
                            assert(prev[k] == m);
                        }
                    }
                    assert forall|m: Seq<char>| names_machine(nodes, m) implies r.contains(m) by {
                        if m == x@ {
                            assert(r[r.len() - 1] == m);
                        } else {
                            let k = choose|k: int| 0 <= k < prev.len() && prev[k] == m;
                            assert(r[k] == m);
                        }
                    }
                }
            },
            None => {},
        }
    }
}

fn contains_string(v: &Vec<String>, s: &String) -> (r: bool)
    ensures
        r == v@.map_values(|x: String| x@).contains(s@),
{
    let ghost vv = v@.map_values(|x: String| x@);
    let mut i: usize = 0;
    while i < v.len()
        invariant
            i <= v@.len(),
            vv == v@.map_values(|x: String| x@),
            forall|j: int| 0 <= j < i ==> #[trigger] v@[j]@ != s@,
        decreases v@.len() - i,
    {
        if v[i] == *s {
            assert(vv[i as int] == s@);
            return true;
        }
        i = i + 1;
    }
    proof {
        if vv.contains(s@) {
            let j = choose|j: int| 0 <= j < vv.len() && vv[j] == s@;
            assert(v@[j]@ == s@);
        }
    }
    false
}

/// The machines that the nodes are deployed to, each once, in order of first mention.
pub fn machine_set(nodes: &Vec<ResolvedNode>) -> (r: Vec<String>)
    ensures
        r@.map_values(|x: String| x@) == distinct_machines(nodes@),
{
    let mut r: Vec<String> = Vec::new();
    let mut i: usize = 0;
    while i < nodes.len()
        invariant
            i <= nodes@.len(),
            r@.map_values(|x: String| x@) == distinct_machines(nodes@.subrange(0, i as int)),
        decreases nodes@.len() - i,
    {
        let ghost before = r@;
        assert(nodes@.subrange(0, i + 1).drop_last() =~= nodes@.subrange(0, i as int));
        match &nodes[i].machine {
            Some(m) => {
                if !contains_string(&r, m) {
                    r.push(m.clone());
                    assert(r@.map_values(|x: String| x@) =~= before.map_values(|x: String| x@).push(m@));
                }
            },
            None => {},
        }
        i = i + 1;
    }
    assert(nodes@.subrange(0, nodes@.len() as int) =~= nodes@);
    r
}

/// The command that every daemon of a dataflow receives: the whole node list;
/// each daemon starts the nodes deployed to its own machine.
#[derive(Debug)]
pub struct SpawnCommand {
    pub dataflow_id: u128,
    pub working_dir: String,
    pub nodes: Vec<ResolvedNode>,
    pub daemon_communication: DaemonCommunication,
}

/// How the daemons of a dataflow exchange payloads with the nodes they host.
#[derive(Debug, Clone, Copy, PartialEq, Eq, Structural)]
pub enum DaemonCommunication {
    /// Payloads travel over the framed TCP connection.
    Tcp,
    /// Payloads travel in shared memory regions.
    Shmem,
}

/// A daemon's answer to a spawn command.
#[derive(Debug)]
pub enum DaemonReply {
    SpawnResult(Result<(), String>),
    /// Any other reply, which a spawn command must not get.
    Other,
}

/// How the round trip with one machine's daemon ended.
#[derive(Debug)]
pub enum MachineOutcome {
    /// No connection to that machine's daemon is open.
    NoConnection,
    /// Writing the command failed.
    SendFailed(String),
    /// Reading the reply failed.
    ReceiveFailed(String),
    /// The reply could not be decoded.
    MalformedReply(String),
    Replied(DaemonReply),
}

/// Why the spawn failed on a machine.
#[derive(Debug, PartialEq, Eq)]
pub enum SpawnErrorKind {
    NoDaemonConnection,
    SendFailed(String),
    ReceiveFailed(String),
    MalformedReply(String),
    /// The daemon answered with an error.
    DaemonFailed(String),
    UnexpectedReply,
}

/// A spawn failure, attributed to the machine whose daemon caused it.
#[derive(Debug, PartialEq, Eq)]
pub struct SpawnError {
    pub machine: String,
    pub kind: SpawnErrorKind,
}

/// What one machine's round trip means for the spawn.
pub open spec fn outcome_result(machine: String, outcome: MachineOutcome) -> Result<(), SpawnError> {
    match outcome {
        MachineOutcome::Replied(DaemonReply::SpawnResult(Ok(()))) => Ok(()),
        MachineOutcome::Replied(DaemonReply::SpawnResult(Err(message))) => Err(
            SpawnError { machine, kind: SpawnErrorKind::DaemonFailed(message) },
        ),
        MachineOutcome::Replied(DaemonReply::Other) => Err(
            SpawnError { machine, kind: SpawnErrorKind::UnexpectedReply },
        ),
        MachineOutcome::NoConnection => Err(
            SpawnError { machine, kind: SpawnErrorKind::NoDaemonConnection },
        ),
        MachineOutcome::SendFailed(e) => Err(SpawnError { machine, kind: SpawnErrorKind::SendFailed(e) }),
        MachineOutcome::ReceiveFailed(e) => Err(
            SpawnError { machine, kind: SpawnErrorKind::ReceiveFailed(e) },
        ),
        MachineOutcome::MalformedReply(e) => Err(
            SpawnError { machine, kind: SpawnErrorKind::MalformedReply(e) },
        ),
    }
}

/// Judges the round trip with `machine`'s daemon: success only on `SpawnResult(Ok)`,
/// any other outcome is an error that names the machine.
pub fn machine_spawn_result(machine: &String, outcome: MachineOutcome) -> (r: Result<(), SpawnError>)
    ensures
        r == outcome_result(*machine, outcome),
{
    let machine = machine.clone();
    match outcome {
        MachineOutcome::Replied(DaemonReply::SpawnResult(Ok(()))) => Ok(()),
        MachineOutcome::Replied(DaemonReply::SpawnResult(Err(message))) => Err(
            SpawnError { machine, kind: SpawnErrorKind::DaemonFailed(message) },
        ),
        MachineOutcome::Replied(DaemonReply::Other) => Err(
            SpawnError { machine, kind: SpawnErrorKind::UnexpectedReply },
        ),
        MachineOutcome::NoConnection => Err(
            SpawnError { machine, kind: SpawnErrorKind::NoDaemonConnection },
        ),
        MachineOutcome::SendFailed(e) => Err(SpawnError { machine, kind: SpawnErrorKind::SendFailed(e) }),
        MachineOutcome::ReceiveFailed(e) => Err(
            SpawnError { machine, kind: SpawnErrorKind::ReceiveFailed(e) },
        ),
        MachineOutcome::MalformedReply(e) => Err(
            SpawnError { machine, kind: SpawnErrorKind::MalformedReply(e) },
        ),
    }
}

/// A dataflow that every target daemon accepted.
#[derive(Debug)]
pub struct SpawnedDataflow {
    pub uuid: u128,
    pub communication_config: Option<CommunicationConfig>,
    pub machines: Vec<String>,
}

/// A spawn in progress: the command goes to each machine in turn, and the
/// dataflow counts as spawned only once every one of them accepted it.
pub struct DataflowSpawn {
    command: SpawnCommand,
    communication_config: Option<CommunicationConfig>,
    machines: Vec<String>,
    accepted: usize,
    failed: bool,
}

impl DataflowSpawn {
    /// The target machines, in the order they are contacted.
    pub closed spec fn targets(&self) -> Seq<Seq<char>> {
        self.machines@.map_values(|x: String| x@)
    }

    /// The topic namespace of the instance, if it has a communication configuration.
    pub closed spec fn instance_prefix(&self) -> Option<Seq<char>> {
        match self.communication_config {
            None => None,
            Some(c) => Some(c.topic_prefix@),
        }
    }

    /// How many machines accepted the command so far.
    pub closed spec fn accepted(&self) -> nat {
        self.accepted as nat
    }

    /// Whether a machine refused the command.
    pub closed spec fn failed(&self) -> bool {
        self.failed
    }

    pub closed spec fn wf(&self) -> bool {
        self.accepted <= self.machines@.len()
    }

    /// The command that each target daemon receives.
    pub closed spec fn spawn_command(&self) -> SpawnCommand {
        self.command
    }

    /// The command that each target daemon receives.
    pub fn command(&self) -> (r: &SpawnCommand)
        ensures
            *r == self.spawn_command(),
    {
        &self.command
    }

    /// The target machines, in the order they are contacted.
    pub fn machines(&self) -> (r: &Vec<String>)
        ensures
            r@.map_values(|x: String| x@) == self.targets(),
    {
        &self.machines
    }

    /// The machine whose answer is awaited, while some remain.
    pub closed spec fn current_target(&self) -> String {
        self.machines@[self.accepted as int]
    }

    /// The machine whose answer is awaited is the next of the targets.
    pub proof fn lemma_current_target(&self)
        requires
            self.wf(),
            self.accepted() < self.targets().len(),
        ensures
            self.current_target()@ == self.targets()[self.accepted() as int],
    {
    }

    /// Prepares the spawn of a dataflow instance with identifier `dataflow_id`,
    /// whose text form is `id_text`.
    pub fn plan(
        dataflow_id: u128,
        id_text: &str,
        working_dir: String,
        nodes: Vec<ResolvedNode>,
        communication: Option<CommunicationConfig>,
        daemon_communication: DaemonCommunication,
    ) -> (r: Self)
        ensures
            r.wf(),
            r.spawn_command().dataflow_id == dataflow_id,
            r.spawn_command().daemon_communication == daemon_communication,
            r.spawn_command().working_dir == working_dir,
            r.spawn_command().nodes == nodes,
            r.targets() == distinct_machines(nodes@),
            r.instance_prefix() == instance_config(communication, id_text@),
            r.accepted() == 0,
            !r.failed(),
    {
        let machines = machine_set(&nodes);
        let communication_config = instance_communication(communication, id_text);
        DataflowSpawn {
            command: SpawnCommand { dataflow_id, working_dir, nodes, daemon_communication },
            communication_config,
            machines,
            accepted: 0,
            failed: false,
        }
    }

    /// Prepares the spawn of a fresh dataflow instance under a new random UUID.
    pub fn start(
        working_dir: String,
        nodes: Vec<ResolvedNode>,
        communication: Option<CommunicationConfig>,
        daemon_communication: DaemonCommunication,
    ) -> (r: Self)
        ensures
            r.wf(),
            r.spawn_command().dataflow_id & 0xF000_C000_0000_0000_0000u128 == 0x4000_8000_0000_0000_0000u128,
            r.spawn_command().working_dir == working_dir,
            r.spawn_command().daemon_communication == daemon_communication,
            r.spawn_command().nodes == nodes,
            r.targets() == distinct_machines(nodes@),
            r.instance_prefix() == instance_config(communication, uuid_text(r.spawn_command().dataflow_id)),
            r.accepted() == 0,
            !r.failed(),
    {
        let id = fresh_uuid();
        let text = uuid_string(id);
        Self::plan(id, text.as_str(), working_dir, nodes, communication, daemon_communication)
    }

    /// The machine to send the command to next, if any: none once a machine
    /// failed or all accepted.
    pub fn next_machine(&self) -> (r: Option<String>)
        requires
            self.wf(),
        ensures
            r is Some ==> !self.failed() && self.accepted() < self.targets().len(),
            !self.failed() && self.accepted() < self.targets().len() ==> r == Some(
                self.current_target(),
            ),
            self.failed() || self.accepted() == self.targets().len() ==> r is None,
    {
        if !self.failed && self.accepted < self.machines.len() {
            Some(self.machines[self.accepted].clone())
        } else {
            None
        }
    }

    /// Records how the round trip with the current machine ended. An error names
    /// that machine and ends the spawn; machines that accepted earlier are not
    /// told to roll back.
    pub fn record(&mut self, outcome: MachineOutcome) -> (r: Result<(), SpawnError>)
        requires
            old(self).wf(),
            !old(self).failed(),
            old(self).accepted() < old(self).targets().len(),
        ensures
            final(self).wf(),
            final(self).targets() == old(self).targets(),
            final(self).instance_prefix() == old(self).instance_prefix(),
            final(self).spawn_command() == old(self).spawn_command(),
            r == outcome_result(old(self).current_target(), outcome),
            r is Ok ==> final(self).accepted() == old(self).accepted() + 1 && !final(self).failed(),
            r is Err ==> final(self).accepted() == old(self).accepted() && final(self).failed(),
    {
        let count = self.machines.len();
        assert(self.targets().len() == count);
        let r = machine_spawn_result(&self.machines[self.accepted], outcome);
        match r {
            Ok(()) => {
                self.accepted = self.accepted + 1;
            },
            Err(_) => {
                self.failed = true;
            },
        }
        r
    }

    /// The spawned dataflow, once every machine accepted the command; `None`
    /// after a failure or while machines remain.
    pub fn finish(self) -> (r: Option<SpawnedDataflow>)
        requires
            self.wf(),
        ensures
            r is Some <==> !self.failed() && self.accepted() == self.targets().len(),
            r matches Some(d) ==> d.uuid == self.spawn_command().dataflow_id && d.machines@.map_values(
                |x: String| x@,
            ) == self.targets() && match d.communication_config {
                None => self.instance_prefix() is None,
                Some(c) => self.instance_prefix() == Some(c.topic_prefix@),
            },
    {
        if !self.failed && self.accepted == self.machines.len() {
            Some(
                SpawnedDataflow {
                    uuid: self.command.dataflow_id,
                    communication_config: self.communication_config,
                    machines: self.machines,
                },
            )
        } else {
            None
        }
    }
}

} // verus!
