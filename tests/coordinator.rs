use dora_daemon_core::coordinator::{
    instance_communication, machine_set, machine_spawn_result, CommunicationConfig, DaemonReply,
    DaemonCommunication, DataflowSpawn, MachineOutcome, ResolvedNode, SpawnError, SpawnErrorKind,
};

fn node(id: &str, machine: Option<&str>) -> ResolvedNode {
    ResolvedNode { id: id.to_string(), machine: machine.map(|m| m.to_string()) }
}

fn ok_reply() -> MachineOutcome {
    MachineOutcome::Replied(DaemonReply::SpawnResult(Ok(())))
}

#[test]
fn machine_set_is_distinct_in_first_order() {
    let nodes = vec![node("x", Some("b")), node("y", None), node("z", Some("a")), node("w", Some("b"))];
    assert_eq!(machine_set(&nodes), vec!["b".to_string(), "a".to_string()]);
    assert!(machine_set(&vec![node("x", None)]).is_empty());
}

#[test]
fn topic_prefix_is_appended() {
    let mut c = CommunicationConfig { topic_prefix: "dora".to_string() };
    c.add_topic_prefix("1234");
    assert_eq!(c.topic_prefix, "dora/1234");
    assert!(instance_communication(None, "1234").is_none());
    let c = instance_communication(Some(CommunicationConfig { topic_prefix: "t".to_string() }), "u");
    assert_eq!(c.unwrap().topic_prefix, "t/u");
}

#[test]
fn two_spawns_get_different_prefixes() {
    let config = || Some(CommunicationConfig { topic_prefix: "dora".to_string() });
    let a = DataflowSpawn::start("/w".to_string(), vec![node("cam", Some("m1"))], config(), DaemonCommunication::Tcp);
    let b = DataflowSpawn::start("/w".to_string(), vec![node("cam", Some("m1"))], config(), DaemonCommunication::Tcp);
    assert_ne!(a.command().dataflow_id, b.command().dataflow_id);
    let pa = a.finish();
    let pb = b.finish();
    assert!(pa.is_none() && pb.is_none());
    let a = DataflowSpawn::start("/w".to_string(), vec![], config(), DaemonCommunication::Tcp).finish().unwrap();
    let b = DataflowSpawn::start("/w".to_string(), vec![], config(), DaemonCommunication::Tcp).finish().unwrap();
    let ta = a.communication_config.unwrap().topic_prefix;
    let tb = b.communication_config.unwrap().topic_prefix;
    assert_ne!(ta, tb);
    assert!(ta.starts_with("dora/"));
    assert_eq!(ta, format!("dora/{}", uuid::Uuid::from_u128(a.uuid)));
    assert_eq!(tb, format!("dora/{}", uuid::Uuid::from_u128(b.uuid)));
    assert_eq!(ta.len(), "dora/".len() + 36);
    assert_eq!(a.uuid >> 76 & 0xF, 4);
}

#[test]
fn failing_machine_is_named() {
    let nodes = vec![node("x", Some("a")), node("y", Some("b"))];
    let mut spawn = DataflowSpawn::plan(7, "id", "/w".to_string(), nodes, None, DaemonCommunication::Tcp);
    assert_eq!(spawn.next_machine(), Some("a".to_string()));
    assert_eq!(spawn.record(ok_reply()), Ok(()));
    assert_eq!(spawn.next_machine(), Some("b".to_string()));
    let err = spawn
        .record(MachineOutcome::Replied(DaemonReply::SpawnResult(Err("boom".to_string()))))
        .unwrap_err();
    assert_eq!(
        err,
        SpawnError { machine: "b".to_string(), kind: SpawnErrorKind::DaemonFailed("boom".to_string()) }
    );
    assert_eq!(spawn.next_machine(), None);
    assert!(spawn.finish().is_none());
}

#[test]
fn outcomes_are_attributed() {
    let m = "m9".to_string();
    let e = |kind| Err(SpawnError { machine: "m9".to_string(), kind });
    assert_eq!(machine_spawn_result(&m, ok_reply()), Ok(()));
    assert_eq!(machine_spawn_result(&m, MachineOutcome::NoConnection), e(SpawnErrorKind::NoDaemonConnection));
    assert_eq!(
        machine_spawn_result(&m, MachineOutcome::Replied(DaemonReply::Other)),
        e(SpawnErrorKind::UnexpectedReply)
    );
    assert_eq!(
        machine_spawn_result(&m, MachineOutcome::SendFailed("s".to_string())),
        e(SpawnErrorKind::SendFailed("s".to_string()))
    );
    assert_eq!(
        machine_spawn_result(&m, MachineOutcome::ReceiveFailed("r".to_string())),
        e(SpawnErrorKind::ReceiveFailed("r".to_string()))
    );
    assert_eq!(
        machine_spawn_result(&m, MachineOutcome::MalformedReply("j".to_string())),
        e(SpawnErrorKind::MalformedReply("j".to_string()))
    );
}

#[test]
fn single_machine_spawn_succeeds() {
    let spawn = DataflowSpawn::start(
        "/data".to_string(),
        vec![node("cam", Some("m1"))],
        None,
        DaemonCommunication::Shmem,
    );
    let id = spawn.command().dataflow_id;
    assert_eq!(spawn.command().working_dir, "/data");
    assert_eq!(spawn.command().daemon_communication, DaemonCommunication::Shmem);
    assert_eq!(id & 0xF000_C000_0000_0000_0000, 0x4000_8000_0000_0000_0000);
    assert_eq!(spawn.command().nodes.len(), 1);
    assert_eq!(spawn.command().nodes[0].id, "cam");
    assert_eq!(spawn.machines(), &vec!["m1".to_string()]);
    let mut spawn = spawn;
    assert_eq!(spawn.next_machine(), Some("m1".to_string()));
    assert_eq!(spawn.record(ok_reply()), Ok(()));
    assert_eq!(spawn.next_machine(), None);
    let done = spawn.finish().unwrap();
    assert_eq!(done.uuid, id);
    assert_eq!(done.machines, vec!["m1".to_string()]);
    assert!(done.communication_config.is_none());
}

#[test]
fn plan_carries_daemon_communication() {
    let spawn = DataflowSpawn::plan(
        42,
        "x",
        "/w".to_string(),
        vec![node("a", Some("m")), node("b", Some("n"))],
        None,
        DaemonCommunication::Shmem,
    );
    assert_eq!(spawn.command().dataflow_id, 42);
    assert_eq!(spawn.command().daemon_communication, DaemonCommunication::Shmem);
    assert_eq!(spawn.command().nodes.len(), 2);
}

#[test]
fn uuid_text_is_hyphenated_lower_hex() {
    let id: u128 = 0x0123_4567_89ab_4def_8123_4567_89ab_cdef;
    let config = Some(CommunicationConfig { topic_prefix: "p".to_string() });
    let text = uuid::Uuid::from_u128(id).to_string();
    assert_eq!(text, "01234567-89ab-4def-8123-456789abcdef");
    let c = instance_communication(config, &text).unwrap();
    assert_eq!(c.topic_prefix, "p/01234567-89ab-4def-8123-456789abcdef");
}
