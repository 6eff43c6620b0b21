use dora_daemon_core::daemon::Daemon;
use dora_daemon_core::regions::RegionError;
use dora_daemon_core::session::{
    DaemonEvent, NodeEvent, NodeSession, Reply, Request, SessionAction, SessionInput, SessionStep,
};

#[test]
fn register_twice_replies_ok_twice_and_records_once() {
    let mut session = NodeSession::new();
    let mut daemon = Daemon::new();
    for _ in 0..2 {
        match session.handle_request(Request::Register { node_id: "n1".to_string() }) {
            SessionAction::ReplyAndForward { reply, event } => {
                assert!(matches!(reply, Reply::RegisterResult(Ok(()))));
                assert!(daemon.handle_event(event).is_none());
            }
            other => panic!("unexpected action {other:?}"),
        }
    }
    assert!(daemon.is_registered(&"n1".to_string()));
    assert_eq!(daemon.registered_count(), 1);
    assert_eq!(session.node_id(), Some("n1".to_string()));
}

#[test]
fn request_before_register_is_dropped() {
    let mut session = NodeSession::new();
    let action = session.handle_request(Request::PrepareOutputMessage { len: 10 });
    assert!(matches!(action, SessionAction::Ignore));
    let action = session.handle_request(Request::SendOutMessage { id: "x".to_string() });
    assert!(matches!(action, SessionAction::Ignore));
    assert_eq!(session.node_id(), None);
}

#[test]
fn registered_requests_are_tagged_with_node_id() {
    let mut session = NodeSession::new();
    session.handle_request(Request::Register { node_id: "cam".to_string() });
    match session.handle_request(Request::PrepareOutputMessage { len: 10 }) {
        SessionAction::Forward(DaemonEvent::Node { id, event: NodeEvent::PrepareOutputMessage { len } }) => {
            assert_eq!(id, "cam");
            assert_eq!(len, 10);
        }
        other => panic!("unexpected action {other:?}"),
    }
    match session.handle_request(Request::SendOutMessage { id: "r".to_string() }) {
        SessionAction::Forward(DaemonEvent::Node { id, event: NodeEvent::SendOutMessage { id: r } }) => {
            assert_eq!(id, "cam");
            assert_eq!(r, "r");
        }
        other => panic!("unexpected action {other:?}"),
    }
}

#[test]
fn zero_sized_allocation_fails() {
    let mut daemon = Daemon::new();
    assert_eq!(daemon.prepare_output(0), Err(RegionError::AllocationFailed));
}

#[test]
fn send_out_of_unknown_region_fails() {
    let mut daemon = Daemon::new();
    assert_eq!(daemon.send_out(&"/shmem_none".to_string()), Err(RegionError::UnknownRegion));
}

#[test]
fn node_scenario_register_prepare_send() {
    let mut session = NodeSession::new();
    let mut daemon = Daemon::new();
    if let SessionAction::ReplyAndForward { reply, event } =
        session.handle_request(Request::Register { node_id: "cam".to_string() })
    {
        assert!(matches!(reply, Reply::RegisterResult(Ok(()))));
        daemon.handle_event(event);
    } else {
        panic!("register not answered");
    }
    let region = match session.handle_request(Request::PrepareOutputMessage { len: 1024 }) {
        SessionAction::Forward(event) => match daemon.handle_event(event) {
            Some(Reply::PrepareOutputResult(Ok(id))) => id,
            other => panic!("unexpected reply {other:?}"),
        },
        other => panic!("unexpected action {other:?}"),
    };
    assert!(!region.is_empty());
    assert_eq!(daemon.uninit_region_len(&region), Some(1024));
    assert!(daemon.is_uninit(&region) && !daemon.is_sent(&region));
    let send = |session: &mut NodeSession, daemon: &mut Daemon| {
        match session.handle_request(Request::SendOutMessage { id: region.clone() }) {
            SessionAction::Forward(event) => match daemon.handle_event(event) {
                Some(Reply::SendOutResult(r)) => r,
                other => panic!("unexpected reply {other:?}"),
            },
            other => panic!("unexpected action {other:?}"),
        }
    };
    assert_eq!(send(&mut session, &mut daemon), Ok(()));
    assert!(!daemon.is_uninit(&region) && daemon.is_sent(&region));
    assert_eq!(send(&mut session, &mut daemon), Err(RegionError::UnknownRegion));
}

#[test]
fn two_allocations_get_distinct_ids() {
    let mut daemon = Daemon::new();
    let a = daemon.prepare_output(64).unwrap();
    let b = daemon.prepare_output(64).unwrap();
    assert_ne!(a, b);
    assert!(daemon.is_uninit(&a) && daemon.is_uninit(&b));
    assert_eq!(daemon.uninit_region_len(&a), Some(64));
    assert_eq!(daemon.send_out(&a), Ok(()));
    assert_eq!(daemon.uninit_region_len(&a), None);
}

#[test]
fn only_end_of_stream_closes_a_session() {
    let mut session = NodeSession::new();
    assert!(matches!(session.step(SessionInput::TransportFailed), SessionStep::Skip));
    assert!(matches!(session.step(SessionInput::Malformed), SessionStep::Skip));
    let step = session.step(SessionInput::Received(Request::Register { node_id: "n".to_string() }));
    assert!(matches!(
        step,
        SessionStep::Act(SessionAction::ReplyAndForward { reply: Reply::RegisterResult(Ok(())), .. })
    ));
    assert!(matches!(session.step(SessionInput::Truncated), SessionStep::Skip));
    assert!(matches!(session.step(SessionInput::PeerClosed), SessionStep::Close));
    assert_eq!(session.node_id(), Some("n".to_string()));
}

#[test]
fn sent_region_is_kept_under_its_id() {
    let mut daemon = Daemon::new();
    daemon.handle_event(DaemonEvent::Register { node_id: "cam".to_string() });
    let id = daemon.prepare_output(16).unwrap();
    assert_eq!(daemon.send_out(&id), Ok(()));
    assert!(daemon.is_sent(&id));
    assert_eq!(daemon.prepare_output(0), Err(RegionError::AllocationFailed));
    assert!(daemon.is_sent(&id) && !daemon.is_uninit(&id));
}
