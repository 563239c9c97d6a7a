use radar_relay::framing::{decode_frame, encode_frame, FrameDecode};
use radar_relay::protocol::{C2SMessage, ClientState, ErrorReason, S2CMessage};
use radar_relay::server::{PubSessionSubscribeResult, RadarServer, OUTBOUND_CAPACITY};
use radar_relay::session_id::SESSION_ID_LEN;

const SID: &str = "AB12CD34EF56GH78";

fn state_of(server: &RadarServer, id: u32) -> &ClientState {
    &server.clients.get(&id).unwrap().state
}

fn queued(server: &RadarServer, id: u32) -> usize {
    server.clients.get(&id).unwrap().outbox.len()
}

fn server_with_session() -> (RadarServer, u32) {
    let mut server = RadarServer::new();
    let a = server.register_client("10.0.0.1:4000".to_string()).unwrap();
    assert_eq!(server.pub_session_create_with_id(a, SID.to_string()), Ok(SID.to_string()));
    (server, a)
}

#[test]
fn register_assigns_increasing_ids() {
    let mut server = RadarServer::new();
    assert_eq!(server.register_client("a".to_string()), Some(2));
    assert_eq!(server.register_client("b".to_string()), Some(3));
    assert_eq!(*state_of(&server, 2), ClientState::Uninitialized);
    assert_eq!(server.clients.get(&3).unwrap().address, "b");
    assert_eq!(server.clients.get(&3).unwrap().outbox.capacity(), OUTBOUND_CAPACITY);
    assert_eq!(queued(&server, 3), 0);
}

#[test]
fn register_refuses_id_still_held_after_wrap() {
    let mut server = RadarServer::new();
    assert_eq!(server.register_client("a".to_string()), Some(2));
    server.client_id_counter = u32::MAX;
    assert_eq!(server.register_client("b".to_string()), Some(0));
    assert_eq!(server.register_client("c".to_string()), Some(1));
    assert_eq!(server.register_client("d".to_string()), None);
    assert_eq!(server.register_client("e".to_string()), Some(3));
    assert_eq!(server.clients.len(), 4);
}

#[test]
fn relay_scenario() {
    let mut server = RadarServer::new();
    let a = server.register_client("pub".to_string()).unwrap();
    assert!(server.handle_command_with_session_id(a, C2SMessage::StartSession, SID.to_string()));
    assert_eq!(
        server.take_outbound(a),
        vec![S2CMessage::SessionStarted { session_id: SID.to_string() }]
    );

    let b = server.register_client("viewer".to_string()).unwrap();
    assert!(server.handle_command(b, C2SMessage::Join { session_id: SID.to_string() }));
    assert_eq!(
        server.take_outbound(b),
        vec![
            S2CMessage::NotifyViewCount { viewers: 1 },
            S2CMessage::Joined { initial_state: None },
        ]
    );
    assert_eq!(*state_of(&server, b), ClientState::Subscriber { session_id: SID.to_string() });

    assert!(server.handle_command(a, C2SMessage::PublishState { payload: "x".to_string() }));
    assert_eq!(server.take_outbound(b), vec![S2CMessage::StateUpdate { payload: "x".to_string() }]);
    assert_eq!(server.take_outbound(a), vec![]);

    server.unregister_client(a);
    assert!(server.clients.get(&a).is_none());
    assert!(server.pub_session_find(&SID.to_string()).is_none());
    assert_eq!(*state_of(&server, b), ClientState::Uninitialized);
    assert_eq!(server.take_outbound(b), vec![]);
}

#[test]
fn join_unknown_session_reports_invalid_session_id() {
    let (mut server, _) = server_with_session();
    let c = server.register_client("c".to_string()).unwrap();
    assert!(server.handle_command(c, C2SMessage::Join { session_id: "doesnotexist".to_string() }));
    assert_eq!(
        server.take_outbound(c),
        vec![S2CMessage::Error { reason: ErrorReason::InvalidSessionId }]
    );
    assert_eq!(*state_of(&server, c), ClientState::Uninitialized);
}

#[test]
fn subscribe_unknown_session_fails_for_any_client() {
    let (mut server, a) = server_with_session();
    let missing = "ZZZZZZZZZZZZZZZZ".to_string();
    assert_eq!(server.pub_session_subscribe(&missing, a), PubSessionSubscribeResult::InvalidSessionId);
    assert_eq!(server.pub_session_subscribe(&missing, 999), PubSessionSubscribeResult::InvalidSessionId);
    assert_eq!(*state_of(&server, a), ClientState::Publisher { session_id: SID.to_string() });
}

#[test]
fn subscribe_errors() {
    let (mut server, a) = server_with_session();
    let sid = SID.to_string();
    assert_eq!(server.pub_session_subscribe(&sid, 77), PubSessionSubscribeResult::InvalidClientId);
    assert_eq!(server.pub_session_subscribe(&sid, a), PubSessionSubscribeResult::InvalidClientState);
    let b = server.register_client("b".to_string()).unwrap();
    assert_eq!(server.pub_session_subscribe(&sid, b), PubSessionSubscribeResult::Success);
    assert_eq!(server.pub_session_subscribe(&sid, b), PubSessionSubscribeResult::InvalidClientState);
    assert_eq!(server.pub_session_find(&sid).unwrap().subscriber_count(), 1);
}

#[test]
fn create_session_errors_leave_state_unchanged() {
    let (mut server, a) = server_with_session();
    assert_eq!(server.pub_session_create_with_id(a, "OTHER0000000000A".to_string()), Err(ErrorReason::InvalidClientState));
    assert_eq!(server.pub_session_create(a), Err(ErrorReason::InvalidClientState));
    assert_eq!(server.pub_session_create(42), Err(ErrorReason::InvalidClientId));
    let b = server.register_client("b".to_string()).unwrap();
    assert_eq!(server.pub_session_subscribe(&SID.to_string(), b), PubSessionSubscribeResult::Success);
    assert_eq!(server.pub_session_create(b), Err(ErrorReason::InvalidClientState));
    let c = server.register_client("c".to_string()).unwrap();
    assert_eq!(server.pub_session_create_with_id(c, SID.to_string()), Err(ErrorReason::SessionIdInUse));
    assert_eq!(*state_of(&server, c), ClientState::Uninitialized);
    assert_eq!(server.pub_sessions.len(), 1);
}

#[test]
fn start_session_error_reply() {
    let (mut server, a) = server_with_session();
    server.take_outbound(a);
    assert!(server.handle_command(a, C2SMessage::StartSession));
    assert_eq!(
        server.take_outbound(a),
        vec![S2CMessage::Error { reason: ErrorReason::InvalidClientState }]
    );
}

#[test]
fn random_session_id_is_alphanumeric() {
    let mut server = RadarServer::new();
    let a = server.register_client("a".to_string()).unwrap();
    let sid = server.pub_session_create(a).unwrap();
    assert_eq!(sid.chars().count(), SESSION_ID_LEN);
    assert_eq!(sid.len(), 16);
    assert!(sid.chars().all(|c| c.is_ascii_alphanumeric()));
    assert_eq!(*state_of(&server, a), ClientState::Publisher { session_id: sid.clone() });
    assert!(server.pub_session_find(&sid).is_some());
}

#[test]
fn broadcast_reaches_every_viewer_and_full_queue_drops_only_its_copy() {
    let (mut server, a) = server_with_session();
    let sid = SID.to_string();
    let mut viewers = Vec::new();
    for i in 0..3 {
        let v = server.register_client(format!("v{}", i)).unwrap();
        assert_eq!(server.pub_session_subscribe(&sid, v), PubSessionSubscribeResult::Success);
        viewers.push(v);
    }
    for v in &viewers {
        server.take_outbound(*v);
    }
    // fill the queue of the first viewer
    for _ in 0..OUTBOUND_CAPACITY {
        assert!(server.send_to(viewers[0], S2CMessage::NotifyViewCount { viewers: 0 }));
    }
    assert!(!server.send_to(viewers[0], S2CMessage::NotifyViewCount { viewers: 0 }));
    server.pub_session_publish(a, "p".to_string());
    assert_eq!(queued(&server, viewers[0]), OUTBOUND_CAPACITY);
    let first = server.take_outbound(viewers[0]);
    assert!(first.iter().all(|m| *m == S2CMessage::NotifyViewCount { viewers: 0 }));
    for v in &viewers[1..] {
        assert_eq!(server.take_outbound(*v), vec![S2CMessage::StateUpdate { payload: "p".to_string() }]);
    }
    assert_eq!(server.take_outbound(a), vec![]);
}

#[test]
fn publish_from_non_publisher_is_ignored() {
    let (mut server, _) = server_with_session();
    let b = server.register_client("b".to_string()).unwrap();
    assert_eq!(server.pub_session_subscribe(&SID.to_string(), b), PubSessionSubscribeResult::Success);
    server.take_outbound(b);
    assert!(server.handle_command(b, C2SMessage::PublishState { payload: "bad".to_string() }));
    assert_eq!(server.take_outbound(b), vec![]);
    assert_eq!(server.pub_session_find(&SID.to_string()).unwrap().last_state(), None);
}

#[test]
fn joined_carries_latest_state() {
    let (mut server, a) = server_with_session();
    server.pub_session_publish(a, "s1".to_string());
    server.pub_session_publish(a, "s2".to_string());
    let b = server.register_client("b".to_string()).unwrap();
    server.handle_command(b, C2SMessage::Join { session_id: SID.to_string() });
    assert_eq!(
        server.take_outbound(b),
        vec![
            S2CMessage::NotifyViewCount { viewers: 1 },
            S2CMessage::Joined { initial_state: Some("s2".to_string()) },
        ]
    );
}

#[test]
fn unregister_publisher_demotes_all_viewers() {
    let (mut server, a) = server_with_session();
    let sid = SID.to_string();
    let b = server.register_client("b".to_string()).unwrap();
    let c = server.register_client("c".to_string()).unwrap();
    server.pub_session_subscribe(&sid, b);
    server.pub_session_subscribe(&sid, c);
    server.unregister_client(a);
    assert_eq!(server.clients.len(), 2);
    assert_eq!(*state_of(&server, b), ClientState::Uninitialized);
    assert_eq!(*state_of(&server, c), ClientState::Uninitialized);
    assert!(server.pub_sessions.is_empty());
    // a demoted viewer may join again once a new session exists
    assert_eq!(server.pub_session_create_with_id(b, "NEWSESSION000001".to_string()), Ok("NEWSESSION000001".to_string()));
}

#[test]
fn unregister_viewer_updates_count() {
    let (mut server, _) = server_with_session();
    let sid = SID.to_string();
    let b = server.register_client("b".to_string()).unwrap();
    let c = server.register_client("c".to_string()).unwrap();
    server.pub_session_subscribe(&sid, b);
    server.pub_session_subscribe(&sid, c);
    server.take_outbound(b);
    server.unregister_client(c);
    assert_eq!(server.take_outbound(b), vec![S2CMessage::NotifyViewCount { viewers: 1 }]);
    assert_eq!(server.pub_session_find(&sid).unwrap().subscriber_count(), 1);
    server.unregister_client(c);
    assert_eq!(server.clients.len(), 2);
}

#[test]
fn unsubscribe_twice_is_quiet() {
    let (mut server, _) = server_with_session();
    let sid = SID.to_string();
    let b = server.register_client("b".to_string()).unwrap();
    let c = server.register_client("c".to_string()).unwrap();
    server.pub_session_subscribe(&sid, b);
    server.pub_session_subscribe(&sid, c);
    server.take_outbound(b);
    server.take_outbound(c);
    server.pub_session_unsubscribe(&sid, c);
    assert_eq!(server.take_outbound(b), vec![S2CMessage::NotifyViewCount { viewers: 1 }]);
    assert_eq!(*state_of(&server, c), ClientState::Uninitialized);
    server.pub_session_unsubscribe(&sid, c);
    assert_eq!(server.take_outbound(b), vec![]);
    assert_eq!(server.take_outbound(c), vec![]);
    assert_eq!(*state_of(&server, c), ClientState::Uninitialized);
}

#[test]
fn leave_command_unsubscribes() {
    let (mut server, _) = server_with_session();
    let b = server.register_client("b".to_string()).unwrap();
    server.handle_command(b, C2SMessage::Join { session_id: SID.to_string() });
    assert!(server.handle_command(b, C2SMessage::Leave));
    assert_eq!(*state_of(&server, b), ClientState::Uninitialized);
    assert_eq!(server.pub_session_find(&SID.to_string()).unwrap().subscriber_count(), 0);
    assert!(server.handle_command(b, C2SMessage::Leave));
}

#[test]
fn stop_closes_the_connection() {
    let (mut server, a) = server_with_session();
    assert!(!server.handle_command(a, C2SMessage::Stop));
    assert!(server.pub_session_find(&SID.to_string()).is_some());
}

#[test]
fn frame_encoding_is_big_endian_length_then_payload() {
    assert_eq!(encode_frame(b"hi"), vec![0, 0, 0, 2, b'h', b'i']);
    let big = vec![7u8; 0x1_0203];
    let framed = encode_frame(&big);
    assert_eq!(&framed[..4], &[0, 1, 2, 3]);
    assert_eq!(framed.len(), 4 + 0x1_0203);
}

#[test]
fn frame_decoding() {
    assert_eq!(decode_frame(&[0, 0]), FrameDecode::Incomplete);
    assert_eq!(decode_frame(&[0, 0, 0, 3, 1, 2]), FrameDecode::Incomplete);
    assert_eq!(
        decode_frame(&[0, 0, 0, 2, 9, 8, 7]),
        FrameDecode::Frame { payload: vec![9, 8], consumed: 6 }
    );
    assert_eq!(decode_frame(&[1, 0, 0, 1, 5]), FrameDecode::TooLarge);
    assert_eq!(decode_frame(&[1, 0, 0, 0]), FrameDecode::Incomplete);
    assert_eq!(decode_frame(&[0, 0, 0, 0]), FrameDecode::Frame { payload: vec![], consumed: 4 });
    let mut buf = encode_frame(b"{\"x\":1}");
    buf.extend_from_slice(&[1, 2, 3]);
    assert_eq!(
        decode_frame(&buf),
        FrameDecode::Frame { payload: b"{\"x\":1}".to_vec(), consumed: 11 }
    );
}
