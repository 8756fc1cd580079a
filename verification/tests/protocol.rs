use rustcord::{
    check_upgrade_status, on_frame, route, ConnectError, ConnectionRun, GatewayOpCodes,
    GatewayPayload, GatewayPayloadData, HeartbeatScheduler, HeartbeatState, IdentifyTask,
    InboundQueue, OutboundQueue, ReadStep, RouterAction, RouterConfig,
};

fn heartbeat() -> GatewayPayload {
    GatewayPayload { op: GatewayOpCodes::Heartbeat, d: None, s: None, t: None }
}

#[test]
fn heartbeat_cadence_over_three_intervals() {
    let mut s = HeartbeatScheduler::new();
    assert_eq!(s.state(), HeartbeatState::Idle);
    s.start(1000, 0);
    assert_eq!(s.state(), HeartbeatState::Running);

    // nothing is due before one full interval has passed
    assert_eq!(s.on_timer(0), None);
    assert_eq!(s.on_timer(999), None);
    // the first heartbeat falls due at the interval, the next ones one
    // interval apart each
    assert_eq!(s.on_timer(1000), Some(heartbeat()));
    assert_eq!(s.on_timer(1500), None);
    assert_eq!(s.on_timer(2000), Some(heartbeat()));
    assert_eq!(s.on_timer(2999), None);
    assert_eq!(s.on_timer(3000), Some(heartbeat()));
}

#[test]
fn heartbeat_stops_on_enqueue_failure() {
    let mut s = HeartbeatScheduler::new();
    s.start(500, 100);
    assert_eq!(s.on_timer(600), Some(heartbeat()));
    s.on_enqueue_failure();
    assert_eq!(s.state(), HeartbeatState::Stopped);
}

#[test]
fn identify_fires_exactly_once_with_token_verbatim() {
    let mut t = IdentifyTask::new("secret-token".to_string(), 1000);
    assert!(!t.due(0));
    assert!(!t.due(999));
    assert!(t.due(1000));
    let e = t.fire().expect("first fire yields the envelope");
    assert_eq!(e.op, GatewayOpCodes::Identify);
    match e.d {
        Some(GatewayPayloadData::IdentifyMessageData { token, .. }) => {
            assert_eq!(token, "secret-token");
        }
        other => panic!("wrong payload: {:?}", other),
    }
    assert_eq!(t.fire(), None);
    assert_eq!(t.fire(), None);
}

#[test]
fn identify_precedes_first_heartbeat() {
    // hello arrives promptly: the scheduler starts at 50 ms with a
    // 41250 ms interval, while identify is due 1000 ms in
    let mut s = HeartbeatScheduler::new();
    s.start(41250, 50);
    let mut t = IdentifyTask::new("tok".to_string(), 1000);
    assert!(t.due(1000));
    let identify = t.fire();
    assert!(identify.is_some());
    // at identify time no heartbeat is due yet
    assert_eq!(s.on_timer(1000), None);
    assert!(s.on_timer(41300).is_some());
}

fn config() -> RouterConfig {
    RouterConfig { publish_channel_id: "829119138475671602".to_string() }
}

#[test]
fn hello_starts_heartbeat() {
    let e = GatewayPayload {
        op: GatewayOpCodes::Hello,
        d: Some(GatewayPayloadData::HelloData { heartbeat_interval: 41250 }),
        s: None,
        t: None,
    };
    assert_eq!(
        route(&e, &config()),
        RouterAction::StartHeartbeat { interval_ms: 41250 }
    );
}

#[test]
fn hello_without_payload_is_ignored() {
    let e = GatewayPayload { op: GatewayOpCodes::Hello, d: None, s: None, t: None };
    assert_eq!(route(&e, &config()), RouterAction::Ignore);
}

#[test]
fn presence_update_is_published_to_configured_channel() {
    let e = GatewayPayload {
        op: GatewayOpCodes::Dispatch,
        d: Some(GatewayPayloadData::PresenceUpdateData {
            user_name: "alice".to_string(),
            activities: vec!["Coding".to_string()],
        }),
        s: Some(5),
        t: Some("PRESENCE_UPDATE".to_string()),
    };
    match route(&e, &config()) {
        RouterAction::Publish { content, channel_id } => {
            assert!(content.contains("Coding"));
            assert!(content.contains("alice"));
            assert_eq!(channel_id, "829119138475671602");
        }
        other => panic!("expected a publish action, got {:?}", other),
    }
}

#[test]
fn message_create_is_displayed() {
    let e = GatewayPayload {
        op: GatewayOpCodes::Dispatch,
        d: Some(GatewayPayloadData::MessageCreateData {
            author_username: "alice".to_string(),
            author_discriminator: "0001".to_string(),
            content: "hello".to_string(),
        }),
        s: Some(6),
        t: Some("MESSAGE_CREATE".to_string()),
    };
    assert_eq!(
        route(&e, &config()),
        RouterAction::Display { line: "<alice#0001>: hello".to_string() }
    );
}

#[test]
fn unknown_subtype_and_unknown_opcode_produce_no_action() {
    let unknown_subtype = GatewayPayload {
        op: GatewayOpCodes::Dispatch,
        d: Some(GatewayPayloadData::RawData {
            value: rustcord::JsonValue::Obj(vec![]),
        }),
        s: Some(9),
        t: Some("TYPING_START".to_string()),
    };
    assert_eq!(route(&unknown_subtype, &config()), RouterAction::Ignore);

    let unknown_opcode = GatewayPayload {
        op: GatewayOpCodes::Unknown(5),
        d: None,
        s: None,
        t: None,
    };
    assert_eq!(route(&unknown_opcode, &config()), RouterAction::Ignore);

    let unhandled = GatewayPayload { op: GatewayOpCodes::Reconnect, d: None, s: None, t: None };
    assert_eq!(route(&unhandled, &config()), RouterAction::Ignore);
}

#[test]
fn outbound_queue_is_fifo_and_never_refuses() {
    let mut q = OutboundQueue::new();
    assert_eq!(q.len(), 0);
    let a = heartbeat();
    let b = GatewayPayload { op: GatewayOpCodes::Dispatch, d: None, s: Some(1), t: None };
    let c = GatewayPayload { op: GatewayOpCodes::Resume, d: None, s: None, t: None };
    q.push(a);
    q.push(b);
    q.push(c);
    assert_eq!(q.len(), 3);
    assert_eq!(q.pop_front().unwrap().op, GatewayOpCodes::Heartbeat);
    assert_eq!(q.pop_front().unwrap().op, GatewayOpCodes::Dispatch);
    assert_eq!(q.pop_front().unwrap().op, GatewayOpCodes::Resume);
    assert_eq!(q.pop_front(), None);
}

#[test]
fn inbound_queue_reports_backpressure_when_full() {
    let mut q = InboundQueue::new(2);
    assert_eq!(q.capacity(), 2);
    assert!(q.try_enqueue(heartbeat()).is_ok());
    assert!(q.try_enqueue(heartbeat()).is_ok());
    // the queue is at capacity: the next attempt is reported, the
    // envelope handed back, nothing silently dropped
    let refused = GatewayPayload { op: GatewayOpCodes::Hello, d: None, s: None, t: None };
    match q.try_enqueue(refused) {
        Err(back) => assert_eq!(back.op, GatewayOpCodes::Hello),
        Ok(()) => panic!("a full queue must refuse"),
    }
    assert_eq!(q.len(), 2);
    // draining makes room again
    assert_eq!(q.dequeue().unwrap().op, GatewayOpCodes::Heartbeat);
    assert!(q.try_enqueue(heartbeat()).is_ok());
}

#[test]
fn message_body_has_the_wire_shape() {
    let body = rustcord::create_message_body(&"hi there \"friend\"".to_string());
    assert_eq!(body, "{\"content\":\"hi there \\\"friend\\\"\"}");
}

#[test]
fn upgrade_status_must_be_switching_protocols() {
    assert!(check_upgrade_status(101).is_ok());
    assert_eq!(
        check_upgrade_status(404),
        Err(ConnectError::HandshakeRejected { status: 404 })
    );
    assert_eq!(
        check_upgrade_status(200),
        Err(ConnectError::HandshakeRejected { status: 200 })
    );
}

#[test]
fn either_half_closing_finishes_the_run() {
    let mut c = ConnectionRun::new();
    assert!(!c.finished());
    // closing only the write side finishes the whole run, the read side
    // notwithstanding
    c.on_write_end();
    assert!(c.read_open);
    assert!(c.finished());

    let mut c2 = ConnectionRun::new();
    c2.on_read_end();
    assert!(c2.write_open);
    assert!(c2.finished());
}

#[test]
fn read_loop_delivers_good_frames_and_skips_bad_ones() {
    match on_frame("{\"op\":1,\"d\":null,\"s\":null,\"t\":null}") {
        ReadStep::Deliver(e) => assert_eq!(e, heartbeat()),
        ReadStep::Skip(err) => panic!("unexpected skip: {:?}", err),
    }
    match on_frame("garbage") {
        ReadStep::Skip(err) => assert_eq!(err.raw_text(), "garbage"),
        ReadStep::Deliver(e) => panic!("unexpected delivery: {:?}", e),
    }
}
