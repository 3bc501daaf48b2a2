use fcm_push_listener::checkin::{encode_checkin_request, parse_checkin_response, Session};
use fcm_push_listener::codec::{encode_frame, Frame, MessageTag, MCS_VERSION};
use fcm_push_listener::crypto::WebPushKeys;
use fcm_push_listener::ids::PersistentIdSet;
use fcm_push_listener::mcs::encode_login_request;
use fcm_push_listener::stream::{Message, MessageStream, StreamStep};
use fcm_push_listener::supervisor::{
    backoff_ms, backoff_with_jitter, Action, ConnectionState, Event, Supervisor, BACKOFF_CAP_MS,
};

#[test]
fn checkin_request_bytes() {
    assert_eq!(encode_checkin_request(None), vec![112, 3]);
    let prior = Session { android_id: 5, security_token: 9 };
    assert_eq!(encode_checkin_request(Some(&prior)), vec![16, 5, 48, 9, 112, 3]);
}

#[test]
fn checkin_response_parses_identity() {
    // Field 7 (android_id) = 123, field 8 (security_token) = 456.
    let body = [56u8, 123, 64, 200, 3];
    let sess = parse_checkin_response(&body).unwrap();
    assert_eq!(sess.android_id, 123);
    assert_eq!(sess.security_token, 456);
}

#[test]
fn checkin_response_missing_field_is_protocol_error() {
    // Only field 7 present.
    let body = [56u8, 123];
    assert!(parse_checkin_response(&body).is_err());
    // Garbage: a field key whose varint never ends.
    assert!(parse_checkin_response(&[0x80]).is_err());
}

#[test]
fn login_request_replays_persistent_ids() {
    let no_ids = encode_login_request(123, 456, &vec![]);
    // The request ends with auth_service = 2 (field 16).
    assert!(no_ids.ends_with(&[128, 1, 2]));
    let one_id = encode_login_request(123, 456, &vec![b"a".to_vec()]);
    // One received_persistent_id field (field 10) right before it.
    assert!(one_id.ends_with(&[82, 1, 97, 128, 1, 2]));
    assert_eq!(one_id.len(), no_ids.len() + 3);
}

/// Fresh registration: check-in issues an identity, the handshake runs
/// with it and an empty persistent-id list, and a successful login
/// response makes the connection Active.
#[test]
fn fresh_registration_reaches_active() {
    let body = [56u8, 123, 64, 200, 3];
    let sess = parse_checkin_response(&body).unwrap();
    assert_eq!(sess, Session { android_id: 123, security_token: 456 });

    let mut sup = Supervisor::new();
    assert_eq!(sup.step(Event::ListenRequested), vec![Action::StartCheckin]);
    assert_eq!(sup.state, ConnectionState::CheckingIn);

    // The runtime performs the check-in, then opens the transport and
    // sends the login request built from the identity and no prior ids.
    let login = encode_login_request(sess.android_id, sess.security_token, &vec![]);
    assert!(login.ends_with(&[128, 1, 2]));
    assert_eq!(sup.step(Event::CheckinSucceeded), vec![Action::OpenTransport]);
    assert_eq!(sup.state, ConnectionState::Handshaking);

    // The server answers with a version byte and a successful (error-free)
    // login-response frame.
    let keys = WebPushKeys {
        private_key: vec![1u8; 32],
        public_key: vec![4u8; 65],
        auth_secret: vec![7u8; 16],
    };
    let mut stream = MessageStream::wrap(keys, PersistentIdSet::new());
    let mut wire = vec![MCS_VERSION];
    encode_frame(&Frame { tag: MessageTag::LoginResponse, payload: vec![] }, &mut wire);
    stream.feed(&wire);
    assert!(matches!(stream.next_event(), Ok(StreamStep::Skipped)));
    let accepted = match stream.next_event() {
        Ok(StreamStep::Event(Message::Login(ok))) => ok,
        other => panic!("expected a login outcome, got {:?}", other),
    };
    assert!(accepted);

    assert_eq!(sup.step(Event::LoginAccepted), Vec::<Action>::new());
    assert_eq!(sup.state, ConnectionState::Active);
    assert_eq!(sup.failures, 0);
}

/// The transport closes unexpectedly while Active: the state goes to
/// Disconnected, and after the backoff delay check-in is re-entered
/// automatically.
#[test]
fn unexpected_close_reconnects_after_backoff() {
    let mut sup = Supervisor::new();
    sup.step(Event::ListenRequested);
    sup.step(Event::CheckinSucceeded);
    sup.step(Event::LoginAccepted);
    assert_eq!(sup.state, ConnectionState::Active);

    let acts = sup.step(Event::TransportClosed);
    assert_eq!(sup.state, ConnectionState::Disconnected);
    assert_eq!(acts, vec![Action::StartBackoffTimer(1000)]);

    assert_eq!(sup.step(Event::BackoffElapsed), vec![Action::StartCheckin]);
    assert_eq!(sup.state, ConnectionState::CheckingIn);
}

/// Stop while Handshaking: the handshake is abandoned, the transport is
/// closed, and a second stop succeeds with no effect.
#[test]
fn stop_during_handshake_is_abandoned_and_idempotent() {
    let mut sup = Supervisor::new();
    sup.step(Event::ListenRequested);
    sup.step(Event::CheckinSucceeded);
    assert_eq!(sup.state, ConnectionState::Handshaking);

    assert_eq!(sup.step(Event::StopRequested), vec![Action::CloseTransport]);
    assert_eq!(sup.state, ConnectionState::Disconnected);
    assert!(!sup.listening);

    // No further frames are processed and no timer restarts the loop.
    assert_eq!(sup.step(Event::HeartbeatPingReceived), Vec::<Action>::new());
    assert_eq!(sup.step(Event::BackoffElapsed), Vec::<Action>::new());
    assert_eq!(sup.state, ConnectionState::Disconnected);

    // The second stop is a no-op success.
    assert_eq!(sup.step(Event::StopRequested), Vec::<Action>::new());
    assert_eq!(sup.state, ConnectionState::Disconnected);
}

/// Graceful stop from Active goes through Draining.
#[test]
fn stop_while_active_drains() {
    let mut sup = Supervisor::new();
    sup.step(Event::ListenRequested);
    sup.step(Event::CheckinSucceeded);
    sup.step(Event::LoginAccepted);

    assert_eq!(sup.step(Event::StopRequested), Vec::<Action>::new());
    assert_eq!(sup.state, ConnectionState::Draining);
    assert!(sup.transport_open);

    assert_eq!(sup.step(Event::DrainFinished), vec![Action::CloseTransport]);
    assert_eq!(sup.state, ConnectionState::Disconnected);
    assert!(!sup.transport_open);
}

/// A second listen attempt on a registration that is already listening is
/// rejected, not queued.
#[test]
fn second_listen_attempt_is_rejected() {
    let mut sup = Supervisor::new();
    sup.step(Event::ListenRequested);
    sup.step(Event::CheckinSucceeded);
    sup.step(Event::LoginAccepted);
    assert_eq!(sup.step(Event::ListenRequested), vec![Action::RejectListen]);
    assert_eq!(sup.state, ConnectionState::Active);
}

/// The backoff sequence never decreases, stays under its cap, and resets
/// after a successful Active period.
#[test]
fn backoff_is_monotone_capped_and_resets() {
    let mut last = 0u64;
    for f in 0..12u32 {
        let d = backoff_ms(f);
        assert!(d >= last);
        assert!(d <= BACKOFF_CAP_MS);
        last = d;
    }
    assert_eq!(backoff_ms(1), 1000);
    assert_eq!(backoff_ms(6), 32000);
    assert_eq!(backoff_ms(7), 64000);
    assert_eq!(backoff_ms(200), 64000);
    assert!(backoff_with_jitter(3, 250) == 4250);
    assert!(backoff_with_jitter(3, 100000) == 5000);

    // Two failures, then success: the count resets, so the next failure
    // backs off from the base delay again.
    let mut sup = Supervisor::new();
    sup.step(Event::ListenRequested);
    sup.step(Event::CheckinFailed);
    sup.step(Event::BackoffElapsed);
    let acts = sup.step(Event::CheckinFailed);
    assert_eq!(acts, vec![Action::StartBackoffTimer(2000)]);
    sup.step(Event::BackoffElapsed);
    sup.step(Event::CheckinSucceeded);
    sup.step(Event::LoginAccepted);
    assert_eq!(sup.failures, 0);
    let acts = sup.step(Event::TransportClosed);
    assert_eq!(acts, vec![Action::StartBackoffTimer(1000)]);
}

/// Silence past the idle window is a dead connection: the transport is
/// closed and reconnect goes through backoff.
#[test]
fn idle_timeout_closes_and_backs_off() {
    let mut sup = Supervisor::new();
    sup.step(Event::ListenRequested);
    sup.step(Event::CheckinSucceeded);
    sup.step(Event::LoginAccepted);
    let acts = sup.step(Event::IdleTimeout);
    assert_eq!(acts, vec![Action::CloseTransport, Action::StartBackoffTimer(1000)]);
    assert_eq!(sup.state, ConnectionState::Disconnected);
    assert!(!sup.transport_open);
    assert!(sup.listening);
}

/// Under every interleaving of events — stop racing reconnect included —
/// at most one transport is ever live for one registration: every event
/// sequence of bounded depth is driven through the machine while the open
/// transports are counted action by action.
#[test]
fn never_two_transports_under_any_interleaving() {
    let all_events = [
        Event::ListenRequested,
        Event::CheckinSucceeded,
        Event::CheckinFailed,
        Event::LoginAccepted,
        Event::LoginRejected,
        Event::HeartbeatPingReceived,
        Event::TransportClosed,
        Event::IdleTimeout,
        Event::BackoffElapsed,
        Event::StopRequested,
        Event::DrainFinished,
    ];
    let mut stack: Vec<(Supervisor, i32, usize)> = vec![(Supervisor::new(), 0, 0)];
    let mut explored: u64 = 0;
    while let Some((sup, live, depth)) = stack.pop() {
        explored += 1;
        if depth == 4 {
            continue;
        }
        for &event in &all_events {
            let mut next = sup;
            // When the event itself reports the peer closed the
            // transport, none is open as the actions run.
            let mut count = if event == Event::TransportClosed { 0 } else { live };
            for action in next.step(event) {
                match action {
                    Action::OpenTransport => count += 1,
                    Action::CloseTransport => count -= 1,
                    _ => {},
                }
                assert!((0..=1).contains(&count), "transport count {} after {:?}", count, event);
            }
            assert_eq!(count == 1, next.transport_open);
            stack.push((next, count, depth + 1));
        }
    }
    assert!(explored > 10_000);
}

/// A login rejection closes the transport and backs off.
#[test]
fn login_rejection_backs_off() {
    let mut sup = Supervisor::new();
    sup.step(Event::ListenRequested);
    sup.step(Event::CheckinSucceeded);
    let acts = sup.step(Event::LoginRejected);
    assert_eq!(acts, vec![Action::CloseTransport, Action::StartBackoffTimer(1000)]);
    assert_eq!(sup.state, ConnectionState::Disconnected);
    assert!(!sup.transport_open);
}
