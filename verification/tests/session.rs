use chat_relay::codec::decode;
use chat_relay::hub::Hub;
use chat_relay::session::{CloseReason, InboundOutcome, OutboundOutcome, Session};

#[test]
fn two_sessions_exchange_one_message() {
    let mut hub = Hub::new(10);
    let mut s1 = Session::new(1, &hub);
    let mut s2 = Session::new(2, &hub);

    let r = s1.on_line(&mut hub, "{\"author\":\"a\",\"text\":\"hi\"}\n");
    assert_eq!(r, InboundOutcome::Published);

    // Session 2's next read yields exactly that message.
    match s2.poll_outbound(&hub) {
        OutboundOutcome::Deliver(frame) => {
            assert_eq!(frame, "{\"author\":\"a\",\"text\":\"hi\"}\n");
            let m = decode(&frame).unwrap();
            assert_eq!(m.author, "a");
            assert_eq!(m.text, "hi");
        }
        other => panic!("expected Deliver, got {:?}", other),
    }
    assert!(matches!(s2.poll_outbound(&hub), OutboundOutcome::Idle));

    // Session 1's own read yields nothing further: its own message is
    // filtered out, and nothing else was published.
    assert!(matches!(s1.poll_outbound(&hub), OutboundOutcome::Skipped));
    assert!(matches!(s1.poll_outbound(&hub), OutboundOutcome::Idle));
}

#[test]
fn own_message_never_delivered_back() {
    let mut hub = Hub::new(10);
    let mut s1 = Session::new(1, &hub);
    s1.on_line(&mut hub, "{\"author\":\"a\",\"text\":\"echo?\"}\n");
    let mut deliveries = 0usize;
    loop {
        match s1.poll_outbound(&hub) {
            OutboundOutcome::Deliver(_) => deliveries += 1,
            OutboundOutcome::Skipped => continue,
            OutboundOutcome::Idle => break,
            other => panic!("unexpected outcome {:?}", other),
        }
    }
    assert_eq!(deliveries, 0);
}

#[test]
fn malformed_line_closes_only_the_sender() {
    let mut hub = Hub::new(10);
    let mut s1 = Session::new(1, &hub);
    let mut s2 = Session::new(2, &hub);

    assert_eq!(s1.on_line(&mut hub, "not json"), InboundOutcome::Rejected);
    // The offender is closed and stays closed.
    assert_eq!(
        s1.on_line(&mut hub, "{\"author\":\"a\",\"text\":\"hi\"}\n"),
        InboundOutcome::AlreadyClosed
    );
    // Nothing reached the hub, and the other session is untouched.
    assert_eq!(hub.published(), 0);
    assert!(matches!(s2.poll_outbound(&hub), OutboundOutcome::Idle));
    assert_eq!(
        s2.on_line(&mut hub, "{\"author\":\"b\",\"text\":\"still here\"}\n"),
        InboundOutcome::Published
    );
}

#[test]
fn eof_closes_the_session() {
    let mut hub = Hub::new(10);
    let mut s1 = Session::new(1, &hub);
    assert_eq!(s1.on_eof(), CloseReason::PeerClosed);
    assert!(matches!(s1.poll_outbound(&hub), OutboundOutcome::AlreadyClosed));
    assert_eq!(s1.on_line(&mut hub, "{\"author\":\"a\",\"text\":\"hi\"}\n"), InboundOutcome::AlreadyClosed);
}

#[test]
fn write_failure_closes_the_session() {
    let mut hub = Hub::new(10);
    let mut s1 = Session::new(1, &hub);
    assert_eq!(s1.on_write_failure(), CloseReason::WriteFailure);
    assert!(matches!(s1.poll_outbound(&hub), OutboundOutcome::AlreadyClosed));
}

#[test]
fn close_is_idempotent_and_closed_session_is_inert() {
    let mut hub = Hub::new(10);
    let mut s1 = Session::new(1, &hub);
    let mut s2 = Session::new(2, &hub);

    // Both duties race to tear the session down: only the first wins.
    assert!(s1.close());
    assert!(!s1.close());

    // Every further event on the closed session does nothing.
    assert!(matches!(s1.poll_outbound(&hub), OutboundOutcome::AlreadyClosed));
    assert_eq!(s1.on_line(&mut hub, "{\"author\":\"a\",\"text\":\"hi\"}\n"), InboundOutcome::AlreadyClosed);
    assert_eq!(hub.published(), 0);

    // The other session neither blocks nor errors.
    assert_eq!(
        s2.on_line(&mut hub, "{\"author\":\"b\",\"text\":\"unaffected\"}\n"),
        InboundOutcome::Published
    );
    assert!(matches!(s2.poll_outbound(&hub), OutboundOutcome::Skipped));
}

#[test]
fn lagging_subscriber_is_closed() {
    let mut hub = Hub::new(1);
    let mut s1 = Session::new(1, &hub);
    let mut s2 = Session::new(2, &hub);

    assert_eq!(s1.on_line(&mut hub, "{\"author\":\"a\",\"text\":\"one\"}\n"), InboundOutcome::Published);
    assert_eq!(s1.on_line(&mut hub, "{\"author\":\"a\",\"text\":\"two\"}\n"), InboundOutcome::Published);

    // Session 2 never drained while two messages passed a capacity-one
    // backlog: its next receive surfaces the lag, which closes it.
    assert!(matches!(s2.poll_outbound(&hub), OutboundOutcome::Lagging));
    assert!(matches!(s2.poll_outbound(&hub), OutboundOutcome::AlreadyClosed));
}

#[test]
fn every_live_session_receives_each_message_in_order() {
    let mut hub = Hub::new(10);
    let mut s1 = Session::new(1, &hub);
    let mut s2 = Session::new(2, &hub);
    let mut s3 = Session::new(3, &hub);

    assert_eq!(s1.on_line(&mut hub, "{\"author\":\"a\",\"text\":\"m1\"}\n"), InboundOutcome::Published);
    assert_eq!(s2.on_line(&mut hub, "{\"author\":\"b\",\"text\":\"m2\"}\n"), InboundOutcome::Published);
    assert_eq!(s1.on_line(&mut hub, "{\"author\":\"a\",\"text\":\"m3\"}\n"), InboundOutcome::Published);

    // Session 3 published nothing: it sees all three, in publish order.
    let mut seen = Vec::new();
    loop {
        match s3.poll_outbound(&hub) {
            OutboundOutcome::Deliver(frame) => seen.push(decode(&frame).unwrap().text),
            OutboundOutcome::Skipped => continue,
            OutboundOutcome::Idle => break,
            other => panic!("unexpected outcome {:?}", other),
        }
    }
    assert_eq!(seen, vec!["m1", "m2", "m3"]);

    // Session 2 sees the two it did not send, still in publish order.
    let mut seen2 = Vec::new();
    loop {
        match s2.poll_outbound(&hub) {
            OutboundOutcome::Deliver(frame) => seen2.push(decode(&frame).unwrap().text),
            OutboundOutcome::Skipped => continue,
            OutboundOutcome::Idle => break,
            other => panic!("unexpected outcome {:?}", other),
        }
    }
    assert_eq!(seen2, vec!["m1", "m3"]);
}
