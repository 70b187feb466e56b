use chat_relay::hub::{Hub, RecvOutcome};
use chat_relay::message::{Envelope, Message};

fn env(origin: usize, text: &str) -> Envelope {
    Envelope {
        origin,
        msg: Message { author: format!("s{}", origin), text: text.to_string() },
    }
}

#[test]
fn receive_in_publish_order() {
    let mut hub = Hub::new(10);
    let mut sub = hub.subscribe();
    hub.publish(env(1, "first"));
    hub.publish(env(2, "second"));
    hub.publish(env(1, "third"));
    for expected in ["first", "second", "third"] {
        match hub.receive(&mut sub) {
            RecvOutcome::Received(e) => assert_eq!(e.msg.text, expected),
            other => panic!("expected a message, got {:?}", kind(&other)),
        }
    }
    assert!(matches!(hub.receive(&mut sub), RecvOutcome::Empty));
}

fn kind(r: &RecvOutcome) -> &'static str {
    match r {
        RecvOutcome::Empty => "Empty",
        RecvOutcome::Received(_) => "Received",
        RecvOutcome::Lagged(_) => "Lagged",
    }
}

#[test]
fn no_replay_of_history_on_subscribe() {
    let mut hub = Hub::new(10);
    hub.publish(env(1, "before"));
    let mut sub = hub.subscribe();
    assert!(matches!(hub.receive(&mut sub), RecvOutcome::Empty));
    hub.publish(env(1, "after"));
    match hub.receive(&mut sub) {
        RecvOutcome::Received(e) => assert_eq!(e.msg.text, "after"),
        other => panic!("expected a message, got {:?}", kind(&other)),
    }
}

#[test]
fn overflow_surfaces_lagged_with_skip_count() {
    let mut hub = Hub::new(3);
    let mut sub = hub.subscribe();
    for i in 0..4usize {
        hub.publish(env(1, &format!("m{}", i)));
    }
    match hub.receive(&mut sub) {
        RecvOutcome::Lagged(skipped) => assert_eq!(skipped, 1),
        other => panic!("expected Lagged, got {:?}", kind(&other)),
    }
    for expected in ["m1", "m2", "m3"] {
        match hub.receive(&mut sub) {
            RecvOutcome::Received(e) => assert_eq!(e.msg.text, expected),
            other => panic!("expected a message, got {:?}", kind(&other)),
        }
    }
    assert!(matches!(hub.receive(&mut sub), RecvOutcome::Empty));
}

#[test]
fn capacity_plus_one_publishes_while_idle_then_lag() {
    let mut hub = Hub::new(10);
    assert_eq!(hub.capacity(), 10);
    let mut sub = hub.subscribe();
    for i in 0..11usize {
        hub.publish(env(2, &format!("m{}", i)));
    }
    match hub.receive(&mut sub) {
        RecvOutcome::Lagged(skipped) => assert_eq!(skipped, 1),
        other => panic!("expected Lagged, got {:?}", kind(&other)),
    }
}

#[test]
fn drain_yields_everything_once() {
    let mut hub = Hub::new(10);
    let mut sub = hub.subscribe();
    hub.publish(env(1, "a"));
    hub.publish(env(2, "b"));
    let got = hub.drain(&mut sub);
    assert_eq!(got.len(), 2);
    assert_eq!(got[0].msg.text, "a");
    assert_eq!(got[1].msg.text, "b");
    // A second drain observes nothing: no message is delivered twice.
    let again = hub.drain(&mut sub);
    assert!(again.is_empty());
}

#[test]
fn drain_after_lag_yields_the_retained_suffix() {
    let mut hub = Hub::new(3);
    let mut sub = hub.subscribe();
    for i in 0..5usize {
        hub.publish(env(1, &format!("m{}", i)));
    }
    // The first two messages were dropped from the backlog; the drain picks
    // up at the oldest retained message and yields each exactly once.
    let got = hub.drain(&mut sub);
    let texts: Vec<&str> = got.iter().map(|e| e.msg.text.as_str()).collect();
    assert_eq!(texts, vec!["m2", "m3", "m4"]);
    assert!(hub.drain(&mut sub).is_empty());
}

#[test]
fn published_counts_the_log() {
    let mut hub = Hub::new(2);
    assert_eq!(hub.published(), 0);
    hub.publish(env(1, "a"));
    hub.publish(env(1, "b"));
    hub.publish(env(1, "c"));
    // The backlog dropped "a", but the log count keeps growing.
    assert_eq!(hub.published(), 3);
}
