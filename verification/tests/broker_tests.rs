use codex_web::broker::RecvOutcome;
use codex_web::broker::SessionEntry;
use codex_web::broker::default_broadcast_capacity;
use codex_web::broker::drain_and_translate;
use codex_web::broker::drain_events;
use codex_web::ops::ClientMsg;
use codex_web::ops::InputItem;
use codex_web::ops::RuntimeOp;

fn bytes(s: &str) -> Vec<u8> {
    s.as_bytes().to_vec()
}

#[test]
fn default_capacity_is_1024() {
    assert_eq!(default_broadcast_capacity(), 1024);
}

#[test]
fn subscriber_gets_initial_event_first() {
    let configured = bytes("{\"id\":\"\",\"msg\":{\"type\":\"session_configured\",\"model\":\"gpt-5\"}}");
    let mut entry = SessionEntry::new(Some(configured.clone()), 1024);
    entry.publish(bytes("E1"));
    let (initial, mut sub) = entry.subscribe();
    // the first frame a handler sends is the retained initial event, and it
    // names session_configured and the model
    let first = initial.expect("initial event retained");
    assert_eq!(first, configured);
    let s = String::from_utf8(first).unwrap();
    assert!(s.contains("\"type\":\"session_configured\""));
    assert!(s.contains("\"model\":\"gpt-5\""));
    // a subscriber attached after E1 does not see E1
    assert_eq!(entry.recv(&mut sub), RecvOutcome::Empty);
}

#[test]
fn two_subscribers_observe_the_same_order() {
    let configured = bytes("{\"id\":\"\",\"msg\":{\"type\":\"session_configured\"}}");
    let entry0 = SessionEntry::new(Some(configured.clone()), 1024);
    let (i1, mut s1) = entry0.subscribe();
    let (i2, mut s2) = entry0.subscribe();
    let mut entry = entry0;
    entry.publish(bytes("E1"));
    entry.publish(bytes("E2"));
    entry.publish(bytes("E3"));
    let mut seen1 = vec![i1.unwrap()];
    seen1.extend(drain_events(&entry, &mut s1));
    let mut seen2 = vec![i2.unwrap()];
    seen2.extend(drain_events(&entry, &mut s2));
    let expected = vec![configured, bytes("E1"), bytes("E2"), bytes("E3")];
    assert_eq!(seen1, expected);
    assert_eq!(seen2, expected);
}

#[test]
fn slow_subscriber_drops_and_prompt_one_keeps_up() {
    let mut entry = SessionEntry::new(None, 4);
    let (_, mut slow) = entry.subscribe();
    let (_, mut prompt) = entry.subscribe();
    let mut prompt_seen: Vec<Vec<u8>> = Vec::new();
    for i in 0..100u32 {
        entry.publish(format!("E{i}").into_bytes());
        // the prompt subscriber reads as events arrive
        match entry.recv(&mut prompt) {
            RecvOutcome::Event(ev) => prompt_seen.push(ev),
            other => panic!("prompt subscriber should never lag: {other:?}"),
        }
    }
    let expected: Vec<Vec<u8>> = (0..100u32).map(|i| format!("E{i}").into_bytes()).collect();
    assert_eq!(prompt_seen, expected);
    // the slow subscriber observes a gap: 100 published, 4 retained
    match entry.recv(&mut slow) {
        RecvOutcome::Lagged(missed) => assert_eq!(missed, 96),
        other => panic!("expected a gap, got {other:?}"),
    }
    // after the gap it continues with the oldest retained event
    match entry.recv(&mut slow) {
        RecvOutcome::Event(ev) => assert_eq!(ev, bytes("E96")),
        other => panic!("expected E96, got {other:?}"),
    }
}

#[test]
fn ops_reach_the_runtime_in_send_order() {
    let mut entry = SessionEntry::new(None, 1024);
    entry.push_op(ClientMsg::UserMessage {
        text: bytes("A"),
        images: None,
    });
    entry.push_op(ClientMsg::Interrupt);
    let submitted = drain_and_translate(&mut entry);
    assert_eq!(
        submitted,
        vec![
            RuntimeOp::UserInput {
                items: vec![InputItem::Text { text: bytes("A") }],
            },
            RuntimeOp::Interrupt,
        ]
    );
    // the queue is drained
    assert_eq!(entry.pop_op(), None);
}

#[test]
fn publish_succeeds_with_no_subscribers() {
    let mut entry = SessionEntry::new(None, 2);
    entry.publish(bytes("E1"));
    entry.publish(bytes("E2"));
    entry.publish(bytes("E3"));
    // a new subscriber starts at the end of the history
    let (initial, mut sub) = entry.subscribe();
    assert!(initial.is_none());
    assert_eq!(entry.recv(&mut sub), RecvOutcome::Empty);
}
