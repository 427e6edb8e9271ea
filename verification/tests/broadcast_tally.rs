use replicated_log::broadcast::Broadcast;
use replicated_log::model::{CreateMessage, SecondaryInfo};

fn targets() -> Vec<SecondaryInfo> {
    vec![
        SecondaryInfo { id: "a".into(), address: "http://10.0.0.1:4000".into() },
        SecondaryInfo { id: "b".into(), address: "http://10.0.0.2:4000".into() },
        SecondaryInfo { id: "c".into(), address: "http://10.0.0.3:4000".into() },
    ]
}

#[test]
fn broadcast_tallies_acks_in_order() {
    let mut b = Broadcast::start("hello".into(), "2024-05-01T10:00:00+00:00".into(), targets());
    let wire = b.wire_entry();
    assert_eq!(wire.message, "hello");
    assert_eq!(wire.timestamp, "2024-05-01T10:00:00+00:00");
    assert_eq!(b.next_url().as_deref(), Some("http://10.0.0.1:4000/receive"));
    b.record(true);
    assert_eq!(b.next_url().as_deref(), Some("http://10.0.0.2:4000/receive"));
    b.record(false);
    assert!(!b.is_complete());
    assert_eq!(b.next_url().as_deref(), Some("http://10.0.0.3:4000/receive"));
    b.record(true);
    assert!(b.is_complete());
    assert_eq!(b.next_url(), None);
    let (entry, result) = b.finish();
    assert_eq!(entry.message, "hello");
    assert_eq!(entry.timestamp, "2024-05-01T10:00:00+00:00");
    assert_eq!(entry.sent, 3);
    assert_eq!(entry.acked, 2);
    assert_eq!(result.delivered, vec!["a".to_string(), "c".to_string()]);
    assert_eq!(result.failed, vec!["b".to_string()]);
    assert_eq!(result.message, "hello");
}

#[test]
fn broadcast_to_nobody() {
    let b = Broadcast::start("m".into(), "t".into(), Vec::new());
    assert!(b.is_complete());
    assert_eq!(b.next_url(), None);
    let (entry, result) = b.finish();
    assert_eq!(entry.sent, 0);
    assert_eq!(entry.acked, 0);
    assert!(result.delivered.is_empty() && result.failed.is_empty());
}

#[test]
fn broadcast_all_fail() {
    let mut b = Broadcast::start("m".into(), "t".into(), targets());
    while b.next_url().is_some() {
        b.record(false);
    }
    let (entry, result) = b.finish();
    assert_eq!(entry.sent, 3);
    assert_eq!(entry.acked, 0);
    assert_eq!(result.failed, vec!["a".to_string(), "b".to_string(), "c".to_string()]);
}

#[test]
fn posted_message_is_stamped_with_the_clock() {
    let stamped = replicated_log::broadcast::stamp_message(CreateMessage { message: "hi".into() });
    assert_eq!(stamped.message, "hi");
    let ts = stamped.timestamp.clone();
    assert!(ts.len() >= 25, "{ts}");
    assert!(ts.ends_with("+00:00"), "{ts}");
    let b: Vec<char> = ts.chars().collect();
    assert_eq!((b[4], b[7], b[10], b[13], b[16]), ('-', '-', 'T', ':', ':'), "{ts}");
    assert!(ts.starts_with("20"), "{ts}");
    let broadcast = Broadcast::start(stamped.message, stamped.timestamp, targets());
    assert_eq!(broadcast.wire_entry().timestamp, ts);
    assert!(!broadcast.is_complete());
}
