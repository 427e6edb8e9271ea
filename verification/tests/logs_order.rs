use replicated_log::model::{LoggedMessage, MasterLogEntry, SecondaryInfo};
use replicated_log::timeline::{assemble_logs, messages_from_fields, sort_by_timestamp};

fn entry(ts: &str, msg: &str) -> MasterLogEntry {
    MasterLogEntry { message: msg.to_string(), timestamp: ts.to_string(), sent: 2, acked: 1 }
}

fn stamps(v: &[MasterLogEntry]) -> Vec<String> {
    v.iter().map(|e| e.timestamp.clone()).collect()
}

#[test]
fn master_log_sorted_by_timestamp() {
    let input = vec![
        entry("2024-05-01T10:00:02+00:00", "c"),
        entry("2024-05-01T10:00:00+00:00", "a"),
        entry("2024-05-01T10:00:01.5+00:00", "b"),
    ];
    let out = sort_by_timestamp(input);
    assert_eq!(
        stamps(&out),
        vec![
            "2024-05-01T10:00:00+00:00",
            "2024-05-01T10:00:01.5+00:00",
            "2024-05-01T10:00:02+00:00"
        ]
    );
    assert_eq!(out[0].message, "a");
    assert_eq!(out[2].message, "c");
}

#[test]
fn sort_keeps_every_record() {
    let input = vec![entry("b", "1"), entry("a", "2"), entry("b", "3"), entry("a", "2")];
    let out = sort_by_timestamp(input.clone());
    assert_eq!(out.len(), input.len());
    for e in input.iter() {
        let n_in = input.iter().filter(|x| *x == e).count();
        let n_out = out.iter().filter(|x| *x == e).count();
        assert_eq!(n_in, n_out);
    }
    assert_eq!(stamps(&out), vec!["a", "a", "b", "b"]);
}

#[test]
fn sort_of_empty_log() {
    assert!(sort_by_timestamp(Vec::<MasterLogEntry>::new()).is_empty());
}

#[test]
fn listing_does_not_depend_on_read_order() {
    let a = vec![
        ("t3".to_string(), "three".to_string()),
        ("t1".to_string(), "one".to_string()),
        ("t2".to_string(), "two".to_string()),
    ];
    let mut b = a.clone();
    b.reverse();
    let c = vec![a[1].clone(), a[0].clone(), a[2].clone()];
    let la = messages_from_fields(&a);
    assert_eq!(la, messages_from_fields(&b));
    assert_eq!(la, messages_from_fields(&c));
    assert_eq!(
        la,
        vec![
            LoggedMessage { message: "one".into(), timestamp: "t1".into() },
            LoggedMessage { message: "two".into(), timestamp: "t2".into() },
            LoggedMessage { message: "three".into(), timestamp: "t3".into() },
        ]
    );
}

#[test]
fn logs_follow_the_listed_order() {
    let secondaries = vec![
        SecondaryInfo { id: "s2".into(), address: "http://b".into() },
        SecondaryInfo { id: "s1".into(), address: "http://a".into() },
    ];
    let m2 = vec![LoggedMessage { message: "x".into(), timestamp: "t1".into() }];
    let m1: Vec<LoggedMessage> = Vec::new();
    let master = vec![entry("t1", "x")];
    let logs = assemble_logs(master.clone(), &secondaries, vec![m2.clone(), m1.clone()]);
    assert_eq!(logs.master, master);
    assert_eq!(logs.secondaries.len(), 2);
    assert_eq!(logs.secondaries[0].id, "s2");
    assert_eq!(logs.secondaries[0].messages, m2);
    assert_eq!(logs.secondaries[1].id, "s1");
    assert_eq!(logs.secondaries[1].messages, m1);
}

#[test]
fn equal_timestamps_keep_their_order() {
    let input = vec![entry("t2", "first"), entry("t1", "x"), entry("t2", "second"), entry("t2", "third")];
    let out = sort_by_timestamp(input);
    let messages: Vec<&str> = out.iter().map(|e| e.message.as_str()).collect();
    assert_eq!(messages, vec!["x", "first", "second", "third"]);
}
