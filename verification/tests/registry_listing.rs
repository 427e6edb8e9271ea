use replicated_log::model::SecondaryInfo;
use replicated_log::registry::{first_seen_score, first_seen_score_at, known_secondaries, live_secondaries};

#[test]
fn first_registration_sets_the_order_once() {
    assert_eq!(first_seen_score_at(false, 1_700_000_000_000), Some(1_700_000_000_000));
    assert_eq!(first_seen_score_at(true, 1_700_000_000_000), None);
    assert_eq!(first_seen_score(true), None);
    let score = first_seen_score(false).expect("a first registration is scored");
    assert!(score > 1_600_000_000_000, "{score}");
}

fn info(id: &str, address: &str) -> SecondaryInfo {
    SecondaryInfo { id: id.into(), address: address.into() }
}

#[test]
fn live_listing_skips_expired_and_keeps_order() {
    let entries = vec![Some(info("a", "x")), None, Some(info("c", "z")), None];
    assert_eq!(live_secondaries(&entries), vec![info("a", "x"), info("c", "z")]);
    assert!(live_secondaries(&Vec::new()).is_empty());
    assert!(live_secondaries(&vec![None, None]).is_empty());
}

#[test]
fn known_listing_pairs_ids_with_addresses() {
    let ids = vec!["a".to_string(), "b".to_string(), "c".to_string()];
    let addresses = vec![Some("http://a".to_string()), None, Some("http://c".to_string())];
    assert_eq!(known_secondaries(&ids, &addresses), vec![info("a", "http://a"), info("c", "http://c")]);
    let all = vec![Some("1".to_string()), Some("2".to_string()), Some("3".to_string())];
    assert_eq!(known_secondaries(&ids, &all), vec![info("a", "1"), info("b", "2"), info("c", "3")]);
}

#[test]
fn live_secondaries_are_known_in_the_same_order() {
    let ids = vec!["a".to_string(), "b".to_string(), "c".to_string(), "d".to_string()];
    let entries = vec![None, Some(info("b", "http://b")), None, Some(info("d", "http://d"))];
    let addresses = vec![
        Some("http://a".to_string()),
        Some("http://b".to_string()),
        None,
        Some("http://d".to_string()),
    ];
    let live: Vec<String> = live_secondaries(&entries).into_iter().map(|s| s.id).collect();
    let known: Vec<String> = known_secondaries(&ids, &addresses).into_iter().map(|s| s.id).collect();
    assert_eq!(live, vec!["b".to_string(), "d".to_string()]);
    assert_eq!(known, vec!["a".to_string(), "b".to_string(), "d".to_string()]);
    let mut from = 0;
    for id in live.iter() {
        let at = known[from..].iter().position(|k| k == id).expect("live id is known") + from;
        from = at + 1;
    }
}
