use replicated_log::keys::{
    address_key, key_for, receive_url, register_url, registry_key, retries_key, MASTER_MESSAGES_KEY,
    SECONDARY_ORDER_KEY, SECONDARY_TTL_SECONDS,
};

#[test]
fn keys_have_their_prefixes() {
    assert_eq!(key_for("abc123"), "messages:secondary:abc123");
    assert_eq!(registry_key("abc123"), "secondary:registry:abc123");
    assert_eq!(address_key("abc123"), "secondary:address:abc123");
    assert_eq!(retries_key("abc123"), "retries:secondary:abc123");
    assert_eq!(MASTER_MESSAGES_KEY, "messages:master");
    assert_eq!(SECONDARY_ORDER_KEY, "secondary:order");
    assert_eq!(SECONDARY_TTL_SECONDS, 20);
}

#[test]
fn key_spaces_do_not_collide() {
    let ids = ["", "a", "master", "order", "registry:x", "secondary:x"];
    let mut all = Vec::new();
    for id in ids.iter() {
        all.push(key_for(id));
        all.push(registry_key(id));
        all.push(address_key(id));
        all.push(retries_key(id));
    }
    all.push(MASTER_MESSAGES_KEY.to_string());
    all.push(SECONDARY_ORDER_KEY.to_string());
    for i in 0..all.len() {
        for j in 0..all.len() {
            if i != j {
                assert_ne!(all[i], all[j]);
            }
        }
    }
}

#[test]
fn endpoints() {
    assert_eq!(receive_url("http://10.0.0.2:4000"), "http://10.0.0.2:4000/receive");
    assert_eq!(register_url("http://master:3000"), "http://master:3000/secondaries/register");
}

#[test]
fn heartbeat_renews_well_within_the_ttl() {
    let heartbeat = replicated_log::keys::HEARTBEAT_SECONDS;
    assert_eq!(heartbeat, 5);
    // Two requests of 7 s each: the renewals are at most 7 + 5 + 7 = 19 s apart.
    let (start, took, next_took) = (100u64, 7u64, 7u64);
    let earliest = start;
    let latest_next = start + took + heartbeat + next_took;
    assert!(took + next_took + heartbeat < SECONDARY_TTL_SECONDS);
    assert!(latest_next < earliest + SECONDARY_TTL_SECONDS);
}
