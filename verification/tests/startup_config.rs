use replicated_log::config::{
    listen_port, master_url, or_default, secondary_address, secondary_id, spawned_store_url, store_url,
    DEFAULT_PORT,
};

#[test]
fn defaults_apply_only_when_unset() {
    assert_eq!(store_url(None), "redis://127.0.0.1:6379");
    assert_eq!(store_url(Some("redis://cache:6379".into())), "redis://cache:6379");
    assert_eq!(spawned_store_url(None), "redis://redis:6379");
    assert_eq!(master_url(None), "http://master:3000");
    assert_eq!(master_url(Some("http://m:1".into())), "http://m:1");
    assert_eq!(or_default(Some(String::new()), "d"), "");
}

#[test]
fn listen_ports() {
    assert_eq!(DEFAULT_PORT, 4000);
    assert_eq!(listen_port(&None), 4000);
    assert_eq!(listen_port(&Some("8080".into())), 8080);
    assert_eq!(listen_port(&Some("+81".into())), 81);
    assert_eq!(listen_port(&Some("nope".into())), 4000);
    assert_eq!(listen_port(&Some("70000".into())), 4000);
    assert_eq!(listen_port(&Some("".into())), 4000);
}

#[test]
fn secondary_identity() {
    assert_eq!(secondary_id(Some("0123456789ab".into()), 7), "0123456789ab");
    assert_eq!(secondary_id(None, 4242), "secondary-4242");
    assert_eq!(secondary_id(None, 0), "secondary-0");
    assert_eq!(secondary_address("172.18.0.5", 4000), "http://172.18.0.5:4000");
    assert_eq!(secondary_address("10.0.0.1", 0), "http://10.0.0.1:0");
}
