use replicated_log::containers::{
    container_info, display_name, is_running, secondary_container, secondary_env, secondary_image,
    short_id, SECONDARY_LABEL, SHORT_ID_LEN,
};

#[test]
fn short_ids() {
    assert_eq!(short_id(&Some("4f2a9c1e7b3d5a6f8e9d0c1b2a3f4e5d".to_string())), "4f2a9c1e7b3d");
    assert_eq!(short_id(&Some("abc".to_string())), "abc");
    assert_eq!(short_id(&None), "");
    let once = short_id(&Some("0123456789abcdef".to_string()));
    assert_eq!(short_id(&Some(once.clone())), once);
    assert_eq!(SHORT_ID_LEN, 12);
}

#[test]
fn display_names() {
    assert_eq!(display_name(&Some(vec!["/relay-master-1".to_string(), "/other".to_string()])), "relay-master-1");
    assert_eq!(display_name(&Some(vec![])), "");
    assert_eq!(display_name(&None), "");
    assert_eq!(display_name(&Some(vec!["//x".to_string()])), "x");
}

#[test]
fn container_rows() {
    let c = container_info(
        &Some("0123456789abcdef".to_string()),
        &Some(vec!["/web".to_string()]),
        &Some("nginx:latest".to_string()),
        &Some("running".to_string()),
        &None,
    );
    assert_eq!(c.id, "0123456789ab");
    assert_eq!(c.name, "web");
    assert_eq!(c.image, "nginx:latest");
    assert_eq!(c.state, "running");
    assert_eq!(c.status, "");
}

#[test]
fn running_states() {
    assert!(is_running(&Some("running".to_string())));
    assert!(!is_running(&Some("exited".to_string())));
    assert!(!is_running(&Some("Running".to_string())));
    assert!(!is_running(&None));
    assert_eq!(
        secondary_container(&Some("0123456789abcdef".to_string()), &Some("exited".to_string())),
        ("0123456789ab".to_string(), false)
    );
}

#[test]
fn spawned_secondary_image_and_env() {
    assert_eq!(secondary_image("relay-master"), "relay-secondary");
    assert_eq!(secondary_image("registry/relay-master:1.0"), "registry/relay-secondary:1.0");
    assert_eq!(secondary_image("plain"), "plain");
    assert_eq!(
        secondary_env("redis://redis:6379", "http://master:3000"),
        vec!["REDIS_URL=redis://redis:6379".to_string(), "MASTER_URL=http://master:3000".to_string()]
    );
    assert_eq!(SECONDARY_LABEL, "app.role=secondary");
}

#[test]
fn launch_of_a_new_secondary() {
    let launch = replicated_log::containers::secondary_launch(
        "relay-master:2",
        "relay_default".to_string(),
        "redis://redis:6379",
        "http://master:3000",
    );
    assert_eq!(launch.image, "relay-secondary:2");
    assert_eq!(launch.cmd, vec!["secondary".to_string()]);
    assert_eq!(
        launch.env,
        vec!["REDIS_URL=redis://redis:6379".to_string(), "MASTER_URL=http://master:3000".to_string()]
    );
    assert_eq!(launch.labels, vec![("app.role".to_string(), "secondary".to_string())]);
    assert_eq!(format!("{}={}", launch.labels[0].0, launch.labels[0].1), SECONDARY_LABEL);
    assert_eq!(launch.network_mode, "relay_default");
}
