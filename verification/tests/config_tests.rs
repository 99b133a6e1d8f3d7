use polarway_lakehouse::config::LakehouseConfig;

#[test]
fn test_default_config() {
    let cfg = LakehouseConfig::new("/tmp/test_lakehouse");
    assert_eq!(cfg.session_expiry_days, 7);
    assert_eq!(cfg.vacuum_retention_hours, 168);
    assert_eq!(cfg.table_uri("users"), "/tmp/test_lakehouse/users");
}

#[test]
fn test_builder_pattern() {
    let cfg = LakehouseConfig::new("/data")
        .with_jwt_secret("my-secret")
        .with_session_expiry_days(30)
        .with_vacuum_retention_hours(24);

    assert_eq!(cfg.jwt_secret, "my-secret");
    assert_eq!(cfg.session_expiry_days, 30);
    assert_eq!(cfg.vacuum_retention_hours, 24);
}

#[test]
fn defaults_of_the_commit_and_file_options() {
    let cfg = LakehouseConfig::new("/data");
    assert_eq!(cfg.commit_retry_max, 5);
    assert_eq!(cfg.commit_retry_initial_ms, 10);
    assert_eq!(cfg.target_file_bytes, 128 * 1024 * 1024);
    assert_eq!(cfg.small_file_bytes, 64 * 1024 * 1024);
    assert_eq!(cfg.checkpoint_interval, 10);
    assert!(cfg.enforce_retention);
    assert_eq!(cfg.session_z_order_columns, vec!["user_id".to_string()]);
    assert_eq!(cfg.audit_z_order_columns, vec!["user_id".to_string(), "action".to_string()]);
    let cfg = cfg.with_target_file_bytes(1000).with_enforce_retention(false);
    assert_eq!(cfg.small_file_bytes, 500);
    assert!(!cfg.enforce_retention);
}

#[test]
fn table_path_is_not_the_bare_table_name() {
    let cfg = LakehouseConfig::new("/data/lake");
    assert_eq!(cfg.table_path("audit_log"), "/data/lake/audit_log");
}
