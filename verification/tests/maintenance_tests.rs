use polarway_lakehouse::clock::Instant;
use polarway_lakehouse::maintenance::{
    run_once_at, session_cleanup, steps_of, MaintenanceScheduler, MaintenanceStep, MaintenanceTask,
};
use polarway_lakehouse::LakehouseConfig;

fn describe(step: &MaintenanceStep) -> String {
    match step {
        MaintenanceStep::Delete { table, predicate } => format!("delete {table} where {predicate}"),
        MaintenanceStep::Compact { table } => format!("compact {table}"),
        MaintenanceStep::Cluster { table, columns } => format!("cluster {table} by {}", columns.join("+")),
        MaintenanceStep::Vacuum { table, retention_hours, dry_run } => format!("vacuum {table} {retention_hours} {dry_run}"),
    }
}

#[test]
fn one_pass_cleans_compacts_and_vacuums() {
    let config = LakehouseConfig::new("/lake").with_vacuum_retention_hours(24);
    let steps: Vec<String> = run_once_at(&config, "2026-02-03T00:00:00+00:00").iter().map(describe).collect();
    assert_eq!(
        steps,
        vec![
            "delete sessions where expires_at < '2026-02-03T00:00:00+00:00'",
            "compact users",
            "compact sessions",
            "compact audit_log",
            "compact user_actions",
            "vacuum users 24 false",
            "vacuum sessions 24 false",
            "vacuum audit_log 24 false",
            "vacuum user_actions 24 false",
        ]
    );
    let now_steps = MaintenanceScheduler::run_once(&config);
    assert_eq!(now_steps.len(), 9);
    assert!(describe(&now_steps[0]).starts_with("delete sessions where expires_at < '20"));
}

#[test]
fn each_task_has_its_steps_and_period() {
    let config = LakehouseConfig::new("/lake");
    assert_eq!(MaintenanceTask::SessionCleanup.default_period_secs(), 3_600);
    assert_eq!(MaintenanceTask::Compaction.default_period_secs(), 6 * 3_600);
    assert_eq!(MaintenanceTask::Clustering.default_period_secs(), 24 * 3_600);
    assert_eq!(MaintenanceTask::Vacuum.default_period_secs(), 24 * 3_600);
    let clustering: Vec<String> = steps_of(MaintenanceTask::Clustering, &config, "").iter().map(describe).collect();
    assert_eq!(
        clustering,
        vec![
            "cluster sessions by user_id",
            "cluster audit_log by user_id+action",
            "cluster user_actions by user_id+action_type",
        ]
    );
    assert_eq!(steps_of(MaintenanceTask::Compaction, &config, "").len(), 4);
    let vacuums: Vec<String> = steps_of(MaintenanceTask::Vacuum, &config, "").iter().map(describe).collect();
    assert_eq!(vacuums[0], "vacuum users 168 false");
    assert_eq!(describe(&session_cleanup("T")), "delete sessions where expires_at < 'T'");
    let scheduler = MaintenanceScheduler::new(config);
    assert_eq!(scheduler.steps(MaintenanceTask::SessionCleanup).len(), 1);
    assert_eq!(scheduler.steps(MaintenanceTask::Vacuum).len(), 4);
}

#[test]
fn tasks_run_at_once_and_then_once_per_period() {
    let mut scheduler = MaintenanceScheduler::new(LakehouseConfig::new("/lake"));
    assert!(scheduler.tick(0).is_empty());
    scheduler.start(1_000);
    assert!(scheduler.tick(999).is_empty());
    assert_eq!(
        scheduler.tick(1_000),
        vec![
            MaintenanceTask::SessionCleanup,
            MaintenanceTask::Compaction,
            MaintenanceTask::Clustering,
            MaintenanceTask::Vacuum,
        ]
    );
    assert!(scheduler.tick(1_000).is_empty());
    let hour = 3_600_000;
    assert!(scheduler.tick(1_000 + hour - 1).is_empty());
    assert_eq!(scheduler.tick(1_000 + hour), vec![MaintenanceTask::SessionCleanup]);
    assert_eq!(
        scheduler.tick(1_000 + 6 * hour),
        vec![MaintenanceTask::SessionCleanup, MaintenanceTask::Compaction]
    );
    // The cleanup fell behind: it is due again until it has caught up.
    assert_eq!(scheduler.tick(1_000 + 6 * hour), vec![MaintenanceTask::SessionCleanup]);
    scheduler.stop();
    assert!(scheduler.tick(i64::MAX).is_empty());
    scheduler.start_vacuum(10, 50);
    scheduler.start_session_cleanup(1, 60);
    scheduler.start_compaction(2, 70);
    scheduler.start_z_order(3, 80);
    assert_eq!(scheduler.tick(65), vec![MaintenanceTask::Vacuum, MaintenanceTask::SessionCleanup]);
    assert_eq!(scheduler.tick(1_060), vec![MaintenanceTask::SessionCleanup, MaintenanceTask::Compaction, MaintenanceTask::Clustering]);
    assert_eq!(scheduler.tick(10_050), vec![MaintenanceTask::Vacuum, MaintenanceTask::SessionCleanup, MaintenanceTask::Compaction, MaintenanceTask::Clustering]);
}

#[test]
fn points_in_time_have_text_and_arithmetic() {
    let epoch = Instant { secs: 0, nanos: 0 };
    assert_eq!(epoch.to_rfc3339().as_deref(), Some("1970-01-01T00:00:00+00:00"));
    assert_eq!(epoch.date().as_deref(), Some("1970-01-01"));
    let later = Instant { secs: 1_431_648_000, nanos: 500_000_000 };
    assert_eq!(later.to_rfc3339().as_deref(), Some("2015-05-15T00:00:00.500+00:00"));
    assert_eq!(later.date().as_deref(), Some("2015-05-15"));
    assert_eq!(later.millis(), Some(1_431_648_000_500));
    assert_eq!(later.plus_days(7), Some(Instant { secs: 1_431_648_000 + 7 * 86_400, nanos: 500_000_000 }));
    assert_eq!(Instant { secs: i64::MAX, nanos: 0 }.millis(), None);
    assert_eq!(Instant { secs: i64::MAX, nanos: 0 }.plus_days(1), None);
    assert_eq!(Instant { secs: i64::MAX, nanos: 0 }.to_rfc3339(), None);
    assert_eq!(Instant { secs: -1, nanos: 0 }.millis(), Some(-1000));
    let now = Instant::now();
    assert!(now.secs > 1_600_000_000);
}
