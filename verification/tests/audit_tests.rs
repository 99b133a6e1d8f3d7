use polarway_lakehouse::audit::actor::{
    billing_sql, extract_entry_from_batch, handle_billing_summary, handle_log,
    handle_recent_events, handle_user_activity, log_with, query_entries, ActionCount, AuditRow,
};
use polarway_lakehouse::audit::types::ActionType;
use polarway_lakehouse::clock::Instant;
use polarway_lakehouse::error::LakehouseError;

fn count(action: &str, count: u64) -> ActionCount {
    ActionCount { action: action.to_string(), count }
}

#[test]
fn billing_summary_tallies_by_the_taxonomy() {
    let counts = vec![
        count("query_executed", 5),
        count("login", 7),
        count("backtest_run", 2),
        count("data_upload", 3),
        count("data_export", 4),
        count("live_trade_start", 1),
        count("live_trade_stop", 9),
        count("query_executed", 10),
        count("unheard_of", 100),
    ];
    let summary = handle_billing_summary("user-123", "2025-01-01", "2025-12-31", &counts).unwrap();
    assert_eq!(summary.user_id, "user-123");
    assert_eq!(summary.period_start, "2025-01-01");
    assert_eq!(summary.period_end, "2025-12-31");
    assert_eq!(summary.total_actions, 141);
    assert_eq!(summary.total_queries, 15);
    assert_eq!(summary.total_uploads, 3);
    assert_eq!(summary.total_exports, 4);
    assert_eq!(summary.total_backtests, 2);
    assert_eq!(summary.total_live_trades, 1);
    // What is billed is what the taxonomy calls billable.
    let billable: u64 = counts.iter().filter(|c| ActionType::from_str(&c.action).is_billable()).map(|c| c.count).sum();
    assert_eq!(
        summary.total_queries + summary.total_uploads + summary.total_exports + summary.total_backtests + summary.total_live_trades,
        billable
    );
    let empty = handle_billing_summary("u", "a", "b", &vec![]).unwrap();
    assert_eq!(empty.total_actions, 0);
    let too_many = handle_billing_summary("u", "a", "b", &vec![count("login", u64::MAX), count("logout", 1)]);
    assert!(matches!(too_many, Err(LakehouseError::Internal(_))));
}

#[test]
fn statements_of_the_audit_queries() {
    assert_eq!(
        handle_user_activity("u1", 25),
        "SELECT * FROM t WHERE user_id = 'u1' ORDER BY timestamp DESC LIMIT 25"
    );
    assert_eq!(handle_recent_events(0), "SELECT * FROM t ORDER BY timestamp DESC LIMIT 0");
    assert_eq!(
        billing_sql("u1", "2025-01-01", "2025-01-31"),
        "SELECT action, COUNT(*) as cnt FROM t WHERE user_id = 'u1' AND date_partition >= '2025-01-01' AND date_partition <= '2025-01-31' GROUP BY action"
    );
}

#[test]
fn logged_events_become_rows_and_entries() {
    let row = handle_log(
        "user-123".to_string(),
        "alice".to_string(),
        ActionType::BacktestRun,
        Some("strategy-456".to_string()),
        "Backtest on BTC/USD 1m".to_string(),
        None,
    )
    .unwrap();
    assert_eq!(row.event_id.len(), 36);
    assert_eq!(row.user_id, "user-123");
    assert_eq!(row.action, "backtest_run");
    assert_eq!(row.resource.as_deref(), Some("strategy-456"));
    assert_eq!(row.ip_address, None);
    assert_eq!(row.date_partition.len(), 10);
    assert!(row.timestamp.starts_with(&row.date_partition));
    let other = handle_log("u".to_string(), "n".to_string(), ActionType::Login, None, "d".to_string(), None).unwrap();
    assert_ne!(row.event_id, other.event_id);

    let rows = vec![row.clone(), AuditRow { action: "nonsense".to_string(), ..row.clone() }];
    let entry = extract_entry_from_batch(&rows, 0).unwrap();
    assert_eq!(entry.action, ActionType::BacktestRun);
    assert_eq!(entry.detail, "Backtest on BTC/USD 1m");
    assert_eq!(entry.timestamp, row.timestamp);
    let entries = query_entries(&rows);
    assert_eq!(entries.len(), 2);
    assert_eq!(entries[1].action, ActionType::AdminAction);

    let fixed = log_with(
        "e1".to_string(),
        Instant { secs: 0, nanos: 0 }.to_rfc3339(),
        Instant { secs: 0, nanos: 0 }.date(),
        "u".to_string(),
        "n".to_string(),
        ActionType::DataExport,
        None,
        "d".to_string(),
        Some("10.0.0.1".to_string()),
    )
    .unwrap();
    assert_eq!(fixed.timestamp, "1970-01-01T00:00:00+00:00");
    assert_eq!(fixed.date_partition, "1970-01-01");
    assert_eq!(fixed.action, "data_export");
    assert_eq!(fixed.ip_address.as_deref(), Some("10.0.0.1"));
    let unwritable = log_with("e".to_string(), None, None, "u".to_string(), "n".to_string(), ActionType::Login, None, "d".to_string(), None);
    assert!(matches!(unwritable, Err(LakehouseError::AuditWriteFailed(_))));
}
