use polarway_lakehouse::error::{ErrorKind, LakehouseError, OperationClass};
use polarway_lakehouse::log::entry::{ColumnStats, DataFile, Operation, Parameter, PartitionValue};
use polarway_lakehouse::log::layout::{
    checkpoint_key, commit_key, is_checkpoint_due, log_object_name, newest, parse_log_key,
    read_head, replay_start, write_padded, LogObject, LogObjectKind,
};
use polarway_lakehouse::log::retry::{RetryPolicy, RetryStep};
use polarway_lakehouse::log::table::{all_distinct, contains_file, contains_id, file_ids, TableLog};
use polarway_lakehouse::schema::TableSchema;
use polarway_lakehouse::SubstrateFailure;

fn file(id: &str) -> DataFile {
    DataFile {
        id: id.to_string(),
        path: format!("{id}.dat"),
        partition_values: vec![],
        rows: 1,
        bytes: 10,
        stats: vec![],
    }
}

fn ids(files: &[DataFile]) -> Vec<String> {
    files.iter().map(|f| f.id.clone()).collect()
}

fn new_log() -> TableLog {
    TableLog::create("t", TableSchema { fields: vec![], partition_columns: vec![] }, 100)
}

fn strings(items: &[&str]) -> Vec<String> {
    items.iter().map(|s| s.to_string()).collect()
}

#[test]
fn versions_are_contiguous_from_zero() {
    let mut log = new_log();
    assert_eq!(log.head(), 0);
    assert_eq!(log.name(), "t");
    for expected in 1..=5i64 {
        let v = log
            .commit(log.head(), Operation::Append, vec![], vec![file(&format!("f{expected}"))], vec![], 100 + expected)
            .unwrap();
        assert_eq!(v, expected);
        assert_eq!(log.head(), expected);
        assert_eq!(log.entry(expected).map(|e| e.version), Some(expected));
    }
    assert!(log.entry(6).is_none());
    assert!(log.entry(-1).is_none());
    assert_eq!(log.entry(0).map(|e| e.operation), Some(Operation::Create));
}

#[test]
fn timestamps_never_go_back() {
    let mut log = new_log();
    log.commit(0, Operation::Append, vec![], vec![file("a")], vec![], 50).unwrap();
    log.commit(1, Operation::Append, vec![], vec![file("b")], vec![], 101).unwrap();
    log.commit(2, Operation::Append, vec![], vec![file("c")], vec![], 200).unwrap();
    assert_eq!(log.timestamp_of(0), Some(100));
    assert_eq!(log.timestamp_of(1), Some(101));
    assert_eq!(log.timestamp_of(2), Some(102));
    assert_eq!(log.timestamp_of(3), Some(200));
    assert_eq!(log.timestamp_of(4), None);
    assert_eq!(log.version_at_timestamp(100).ok(), Some(0));
    assert_eq!(log.version_at_timestamp(101).ok(), Some(1));
    assert_eq!(log.version_at_timestamp(150).ok(), Some(2));
    assert_eq!(log.version_at_timestamp(199).ok(), Some(2));
    assert_eq!(log.version_at_timestamp(200).ok(), Some(3));
    assert_eq!(log.version_at_timestamp(i64::MAX).ok(), Some(3));
    match log.version_at_timestamp(99) {
        Err(LakehouseError::VersionNotFound { table, version }) => {
            assert_eq!(table, "t");
            assert_eq!(version, -1);
        }
        other => panic!("{:?}", other),
    }
}

#[test]
fn replay_follows_adds_and_removes() {
    let mut log = new_log();
    log.commit(0, Operation::Append, vec![], vec![file("a"), file("b")], vec![], 101).unwrap();
    log.commit(1, Operation::Delete, vec![], vec![file("a2")], strings(&["a"]), 102).unwrap();
    log.commit(2, Operation::Optimize, vec![], vec![file("ab")], strings(&["b", "a2"]), 103).unwrap();
    log.commit(3, Operation::Append, vec![], vec![file("c")], vec![], 104).unwrap();
    assert_eq!(ids(&log.live_files_at(0).unwrap()), Vec::<String>::new());
    assert_eq!(ids(&log.live_files_at(1).unwrap()), strings(&["a", "b"]));
    assert_eq!(ids(&log.live_files_at(2).unwrap()), strings(&["b", "a2"]));
    assert_eq!(ids(&log.live_files_at(3).unwrap()), strings(&["ab"]));
    assert_eq!(ids(&log.live_files_at(4).unwrap()), strings(&["ab", "c"]));
    assert_eq!(ids(&log.live_files()), strings(&["ab", "c"]));
    assert!(matches!(log.live_files_at(5), Err(LakehouseError::VersionNotFound { version: 5, .. })));
    assert!(matches!(log.live_files_at(-1), Err(LakehouseError::VersionNotFound { version: -1, .. })));
    // Replay equals everything added without everything removed.
    for id in ["a", "b", "a2", "ab", "c", "zz"] {
        assert_eq!(log.is_live(id), log.was_added(id) && !log.was_removed(id));
        assert_eq!(log.is_live(id), ids(&log.live_files()).contains(&id.to_string()));
    }
    assert!(log.was_added("a") && log.was_removed("a"));
    assert!(!log.was_added("zz"));
    // The metadata comes back as it was committed.
    let live = log.live_files();
    assert_eq!(live[0].path, "ab.dat");
    assert_eq!(live[0].bytes, 10);
}

#[test]
fn commits_that_break_the_log_are_refused() {
    let mut log = new_log();
    log.commit(0, Operation::Append, vec![], vec![file("a")], vec![], 101).unwrap();
    let reused = log.commit(1, Operation::Append, vec![], vec![file("a")], vec![], 102);
    assert!(matches!(reused, Err(LakehouseError::Internal(_))));
    let twice = log.commit(1, Operation::Append, vec![], vec![file("x"), file("x")], vec![], 102);
    assert!(matches!(twice, Err(LakehouseError::Internal(_))));
    let dead = log.commit(1, Operation::Delete, vec![], vec![], strings(&["nope"]), 102);
    assert!(matches!(dead, Err(LakehouseError::Internal(_))));
    let removed_twice = log.commit(1, Operation::Delete, vec![], vec![], strings(&["a", "a"]), 102);
    assert!(matches!(removed_twice, Err(LakehouseError::Internal(_))));
    match log.commit(1, Operation::Create, vec![], vec![], vec![], 102) {
        Err(LakehouseError::TableAlreadyExists(name)) => assert_eq!(name, "t"),
        other => panic!("{:?}", other),
    }
    match log.commit(7, Operation::Append, vec![], vec![file("y")], vec![], 102) {
        Err(LakehouseError::VersionNotFound { version, .. }) => assert_eq!(version, 7),
        other => panic!("{:?}", other),
    }
    match log.commit(0, Operation::Append, vec![], vec![file("y")], vec![], 102) {
        Err(e @ LakehouseError::CommitConflict { .. }) => {
            assert_eq!(e.kind(), ErrorKind::CommitConflict);
            assert_eq!(e.message(), "Commit conflict: table=t, version=1");
        }
        other => panic!("{:?}", other),
    }
    // Every refusal left the log as it was.
    assert_eq!(log.head(), 1);
    assert_eq!(ids(&log.live_files()), strings(&["a"]));
    // A removed file's identifier is not free again.
    log.commit(1, Operation::Delete, vec![], vec![], strings(&["a"]), 103).unwrap();
    assert!(matches!(
        log.commit(2, Operation::Append, vec![], vec![file("a")], vec![], 104),
        Err(LakehouseError::Internal(_))
    ));
}

#[test]
fn history_is_newest_first() {
    let mut log = new_log();
    let params = vec![Parameter { key: "note".to_string(), value: "say \"hi\"\n".to_string() }];
    log.commit(0, Operation::Append, params, vec![file("a")], vec![], 101).unwrap();
    log.commit(1, Operation::Vacuum, vec![], vec![], vec![], 102).unwrap();
    let all = log.history(None);
    assert_eq!(all.iter().map(|i| i.version).collect::<Vec<_>>(), vec![2, 1, 0]);
    assert_eq!(all[0].operation.as_deref(), Some("vacuum"));
    assert_eq!(all[0].parameters.as_deref(), Some("{}"));
    assert_eq!(all[1].parameters.as_deref(), Some("{\"note\":\"say \\\"hi\\\"\\n\"}"));
    assert_eq!(all[2].timestamp, Some(100));
    assert_eq!(log.history(Some(2)).iter().map(|i| i.version).collect::<Vec<_>>(), vec![2, 1]);
    assert!(log.history(Some(0)).is_empty());
}

#[test]
fn log_objects_are_named_by_padded_versions() {
    assert_eq!(commit_key(17), "_log/00000000000000000017.json");
    assert_eq!(checkpoint_key(17), "_log/00000000000000000017.checkpoint");
    assert_eq!(commit_key(0), "_log/00000000000000000000.json");
    assert_eq!(commit_key(i64::MAX), "_log/09223372036854775807.json");
    assert_eq!(log_object_name(20, LogObjectKind::Commit), "00000000000000000020.json");
    assert_eq!(write_padded(1234, 6), "001234");
    assert_eq!(write_padded(1234, 2), "34");
    assert_eq!(write_padded(7, 0), "");

    assert_eq!(
        parse_log_key("_log/00000000000000000017.json"),
        Some(LogObject { version: 17, kind: LogObjectKind::Commit })
    );
    assert_eq!(
        parse_log_key("_log/00000000000000000017.checkpoint"),
        Some(LogObject { version: 17, kind: LogObjectKind::Checkpoint })
    );
    assert_eq!(parse_log_key(&commit_key(i64::MAX)).map(|o| o.version), Some(i64::MAX));
    for bad in [
        "",
        "_log/",
        "_log/17.json",
        "00000000000000000017.json",
        "_log/0000000000000000001x.json",
        "_log/00000000000000000017.jsonl",
        "_log/00000000000000000017.JSON",
        "_log/00000000000000000017",
        "_log/09223372036854775808.json",
        "_log/99999999999999999999.json",
        "_log/+0000000000000000017.json",
        "date=2025-01-01/f1.dat",
    ] {
        assert_eq!(parse_log_key(bad), None, "{bad}");
    }
    for v in [0i64, 1, 9, 10, 99, 12345, 1 << 40] {
        assert_eq!(parse_log_key(&commit_key(v)), Some(LogObject { version: v, kind: LogObjectKind::Commit }));
    }
}

#[test]
fn the_head_is_read_from_a_listing() {
    let listing = strings(&[
        "_log/00000000000000000002.json",
        "_log/00000000000000000000.json",
        "_log/00000000000000000010.checkpoint",
        "_log/junk",
        "_log/00000000000000000003.json",
        "_log/00000000000000000001.json",
        "_log/00000000000000000002.checkpoint",
    ]);
    assert_eq!(read_head(&listing), Some(3));
    assert_eq!(read_head(&vec![]), None);
    assert_eq!(read_head(&strings(&["_log/00000000000000000002.checkpoint"])), None);
    assert_eq!(newest(&listing, LogObjectKind::Checkpoint, 3), Some(2));
    assert_eq!(newest(&listing, LogObjectKind::Checkpoint, 100), Some(10));
    assert_eq!(newest(&listing, LogObjectKind::Checkpoint, 1), None);
    assert_eq!(newest(&listing, LogObjectKind::Commit, 2), Some(2));
    // Readers start after the newest checkpoint at or below the head.
    assert_eq!(replay_start(&listing, 3), 3);
    assert_eq!(replay_start(&listing, 1), 0);
    assert_eq!(replay_start(&listing, 50), 11);
    assert!(!is_checkpoint_due(0, 10));
    assert!(is_checkpoint_due(10, 10));
    assert!(is_checkpoint_due(20, 10));
    assert!(!is_checkpoint_due(15, 10));
    assert!(!is_checkpoint_due(15, 0));
    assert!(is_checkpoint_due(3, 1));
}

#[test]
fn retries_are_bounded_and_back_off() {
    let policy = RetryPolicy::new();
    assert_eq!(policy.max_retries, 5);
    assert_eq!(policy.initial_delay_ms, 10);
    assert_eq!((0..6).map(|k| policy.delay_ms(k)).collect::<Vec<_>>(), vec![10, 20, 40, 80, 160, 320]);
    assert_eq!(policy.delay_ms(200), u64::MAX);
    assert_eq!(RetryPolicy { max_retries: 1, initial_delay_ms: 0 }.delay_ms(9), 0);
    assert_eq!(policy.jittered_delay_ms(2, 0), 40);
    assert_eq!(policy.jittered_delay_ms(2, 40), 80);
    assert_eq!(policy.jittered_delay_ms(2, 41), 40);
    assert_eq!(policy.jittered_delay_ms(2, 100), 40 + 100 % 41);
    assert_eq!(policy.jittered_delay_ms(200, 5), u64::MAX);

    let conflict = || Err(LakehouseError::CommitConflict { table: "t".to_string(), version: 4 });
    for done in 0..5 {
        match policy.next_step(OperationClass::Write, done, conflict()) {
            RetryStep::Retry { attempt, delay_ms } => {
                assert_eq!(attempt, done + 1);
                assert_eq!(delay_ms, 10 << done);
            }
            other => panic!("{:?}", other),
        }
    }
    assert!(matches!(
        policy.next_step(OperationClass::Write, 5, conflict()),
        RetryStep::Fail(LakehouseError::CommitConflict { .. })
    ));
    assert!(matches!(policy.next_step(OperationClass::Read, 0, conflict()), RetryStep::Fail(_)));
    assert!(matches!(policy.next_step(OperationClass::Write, 0, Ok(9)), RetryStep::Done(9)));
    let transient = || Err(LakehouseError::SubstrateRetryable("timeout".to_string()));
    assert!(matches!(policy.next_step(OperationClass::Read, 0, transient()), RetryStep::Retry { .. }));
    assert!(matches!(policy.next_step(OperationClass::Write, 4, transient()), RetryStep::Retry { .. }));
    let terminal = Err(LakehouseError::SubstrateTerminal("quota".to_string()));
    assert!(matches!(policy.next_step(OperationClass::Write, 0, terminal), RetryStep::Fail(_)));
    assert!(ErrorKind::CommitConflict.is_retryable(OperationClass::Write));
    assert!(!ErrorKind::CommitConflict.is_retryable(OperationClass::Read));
    assert!(!ErrorKind::NotFound.is_retryable(OperationClass::Write));
}

#[test]
fn identifier_helpers() {
    let names = strings(&["a", "b", "a"]);
    assert!(contains_id(&names, "b"));
    assert!(!contains_id(&names, "c"));
    assert!(!all_distinct(&names));
    assert!(all_distinct(&strings(&["a", "b", "c"])));
    assert!(all_distinct(&vec![]));
    let files = vec![file("x"), file("y")];
    assert!(contains_file(&files, "y"));
    assert!(!contains_file(&files, "x.dat"));
    assert_eq!(file_ids(&files), strings(&["x", "y"]));
    let source = DataFile {
        partition_values: vec![PartitionValue { column: "d".to_string(), value: "1".to_string() }],
        stats: vec![ColumnStats { column: "id".to_string(), min: "a".to_string(), max: "z".to_string() }],
        ..file("x")
    };
    let copy = source.copy();
    assert_eq!(copy.id, "x");
    assert_eq!(copy.partition_values[0].value, "1");
    assert_eq!(copy.stats[0].max, "z");
    assert_eq!(Operation::Optimize.as_str(), "optimize");
}

#[test]
fn substrate_failures_are_retryable_or_terminal() {
    for failure in [SubstrateFailure::Timeout, SubstrateFailure::Transport] {
        assert!(failure.is_transient());
        let error = failure.into_error("slow".to_string());
        assert_eq!(error.kind(), ErrorKind::SubstrateRetryable);
        assert_eq!(error.message(), "Storage error (retryable): slow");
        assert!(error.kind().is_retryable(OperationClass::Read));
    }
    for failure in [SubstrateFailure::Permission, SubstrateFailure::Quota, SubstrateFailure::Other] {
        assert!(!failure.is_transient());
        let error = failure.into_error("denied".to_string());
        assert_eq!(error.kind(), ErrorKind::SubstrateTerminal);
        assert!(!error.kind().is_retryable(OperationClass::Write));
    }
}
