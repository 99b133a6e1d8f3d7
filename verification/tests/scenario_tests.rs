use std::collections::HashMap;

use polarway_lakehouse::error::{ErrorKind, LakehouseError, OperationClass};
use polarway_lakehouse::log::entry::{DataFile, Operation, PartitionValue};
use polarway_lakehouse::log::retry::{RetryPolicy, RetryStep};
use polarway_lakehouse::log::table::TableLog;
use polarway_lakehouse::schema::{delta_fields_of, DataType, Field, TableSchema};
use polarway_lakehouse::store::delete::{decide, FileAction, FileSplit};
use polarway_lakehouse::store::partition::{data_file_path, group_by_key, partition_path};
use polarway_lakehouse::store::DeltaStore;
use polarway_lakehouse::LakehouseConfig;

type Row = Vec<(String, String)>;

fn row(cells: &[(&str, &str)]) -> Row {
    cells.iter().map(|(k, v)| (k.to_string(), v.to_string())).collect()
}

fn cell<'a>(r: &'a Row, column: &str) -> &'a str {
    r.iter().find(|(k, _)| k == column).map(|(_, v)| v.as_str()).unwrap_or("")
}

/// The object substrate of the scenarios: the rows of each data file by key.
struct Substrate {
    objects: HashMap<String, Vec<Row>>,
    next_id: u32,
}

impl Substrate {
    fn new() -> Self {
        Substrate { objects: HashMap::new(), next_id: 0 }
    }

    fn write(&mut self, partition: Vec<PartitionValue>, rows: Vec<Row>) -> DataFile {
        self.next_id += 1;
        let id = format!("file-{}", self.next_id);
        let path = data_file_path(&partition, &id);
        let file = DataFile {
            id,
            path: path.clone(),
            partition_values: partition,
            rows: rows.len() as u64,
            bytes: 100 * rows.len() as u64,
            stats: vec![],
        };
        self.objects.insert(path, rows);
        file
    }

    fn read(&self, files: &[DataFile]) -> Vec<Row> {
        let mut out = Vec::new();
        for f in files {
            out.extend(self.objects[&f.path].iter().cloned());
        }
        out
    }

    fn listing(&self) -> Vec<String> {
        let mut keys: Vec<String> = self.objects.keys().cloned().collect();
        keys.sort();
        keys
    }
}

fn id_name_schema() -> Vec<Field> {
    vec![Field::new("id", DataType::Utf8, false), Field::new("name", DataType::Utf8, false)]
}

fn store_with_users() -> DeltaStore {
    let mut store = DeltaStore::empty(LakehouseConfig::new("/lake"));
    let version = store.create("users", delta_fields_of(&id_name_schema()), vec![], 1_000).unwrap();
    assert_eq!(version, 0);
    store
}

fn delete_where(
    store: &mut DeltaStore,
    substrate: &mut Substrate,
    table: &str,
    predicate: &str,
    matches: &dyn Fn(&Row) -> bool,
    now_ms: i64,
) -> usize {
    let live = store.scan(table).unwrap().files;
    let mut splits = Vec::new();
    for f in &live {
        let rows = substrate.objects[&f.path].clone();
        let kept: Vec<Row> = rows.iter().filter(|r| !matches(r)).cloned().collect();
        let removed = rows.len() - kept.len();
        let rewritten = match decide(kept.len() as u64, removed as u64) {
            FileAction::Rewrite => Some(substrate.write(f.partition_values.clone(), kept.clone())),
            _ => None,
        };
        splits.push(FileSplit {
            file_id: f.id.clone(),
            kept_rows: kept.len() as u64,
            removed_rows: removed as u64,
            rewritten,
        });
    }
    store.delete(table, predicate, &splits, now_ms).unwrap().num_deleted_rows
}

#[test]
fn scenario_empty_append_scan() {
    let mut store = store_with_users();
    let mut substrate = Substrate::new();
    let file = substrate.write(vec![], vec![row(&[("id", "u1"), ("name", "Alice")])]);
    let version = store.append("users", &id_name_schema(), vec![file], 2_000).unwrap();
    assert_eq!(version, 1);
    assert_eq!(store.version("users").unwrap(), 1);
    let plan = store.scan("users").unwrap();
    assert_eq!(plan.sql, "SELECT * FROM t");
    assert_eq!(substrate.read(&plan.files), vec![row(&[("id", "u1"), ("name", "Alice")])]);
}

#[test]
fn scenario_predicate_delete_and_time_travel() {
    let mut store = store_with_users();
    let mut substrate = Substrate::new();
    let alice = row(&[("id", "u1"), ("name", "Alice")]);
    let bob = row(&[("id", "u2"), ("name", "Bob")]);
    let file = substrate.write(vec![], vec![alice.clone(), bob.clone()]);
    assert_eq!(store.append("users", &id_name_schema(), vec![file], 2_000).unwrap(), 1);
    let deleted = delete_where(
        &mut store,
        &mut substrate,
        "users",
        "id = 'u1'",
        &|r| cell(r, "id") == "u1",
        3_000,
    );
    assert_eq!(deleted, 1);
    assert_eq!(substrate.read(&store.scan("users").unwrap().files), vec![bob.clone()]);

    let history = store.history("users", None).unwrap();
    assert_eq!(history.len(), 3);
    assert_eq!(history[2].version, 0);
    assert_eq!(history[2].operation.as_deref(), Some("create"));
    assert_eq!(history[2].timestamp, Some(1_000));
    assert_eq!(history[1].version, 1);
    assert_eq!(history[1].operation.as_deref(), Some("append"));
    assert_eq!(
        history[1].parameters.as_deref(),
        Some("{\"num_added_files\":\"1\",\"num_added_rows\":\"2\"}")
    );
    assert_eq!(history[0].version, 2);
    assert_eq!(history[0].operation.as_deref(), Some("delete"));
    assert_eq!(
        history[0].parameters.as_deref(),
        Some("{\"predicate\":\"id = 'u1'\",\"num_deleted_rows\":\"1\"}")
    );
    assert_eq!(store.history("users", Some(1)).unwrap().len(), 1);
    assert_eq!(store.history("users", Some(10)).unwrap().len(), 3);

    // Time travel: version 1 holds both rows, version 0 none.
    let at_one = store.read_version("users", 1).unwrap();
    assert_eq!(substrate.read(&at_one.files), vec![alice, bob.clone()]);
    let at_zero = store.read_version("users", 0).unwrap();
    assert!(substrate.read(&at_zero.files).is_empty());
    // Reading a version again gives the same rows.
    assert_eq!(
        substrate.read(&store.read_version("users", 2).unwrap().files),
        substrate.read(&store.read_version("users", 2).unwrap().files)
    );
    for bad in [-1, 3, 99] {
        match store.read_version("users", bad) {
            Err(LakehouseError::VersionNotFound { table, version }) => {
                assert_eq!(table, "users");
                assert_eq!(version, bad);
            }
            other => panic!("expected VersionNotFound, got {:?}", other.map(|p| p.sql)),
        }
    }
    // By time: at 2500 the table stood at version 1, before 1000 it did not exist.
    assert_eq!(store.read_at("users", 2_500).unwrap().files.len(), 1);
    assert_eq!(substrate.read(&store.read_at("users", 2_500).unwrap().files).len(), 2);
    assert_eq!(substrate.read(&store.read_at("users", 3_000).unwrap().files), vec![bob]);
    assert!(store.read_at("users", 1_000).unwrap().files.is_empty());
    assert!(matches!(store.read_at("users", 999), Err(LakehouseError::VersionNotFound { .. })));
}

#[test]
fn scenario_conflict_retry() {
    let schema = TableSchema { fields: delta_fields_of(&id_name_schema()), partition_columns: vec![] };
    let mut log = TableLog::create("sessions", schema, 1_000);
    let mut substrate = Substrate::new();
    let policy = RetryPolicy::new();
    let base = log.head();
    let first = substrate.write(vec![], vec![row(&[("id", "s1"), ("name", "a")])]);
    let second = substrate.write(vec![], vec![row(&[("id", "s2"), ("name", "b")])]);

    // Both writers start from the same head.
    let won = log.commit(base, Operation::Append, vec![], vec![first], vec![], 2_000);
    assert_eq!(won.as_ref().ok(), Some(&(base + 1)));
    let lost = log.commit(base, Operation::Append, vec![], vec![second.clone()], vec![], 2_000);
    match &lost {
        Err(LakehouseError::CommitConflict { table, version }) => {
            assert_eq!(table, "sessions");
            assert_eq!(*version, base + 1);
        }
        other => panic!("expected a conflict, got {:?}", other),
    }
    assert_eq!(log.head(), base + 1);
    // The loser retries on the new head and succeeds with a greater version.
    match policy.next_step(OperationClass::Write, 0, lost) {
        RetryStep::Retry { attempt, delay_ms } => {
            assert_eq!(attempt, 1);
            assert_eq!(delay_ms, 10);
        }
        other => panic!("expected a retry, got {:?}", other),
    }
    let retried = log.commit(log.head(), Operation::Append, vec![], vec![second], vec![], 2_000);
    assert_eq!(retried.ok(), Some(base + 2));
    let live = log.live_files();
    assert_eq!(substrate.read(&live).len(), 2);
    // The clock stood still, so the second commit was stamped one millisecond later.
    assert_eq!(log.timestamp_of(base + 1), Some(2_000));
    assert_eq!(log.timestamp_of(base + 2), Some(2_001));
}

#[test]
fn scenario_vacuum_with_retention() {
    let mut store = store_with_users();
    let mut substrate = Substrate::new();
    let hour = 3_600_000i64;
    let keep = substrate.write(vec![], vec![row(&[("id", "u2"), ("name", "Bob")])]);
    let doomed = substrate.write(vec![], vec![row(&[("id", "u1"), ("name", "Alice")])]);
    let (keep_path, doomed_path) = (keep.path.clone(), doomed.path.clone());
    store.append("users", &id_name_schema(), vec![keep, doomed], 2_000).unwrap();
    delete_where(&mut store, &mut substrate, "users", "id = 'u1'", &|r| cell(r, "id") == "u1", 3_000);
    substrate.objects.insert("orphan.dat".to_string(), vec![]);
    let mut listing = substrate.listing();
    listing.push("_log/00000000000000000001.json".to_string());

    // Within the retention period the removed file can still be read.
    let retention = 2;
    let early = store.vacuum("users", &listing, 3_000 + retention as i64 * hour, retention, false).unwrap();
    assert_eq!(early.keys, vec!["orphan.dat".to_string()]);

    // One millisecond past it, the removed file goes; the live file stays.
    let late = store.vacuum("users", &listing, 3_000 + retention as i64 * hour + 1, retention, false).unwrap();
    assert!(late.keys.contains(&doomed_path));
    assert!(late.keys.contains(&"orphan.dat".to_string()));
    assert!(!late.keys.contains(&keep_path));
    assert!(!late.keys.iter().any(|k| k.starts_with("_log/")));
    assert_eq!(late.metrics.files_deleted, 2);
    assert!(!late.metrics.dry_run);
    let dry = store.vacuum("users", &listing, 3_000 + retention as i64 * hour + 1, retention, true).unwrap();
    assert!(dry.metrics.dry_run);
    assert_eq!(dry.keys, late.keys);

    // Zero retention is refused while retention is enforced.
    let refused = store.vacuum("users", &listing, 10_000, 0, false);
    assert!(matches!(refused, Err(LakehouseError::Config(_))));
    assert_eq!(refused.err().map(|e| e.kind()), Some(ErrorKind::Internal));
    let now = store.vacuum_now("users", &listing, 10_000).unwrap();
    assert!(now.keys.contains(&doomed_path));
    assert!(!now.keys.contains(&keep_path));
}

#[test]
fn scenario_partitioned_append() {
    let schema = vec![
        Field::new("event_id", DataType::Utf8, false),
        Field::new("date_partition", DataType::Utf8, false),
    ];
    let mut store = DeltaStore::empty(LakehouseConfig::new("/lake"));
    store.create("audit_log", delta_fields_of(&schema), vec!["date_partition".to_string()], 1_000).unwrap();
    let mut substrate = Substrate::new();
    let rows = vec![
        row(&[("event_id", "e1"), ("date_partition", "2025-01-01")]),
        row(&[("event_id", "e2"), ("date_partition", "2025-01-02")]),
        row(&[("event_id", "e3"), ("date_partition", "2025-01-01")]),
    ];
    let partitions: Vec<Vec<PartitionValue>> = rows
        .iter()
        .map(|r| {
            vec![PartitionValue {
                column: "date_partition".to_string(),
                value: cell(r, "date_partition").to_string(),
            }]
        })
        .collect();
    let keys: Vec<String> = partitions.iter().map(|p| partition_path(p)).collect();
    let groups = group_by_key(&keys);
    assert_eq!(groups.len(), 2);
    assert_eq!(groups[0].key, "date_partition=2025-01-01/");
    assert_eq!(groups[0].members, vec![0, 2]);
    assert_eq!(groups[1].key, "date_partition=2025-01-02/");
    assert_eq!(groups[1].members, vec![1]);
    let mut files = Vec::new();
    for g in &groups {
        let part = partitions[g.members[0]].clone();
        let part_rows: Vec<Row> = g.members.iter().map(|&i| rows[i].clone()).collect();
        files.push(substrate.write(part, part_rows));
    }
    assert_eq!(store.append("audit_log", &schema, files, 2_000).unwrap(), 1);

    // Two directory prefixes, each with one file.
    let listing = substrate.listing();
    assert_eq!(listing.len(), 2);
    assert!(listing[0].starts_with("date_partition=2025-01-01/") && listing[0].ends_with(".dat"));
    assert!(listing[1].starts_with("date_partition=2025-01-02/") && listing[1].ends_with(".dat"));

    let plan = store.query("audit_log", "date_partition = '2025-01-01'").unwrap();
    assert_eq!(plan.sql, "SELECT * FROM t WHERE date_partition = '2025-01-01'");
    let matching: Vec<Row> = substrate
        .read(&plan.files)
        .into_iter()
        .filter(|r| cell(r, "date_partition") == "2025-01-01")
        .collect();
    assert_eq!(matching, vec![rows[0].clone(), rows[2].clone()]);
}
