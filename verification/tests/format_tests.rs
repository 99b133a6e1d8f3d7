use polarway_lakehouse::json::{entry_to_json, file_to_json, schema_to_json};
use polarway_lakehouse::log::entry::{ColumnStats, DataFile, Operation, Parameter, PartitionValue};
use polarway_lakehouse::log::table::TableLog;
use polarway_lakehouse::schema::{PrimitiveType, StructField, TableSchema};
use polarway_lakehouse::storage::{CacheBackend, DuckDBBackend, ParquetBackend, RecordBatch};

fn file(id: &str) -> DataFile {
    DataFile { id: id.to_string(), path: format!("{id}.dat"), partition_values: vec![], rows: 2, bytes: 64, stats: vec![] }
}

fn schema() -> TableSchema {
    TableSchema {
        fields: vec![
            StructField { name: "id".to_string(), data_type: PrimitiveType::String, nullable: false },
            StructField { name: "n".to_string(), data_type: PrimitiveType::Long, nullable: true },
        ],
        partition_columns: vec!["date".to_string()],
    }
}

#[test]
fn commit_entries_are_one_line_of_json() {
    let mut log = TableLog::create("t", schema(), 1_000);
    let full = DataFile {
        id: "f-1".to_string(),
        path: "date=2025-01-01/f-1.dat".to_string(),
        partition_values: vec![PartitionValue { column: "date".to_string(), value: "2025-01-01".to_string() }],
        rows: 3,
        bytes: 128,
        stats: vec![
            ColumnStats { column: "id".to_string(), min: "a".to_string(), max: "z\"".to_string() },
            ColumnStats { column: "n".to_string(), min: "1".to_string(), max: "9".to_string() },
        ],
    };
    assert_eq!(
        file_to_json(&full),
        "{\"id\":\"f-1\",\"path\":\"date=2025-01-01/f-1.dat\",\"partition_values\":{\"date\":\"2025-01-01\"},\"rows\":3,\"bytes\":128,\"stats\":{\"id\":{\"min\":\"a\",\"max\":\"z\\\"\"},\"n\":{\"min\":\"1\",\"max\":\"9\"}}}"
    );
    assert_eq!(
        schema_to_json(&schema()),
        "{\"fields\":[{\"name\":\"id\",\"type\":\"string\",\"nullable\":false},{\"name\":\"n\",\"type\":\"long\",\"nullable\":true}],\"partition_columns\":[\"date\"]}"
    );
    assert_eq!(
        entry_to_json(log.entry(0).unwrap()),
        "{\"version\":0,\"timestamp_ms\":1000,\"operation\":\"create\",\"parameters\":{},\"adds\":[],\"removes\":[],\"schema\":{\"fields\":[{\"name\":\"id\",\"type\":\"string\",\"nullable\":false},{\"name\":\"n\",\"type\":\"long\",\"nullable\":true}],\"partition_columns\":[\"date\"]}}"
    );
    log.commit(0, Operation::Append, vec![], vec![file("a"), file("b")], vec![], 2_000).unwrap();
    let params = vec![Parameter { key: "predicate".to_string(), value: "id = 'x'".to_string() }];
    log.commit(1, Operation::Delete, params, vec![file("c")], vec!["a".to_string(), "b".to_string()], 3_000).unwrap();
    assert_eq!(
        entry_to_json(log.entry(2).unwrap()),
        "{\"version\":2,\"timestamp_ms\":3000,\"operation\":\"delete\",\"parameters\":{\"predicate\":\"id = 'x'\"},\"adds\":[{\"id\":\"c\",\"path\":\"c.dat\",\"partition_values\":{},\"rows\":2,\"bytes\":64,\"stats\":{}}],\"removes\":[\"a\",\"b\"]}"
    );
    assert!(!entry_to_json(log.entry(1).unwrap()).contains('\n'));
}

#[test]
fn checkpoints_shorten_the_replay() {
    let mut log = TableLog::create("t", schema(), 1_000);
    for (i, id) in ["a", "b", "c", "d", "e"].iter().enumerate() {
        let removes = if i == 3 { vec!["a".to_string()] } else { vec![] };
        log.commit(i as i64, Operation::Append, vec![], vec![file(id)], removes, 2_000 + i as i64).unwrap();
    }
    let checkpoint = log.checkpoint(2).unwrap();
    assert_eq!(checkpoint.version, 2);
    assert_eq!(checkpoint.files.iter().map(|f| f.id.as_str()).collect::<Vec<_>>(), vec!["a", "b"]);
    for version in 2..=5 {
        let resumed: Vec<String> = log.live_files_since(&checkpoint, version).unwrap().iter().map(|f| f.id.clone()).collect();
        let replayed: Vec<String> = log.live_files_at(version).unwrap().iter().map(|f| f.id.clone()).collect();
        assert_eq!(resumed, replayed);
    }
    assert!(log.live_files_since(&checkpoint, 1).is_err());
    assert!(log.live_files_since(&checkpoint, 6).is_err());
    assert!(log.checkpoint(6).is_err());
    assert!(log.checkpoint(-1).is_err());

    // Commits before the checkpoint and before the horizon may be truncated.
    assert_eq!(log.plan_log_truncation(2_002, Some(4)), vec![0, 1, 2]);
    assert_eq!(log.plan_log_truncation(9_999, Some(4)), vec![0, 1, 2, 3]);
    assert_eq!(log.plan_log_truncation(9_999, Some(100)), vec![0, 1, 2, 3, 4, 5]);
    assert_eq!(log.plan_log_truncation(1_000, Some(4)), Vec::<i64>::new());
    assert_eq!(log.plan_log_truncation(9_999, None), Vec::<i64>::new());
    assert_eq!(log.plan_log_truncation(9_999, Some(0)), Vec::<i64>::new());
    assert!(log.is_referenced_since("a", 2_003));
    assert!(!log.is_referenced_since("a", 2_004));
    assert!(log.is_retained("b", 9_999));
    assert!(!log.is_retained("a", 9_999));
    assert!(log.retains_path("e.dat", 9_999));
    assert!(!log.retains_path("a.dat", 9_999));
    assert!(!log.retains_path("e", 0));
}

#[test]
fn storage_backends() {
    let parquet = ParquetBackend::new("/data/cold").unwrap();
    assert_eq!(parquet.key_to_path("prices"), "/data/cold/prices.parquet");
    assert_eq!(parquet.key_to_path("a/b\\c:d"), "/data/cold/a_b_c_d.parquet");
    assert_eq!(parquet.key_to_path(""), "/data/cold/.parquet");
    let duck = DuckDBBackend::new("/data/cold").unwrap();
    assert_eq!(
        duck.execute_sql("SELECT 1").err().as_deref(),
        Some("DuckDB backend requires duckdb-rs crate. Query: SELECT 1 Parquet path: \"/data/cold\"")
    );
}

fn batch(rows: usize) -> RecordBatch {
    RecordBatch { schema: vec![], num_rows: rows, memory_bytes: rows * 8 }
}

#[test]
fn the_cache_evicts_the_least_recently_used() {
    let mut cache = CacheBackend::new(0);
    assert_eq!(cache.stats().total_keys, 0);
    cache.store("a", batch(1));
    cache.store("b", batch(2));
    cache.store("c", batch(3));
    assert_eq!(cache.list_keys(), vec!["c", "b", "a"]);
    assert_eq!(cache.load("a").map(|b| b.num_rows), Some(1));
    assert_eq!(cache.list_keys(), vec!["a", "c", "b"]);
    assert!(cache.load("zz").is_none());
    cache.store("b", batch(20));
    assert_eq!(cache.list_keys(), vec!["b", "a", "c"]);
    assert_eq!(cache.load("b").map(|b| b.num_rows), Some(20));
    cache.delete("a");
    cache.delete("nope");
    assert_eq!(cache.list_keys(), vec!["b", "c"]);
    let stats = cache.stats();
    assert_eq!(stats.total_keys, 2);
    assert_eq!(stats.total_size_bytes, 160 + 24);
    assert_eq!(stats.cache_hits, 2);
    assert_eq!(stats.cache_misses, 1);
    assert_eq!(cache.query("SELECT 1").err().as_deref(), Some("Cache backend doesn't support SQL queries."));

    // A cache for one gigabyte holds a hundred batches.
    let mut small = CacheBackend::new(1);
    for i in 0..101 {
        small.store(&format!("k{i}"), batch(i));
    }
    let keys = small.list_keys();
    assert_eq!(keys.len(), 100);
    assert_eq!(keys[0], "k100");
    assert_eq!(keys[99], "k1");
    assert!(small.load("k0").is_none());
    assert!(small.load("k1").is_some());
    small.store("fresh", batch(1));
    assert!(small.load("k2").is_none());
    assert!(small.load("k1").is_some());
    let huge = CacheBackend::new(usize::MAX);
    assert_eq!(huge.stats().total_keys, 0);
}
