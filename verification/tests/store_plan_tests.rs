use polarway_lakehouse::error::{ErrorKind, LakehouseError};
use polarway_lakehouse::json::{parameters_to_json, to_json_string};
use polarway_lakehouse::log::entry::{ColumnStats, DataFile, Parameter, PartitionValue};
use polarway_lakehouse::schema::{
    all_tables, audit_log_partition_columns, delta_fields_of, describe_schema, schema_matches,
    sessions_arrow_schema, sessions_partition_columns, user_actions_arrow_schema,
    user_actions_delta_fields, user_actions_partition_columns, users_arrow_schema,
    users_delta_fields, users_partition_columns, DataType, Field, PrimitiveType, TABLE_AUDIT_LOG,
    TABLE_SESSIONS, TABLE_USERS, TABLE_USER_ACTIONS,
};
use polarway_lakehouse::store::cluster::{comes_before, interleave};
use polarway_lakehouse::store::compact::{plan_compaction, small_files};
use polarway_lakehouse::store::delete::{
    assemble_delete, bytes_le, decide, may_match_equal, FileAction, FileSplit,
};
use polarway_lakehouse::store::partition::{
    data_file_path, distinct_keys, files_needed, group_by_key, partition_path, positions_of,
    same_strings,
};
use polarway_lakehouse::store::{count_rows, purge_counts, DeleteMetrics, DeltaStore, PurgeStep};
use polarway_lakehouse::text::{
    concat2, concat3, contains_char, i64_to_decimal, join, u64_to_decimal,
};
use polarway_lakehouse::LakehouseConfig;

fn strings(items: &[&str]) -> Vec<String> {
    items.iter().map(|s| s.to_string()).collect()
}

/// A store with the table `events`, partitioned by `date`.
fn store_with_events(now_ms: i64) -> DeltaStore {
    let mut store = DeltaStore::new(LakehouseConfig::new("/tmp/lake"), now_ms);
    store.create("events", delta_fields_of(&sessions_arrow_schema()), strings(&["date"]), now_ms).unwrap();
    store
}

fn file(id: &str, partition: &str, bytes: u64) -> DataFile {
    DataFile {
        id: id.to_string(),
        path: format!("date={partition}/{id}.dat"),
        partition_values: vec![PartitionValue { column: "date".to_string(), value: partition.to_string() }],
        rows: bytes / 10,
        bytes,
        stats: vec![],
    }
}

#[test]
fn store_init_creates_tables() {
    let store = DeltaStore::new(LakehouseConfig::new("/tmp/lake"), 1_000);
    for table in [TABLE_USERS, TABLE_SESSIONS, TABLE_AUDIT_LOG, TABLE_USER_ACTIONS] {
        assert_eq!(store.version(table).unwrap(), 0);
        assert!(store.scan(table).unwrap().files.is_empty());
    }
    assert_eq!(store.config().vacuum_retention_hours, 168);
    match store.version("nope") {
        Err(e @ LakehouseError::TableNotFound(_)) => {
            assert_eq!(e.kind(), ErrorKind::NotFound);
            assert_eq!(e.message(), "Table not found: nope");
        }
        other => panic!("{:?}", other),
    }
    assert!(store.table("users").is_ok());
}

#[test]
fn tables_are_created_once() {
    let mut store = DeltaStore::new(LakehouseConfig::new("/tmp/lake"), 1_000);
    match store.create("users", vec![], vec![], 2_000) {
        Err(LakehouseError::TableAlreadyExists(name)) => assert_eq!(name, "users"),
        other => panic!("{:?}", other),
    }
    store.ensure_table("users", vec![], vec![], 2_000);
    store.ensure_table("extra", vec![], vec![], 2_000);
    store.ensure_table("extra", vec![], vec![], 3_000);
    assert_eq!(store.version("extra").unwrap(), 0);
    assert_eq!(store.history("extra", None).unwrap()[0].timestamp, Some(2_000));
}

#[test]
fn appends_must_match_the_schema() {
    let mut store = store_with_events(1_000);
    let wrong = vec![Field::new("id", DataType::Utf8, false)];
    match store.append("events", &wrong, vec![file("f1", "d", 100)], 2_000) {
        Err(e @ LakehouseError::SchemaMismatch { .. }) => {
            assert_eq!(e.kind(), ErrorKind::SchemaMismatch);
            assert_eq!(
                e.message(),
                "Schema mismatch: expected token_hash:string,user_id:string,username:string,role:string,created_at:string,expires_at:string,is_revoked:boolean, got id:string"
            );
        }
        other => panic!("{:?}", other),
    }
    let mut nullable = sessions_arrow_schema();
    nullable[0].nullable = true;
    assert!(matches!(
        store.append("events", &nullable, vec![file("f1", "d", 100)], 2_000),
        Err(LakehouseError::SchemaMismatch { .. })
    ));
    assert_eq!(store.version("events").unwrap(), 0);
    assert_eq!(store.append("events", &sessions_arrow_schema(), vec![file("f1", "d", 100)], 2_000).unwrap(), 1);
    assert!(matches!(
        store.append("nope", &wrong, vec![], 2_000),
        Err(LakehouseError::TableNotFound(_))
    ));
    // The other tables are untouched.
    assert_eq!(store.version("users").unwrap(), 0);
    // A file must carry a value of each partition column of the table, and of no other.
    let mut unpartitioned = file("f2", "d", 100);
    unpartitioned.partition_values.clear();
    match store.append("events", &sessions_arrow_schema(), vec![unpartitioned], 3_000) {
        Err(LakehouseError::SchemaMismatch { expected, .. }) => assert_eq!(expected, "date"),
        other => panic!("{:?}", other),
    }
    assert!(matches!(
        store.append("sessions", &sessions_arrow_schema(), vec![file("f3", "d", 100)], 3_000),
        Err(LakehouseError::SchemaMismatch { .. })
    ));
    assert_eq!(store.version("events").unwrap(), 1);
}

#[test]
fn deletes_need_a_predicate_and_consistent_splits() {
    let mut store = store_with_events(1_000);
    store.append("events", &sessions_arrow_schema(), vec![file("f1", "d", 100), file("f2", "d", 50)], 2_000).unwrap();
    let split = |id: &str, kept, removed, rewritten| FileSplit { file_id: id.to_string(), kept_rows: kept, removed_rows: removed, rewritten };
    assert!(matches!(
        store.delete("events", "", &vec![], 3_000),
        Err(LakehouseError::InvalidPredicate(_))
    ));
    // A rewrite without the rewritten file.
    assert!(matches!(
        store.delete("events", "x = 1", &vec![split("f1", 5, 5, None)], 3_000),
        Err(LakehouseError::Internal(_))
    ));
    // A dropped file with a replacement.
    assert!(matches!(
        store.delete("events", "x = 1", &vec![split("f1", 0, 10, Some(file("n", "d", 10)))], 3_000),
        Err(LakehouseError::Internal(_))
    ));
    assert_eq!(store.version("events").unwrap(), 1);
    let mut kept = file("f1b", "d", 40);
    kept.rows = 4;
    let metrics = store
        .delete("events", "x = 1", &vec![split("f1", 4, 6, Some(kept)), split("f2", 0, 5, None)], 3_000)
        .unwrap();
    assert_eq!(metrics.num_deleted_rows, 11);
    assert_eq!(metrics.new_version, 2);
    let live: Vec<String> = store.scan("events").unwrap().files.iter().map(|f| f.id.clone()).collect();
    assert_eq!(live, strings(&["f1b"]));
    // A delete that matches nothing still commits.
    let nothing = store.delete("events", "x = 2", &vec![split("f1b", 4, 0, None)], 4_000).unwrap();
    assert_eq!(nothing.num_deleted_rows, 0);
    assert_eq!(nothing.new_version, 3);
}

#[test]
fn split_decisions() {
    assert_eq!(decide(5, 0), FileAction::Untouched);
    assert_eq!(decide(0, 0), FileAction::Untouched);
    assert_eq!(decide(0, 5), FileAction::Drop);
    assert_eq!(decide(3, 5), FileAction::Rewrite);
    let mut rewritten = file("n", "d", 30);
    rewritten.rows = 3;
    let plan = assemble_delete(&vec![
        FileSplit { file_id: "a".to_string(), kept_rows: 9, removed_rows: 0, rewritten: None },
        FileSplit { file_id: "b".to_string(), kept_rows: 0, removed_rows: 4, rewritten: None },
        FileSplit { file_id: "c".to_string(), kept_rows: 3, removed_rows: 2, rewritten: Some(rewritten) },
    ])
    .unwrap();
    assert_eq!(plan.removes, strings(&["b", "c"]));
    assert_eq!(plan.adds.len(), 1);
    assert_eq!(plan.adds[0].id, "n");
    assert_eq!(plan.num_deleted_rows, 6);
    let too_many = assemble_delete(&vec![
        FileSplit { file_id: "a".to_string(), kept_rows: 0, removed_rows: u64::MAX, rewritten: None },
        FileSplit { file_id: "b".to_string(), kept_rows: 0, removed_rows: 1, rewritten: None },
    ]);
    assert!(matches!(too_many, Err(LakehouseError::Internal(_))));
    let mut wrong_rows = file("n", "d", 30);
    wrong_rows.rows = 7;
    assert!(assemble_delete(&vec![FileSplit { file_id: "c".to_string(), kept_rows: 3, removed_rows: 2, rewritten: Some(wrong_rows) }]).is_err());
}

#[test]
fn summaries_prune_files() {
    let mut f = file("f", "d", 10);
    f.stats = vec![
        ColumnStats { column: "id".to_string(), min: "u100".to_string(), max: "u200".to_string() },
        ColumnStats { column: "name".to_string(), min: "Alice".to_string(), max: "Bob".to_string() },
    ];
    assert!(may_match_equal(&f, "id", "u150"));
    assert!(may_match_equal(&f, "id", "u100"));
    assert!(may_match_equal(&f, "id", "u200"));
    assert!(!may_match_equal(&f, "id", "u201"));
    assert!(!may_match_equal(&f, "id", "u0"));
    assert!(!may_match_equal(&f, "id", "t999"));
    assert!(may_match_equal(&f, "name", "Alice"));
    assert!(!may_match_equal(&f, "name", "Carol"));
    assert!(may_match_equal(&f, "email", "anything"));
    assert!(bytes_le(b"", b""));
    assert!(bytes_le(b"", b"a"));
    assert!(!bytes_le(b"a", b""));
    assert!(bytes_le(b"abc", b"abd"));
    assert!(bytes_le(b"ab", b"abc"));
    assert!(!bytes_le(b"abc", b"ab"));
    assert!(bytes_le(b"abc", b"abc"));
    assert!(!bytes_le(b"b", b"abc"));
}

#[test]
fn compaction_joins_the_small_files_of_a_partition() {
    let live = vec![
        file("a", "2025-01-01", 10),
        file("big", "2025-01-01", 1_000),
        file("b", "2025-01-02", 20),
        file("c", "2025-01-01", 30),
        file("lonely", "2025-01-03", 5),
        file("d", "2025-01-02", 99),
        file("edge", "2025-01-02", 100),
    ];
    let smalls: Vec<String> = small_files(&live, 100).iter().map(|f| f.id.clone()).collect();
    assert_eq!(smalls, strings(&["a", "b", "c", "lonely", "d"]));
    let plan = plan_compaction(&live, 100);
    assert_eq!(plan.len(), 2);
    assert_eq!(plan[0].partition, "date=2025-01-01/");
    assert_eq!(plan[0].inputs, strings(&["a", "c"]));
    assert_eq!(plan[1].partition, "date=2025-01-02/");
    assert_eq!(plan[1].inputs, strings(&["b", "d"]));
    assert!(plan_compaction(&live, 0).is_empty());
    assert!(plan_compaction(&vec![], 100).is_empty());

    let mut store = store_with_events(1_000);
    store.append("events", &sessions_arrow_schema(), live, 2_000).unwrap();
    let metrics = store.compact("events", strings(&["a", "c"]), vec![file("ac", "2025-01-01", 40)], 3_000).unwrap();
    assert_eq!((metrics.files_added, metrics.files_removed, metrics.new_version), (1, 2, 2));
    let nothing = store.compact("events", vec![], vec![], 4_000).unwrap();
    assert_eq!((nothing.files_added, nothing.files_removed, nothing.new_version), (0, 0, 2));
    let clustered = store.z_order("events", &strings(&["user_id", "action"]), strings(&["b", "d"]), vec![file("bd", "2025-01-02", 119)], 5_000).unwrap();
    assert_eq!(clustered.new_version, 3);
    let history = store.history("events", Some(2)).unwrap();
    assert_eq!(history[0].operation.as_deref(), Some("optimize"));
    assert_eq!(
        history[0].parameters.as_deref(),
        Some("{\"columns\":\"user_id,action\",\"num_files_added\":\"1\",\"num_files_removed\":\"2\"}")
    );
    assert_eq!(
        history[1].parameters.as_deref(),
        Some("{\"columns\":\"\",\"num_files_added\":\"1\",\"num_files_removed\":\"2\"}")
    );
    assert!(matches!(
        store.compact("events", strings(&["gone"]), vec![], 6_000),
        Err(LakehouseError::Internal(_))
    ));
    assert!(matches!(store.compact("nope", vec![], vec![], 6_000), Err(LakehouseError::TableNotFound(_))));
}

#[test]
fn partitions_and_groups() {
    let values = vec![
        PartitionValue { column: "user".to_string(), value: "u1".to_string() },
        PartitionValue { column: "date".to_string(), value: "2025-01-01".to_string() },
    ];
    assert_eq!(partition_path(&values), "user=u1/date=2025-01-01/");
    assert_eq!(partition_path(&vec![]), "");
    assert_eq!(data_file_path(&values, "abc"), "user=u1/date=2025-01-01/abc.dat");
    assert_eq!(data_file_path(&vec![], "abc"), "abc.dat");
    let keys = strings(&["b", "a", "b", "c", "a", "b"]);
    assert_eq!(distinct_keys(&keys), strings(&["b", "a", "c"]));
    assert_eq!(positions_of(&keys, "b"), vec![0, 2, 5]);
    assert_eq!(positions_of(&keys, "z"), Vec::<usize>::new());
    let groups = group_by_key(&keys);
    assert_eq!(groups.iter().map(|g| g.key.as_str()).collect::<Vec<_>>(), vec!["b", "a", "c"]);
    assert_eq!(groups[1].members, vec![1, 4]);
    // Every position is in exactly one group.
    let mut seen: Vec<usize> = groups.iter().flat_map(|g| g.members.clone()).collect();
    seen.sort();
    assert_eq!(seen, (0..keys.len()).collect::<Vec<_>>());
    assert!(group_by_key(&vec![]).is_empty());
    assert!(same_strings(&strings(&["a", "b"]), &strings(&["a", "b"])));
    assert!(!same_strings(&strings(&["a", "b"]), &strings(&["b", "a"])));
    assert!(!same_strings(&strings(&["a"]), &strings(&["a", "b"])));
    assert_eq!(files_needed(0, 128), 0);
    assert_eq!(files_needed(1, 128), 1);
    assert_eq!(files_needed(128, 128), 1);
    assert_eq!(files_needed(129, 128), 2);
    assert_eq!(files_needed(u64::MAX, 1), u64::MAX);
    assert_eq!(files_needed(u64::MAX, u64::MAX), 1);
}

#[test]
fn the_curve_interleaves_bits() {
    let z = interleave(&vec![0b11, 0b01]);
    assert_eq!(z.len(), 64);
    assert!(z[..60].iter().all(|b| !b));
    assert_eq!(&z[60..], &[true, false, true, true]);
    assert_eq!(interleave(&vec![]).len(), 0);
    let one = interleave(&vec![u32::MAX]);
    assert!(one.iter().all(|b| *b) && one.len() == 32);
    let high = interleave(&vec![1 << 31, 0]);
    assert!(high[0] && !high[1]);
    // Rows that are close in both columns are close on the curve.
    let origin = interleave(&vec![0, 0]);
    let near = interleave(&vec![1, 1]);
    let far = interleave(&vec![0, 1 << 20]);
    assert!(comes_before(&origin, &near));
    assert!(comes_before(&near, &far));
    assert!(comes_before(&origin, &far));
    assert!(!comes_before(&far, &near));
    assert!(!comes_before(&near, &near));
    assert!(comes_before(&vec![false], &vec![false, false]));
    assert!(!comes_before(&vec![], &vec![]));
}

#[test]
fn purge_plans_and_urls() {
    let steps = DeltaStore::gdpr_delete_user("u-1");
    let text: Vec<String> = steps
        .iter()
        .map(|s| match s {
            PurgeStep::Delete { table, predicate } => format!("delete {table}: {predicate}"),
            PurgeStep::Vacuum { table } => format!("vacuum {table}"),
        })
        .collect();
    assert_eq!(
        text,
        vec![
            "delete users: user_id = 'u-1'",
            "delete sessions: user_id = 'u-1'",
            "delete audit_log: user_id = 'u-1'",
            "delete user_actions: user_id = 'u-1'",
            "vacuum users",
            "vacuum sessions",
            "vacuum audit_log",
            "vacuum user_actions",
        ]
    );
    let counts = purge_counts(&vec![
        Ok(DeleteMetrics { num_deleted_rows: 1, new_version: 2 }),
        Err(LakehouseError::InvalidPredicate("x".to_string())),
        Ok(DeleteMetrics { num_deleted_rows: 7, new_version: 9 }),
        Ok(DeleteMetrics { num_deleted_rows: 0, new_version: 1 }),
    ]);
    let counted: Vec<(&str, usize)> = counts.iter().map(|c| (c.table.as_str(), c.deleted_rows)).collect();
    assert_eq!(counted, vec![("users", 1), ("sessions", 0), ("audit_log", 7), ("user_actions", 0)]);
    let store = DeltaStore::empty(LakehouseConfig::new("/tmp/my lake"));
    assert_eq!(store.table_url("users").unwrap(), "file:///tmp/my%20lake/users/");
    let relative = DeltaStore::empty(LakehouseConfig::new("relative/lake"));
    match relative.table_url("users") {
        Err(LakehouseError::Config(m)) => assert_eq!(m, "Invalid table path: relative/lake/users"),
        other => panic!("{:?}", other),
    }
    assert_eq!(join(&strings(&["a", "b", "c"])), "a,b,c");
    assert_eq!(join(&vec![]), "");
    assert_eq!(count_rows(&vec![file("a", "d", 100), file("b", "d", 50)]), Some(15));
    let mut huge = file("h", "d", 10);
    huge.rows = u64::MAX;
    assert_eq!(count_rows(&vec![huge, file("b", "d", 50)]), None);
}

#[test]
fn time_travel_by_text() {
    let mut store = store_with_events(1_735_689_600_000);
    store
        .append("events", &sessions_arrow_schema(), vec![file("f1", "d", 100)], 1_735_776_000_000)
        .unwrap();
    // 2025-01-01T12:00:00Z lies between the creation and the append.
    assert!(store.read_timestamp("events", "2025-01-01T12:00:00Z").unwrap().files.is_empty());
    assert_eq!(store.read_timestamp("events", "2025-01-02T00:00:00+00:00").unwrap().files.len(), 1);
    assert_eq!(store.read_timestamp("events", "2025-01-02T01:00:00+01:00").unwrap().files.len(), 1);
    assert!(matches!(
        store.read_timestamp("events", "2024-12-31T23:59:59Z"),
        Err(LakehouseError::VersionNotFound { .. })
    ));
    assert!(matches!(
        store.read_timestamp("events", "yesterday"),
        Err(LakehouseError::DeltaTable(_))
    ));
    assert!(matches!(
        store.read_timestamp("nope", "2025-01-02T00:00:00Z"),
        Err(LakehouseError::TableNotFound(_))
    ));
    let plan = store.sql("events", "SELECT COUNT(*) FROM t").unwrap();
    assert_eq!(plan.sql, "SELECT COUNT(*) FROM t");
    assert_eq!(plan.files.len(), 1);
}

#[test]
fn schemas_of_the_four_tables() {
    let users = users_arrow_schema();
    assert_eq!(users.len(), 12);
    assert_eq!(users[0].name, "user_id");
    assert!(!users[0].nullable);
    assert_eq!(users[8].name, "is_active");
    assert_eq!(users[8].data_type, DataType::Boolean);
    assert!(users[5].nullable);
    let logged = users_delta_fields();
    assert_eq!(logged.len(), 12);
    assert_eq!(logged[8].data_type, PrimitiveType::Boolean);
    assert_eq!(logged[3].name, "password_hash");
    let actions = user_actions_arrow_schema();
    assert_eq!(actions[8].data_type, DataType::Int64);
    assert_eq!(actions[9].data_type, DataType::Float64);
    let logged_actions = user_actions_delta_fields();
    assert_eq!(logged_actions[8].data_type, PrimitiveType::Long);
    assert_eq!(logged_actions[9].data_type, PrimitiveType::Double);
    assert_eq!(
        describe_schema(&delta_fields_of(&sessions_arrow_schema())),
        "token_hash:string,user_id:string,username:string,role:string,created_at:string,expires_at:string,is_revoked:boolean"
    );
    assert_eq!(describe_schema(&vec![]), "");
    assert_eq!(describe_schema(&logged_actions[8..10].to_vec()), "row_count:long?,compute_time_ms:double?");
    assert!(users_partition_columns().is_empty());
    assert!(sessions_partition_columns().is_empty());
    assert_eq!(audit_log_partition_columns(), strings(&["date_partition"]));
    assert_eq!(user_actions_partition_columns(), strings(&["date_partition"]));
    let tables = all_tables();
    assert_eq!(tables.iter().map(|t| t.name).collect::<Vec<_>>(), vec!["users", "sessions", "audit_log", "user_actions"]);
    assert_eq!(tables[2].arrow_schema.len(), 9);
    assert_eq!(tables[2].delta_fields.len(), 9);
    assert_eq!(tables[2].partition_columns, strings(&["date_partition"]));
    assert!(schema_matches(&users, &users_arrow_schema()));
    assert!(!schema_matches(&users, &actions));
    assert!(!schema_matches(&users, &users[..11].to_vec()));
}

#[test]
fn text_and_json() {
    assert_eq!(u64_to_decimal(0), "0");
    assert_eq!(u64_to_decimal(7), "7");
    assert_eq!(u64_to_decimal(10), "10");
    assert_eq!(u64_to_decimal(1234567890), "1234567890");
    assert_eq!(u64_to_decimal(u64::MAX), "18446744073709551615");
    assert_eq!(i64_to_decimal(-1), "-1");
    assert_eq!(i64_to_decimal(i64::MIN), "-9223372036854775808");
    assert_eq!(i64_to_decimal(i64::MAX), "9223372036854775807");
    assert_eq!(i64_to_decimal(0), "0");
    assert_eq!(concat2("a", "b"), "ab");
    assert_eq!(concat3("a", "", "c"), "ac");
    assert!(contains_char("a@b", '@'));
    assert!(!contains_char("ab", '@'));
    assert!(!contains_char("", '@'));
    assert_eq!(to_json_string("plain"), "\"plain\"");
    assert_eq!(to_json_string("a\"b\\c"), "\"a\\\"b\\\\c\"");
    assert_eq!(to_json_string("\n\r\t\u{8}\u{c}\u{1}\u{1f} é"), "\"\\n\\r\\t\\b\\f\\u0001\\u001f é\"");
    assert_eq!(parameters_to_json(&vec![]), "{}");
    assert_eq!(
        parameters_to_json(&vec![
            Parameter { key: "a".to_string(), value: "1".to_string() },
            Parameter { key: "b c".to_string(), value: "x'y".to_string() },
        ]),
        "{\"a\":\"1\",\"b c\":\"x'y\"}"
    );
}

#[test]
fn every_error_has_its_text_and_kind() {
    let s = |t: &str| t.to_string();
    let cases: Vec<(LakehouseError, &str, ErrorKind)> = vec![
        (LakehouseError::DeltaTable(s("x")), "Delta table error: x", ErrorKind::Internal),
        (LakehouseError::TableNotFound(s("t")), "Table not found: t", ErrorKind::NotFound),
        (LakehouseError::TableAlreadyExists(s("t")), "Table already exists: t", ErrorKind::AlreadyExists),
        (LakehouseError::SchemaMismatch { expected: s("a"), actual: s("b") }, "Schema mismatch: expected a, got b", ErrorKind::SchemaMismatch),
        (LakehouseError::VersionNotFound { table: s("t"), version: -3 }, "Version not found: table=t, version=-3", ErrorKind::VersionNotFound),
        (LakehouseError::CommitConflict { table: s("t"), version: 12 }, "Commit conflict: table=t, version=12", ErrorKind::CommitConflict),
        (LakehouseError::InvalidPredicate(s("p")), "Invalid predicate: p", ErrorKind::InvalidPredicate),
        (LakehouseError::SubstrateRetryable(s("x")), "Storage error (retryable): x", ErrorKind::SubstrateRetryable),
        (LakehouseError::SubstrateTerminal(s("x")), "Storage error: x", ErrorKind::SubstrateTerminal),
        (LakehouseError::AuthenticationFailed(s("x")), "Authentication failed: x", ErrorKind::AuthInvalidCredentials),
        (LakehouseError::UserNotFound(s("u")), "User not found: u", ErrorKind::NotFound),
        (LakehouseError::UserAlreadyExists(s("u")), "User already exists: u", ErrorKind::AlreadyExists),
        (LakehouseError::InvalidCredentials, "Invalid credentials", ErrorKind::AuthInvalidCredentials),
        (LakehouseError::AccountDisabled(s("u")), "Account disabled: u", ErrorKind::AuthDisabled),
        (LakehouseError::TokenExpired, "Token expired", ErrorKind::AuthTokenInvalid),
        (LakehouseError::TokenInvalid(s("x")), "Token invalid: x", ErrorKind::AuthTokenInvalid),
        (LakehouseError::PasswordTooWeak(s("x")), "Password too weak: x", ErrorKind::AuthWeakPassword),
        (LakehouseError::InsufficientPermissions { required: s("admin"), actual: s("guest") }, "Insufficient permissions: required=admin, have=guest", ErrorKind::AuthInvalidCredentials),
        (LakehouseError::AuditWriteFailed(s("x")), "Audit write failed: x", ErrorKind::Internal),
        (LakehouseError::Io(s("x")), "IO error: x", ErrorKind::SubstrateTerminal),
        (LakehouseError::Serialization(s("x")), "Serialization error: x", ErrorKind::Internal),
        (LakehouseError::Arrow(s("x")), "Arrow error: x", ErrorKind::Internal),
        (LakehouseError::DataFusion(s("x")), "DataFusion error: x", ErrorKind::Internal),
        (LakehouseError::Config(s("x")), "Configuration error: x", ErrorKind::Internal),
        (LakehouseError::ActorUnavailable(s("x")), "Actor unavailable: x", ErrorKind::Internal),
        (LakehouseError::Internal(s("x")), "Internal error: x", ErrorKind::Internal),
    ];
    for (error, text, kind) in cases {
        assert_eq!(error.message(), text);
        assert_eq!(error.kind(), kind);
    }
}
