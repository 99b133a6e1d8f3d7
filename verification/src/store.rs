//! The transactional store: per-table operations on top of the table
//! log, and the planning of appends, deletes, compaction and clustering.

pub mod cluster;
pub mod compact;
pub mod delete;
pub mod partition;

use crate::clock::{millis_of_text, parse_rfc3339};
use crate::config::LakehouseConfig;
use crate::error::LakehouseError;
use crate::json::json_object;
use crate::log::entry::{
    files_view, ids_of, CommitEntry, DataFile, FileView, Operation, Parameter,
};
use crate::log::replay::live_files;
use crate::log::rows::view_ids;
use crate::log::table::{monotonized, verdict, TableLog};
use crate::log::vacuum::{deletable, horizon};
use crate::schema::{
    all_tables, delta_fields_of, describe_schema, fields_view, logged_fields, schema_text,
    struct_fields_match, struct_fields_view, Field, FieldView, StructField, TableSchema,
    TABLE_AUDIT_LOG, TABLE_SESSIONS, TABLE_USERS, TABLE_USER_ACTIONS,
};
use crate::schema::{audit_log_columns, sessions_columns, user_actions_columns, users_columns};
use crate::store::delete::{adds_of, assemble_delete, removed_rows_of, removes_of, FileSplit};
use crate::store::partition::{files_fit, fit_partitions};
use crate::text::{
    concat2, concat3, decimal, join, joined, names_of, str_eq, u64_to_decimal,
};
use vstd::prelude::*;

verus! {

/// One line of a table's history.
#[derive(Debug, Clone)]
pub struct VersionInfo {
    pub version: i64,
    /// The commit's timestamp in milliseconds since the Unix epoch.
    pub timestamp: Option<i64>,
    /// The name of the operation.
    pub operation: Option<String>,
    /// The operation's parameters as a JSON object.
    pub parameters: Option<String>,
}

impl VersionInfo {
    /// Whether this line describes the given commit entry.
    pub open spec fn describes(self, entry: CommitEntry) -> bool {
        &&& self.version == entry.version
        &&& self.timestamp == Some(entry.timestamp_ms)
        &&& self.operation matches Some(name) && name@ == entry.operation.spec_name()
        &&& self.parameters matches Some(text) && text@ == json_object(entry.parameters@)
    }
}

/// What a delete reports.
#[derive(Debug, Clone)]
pub struct DeleteMetrics {
    pub num_deleted_rows: usize,
    pub new_version: i64,
}

/// What a compaction or a clustering reports.
#[derive(Debug, Clone)]
pub struct CompactMetrics {
    pub files_added: usize,
    pub files_removed: usize,
    pub new_version: i64,
}

/// What a vacuum reports.
#[derive(Debug, Clone)]
pub struct VacuumMetrics {
    pub files_deleted: usize,
    pub dry_run: bool,
}

/// What is handed to the SQL engine for a read: the files of the version
/// to read, registered as table `t`, and the statement to run on them.
#[derive(Debug, Clone)]
pub struct ScanPlan {
    pub files: Vec<DataFile>,
    pub sql: String,
}

/// One step of a purge of a user's data.
#[derive(Debug, Clone)]
pub enum PurgeStep {
    /// Delete the rows of `table` that match `predicate`.
    Delete { table: String, predicate: String },
    /// Vacuum `table` at once: with zero retention, not enforced.
    Vacuum { table: String },
}

/// What `Url::from_directory_path` makes of a directory's path: the text
/// of the `file` URL, or none where the path has no such URL.
pub uninterp spec fn directory_url_of(path: Seq<char>) -> Option<Seq<char>>;

/// Calls `Url::from_directory_path` of the `url` crate, which fails on a
/// path that is not absolute and otherwise gives a `file` URL that ends in
/// a slash, and hands the URL back as text.
#[verifier::external_body]
fn directory_url(path: &str) -> (url: Option<String>)
    ensures
        match url {
            Some(text) => directory_url_of(path@) == Some(text@),
            None => directory_url_of(path@) is None,
        },
{
    match url::Url::from_directory_path(std::path::Path::new(path)) {
        Ok(url) => Some(url.as_str().to_string()),
        Err(_) => None,
    }
}

/// The statement that reads every row.
pub const SELECT_ALL: &'static str = "SELECT * FROM t";

/// The key and value of each parameter, in order.
pub open spec fn params_view(parameters: Seq<Parameter>) -> Seq<(Seq<char>, Seq<char>)> {
    parameters.map_values(|p: Parameter| (p.key@, p.value@))
}

/// The number of rows in a list of files.
pub open spec fn total_rows(files: Seq<DataFile>) -> nat
    decreases files.len(),
{
    if files.len() == 0 {
        0
    } else {
        total_rows(files.drop_last()) + files.last().rows as nat
    }
}

/// The rows of a prefix of the files are not more than the rows of all.
proof fn lemma_total_rows_grow(files: Seq<DataFile>, n: int)
    requires
        0 <= n <= files.len(),
    ensures
        total_rows(files.subrange(0, n)) <= total_rows(files),
    decreases files.len(),
{
    if n < files.len() {
        lemma_total_rows_grow(files.drop_last(), n);
        assert(files.drop_last().subrange(0, n) =~= files.subrange(0, n));
    } else {
        assert(files.subrange(0, n) =~= files);
    }
}

/// Counts the rows of a list of files; none where the count does not fit.
pub fn count_rows(files: &Vec<DataFile>) -> (count: Option<u64>)
    ensures
        match count {
            Some(n) => n == total_rows(files@),
            None => total_rows(files@) > u64::MAX,
        },
{
    let mut total: u64 = 0;
    let mut i: usize = 0;
    assert(files@.subrange(0, 0) =~= Seq::empty());
    while i < files.len()
        invariant
            i <= files.len(),
            total == total_rows(files@.subrange(0, i as int)),
        decreases files.len() - i,
    {
        let ghost prefix = files@.subrange(0, i as int + 1);
        assert(prefix.drop_last() =~= files@.subrange(0, i as int));
        assert(prefix.last() == files@[i as int]);
        if files[i].rows > u64::MAX - total {
            proof {
                lemma_total_rows_grow(files@, i as int + 1);
            }
            return None;
        }
        total = total + files[i].rows;
        i += 1;
    }
    assert(files@.subrange(0, files@.len() as int) =~= files@);
    Some(total)
}

/// One parameter of an operation.
fn parameter(key: &str, value: String) -> (p: Parameter)
    ensures
        p.key@ == key@,
        p.value@ == value@,
{
    Parameter { key: String::from_str(key), value }
}

/// Whether a result is the error that the table of this name is not
/// found.
pub open spec fn is_not_found<T>(result: Result<T, LakehouseError>, table: Seq<char>) -> bool {
    result matches Err(LakehouseError::TableNotFound(t)) && t@ == table
}

/// Whether a result is the error that a batch's schema, described by
/// `actual`, is not the table's, described by `expected`.
pub open spec fn is_schema_mismatch<T>(
    result: Result<T, LakehouseError>,
    expected: Seq<char>,
    actual: Seq<char>,
) -> bool {
    result matches Err(LakehouseError::SchemaMismatch { expected: e, actual: a }) && e@
        == expected && a@ == actual
}

/// How a commit on top of the head changes a table's log: accepted, it
/// appends the entry with the next version, the monotonized timestamp and
/// the given content; refused, it leaves the log as it is.
pub open spec fn commits(
    before: TableLog,
    after: TableLog,
    operation: Operation,
    parameters: Seq<(Seq<char>, Seq<char>)>,
    adds: Seq<FileView>,
    removes: Seq<Seq<char>>,
    now_ms: i64,
    accepted: bool,
) -> bool {
    let log = before.entries();
    &&& after.table() == before.table()
    &&& if accepted {
        let entry = after.entries().last();
        &&& after.entries().len() == log.len() + 1
        &&& after.entries().drop_last() == log
        &&& entry.version == log.len()
        &&& entry.timestamp_ms == monotonized(log.last().timestamp_ms as int, now_ms as int)
        &&& entry.operation == operation
        &&& params_view(entry.parameters@) == parameters
        &&& files_view(entry.adds@) == adds
        &&& entry.removed_ids() == removes
        &&& entry.schema is None
    } else {
        after.entries() == log
    }
}

/// Whether a log is that of a table created at `now_ms` with the given
/// columns and partition columns, and not written to since.
pub open spec fn newly_created(
    log: TableLog,
    name: Seq<char>,
    columns: Seq<FieldView>,
    partition_columns: Seq<Seq<char>>,
    now_ms: i64,
) -> bool {
    &&& log.table() == name
    &&& log.spec_head() == 0
    &&& log.entries()[0].timestamp_ms == now_ms
    &&& log.entries()[0].schema matches Some(schema) && struct_fields_view(schema.fields@)
        == logged_fields(columns) && names_of(schema.partition_columns@) == partition_columns
}

/// Whether a commit of `adds` and `removes` on top of a log's head is
/// accepted: the added files fit the table's partition columns, and the
/// commit keeps the log valid.
pub open spec fn commit_accepted(
    log: TableLog,
    operation: Operation,
    adds: Seq<FileView>,
    removes: Seq<Seq<char>>,
) -> bool {
    &&& log.entries()[0].schema matches Some(schema) && fit_partitions(
        adds,
        names_of(schema.partition_columns@),
    )
    &&& verdict(log.entries(), log.spec_head(), operation, view_ids(adds), removes) is Accepted
}

/// The store: the configuration and the logs of its tables.
#[derive(Debug, Clone)]
pub struct DeltaStore {
    pub(crate) config: LakehouseConfig,
    pub(crate) tables: Vec<TableLog>,
}

impl DeltaStore {
    /// The logs of the store's tables.
    pub open(crate) spec fn logs(&self) -> Seq<TableLog> {
        self.tables@
    }

    /// The store's configuration.
    pub open(crate) spec fn settings(&self) -> LakehouseConfig {
        self.config
    }

    /// Whether the store has a table of this name.
    pub open spec fn has_table(&self, name: Seq<char>) -> bool {
        exists|i: int| 0 <= i < self.logs().len() && (#[trigger] self.logs()[i]).table() == name
    }

    /// The log of the table of this name.
    pub open spec fn log_of(&self, name: Seq<char>) -> TableLog {
        self.logs()[choose|i: int|
            0 <= i < self.logs().len() && (#[trigger] self.logs()[i]).table() == name]
    }

    /// The invariant of a store: every table's log is valid, and no two
    /// tables share a name.
    pub open spec fn wf(&self) -> bool {
        &&& forall|i: int| 0 <= i < self.logs().len() ==> (#[trigger] self.logs()[i]).wf()
        &&& forall|i: int, j: int|
            0 <= i < j < self.logs().len() ==> (#[trigger] self.logs()[i]).table() != (
            #[trigger] self.logs()[j]).table()
    }

    /// Whether `after` holds the same tables as `before`, all but the one
    /// named `table` with the logs they had.
    pub open spec fn touches_only(before: DeltaStore, after: DeltaStore, table: Seq<char>) -> bool {
        &&& after.settings() == before.settings()
        &&& after.logs().len() == before.logs().len()
        &&& forall|i: int|
            0 <= i < before.logs().len() ==> (#[trigger] after.logs()[i]).table()
                == before.logs()[i].table()
        &&& forall|i: int|
            0 <= i < before.logs().len() && before.logs()[i].table() != table ==> (
            #[trigger] after.logs()[i]) == before.logs()[i]
    }

    /// A store without tables.
    pub fn empty(config: LakehouseConfig) -> (store: DeltaStore)
        ensures
            store.wf(),
            store.settings() == config,
            store.logs().len() == 0,
    {
        DeltaStore { config, tables: Vec::new() }
    }

    /// A store that holds the lakehouse's four tables, each at version 0.
    pub fn new(config: LakehouseConfig, now_ms: i64) -> (store: DeltaStore)
        ensures
            store.wf(),
            store.settings() == config,
            store.logs().len() == 4,
            newly_created(store.logs()[0], TABLE_USERS@, users_columns(), seq![], now_ms),
            newly_created(store.logs()[1], TABLE_SESSIONS@, sessions_columns(), seq![], now_ms),
            newly_created(
                store.logs()[2],
                TABLE_AUDIT_LOG@,
                audit_log_columns(),
                seq!["date_partition"@],
                now_ms,
            ),
            newly_created(
                store.logs()[3],
                TABLE_USER_ACTIONS@,
                user_actions_columns(),
                seq!["date_partition"@],
                now_ms,
            ),
    {
        let definitions = all_tables();
        let mut tables: Vec<TableLog> = Vec::new();
        let mut i: usize = 0;
        while i < definitions.len()
            invariant
                i <= definitions.len(),
                tables@.len() == i,
                forall|j: int|
                    0 <= j < i ==> (#[trigger] tables@[j]).wf() && newly_created(
                        tables@[j],
                        definitions@[j].name@,
                        fields_view(definitions@[j].arrow_schema@),
                        names_of(definitions@[j].partition_columns@),
                        now_ms,
                    ),
            decreases definitions.len() - i,
        {
            let definition = &definitions[i];
            let schema = TableSchema {
                fields: delta_fields_of(&definition.arrow_schema),
                partition_columns: crate::log::entry::copy_strings(&definition.partition_columns),
            };
            tables.push(TableLog::create(definition.name, schema, now_ms));
            i += 1;
        }
        proof {
            reveal_strlit("users");
            reveal_strlit("sessions");
            reveal_strlit("audit_log");
            reveal_strlit("user_actions");
            assert(TABLE_USERS@.len() == 5 && TABLE_SESSIONS@.len() == 8);
            assert(TABLE_AUDIT_LOG@.len() == 9 && TABLE_USER_ACTIONS@.len() == 12);
        }
        DeltaStore { config, tables }
    }

    /// The store's configuration.
    pub fn config(&self) -> (config: &LakehouseConfig)
        ensures
            *config == self.settings(),
    {
        &self.config
    }

    /// The position of the table of this name.
    fn find(&self, name: &str) -> (found: Option<usize>)
        requires
            self.wf(),
        ensures
            match found {
                Some(i) => i < self.logs().len() && self.logs()[i as int].table() == name@
                    && self.has_table(name@) && self.log_of(name@) == self.logs()[i as int],
                None => !self.has_table(name@),
            },
    {
        let mut i: usize = 0;
        while i < self.tables.len()
            invariant
                self.wf(),
                i <= self.tables.len(),
                forall|j: int| 0 <= j < i ==> (#[trigger] self.tables@[j]).table() != name@,
            decreases self.tables.len() - i,
        {
            if str_eq(self.tables[i].name().as_str(), name) {
                proof {
                    lemma_same_position(*self, i as int, name@);
                }
                return Some(i);
            }
            i += 1;
        }
        None
    }

    /// The log of a table.
    pub fn table(&self, name: &str) -> (result: Result<&TableLog, LakehouseError>)
        requires
            self.wf(),
        ensures
            match result {
                Ok(log) => self.has_table(name@) && *log == self.log_of(name@) && log.wf(),
                Err(e) => {
                    &&& !self.has_table(name@)
                    &&& e matches LakehouseError::TableNotFound(t)
                    &&& t@ == name@
                },
            },
    {
        match self.find(name) {
            Some(i) => Ok(&self.tables[i]),
            None => Err(LakehouseError::TableNotFound(String::from_str(name))),
        }
    }

    /// The location of a table as a `file` URL. A base path that is not
    /// absolute has none, which is a configuration error.
    pub fn table_url(&self, name: &str) -> (result: Result<String, LakehouseError>)
        ensures
            ({
                let path = crate::config::joined_path(self.settings().base_path@, name@);
                match result {
                    Ok(url) => directory_url_of(path) == Some(url@),
                    Err(e) => {
                        &&& directory_url_of(path) is None
                        &&& e matches LakehouseError::Config(text)
                        &&& text@ == "Invalid table path: "@ + path
                    },
                }
            }),
    {
        let path = self.config.table_path(name);
        match directory_url(path.as_str()) {
            Some(url) => Ok(url),
            None => Err(LakehouseError::Config(concat2("Invalid table path: ", path.as_str()))),
        }
    }

    /// Creates a table. A table of that name that exists already is an
    /// error, and left as it is.
    pub fn create(
        &mut self,
        name: &str,
        fields: Vec<StructField>,
        partition_columns: Vec<String>,
        now_ms: i64,
    ) -> (result: Result<i64, LakehouseError>)
        requires
            old(self).wf(),
        ensures
            final(self).wf(),
            final(self).settings() == old(self).settings(),
            match result {
                Ok(version) => {
                    &&& !old(self).has_table(name@)
                    &&& version == 0
                    &&& final(self).logs().len() == old(self).logs().len() + 1
                    &&& final(self).logs().drop_last() == old(self).logs()
                    &&& final(self).logs().last().table() == name@
                    &&& final(self).logs().last().spec_head() == 0
                    &&& final(self).logs().last().entries()[0].timestamp_ms == now_ms
                    &&& final(self).logs().last().entries()[0].schema == Some(
                        TableSchema { fields, partition_columns },
                    )
                },
                Err(e) => {
                    &&& old(self).has_table(name@)
                    &&& e matches LakehouseError::TableAlreadyExists(t) && t@ == name@
                    &&& final(self).logs() == old(self).logs()
                },
            },
    {
        match self.find(name) {
            Some(_) => Err(LakehouseError::TableAlreadyExists(String::from_str(name))),
            None => {
                let log = TableLog::create(name, TableSchema { fields, partition_columns }, now_ms);
                self.tables.push(log);
                assert(self.logs().drop_last() =~= old(self).logs());
                Ok(0)
            },
        }
    }

    /// Takes in the log of a table as it was read from the table's
    /// directory: in place of the log that the store held for the table,
    /// or as a further table.
    pub fn put_table(&mut self, log: TableLog)
        requires
            old(self).wf(),
            log.wf(),
        ensures
            final(self).wf(),
            final(self).settings() == old(self).settings(),
            final(self).has_table(log.table()),
            final(self).log_of(log.table()) == log,
            forall|name: Seq<char>|
                name != log.table() ==> (final(self).has_table(name) == old(self).has_table(name)),
            forall|name: Seq<char>|
                name != log.table() && old(self).has_table(name) ==> #[trigger] final(self).log_of(
                    name,
                ) == old(self).log_of(name),
    {
        let ghost name = log.table();
        let ghost before = *old(self);
        match self.find(log.name().as_str()) {
            Some(i) => {
                self.tables.set(i, log);
                proof {
                    lemma_same_position(*self, i as int, name);
                    assert forall|other: Seq<char>| other != name implies (self.has_table(other)
                        == before.has_table(other)) by {
                        if before.has_table(other) {
                            let k = choose|k: int|
                                0 <= k < before.logs().len() && (#[trigger] before.logs()[
                                    k
                                ]).table() == other;
                            assert(self.logs()[k].table() == other);
                        }
                        if self.has_table(other) {
                            let k = choose|k: int|
                                0 <= k < self.logs().len() && (#[trigger] self.logs()[k]).table()
                                    == other;
                            assert(before.logs()[k].table() == other);
                        }
                    }
                    assert forall|other: Seq<char>|
                        other != name && before.has_table(other) implies #[trigger] self.log_of(
                        other,
                    ) == before.log_of(other) by {
                        let k = choose|k: int|
                            0 <= k < before.logs().len() && (#[trigger] before.logs()[k]).table()
                                == other;
                        lemma_same_position(before, k, other);
                        lemma_same_position(*self, k, other);
                    }
                }
            },
            None => {
                self.tables.push(log);
                proof {
                    let last = self.logs().len() - 1;
                    assert forall|k: int| 0 <= k < last implies (#[trigger] self.logs()[k]).table()
                        != name by {
                        assert(self.logs()[k] == before.logs()[k]);
                        if before.logs()[k].table() == name {
                            assert(before.has_table(name));
                        }
                    }
                    assert forall|k: int| 0 <= k < self.logs().len() implies (
                    #[trigger] self.logs()[k]).wf() by {
                        if k < last {
                            assert(self.logs()[k] == before.logs()[k]);
                        }
                    }
                    assert(self.wf());
                    lemma_same_position(*self, last, name);
                    assert forall|other: Seq<char>| other != name implies (self.has_table(other)
                        == before.has_table(other)) by {
                        if before.has_table(other) {
                            let k = choose|k: int|
                                0 <= k < before.logs().len() && (#[trigger] before.logs()[
                                    k
                                ]).table() == other;
                            assert(self.logs()[k].table() == other);
                        }
                        if self.has_table(other) {
                            let k = choose|k: int|
                                0 <= k < self.logs().len() && (#[trigger] self.logs()[k]).table()
                                    == other;
                            assert(before.logs()[k].table() == other);
                        }
                    }
                    assert forall|other: Seq<char>|
                        other != name && before.has_table(other) implies #[trigger] self.log_of(
                        other,
                    ) == before.log_of(other) by {
                        let k = choose|k: int|
                            0 <= k < before.logs().len() && (#[trigger] before.logs()[k]).table()
                                == other;
                        lemma_same_position(before, k, other);
                        assert(self.logs()[k] == before.logs()[k]);
                        lemma_same_position(*self, k, other);
                    }
                }
            },
        }
    }

    /// Creates a table if it does not exist; an existing table is left as
    /// it is. Safe to call any number of times.
    pub fn ensure_table(
        &mut self,
        name: &str,
        fields: Vec<StructField>,
        partition_columns: Vec<String>,
        now_ms: i64,
    )
        requires
            old(self).wf(),
        ensures
            final(self).wf(),
            final(self).settings() == old(self).settings(),
            final(self).has_table(name@),
            old(self).has_table(name@) ==> final(self).logs() == old(self).logs(),
            !old(self).has_table(name@) ==> final(self).logs().drop_last() == old(self).logs()
                && final(self).logs().last().spec_head() == 0,
    {
        let ghost before = self.logs();
        match self.create(name, fields, partition_columns, now_ms) {
            Ok(_) => {
                assert(self.logs()[self.logs().len() - 1].table() == name@);
            },
            Err(_) => {},
        }
    }

    /// Commits on top of a table's head.
    fn commit_on_head(
        &mut self,
        position: usize,
        operation: Operation,
        parameters: Vec<Parameter>,
        adds: Vec<DataFile>,
        removes: Vec<String>,
        now_ms: i64,
    ) -> (result: Result<i64, LakehouseError>)
        requires
            old(self).wf(),
            position < old(self).logs().len(),
            !(operation is Create),
        ensures
            final(self).wf(),
            DeltaStore::touches_only(
                *old(self),
                *final(self),
                old(self).logs()[position as int].table(),
            ),
            ({
                let before = old(self).logs()[position as int];
                let accepted = commit_accepted(
                    before,
                    operation,
                    files_view(adds@),
                    names_of(removes@),
                );
                &&& commits(
                    before,
                    final(self).logs()[position as int],
                    operation,
                    params_view(parameters@),
                    files_view(adds@),
                    names_of(removes@),
                    now_ms,
                    accepted,
                )
                &&& accepted ==> result == Ok::<i64, LakehouseError>(
                    (before.spec_head() + 1) as i64,
                )
                &&& !accepted ==> result is Err
            }),
    {
        let head = self.tables[position].head();
        let ghost before = self.tables@[position as int];
        assert(ids_of(adds@) =~= view_ids(files_view(adds@)));
        let columns = &self.tables[position].schema().partition_columns;
        if !files_fit(&adds, columns) {
            return Err(
                LakehouseError::SchemaMismatch {
                    expected: join(columns),
                    actual: String::from_str("a file of other partition columns"),
                },
            );
        }
        let result = self.tables[position].commit(
            head,
            operation,
            parameters,
            adds,
            removes,
            now_ms,
        );
        proof {
            let after = self.tables@[position as int];
            if result is Ok {
                assert(after.entries().drop_last() =~= before.entries());
            }
        }
        result
    }

    /// Whether an append of `files` with columns `batch` to the log is
    /// accepted: the batch matches the table's schema column for column,
    /// the rows can be counted, and the commit keeps the log valid.
    pub open spec fn accepts_append(log: TableLog, batch: Seq<Field>, files: Seq<DataFile>) -> bool {
        &&& log.entries()[0].schema matches Some(schema) && struct_fields_view(schema.fields@)
            == logged_fields(fields_view(batch))
        &&& total_rows(files) <= u64::MAX
        &&& commit_accepted(log, Operation::Append, files_view(files), Seq::empty())
    }

    /// Appends a batch that was written into `files`, as one commit that
    /// adds the files and removes none. Returns the new version.
    ///
    /// The batch's columns must match the table's schema one for one,
    /// nullability included; otherwise nothing is committed.
    pub fn append(
        &mut self,
        table: &str,
        batch: &Vec<Field>,
        files: Vec<DataFile>,
        now_ms: i64,
    ) -> (result: Result<i64, LakehouseError>)
        requires
            old(self).wf(),
        ensures
            final(self).wf(),
            DeltaStore::touches_only(*old(self), *final(self), table@),
            !old(self).has_table(table@) ==> is_not_found(result, table@),
            old(self).has_table(table@) ==> ({
                let before = old(self).log_of(table@);
                let accepted = DeltaStore::accepts_append(before, batch@, files@);
                &&& commits(
                    before,
                    final(self).log_of(table@),
                    Operation::Append,
                    seq![
                        ("num_added_files"@, decimal(files@.len())),
                        ("num_added_rows"@, decimal(total_rows(files@))),
                    ],
                    files_view(files@),
                    Seq::empty(),
                    now_ms,
                    accepted,
                )
                &&& accepted ==> result == Ok::<i64, LakehouseError>(
                    (before.spec_head() + 1) as i64,
                )
                &&& !accepted ==> result is Err
                &&& before.entries()[0].schema matches Some(schema) ==> (struct_fields_view(
                    schema.fields@,
                ) != logged_fields(fields_view(batch@)) ==> is_schema_mismatch(
                    result,
                    schema_text(struct_fields_view(schema.fields@)),
                    schema_text(logged_fields(fields_view(batch@))),
                ))
            }),
    {
        let position = match self.find(table) {
            Some(i) => i,
            None => {
                return Err(LakehouseError::TableNotFound(String::from_str(table)));
            },
        };
        let logged = delta_fields_of(batch);
        let table_schema = self.tables[position].schema();
        if !struct_fields_match(&table_schema.fields, &logged) {
            let expected = describe_schema(&table_schema.fields);
            proof {
                lemma_same_position(*self, position as int, table@);
            }
            return Err(
                LakehouseError::SchemaMismatch { expected, actual: describe_schema(&logged) },
            );
        }
        let rows = match count_rows(&files) {
            Some(n) => n,
            None => {
                proof {
                    lemma_same_position(*self, position as int, table@);
                }
                return Err(LakehouseError::Internal(String::from_str("too many rows to count")));
            },
        };
        let mut parameters: Vec<Parameter> = Vec::new();
        parameters.push(parameter("num_added_files", u64_to_decimal(files.len() as u64)));
        parameters.push(parameter("num_added_rows", u64_to_decimal(rows)));
        assert(params_view(parameters@) =~= seq![
            ("num_added_files"@, decimal(files@.len())),
            ("num_added_rows"@, decimal(total_rows(files@))),
        ]);
        let removes: Vec<String> = Vec::new();
        assert(names_of(removes@) =~= Seq::empty());
        assert(removes@ =~= Seq::empty());
        let result = self.commit_on_head(
            position,
            Operation::Append,
            parameters,
            files,
            removes,
            now_ms,
        );
        proof {
            lemma_same_position(*old(self), position as int, table@);
            lemma_same_position(*self, position as int, table@);
        }
        result
    }

    /// Whether a delete with these splits is accepted: the predicate is
    /// not empty, the splits are consistent, the removed rows can be
    /// counted, and the commit keeps the log valid.
    pub open spec fn accepts_delete(log: TableLog, predicate: Seq<char>, splits: Seq<FileSplit>) -> bool {
        &&& predicate.len() > 0
        &&& forall|i: int| 0 <= i < splits.len() ==> (#[trigger] splits[i]).consistent()
        &&& removed_rows_of(splits) <= usize::MAX
        &&& removed_rows_of(splits) <= u64::MAX
        &&& commit_accepted(log, Operation::Delete, adds_of(splits), removes_of(splits))
    }

    /// Deletes the rows that match a predicate, as one commit. `splits`
    /// says how the rows of each file that was read split under the
    /// predicate: files without a matching row stay, files with only
    /// matching rows are removed, the others are replaced by the new file
    /// that holds their other rows. Returns the number of deleted rows and
    /// the new version.
    pub fn delete(
        &mut self,
        table: &str,
        predicate: &str,
        splits: &Vec<FileSplit>,
        now_ms: i64,
    ) -> (result: Result<DeleteMetrics, LakehouseError>)
        requires
            old(self).wf(),
        ensures
            final(self).wf(),
            DeltaStore::touches_only(*old(self), *final(self), table@),
            !old(self).has_table(table@) ==> is_not_found(result, table@),
            old(self).has_table(table@) ==> ({
                let before = old(self).log_of(table@);
                let accepted = DeltaStore::accepts_delete(before, predicate@, splits@);
                &&& commits(
                    before,
                    final(self).log_of(table@),
                    Operation::Delete,
                    seq![
                        ("predicate"@, predicate@),
                        ("num_deleted_rows"@, decimal(removed_rows_of(splits@))),
                    ],
                    adds_of(splits@),
                    removes_of(splits@),
                    now_ms,
                    accepted,
                )
                &&& accepted ==> (result matches Ok(metrics) && metrics.num_deleted_rows
                    == removed_rows_of(splits@) && metrics.new_version == before.spec_head() + 1)
                &&& !accepted ==> result is Err
                &&& predicate@.len() == 0 ==> (result matches Err(
                    LakehouseError::InvalidPredicate(_),
                ))
            }),
    {
        let position = match self.find(table) {
            Some(i) => i,
            None => {
                return Err(LakehouseError::TableNotFound(String::from_str(table)));
            },
        };
        proof {
            lemma_same_position(*self, position as int, table@);
        }
        if predicate.unicode_len() == 0 {
            return Err(LakehouseError::InvalidPredicate(String::from_str(predicate)));
        }
        let plan = match assemble_delete(splits) {
            Ok(plan) => plan,
            Err(e) => {
                return Err(e);
            },
        };
        if plan.num_deleted_rows > usize::MAX as u64 {
            return Err(LakehouseError::Internal(String::from_str("too many rows to count")));
        }
        let num_deleted_rows = plan.num_deleted_rows as usize;
        let mut parameters: Vec<Parameter> = Vec::new();
        parameters.push(parameter("predicate", String::from_str(predicate)));
        parameters.push(parameter("num_deleted_rows", u64_to_decimal(plan.num_deleted_rows)));
        assert(params_view(parameters@) =~= seq![
            ("predicate"@, predicate@),
            ("num_deleted_rows"@, decimal(removed_rows_of(splits@))),
        ]);
        assert(ids_of(plan.adds@) =~= view_ids(files_view(plan.adds@)));
        let result = self.commit_on_head(
            position,
            Operation::Delete,
            parameters,
            plan.adds,
            plan.removes,
            now_ms,
        );
        proof {
            lemma_same_position(*self, position as int, table@);
        }
        match result {
            Ok(new_version) => Ok(DeleteMetrics { num_deleted_rows, new_version }),
            Err(e) => Err(e),
        }
    }

    /// Commits a rewrite of a table's files: compaction, or clustering on
    /// `columns` where some are given. The commit removes the files that
    /// were read and adds the files that were written from their rows. A
    /// rewrite of nothing commits nothing and reports the head.
    fn rewrite(
        &mut self,
        table: &str,
        columns: String,
        removes: Vec<String>,
        adds: Vec<DataFile>,
        now_ms: i64,
    ) -> (result: Result<CompactMetrics, LakehouseError>)
        requires
            old(self).wf(),
        ensures
            final(self).wf(),
            DeltaStore::touches_only(*old(self), *final(self), table@),
            !old(self).has_table(table@) ==> is_not_found(result, table@),
            old(self).has_table(table@) ==> ({
                let before = old(self).log_of(table@);
                let nothing = adds@.len() == 0 && removes@.len() == 0;
                let accepted = !nothing && commit_accepted(
                    before,
                    Operation::Optimize,
                    files_view(adds@),
                    names_of(removes@),
                );
                &&& commits(
                    before,
                    final(self).log_of(table@),
                    Operation::Optimize,
                    seq![
                        ("columns"@, columns@),
                        ("num_files_added"@, decimal(adds@.len())),
                        ("num_files_removed"@, decimal(removes@.len())),
                    ],
                    files_view(adds@),
                    names_of(removes@),
                    now_ms,
                    accepted,
                )
                &&& (accepted || nothing) ==> (result matches Ok(metrics) && metrics.files_added
                    == adds@.len() && metrics.files_removed == removes@.len()
                    && metrics.new_version == before.spec_head() + if nothing {
                    0int
                } else {
                    1int
                })
                &&& !(accepted || nothing) ==> result is Err
            }),
    {
        let position = match self.find(table) {
            Some(i) => i,
            None => {
                return Err(LakehouseError::TableNotFound(String::from_str(table)));
            },
        };
        proof {
            lemma_same_position(*self, position as int, table@);
        }
        let files_added = adds.len();
        let files_removed = removes.len();
        if files_added == 0 && files_removed == 0 {
            let new_version = self.tables[position].head();
            return Ok(CompactMetrics { files_added, files_removed, new_version });
        }
        let mut parameters: Vec<Parameter> = Vec::new();
        parameters.push(parameter("columns", columns));
        parameters.push(parameter("num_files_added", u64_to_decimal(files_added as u64)));
        parameters.push(parameter("num_files_removed", u64_to_decimal(files_removed as u64)));
        assert(params_view(parameters@) =~= seq![
            ("columns"@, columns@),
            ("num_files_added"@, decimal(adds@.len())),
            ("num_files_removed"@, decimal(removes@.len())),
        ]);
        let result = self.commit_on_head(
            position,
            Operation::Optimize,
            parameters,
            adds,
            removes,
            now_ms,
        );
        proof {
            lemma_same_position(*self, position as int, table@);
        }
        match result {
            Ok(new_version) => Ok(CompactMetrics { files_added, files_removed, new_version }),
            Err(e) => Err(e),
        }
    }

    /// Commits a compaction: the small files that were read are removed,
    /// the files written from their rows are added. Compacting nothing
    /// commits nothing and reports the head.
    pub fn compact(
        &mut self,
        table: &str,
        removes: Vec<String>,
        adds: Vec<DataFile>,
        now_ms: i64,
    ) -> (result: Result<CompactMetrics, LakehouseError>)
        requires
            old(self).wf(),
        ensures
            final(self).wf(),
            DeltaStore::touches_only(*old(self), *final(self), table@),
            !old(self).has_table(table@) ==> is_not_found(result, table@),
            old(self).has_table(table@) ==> ({
                let before = old(self).log_of(table@);
                let nothing = adds@.len() == 0 && removes@.len() == 0;
                let accepted = !nothing && commit_accepted(
                    before,
                    Operation::Optimize,
                    files_view(adds@),
                    names_of(removes@),
                );
                &&& commits(
                    before,
                    final(self).log_of(table@),
                    Operation::Optimize,
                    seq![
                        ("columns"@, Seq::empty()),
                        ("num_files_added"@, decimal(adds@.len())),
                        ("num_files_removed"@, decimal(removes@.len())),
                    ],
                    files_view(adds@),
                    names_of(removes@),
                    now_ms,
                    accepted,
                )
                &&& (accepted || nothing) ==> (result matches Ok(metrics) && metrics.files_added
                    == adds@.len() && metrics.files_removed == removes@.len()
                    && metrics.new_version == before.spec_head() + if nothing {
                    0int
                } else {
                    1int
                })
                &&& !(accepted || nothing) ==> result is Err
            }),
    {
        self.rewrite(table, String::new(), removes, adds, now_ms)
    }

    /// Commits a clustering on `columns`: the files that were read are
    /// removed, the files written in the order of the space-filling curve
    /// are added. The commit records the columns, joined by commas.
    pub fn z_order(
        &mut self,
        table: &str,
        columns: &Vec<String>,
        removes: Vec<String>,
        adds: Vec<DataFile>,
        now_ms: i64,
    ) -> (result: Result<CompactMetrics, LakehouseError>)
        requires
            old(self).wf(),
        ensures
            final(self).wf(),
            DeltaStore::touches_only(*old(self), *final(self), table@),
            !old(self).has_table(table@) ==> is_not_found(result, table@),
            old(self).has_table(table@) ==> ({
                let before = old(self).log_of(table@);
                let nothing = adds@.len() == 0 && removes@.len() == 0;
                let accepted = !nothing && commit_accepted(
                    before,
                    Operation::Optimize,
                    files_view(adds@),
                    names_of(removes@),
                );
                &&& commits(
                    before,
                    final(self).log_of(table@),
                    Operation::Optimize,
                    seq![
                        ("columns"@, joined(names_of(columns@))),
                        ("num_files_added"@, decimal(adds@.len())),
                        ("num_files_removed"@, decimal(removes@.len())),
                    ],
                    files_view(adds@),
                    names_of(removes@),
                    now_ms,
                    accepted,
                )
                &&& (accepted || nothing) ==> (result matches Ok(metrics) && metrics.files_added
                    == adds@.len() && metrics.files_removed == removes@.len()
                    && metrics.new_version == before.spec_head() + if nothing {
                    0int
                } else {
                    1int
                })
                &&& !(accepted || nothing) ==> result is Err
            }),
    {
        self.rewrite(table, join(columns), removes, adds, now_ms)
    }

    /// Plans a vacuum of a table with the configured enforcement: the keys
    /// of `listing`, a listing of the table's directory, that are to be
    /// deleted, or only reported where `dry_run` is set. Nothing is
    /// committed.
    pub fn vacuum(
        &self,
        table: &str,
        listing: &Vec<String>,
        now_ms: i64,
        retention_hours: u64,
        dry_run: bool,
    ) -> (result: Result<VacuumPlan, LakehouseError>)
        requires
            self.wf(),
        ensures
            !self.has_table(table@) ==> is_not_found(result, table@),
            self.has_table(table@) ==> match result {
                Ok(plan) => {
                    &&& !(retention_hours == 0 && self.settings().enforce_retention)
                    &&& names_of(plan.keys@) == names_of(listing@).filter(
                        deletable(
                            self.log_of(table@).entries(),
                            horizon(now_ms as int, retention_hours as int),
                        ),
                    )
                    &&& plan.metrics.files_deleted == plan.keys@.len()
                    &&& plan.metrics.dry_run == dry_run
                },
                Err(e) => retention_hours == 0 && self.settings().enforce_retention && e is Config,
            },
    {
        let log = match self.table(table) {
            Ok(log) => log,
            Err(e) => {
                return Err(e);
            },
        };
        match log.plan_vacuum(listing, now_ms, retention_hours, self.config.enforce_retention) {
            Ok(keys) => {
                let files_deleted = keys.len();
                Ok(VacuumPlan { keys, metrics: VacuumMetrics { files_deleted, dry_run } })
            },
            Err(e) => Err(e),
        }
    }

    /// Plans the vacuum that follows a purge: at once, with zero
    /// retention and without enforcement, whatever is configured.
    pub fn vacuum_now(&self, table: &str, listing: &Vec<String>, now_ms: i64) -> (result: Result<
        VacuumPlan,
        LakehouseError,
    >)
        requires
            self.wf(),
        ensures
            !self.has_table(table@) ==> is_not_found(result, table@),
            self.has_table(table@) ==> (result matches Ok(plan) && names_of(plan.keys@) == names_of(
                listing@,
            ).filter(deletable(self.log_of(table@).entries(), now_ms as int))
                && plan.metrics.files_deleted == plan.keys@.len() && !plan.metrics.dry_run),
    {
        let log = match self.table(table) {
            Ok(log) => log,
            Err(e) => {
                return Err(e);
            },
        };
        match log.plan_vacuum(listing, now_ms, 0, false) {
            Ok(keys) => {
                let files_deleted = keys.len();
                Ok(VacuumPlan { keys, metrics: VacuumMetrics { files_deleted, dry_run: false } })
            },
            Err(e) => Err(e),
        }
    }

    /// The current version of a table.
    pub fn version(&self, table: &str) -> (result: Result<i64, LakehouseError>)
        requires
            self.wf(),
        ensures
            !self.has_table(table@) ==> is_not_found(result, table@),
            self.has_table(table@) ==> result == Ok::<i64, LakehouseError>(
                self.log_of(table@).spec_head() as i64,
            ),
    {
        match self.table(table) {
            Ok(log) => Ok(log.head()),
            Err(e) => Err(e),
        }
    }

    /// The most recent commits of a table, newest first.
    pub fn history(&self, table: &str, limit: Option<usize>) -> (result: Result<
        Vec<VersionInfo>,
        LakehouseError,
    >)
        requires
            self.wf(),
        ensures
            !self.has_table(table@) ==> is_not_found(result, table@),
            self.has_table(table@) ==> (result matches Ok(infos) && ({
                let log = self.log_of(table@);
                &&& infos@.len() == match limit {
                    Some(n) => if n < log.entries().len() {
                        n as int
                    } else {
                        log.entries().len() as int
                    },
                    None => log.entries().len() as int,
                }
                &&& forall|i: int|
                    0 <= i < infos@.len() ==> (#[trigger] infos@[i]).describes(
                        log.entries()[log.spec_head() - i],
                    )
            })),
    {
        match self.table(table) {
            Ok(log) => Ok(log.history(limit)),
            Err(e) => Err(e),
        }
    }

    /// What a read of a table's version hands to the SQL engine.
    fn read(&self, table: &str, version: Option<i64>, sql: String) -> (result: Result<
        ScanPlan,
        LakehouseError,
    >)
        requires
            self.wf(),
        ensures
            !self.has_table(table@) ==> is_not_found(result, table@),
            self.has_table(table@) ==> ({
                let log = self.log_of(table@);
                let v = match version {
                    Some(v) => v as int,
                    None => log.spec_head(),
                };
                match result {
                    Ok(plan) => {
                        &&& 0 <= v <= log.spec_head()
                        &&& files_view(plan.files@) == live_files(log.entries(), v + 1)
                        &&& plan.sql@ == sql@
                    },
                    Err(e) => {
                        &&& v < 0 || v > log.spec_head()
                        &&& e matches LakehouseError::VersionNotFound { table: t, version: w }
                        &&& t@ == table@
                        &&& w == v
                    },
                }
            }),
    {
        let log = match self.table(table) {
            Ok(log) => log,
            Err(e) => {
                return Err(e);
            },
        };
        let v = match version {
            Some(v) => v,
            None => log.head(),
        };
        match log.live_files_at(v) {
            Ok(files) => Ok(ScanPlan { files, sql }),
            Err(e) => Err(e),
        }
    }

    /// Reads all rows of a table at its head.
    pub fn scan(&self, table: &str) -> (result: Result<ScanPlan, LakehouseError>)
        requires
            self.wf(),
        ensures
            !self.has_table(table@) ==> is_not_found(result, table@),
            self.has_table(table@) ==> (result matches Ok(plan) && files_view(plan.files@)
                == live_files(
                self.log_of(table@).entries(),
                self.log_of(table@).entries().len() as int,
            ) && plan.sql@ == SELECT_ALL@),
    {
        self.read(table, None, String::from_str(SELECT_ALL))
    }

    /// Reads the rows of a table that satisfy a `WHERE` clause.
    pub fn query(&self, table: &str, sql_where: &str) -> (result: Result<ScanPlan, LakehouseError>)
        requires
            self.wf(),
        ensures
            !self.has_table(table@) ==> is_not_found(result, table@),
            self.has_table(table@) ==> (result matches Ok(plan) && files_view(plan.files@)
                == live_files(
                self.log_of(table@).entries(),
                self.log_of(table@).entries().len() as int,
            ) && plan.sql@ == SELECT_ALL@ + " WHERE "@ + sql_where@),
    {
        self.read(table, None, concat3(SELECT_ALL, " WHERE ", sql_where))
    }

    /// Runs a full SQL statement on a table at its head, where the table
    /// is named `t`.
    pub fn sql(&self, table: &str, full_sql: &str) -> (result: Result<ScanPlan, LakehouseError>)
        requires
            self.wf(),
        ensures
            !self.has_table(table@) ==> is_not_found(result, table@),
            self.has_table(table@) ==> (result matches Ok(plan) && files_view(plan.files@)
                == live_files(
                self.log_of(table@).entries(),
                self.log_of(table@).entries().len() as int,
            ) && plan.sql@ == full_sql@),
    {
        self.read(table, None, String::from_str(full_sql))
    }

    /// Reads all rows of a table as of a version. A version below 0 or
    /// beyond the head is not found.
    pub fn read_version(&self, table: &str, version: i64) -> (result: Result<
        ScanPlan,
        LakehouseError,
    >)
        requires
            self.wf(),
        ensures
            !self.has_table(table@) ==> is_not_found(result, table@),
            self.has_table(table@) ==> match result {
                Ok(plan) => {
                    &&& 0 <= version <= self.log_of(table@).spec_head()
                    &&& files_view(plan.files@) == live_files(
                        self.log_of(table@).entries(),
                        version + 1,
                    )
                    &&& plan.sql@ == SELECT_ALL@
                },
                Err(e) => {
                    &&& version < 0 || version > self.log_of(table@).spec_head()
                    &&& e matches LakehouseError::VersionNotFound { table: t, version: w }
                    &&& t@ == table@
                    &&& w == version
                },
            },
    {
        self.read(table, Some(version), String::from_str(SELECT_ALL))
    }

    /// Reads all rows of a table as of a point in time, in milliseconds
    /// since the Unix epoch: at the greatest version committed at or
    /// before it. Before the table's creation no version is found.
    pub fn read_at(&self, table: &str, timestamp_ms: i64) -> (result: Result<
        ScanPlan,
        LakehouseError,
    >)
        requires
            self.wf(),
        ensures
            !self.has_table(table@) ==> is_not_found(result, table@),
            self.has_table(table@) ==> is_read_at(self.log_of(table@), timestamp_ms, result),
    {
        let log = match self.table(table) {
            Ok(log) => log,
            Err(e) => {
                return Err(e);
            },
        };
        match log.version_at_timestamp(timestamp_ms) {
            Ok(version) => match log.live_files_at(version) {
                Ok(files) => {
                    assert(log.entries()[version as int].timestamp_ms <= timestamp_ms);
                    Ok(ScanPlan { files, sql: String::from_str(SELECT_ALL) })
                },
                Err(e) => Err(e),
            },
            Err(e) => {
                assert(timestamp_ms < log.entries()[0].timestamp_ms);
                Err(e)
            },
        }
    }

    /// Reads all rows of a table as of a point in time, given as RFC 3339
    /// text. A text that is no such date and time is a storage error.
    pub fn read_timestamp(&self, table: &str, timestamp: &str) -> (result: Result<
        ScanPlan,
        LakehouseError,
    >)
        requires
            self.wf(),
        ensures
            millis_of_text(timestamp@) is None ==> result matches Err(
                LakehouseError::DeltaTable(_),
            ),
            millis_of_text(timestamp@) is Some && !self.has_table(table@) ==> is_not_found(
                result,
                table@,
            ),
            millis_of_text(timestamp@) matches Some(ms) ==> (self.has_table(table@) ==> is_read_at(
                self.log_of(table@),
                ms as i64,
                result,
            )),
    {
        match parse_rfc3339(timestamp) {
            Some(timestamp_ms) => self.read_at(table, timestamp_ms),
            None => Err(
                LakehouseError::DeltaTable(concat2("Invalid timestamp: ", timestamp)),
            ),
        }
    }

    /// Plans the purge of a user's data: on each of the four tables a
    /// delete of the rows with the user's id, then on each a vacuum at
    /// once. A step that fails does not stop the purge.
    pub fn gdpr_delete_user(user_id: &str) -> (steps: Vec<PurgeStep>)
        ensures
            steps@.len() == 8,
            forall|i: int|
                0 <= i < 4 ==> (#[trigger] steps@[i] matches PurgeStep::Delete { table, predicate }
                    && table@ == purge_tables()[i] && predicate@ == "user_id = '"@ + user_id@
                    + "'"@),
            forall|i: int|
                4 <= i < 8 ==> (#[trigger] steps@[i] matches PurgeStep::Vacuum { table } && table@
                    == purge_tables()[i - 4]),
    {
        let mut steps: Vec<PurgeStep> = Vec::new();
        steps.push(purge_delete(TABLE_USERS, user_id));
        steps.push(purge_delete(TABLE_SESSIONS, user_id));
        steps.push(purge_delete(TABLE_AUDIT_LOG, user_id));
        steps.push(purge_delete(TABLE_USER_ACTIONS, user_id));
        steps.push(PurgeStep::Vacuum { table: String::from_str(TABLE_USERS) });
        steps.push(PurgeStep::Vacuum { table: String::from_str(TABLE_SESSIONS) });
        steps.push(PurgeStep::Vacuum { table: String::from_str(TABLE_AUDIT_LOG) });
        steps.push(PurgeStep::Vacuum { table: String::from_str(TABLE_USER_ACTIONS) });
        steps
    }
}

/// Whether `result` is what a read as of a point in time gives: the files
/// of the greatest version committed at or before it, to be read in full;
/// or, before the table's creation, the error that no version is found.
pub open spec fn is_read_at(log: TableLog, timestamp_ms: i64, result: Result<ScanPlan, LakehouseError>) -> bool {
    match result {
        Ok(plan) => exists|v: int|
            {
                &&& 0 <= v <= log.spec_head()
                &&& (#[trigger] log.entries()[v]).timestamp_ms <= timestamp_ms
                &&& forall|w: int|
                    v < w <= log.spec_head() ==> timestamp_ms < (#[trigger] log.entries()[
                        w
                    ]).timestamp_ms
                &&& files_view(plan.files@) == live_files(log.entries(), v + 1)
                &&& plan.sql@ == SELECT_ALL@
            },
        Err(e) => {
            &&& timestamp_ms < log.entries()[0].timestamp_ms
            &&& e is VersionNotFound
        },
    }
}

/// The number of rows that a purge deleted from one table.
#[derive(Debug, Clone)]
pub struct PurgeCount {
    pub table: String,
    pub deleted_rows: usize,
}

/// The per-table counts of a purge, from the outcomes of its deletes in
/// the order of the purge: a delete that failed has deleted nothing.
pub fn purge_counts(outcomes: &Vec<Result<DeleteMetrics, LakehouseError>>) -> (counts: Vec<
    PurgeCount,
>)
    requires
        outcomes@.len() == 4,
    ensures
        counts@.len() == 4,
        forall|i: int|
            0 <= i < 4 ==> (#[trigger] counts@[i]).table@ == purge_tables()[i] && counts@[i].deleted_rows
                == match outcomes@[i] {
                Ok(metrics) => metrics.num_deleted_rows,
                Err(_) => 0,
            },
{
    let mut tables: Vec<&'static str> = Vec::new();
    tables.push(TABLE_USERS);
    tables.push(TABLE_SESSIONS);
    tables.push(TABLE_AUDIT_LOG);
    tables.push(TABLE_USER_ACTIONS);
    let mut counts: Vec<PurgeCount> = Vec::new();
    let mut i: usize = 0;
    while i < 4
        invariant
            i <= 4,
            outcomes@.len() == 4,
            tables@.len() == 4,
            forall|j: int| 0 <= j < 4 ==> (#[trigger] tables@[j])@ == purge_tables()[j],
            counts@.len() == i,
            forall|j: int|
                0 <= j < i ==> (#[trigger] counts@[j]).table@ == purge_tables()[j]
                    && counts@[j].deleted_rows == match outcomes@[j] {
                    Ok(metrics) => metrics.num_deleted_rows,
                    Err(_) => 0,
                },
        decreases 4 - i,
    {
        let deleted_rows = match &outcomes[i] {
            Ok(metrics) => metrics.num_deleted_rows,
            Err(_) => 0,
        };
        counts.push(PurgeCount { table: String::from_str(tables[i]), deleted_rows });
        i += 1;
    }
    counts
}

/// The tables that hold data of a user, in the order of a purge.
pub open spec fn purge_tables() -> Seq<Seq<char>> {
    seq![TABLE_USERS@, TABLE_SESSIONS@, TABLE_AUDIT_LOG@, TABLE_USER_ACTIONS@]
}

/// The delete of a user's rows from one table.
fn purge_delete(table: &str, user_id: &str) -> (step: PurgeStep)
    ensures
        step matches PurgeStep::Delete { table: t, predicate } && t@ == table@ && predicate@
            == "user_id = '"@ + user_id@ + "'"@,
{
    PurgeStep::Delete {
        table: String::from_str(table),
        predicate: concat3("user_id = '", user_id, "'"),
    }
}

/// What a vacuum is to delete, and what it reports.
#[derive(Debug, Clone)]
pub struct VacuumPlan {
    /// The keys to delete, or to report in a dry run.
    pub keys: Vec<String>,
    pub metrics: VacuumMetrics,
}

/// In a valid store, the table found at a position under a name is the
/// table of that name.
pub proof fn lemma_same_position(store: DeltaStore, position: int, name: Seq<char>)
    requires
        store.wf(),
        0 <= position < store.logs().len(),
        store.logs()[position].table() == name,
    ensures
        store.has_table(name),
        store.log_of(name) == store.logs()[position],
{
    let chosen = choose|i: int|
        0 <= i < store.logs().len() && (#[trigger] store.logs()[i]).table() == name;
    if chosen < position {
        assert(store.logs()[chosen].table() != store.logs()[position].table());
    } else if position < chosen {
        assert(store.logs()[position].table() != store.logs()[chosen].table());
    }
}

} // verus!
