//! The records of the table log: data files and commit entries.

use crate::schema::TableSchema;
use crate::text::names_of;
use vstd::prelude::*;

verus! {

/// The smallest and largest value of one column within one data file.
#[derive(Debug, Clone)]
pub struct ColumnStats {
    pub column: String,
    pub min: String,
    pub max: String,
}

/// The mathematical content of a [`ColumnStats`].
pub struct StatsView {
    pub column: Seq<char>,
    pub min: Seq<char>,
    pub max: Seq<char>,
}

impl View for ColumnStats {
    type V = StatsView;

    open spec fn view(&self) -> StatsView {
        StatsView { column: self.column@, min: self.min@, max: self.max@ }
    }
}

impl ColumnStats {
    /// A copy with the same content.
    pub fn copy(&self) -> (out: ColumnStats)
        ensures
            out@ == self@,
    {
        ColumnStats {
            column: self.column.clone(),
            min: self.min.clone(),
            max: self.max.clone(),
        }
    }
}

/// The value of one partition column.
#[derive(Debug, Clone)]
pub struct PartitionValue {
    pub column: String,
    pub value: String,
}

/// The mathematical content of a [`PartitionValue`].
pub struct PartitionView {
    pub column: Seq<char>,
    pub value: Seq<char>,
}

impl View for PartitionValue {
    type V = PartitionView;

    open spec fn view(&self) -> PartitionView {
        PartitionView { column: self.column@, value: self.value@ }
    }
}

impl PartitionValue {
    /// A copy with the same content.
    pub fn copy(&self) -> (out: PartitionValue)
        ensures
            out@ == self@,
    {
        PartitionValue { column: self.column.clone(), value: self.value.clone() }
    }
}

/// The views of a partition tuple, in order.
pub open spec fn partition_view(values: Seq<PartitionValue>) -> Seq<PartitionView> {
    values.map_values(|v: PartitionValue| v@)
}

/// The views of a list of column summaries, in order.
pub open spec fn stats_view(stats: Seq<ColumnStats>) -> Seq<StatsView> {
    stats.map_values(|s: ColumnStats| s@)
}

/// The metadata of one immutable data file.
#[derive(Debug, Clone)]
pub struct DataFile {
    /// The file's stable identifier.
    pub id: String,
    /// The file's key, relative to the table's directory.
    pub path: String,
    /// The value of each partition column, in the order of the table's
    /// partition columns.
    pub partition_values: Vec<PartitionValue>,
    /// The number of rows in the file.
    pub rows: u64,
    /// The size of the file in bytes.
    pub bytes: u64,
    /// Per-column summaries, used to skip files that cannot match.
    pub stats: Vec<ColumnStats>,
}

/// The mathematical content of a [`DataFile`].
pub struct FileView {
    pub id: Seq<char>,
    pub path: Seq<char>,
    pub partition_values: Seq<PartitionView>,
    pub rows: nat,
    pub bytes: nat,
    pub stats: Seq<StatsView>,
}

impl View for DataFile {
    type V = FileView;

    open spec fn view(&self) -> FileView {
        FileView {
            id: self.id@,
            path: self.path@,
            partition_values: partition_view(self.partition_values@),
            rows: self.rows as nat,
            bytes: self.bytes as nat,
            stats: stats_view(self.stats@),
        }
    }
}

/// A copy of a list of strings.
pub fn copy_strings(v: &Vec<String>) -> (out: Vec<String>)
    ensures
        names_of(out@) == names_of(v@),
{
    let mut out: Vec<String> = Vec::new();
    let mut i: usize = 0;
    while i < v.len()
        invariant
            i <= v.len(),
            out@.len() == i,
            forall|j: int| 0 <= j < i ==> out@[j]@ == v@[j]@,
        decreases v.len() - i,
    {
        out.push(v[i].clone());
        i += 1;
    }
    assert(names_of(out@) =~= names_of(v@));
    out
}

impl DataFile {
    /// A copy with the same content.
    pub fn copy(&self) -> (out: DataFile)
        ensures
            out@ == self@,
    {
        let mut stats: Vec<ColumnStats> = Vec::new();
        let mut i: usize = 0;
        while i < self.stats.len()
            invariant
                i <= self.stats.len(),
                stats@.len() == i,
                forall|j: int| 0 <= j < i ==> stats@[j]@ == self.stats@[j]@,
            decreases self.stats.len() - i,
        {
            stats.push(self.stats[i].copy());
            i += 1;
        }
        assert(stats_view(stats@) =~= stats_view(self.stats@));
        let mut partition_values: Vec<PartitionValue> = Vec::new();
        let mut k: usize = 0;
        while k < self.partition_values.len()
            invariant
                k <= self.partition_values.len(),
                partition_values@.len() == k,
                forall|j: int| 0 <= j < k ==> partition_values@[j]@ == self.partition_values@[j]@,
            decreases self.partition_values.len() - k,
        {
            partition_values.push(self.partition_values[k].copy());
            k += 1;
        }
        assert(partition_view(partition_values@) =~= partition_view(self.partition_values@));
        DataFile {
            id: self.id.clone(),
            path: self.path.clone(),
            partition_values,
            rows: self.rows,
            bytes: self.bytes,
            stats,
        }
    }
}

/// The views of a list of files, in order.
pub open spec fn files_view(files: Seq<DataFile>) -> Seq<FileView> {
    files.map_values(|f: DataFile| f@)
}

/// The identifiers of a list of files, in order.
pub open spec fn ids_of(files: Seq<DataFile>) -> Seq<Seq<char>> {
    files.map_values(|f: DataFile| f.id@)
}

/// The kind of operation that a commit records.
#[derive(Debug, Clone, Copy, PartialEq, Eq, Structural)]
pub enum Operation {
    Create,
    Append,
    Delete,
    Optimize,
    Vacuum,
}

impl Operation {
    /// The name under which an operation is written into a commit entry.
    pub open spec fn spec_name(self) -> Seq<char> {
        match self {
            Operation::Create => "create"@,
            Operation::Append => "append"@,
            Operation::Delete => "delete"@,
            Operation::Optimize => "optimize"@,
            Operation::Vacuum => "vacuum"@,
        }
    }

    /// The name under which the operation is written into a commit entry.
    pub fn as_str(&self) -> (s: &'static str)
        ensures
            s@ == self.spec_name(),
    {
        match self {
            Operation::Create => "create",
            Operation::Append => "append",
            Operation::Delete => "delete",
            Operation::Optimize => "optimize",
            Operation::Vacuum => "vacuum",
        }
    }
}

/// One named parameter of an operation.
#[derive(Debug, Clone)]
pub struct Parameter {
    pub key: String,
    pub value: String,
}

/// One entry of the table log: an atomic step from one version to the next.
#[derive(Debug, Clone)]
pub struct CommitEntry {
    pub version: i64,
    /// Wall-clock time of the commit in milliseconds since the Unix epoch.
    pub timestamp_ms: i64,
    pub operation: Operation,
    pub parameters: Vec<Parameter>,
    /// The files that this commit adds, with their full metadata.
    pub adds: Vec<DataFile>,
    /// The identifiers of the files that this commit removes.
    pub removes: Vec<String>,
    /// The table's schema; present on the creation commit.
    pub schema: Option<TableSchema>,
}

impl CommitEntry {
    /// The identifiers that this commit adds.
    pub open spec fn added_ids(self) -> Seq<Seq<char>> {
        ids_of(self.adds@)
    }

    /// The identifiers that this commit removes.
    pub open spec fn removed_ids(self) -> Seq<Seq<char>> {
        names_of(self.removes@)
    }
}

} // verus!
