//! The log of one table, held in memory: creation, the compare-and-swap
//! commit, and reads of the head and of any earlier version.

use crate::error::LakehouseError;
use crate::log::entry::{files_view, ids_of, CommitEntry, DataFile, Operation, Parameter};
use crate::log::replay::{
    commit_follows, ever_added, ever_removed, lemma_live_is_added_minus_removed,
    lemma_prefix_determines, lemma_timestamps_increase, live_files, live_ids, not_among,
    well_formed,
};
use crate::json::parameters_to_json;
use crate::schema::TableSchema;
use crate::store::VersionInfo;
use crate::text::{names_of, str_eq};
use vstd::prelude::*;

verus! {

/// Whether `id` is among `ids`.
pub fn contains_id(ids: &Vec<String>, id: &str) -> (found: bool)
    ensures
        found == names_of(ids@).contains(id@),
{
    let mut i: usize = 0;
    while i < ids.len()
        invariant
            i <= ids.len(),
            forall|j: int| 0 <= j < i ==> names_of(ids@)[j] != id@,
        decreases ids.len() - i,
    {
        if str_eq(ids[i].as_str(), id) {
            assert(names_of(ids@)[i as int] == id@);
            return true;
        }
        i += 1;
    }
    false
}

/// Whether a file with the identifier `id` is among `files`.
pub fn contains_file(files: &Vec<DataFile>, id: &str) -> (found: bool)
    ensures
        found == ids_of(files@).contains(id@),
{
    let mut i: usize = 0;
    while i < files.len()
        invariant
            i <= files.len(),
            forall|j: int| 0 <= j < i ==> ids_of(files@)[j] != id@,
        decreases files.len() - i,
    {
        if str_eq(files[i].id.as_str(), id) {
            assert(ids_of(files@)[i as int] == id@);
            return true;
        }
        i += 1;
    }
    false
}

/// Whether no identifier occurs twice in `ids`.
pub fn all_distinct(ids: &Vec<String>) -> (distinct: bool)
    ensures
        distinct == names_of(ids@).no_duplicates(),
{
    let mut i: usize = 0;
    while i < ids.len()
        invariant
            i <= ids.len(),
            forall|a: int, b: int| 0 <= a < b < i ==> names_of(ids@)[a] != names_of(ids@)[b],
        decreases ids.len() - i,
    {
        let mut j: usize = 0;
        while j < i
            invariant
                j <= i,
                i < ids.len(),
                forall|a: int| 0 <= a < j ==> names_of(ids@)[a] != names_of(ids@)[i as int],
            decreases i - j,
        {
            if str_eq(ids[j].as_str(), ids[i].as_str()) {
                assert(names_of(ids@)[j as int] == names_of(ids@)[i as int]);
                return false;
            }
            j += 1;
        }
        i += 1;
    }
    true
}

/// The identifiers of a list of files, in order.
pub fn file_ids(files: &Vec<DataFile>) -> (ids: Vec<String>)
    ensures
        names_of(ids@) == ids_of(files@),
{
    let mut ids: Vec<String> = Vec::new();
    let mut i: usize = 0;
    while i < files.len()
        invariant
            i <= files.len(),
            ids@.len() == i,
            forall|j: int| 0 <= j < i ==> ids@[j]@ == files@[j].id@,
        decreases files.len() - i,
    {
        ids.push(files[i].id.clone());
        i += 1;
    }
    assert(names_of(ids@) =~= ids_of(files@));
    ids
}

/// The files of `files` followed by copies of `more`, without those whose
/// identifier is among `removed`.
pub fn extend_and_retain(files: &Vec<DataFile>, more: &Vec<DataFile>, removed: &Vec<String>) -> (out:
    Vec<DataFile>)
    ensures
        files_view(out@) == (files_view(files@) + files_view(more@)).filter(
            not_among(names_of(removed@)),
        ),
{
    let ghost keep = not_among(names_of(removed@));
    let mut out: Vec<DataFile> = Vec::new();
    let mut i: usize = 0;
    proof {
        reveal(Seq::filter);
        assert(files_view(files@).subrange(0, 0) =~= Seq::empty());
    }
    while i < files.len()
        invariant
            i <= files.len(),
            keep == not_among(names_of(removed@)),
            files_view(out@) == files_view(files@).subrange(0, i as int).filter(keep),
        decreases files.len() - i,
    {
        let ghost before = files_view(files@).subrange(0, i as int);
        proof {
            before.lemma_filter_push(files@[i as int]@, keep);
            assert(files_view(files@).subrange(0, i as int + 1) =~= before.push(files@[i as int]@));
        }
        if !contains_id(removed, files[i].id.as_str()) {
            let ghost prev = files_view(out@);
            out.push(files[i].copy());
            assert(files_view(out@) =~= prev.push(files@[i as int]@));
        }
        i += 1;
    }
    assert(files_view(files@).subrange(0, files@.len() as int) =~= files_view(files@));
    let ghost first = files_view(files@);
    let mut j: usize = 0;
    assert(first + files_view(more@).subrange(0, 0) =~= first);
    while j < more.len()
        invariant
            j <= more.len(),
            first == files_view(files@),
            keep == not_among(names_of(removed@)),
            files_view(out@) == (first + files_view(more@).subrange(0, j as int)).filter(keep),
        decreases more.len() - j,
    {
        let ghost before = first + files_view(more@).subrange(0, j as int);
        proof {
            before.lemma_filter_push(more@[j as int]@, keep);
            assert(first + files_view(more@).subrange(0, j as int + 1) =~= before.push(
                more@[j as int]@,
            ));
        }
        if !contains_id(removed, more[j].id.as_str()) {
            let ghost prev = files_view(out@);
            out.push(more[j].copy());
            assert(files_view(out@) =~= prev.push(more@[j as int]@));
        }
        j += 1;
    }
    assert(files_view(more@).subrange(0, more@.len() as int) =~= files_view(more@));
    out
}

/// The timestamp that a commit made at `now_ms` receives after a commit
/// stamped `previous_ms`: the clock's reading, or one millisecond after
/// the previous commit where the clock has not advanced beyond it.
pub open spec fn monotonized(previous_ms: int, now_ms: int) -> int {
    if now_ms > previous_ms {
        now_ms
    } else {
        previous_ms + 1
    }
}

/// Why a commit is refused, or that it is accepted.
pub enum CommitVerdict {
    /// The commit is appended as the next version.
    Accepted,
    /// Another commit already holds the version after the base.
    Conflict,
    /// The base version lies beyond the head.
    UnknownBase,
    /// The table exists; only its first commit creates it.
    AlreadyCreated,
    /// The commit would break the log's invariants.
    Invalid,
}

/// The verdict on a commit on top of `base` that adds files with the
/// identifiers `adds` and removes those with the identifiers `removes`.
pub open spec fn verdict(
    commits: Seq<CommitEntry>,
    base: int,
    operation: Operation,
    adds: Seq<Seq<char>>,
    removes: Seq<Seq<char>>,
) -> CommitVerdict {
    let head = commits.len() - 1;
    if base > head || base < 0 {
        CommitVerdict::UnknownBase
    } else if base < head {
        CommitVerdict::Conflict
    } else if operation is Create {
        CommitVerdict::AlreadyCreated
    } else if commits.last().timestamp_ms < i64::MAX && commits.len() < i64::MAX
        && adds.no_duplicates() && removes.no_duplicates() && (forall|id: Seq<char>| #[trigger]
        adds.contains(id) ==> !ever_added(commits, commits.len() as int).contains(id)) && (forall|
        id: Seq<char>,
    | #[trigger]
        removes.contains(id) ==> live_ids(commits, commits.len() as int).contains(id)) {
        CommitVerdict::Accepted
    } else {
        CommitVerdict::Invalid
    }
}

/// The state of a table at one version.
#[derive(Debug, Clone)]
pub struct TableState {
    pub version: i64,
    /// The time of the version's commit.
    pub timestamp_ms: i64,
    /// The files alive at the version, in the order in which they were
    /// added.
    pub files: Vec<DataFile>,
}

/// A summary of the file-set of one version.
#[derive(Debug, Clone)]
pub struct Checkpoint {
    /// The version that the checkpoint summarizes.
    pub version: i64,
    /// The files alive at that version, in the order in which they were
    /// added.
    pub files: Vec<DataFile>,
}

impl Checkpoint {
    /// Whether the checkpoint holds the file-set that a replay of
    /// `commits` gives for its version.
    pub open spec fn summarizes(self, commits: Seq<CommitEntry>) -> bool {
        &&& 0 <= self.version < commits.len()
        &&& files_view(self.files@) == live_files(commits, self.version + 1)
    }
}

/// The log of one table.
#[derive(Debug, Clone)]
pub struct TableLog {
    pub(crate) name: String,
    pub(crate) commits: Vec<CommitEntry>,
}

impl TableLog {
    /// The table's name.
    pub open(crate) spec fn table(&self) -> Seq<char> {
        self.name@
    }

    /// The log's entries, oldest first.
    pub open(crate) spec fn entries(&self) -> Seq<CommitEntry> {
        self.commits@
    }

    /// The invariant of a log: its entries form a valid log whose versions
    /// fit the version type.
    pub open spec fn wf(&self) -> bool {
        &&& well_formed(self.entries())
        &&& self.entries().len() <= i64::MAX
    }

    /// The newest version.
    pub open spec fn spec_head(&self) -> int {
        self.entries().len() - 1
    }

    /// Creates a table: a log that holds the creation commit, version 0,
    /// which records the schema and adds no files.
    pub fn create(name: &str, schema: TableSchema, now_ms: i64) -> (log: TableLog)
        ensures
            log.wf(),
            log.table() == name@,
            log.spec_head() == 0,
            log.entries()[0].timestamp_ms == now_ms,
            log.entries()[0].schema == Some(schema),
            log.entries()[0].parameters@.len() == 0,
    {
        let entry = CommitEntry {
            version: 0,
            timestamp_ms: now_ms,
            operation: Operation::Create,
            parameters: Vec::new(),
            adds: Vec::new(),
            removes: Vec::new(),
            schema: Some(schema),
        };
        let mut commits: Vec<CommitEntry> = Vec::new();
        commits.push(entry);
        proof {
            assert(entry.added_ids() =~= Seq::empty());
            assert(entry.removed_ids() =~= Seq::empty());
            assert(commit_follows(commits@, 0));
        }
        TableLog { name: String::from_str(name), commits }
    }

    /// Appends an entry that was read from the log's directory, if it
    /// may follow the entries read before it. An entry that may not is
    /// refused as a storage error, and the log is left as it is.
    pub fn push_entry(&mut self, entry: CommitEntry) -> (result: Result<(), LakehouseError>)
        requires
            old(self).wf(),
        ensures
            final(self).wf(),
            final(self).table() == old(self).table(),
            match result {
                Ok(_) => {
                    &&& commit_follows(
                        old(self).entries().push(entry),
                        old(self).entries().len() as int,
                    )
                    &&& final(self).entries() == old(self).entries().push(entry)
                },
                Err(e) => {
                    &&& !commit_follows(
                        old(self).entries().push(entry),
                        old(self).entries().len() as int,
                    ) || old(self).entries().len() == i64::MAX
                    &&& final(self).entries() == old(self).entries()
                    &&& e is DeltaTable
                },
            },
    {
        let ghost before = self.commits@;
        let ghost after = before.push(entry);
        proof {
            lemma_prefix_determines(before, after, before.len() as int);
        }
        let count = self.commits.len();
        let head = self.head();
        let previous_ms = self.commits[count - 1].timestamp_ms;
        let is_create = match entry.operation {
            Operation::Create => true,
            _ => false,
        };
        let add_ids = file_ids(&entry.adds);
        if head == i64::MAX - 1 || entry.version != head + 1 || is_create || entry.timestamp_ms
            <= previous_ms || !all_distinct(&add_ids) || !all_distinct(&entry.removes)
            || !self.all_fresh(&entry.adds) || !self.all_live(&entry.removes) {
            return Err(
                LakehouseError::DeltaTable(
                    String::from_str("the log holds an entry that does not follow its predecessors"),
                ),
            );
        }
        self.commits.push(entry);
        proof {
            assert forall|i: int| 0 <= i < after.len() implies #[trigger] commit_follows(
                after,
                i,
            ) by {
                lemma_prefix_determines(before, after, i);
                if i < before.len() {
                    assert(commit_follows(before, i));
                }
            }
        }
        Ok(())
    }

    /// Opens the log of a table from the entries that were read from its
    /// directory, oldest first. Entries that do not form a valid log are
    /// refused as a storage error.
    pub fn open(name: &str, entries: Vec<CommitEntry>) -> (result: Result<TableLog, LakehouseError>)
        ensures
            match result {
                Ok(log) => {
                    &&& well_formed(entries@)
                    &&& log.wf()
                    &&& log.table() == name@
                    &&& log.entries() == entries@
                },
                Err(e) => {
                    &&& !well_formed(entries@) || entries@.len() > i64::MAX
                    &&& e is DeltaTable
                },
            },
    {
        let mut rest = entries;
        if rest.len() == 0 {
            return Err(LakehouseError::DeltaTable(String::from_str("the log is empty")));
        }
        let first = rest.remove(0);
        let is_create = match first.operation {
            Operation::Create => true,
            _ => false,
        };
        let has_schema = match &first.schema {
            Some(_) => true,
            None => false,
        };
        if !(first.version == 0 && is_create && has_schema && first.adds.len() == 0
            && first.removes.len() == 0) {
            proof {
                assert(entries@[0] == first);
                if well_formed(entries@) {
                    assert(commit_follows(entries@, 0));
                }
            }
            return Err(
                LakehouseError::DeltaTable(
                    String::from_str("the log does not start with the creation of the table"),
                ),
            );
        }
        let mut commits: Vec<CommitEntry> = Vec::new();
        commits.push(first);
        proof {
            assert(first.added_ids() =~= Seq::empty());
            assert(first.removed_ids() =~= Seq::empty());
            assert(commit_follows(commits@, 0));
        }
        let mut log = TableLog { name: String::from_str(name), commits };
        let ghost mut i: int = 1;
        assert(log.entries() =~= entries@.subrange(0, 1));
        while rest.len() > 0
            invariant
                1 <= i <= entries@.len(),
                log.wf(),
                log.table() == name@,
                log.entries() == entries@.subrange(0, i),
                rest@ == entries@.subrange(i, entries@.len() as int),
            decreases rest.len(),
        {
            let entry = rest.remove(0);
            assert(entry == entries@[i]);
            let ghost before = log.entries();
            match log.push_entry(entry) {
                Ok(_) => {},
                Err(e) => {
                    proof {
                        if well_formed(entries@) && entries@.len() <= i64::MAX {
                            assert(commit_follows(entries@, i));
                            lemma_prefix_determines(entries@, before.push(entry), i);
                        }
                    }
                    return Err(e);
                },
            }
            assert(log.entries() =~= entries@.subrange(0, i + 1));
            assert(rest@ =~= entries@.subrange(i + 1, entries@.len() as int));
            proof {
                i = i + 1;
            }
        }
        assert(entries@.subrange(0, entries@.len() as int) =~= entries@);
        Ok(log)
    }

    /// The table's name.
    pub fn name(&self) -> (name: &String)
        ensures
            name@ == self.table(),
    {
        &self.name
    }

    /// The newest version of the table.
    pub fn head(&self) -> (version: i64)
        requires
            self.wf(),
        ensures
            version == self.spec_head(),
    {
        (self.commits.len() - 1) as i64
    }

    /// The entry of a version, if the log holds it.
    pub fn entry(&self, version: i64) -> (entry: Option<&CommitEntry>)
        requires
            self.wf(),
        ensures
            match entry {
                Some(e) => 0 <= version <= self.spec_head() && *e == self.entries()[version as int],
                None => version < 0 || version > self.spec_head(),
            },
    {
        let count = self.commits.len();
        if version < 0 || version > self.head() {
            None
        } else {
            assert(version < count);
            Some(&self.commits[version as usize])
        }
    }

    /// Whether any commit of the log added a file with this identifier.
    pub fn was_added(&self, id: &str) -> (found: bool)
        ensures
            found == ever_added(self.entries(), self.entries().len() as int).contains(id@),
    {
        let mut i: usize = 0;
        while i < self.commits.len()
            invariant
                i <= self.commits.len(),
                !ever_added(self.commits@, i as int).contains(id@),
            decreases self.commits.len() - i,
        {
            if contains_file(&self.commits[i].adds, id) {
                proof {
                    lemma_added_stays(self.commits@, i as int + 1, self.commits@.len() as int, id@);
                }
                return true;
            }
            i += 1;
        }
        false
    }

    /// Whether any commit of the log removed the file with this identifier.
    pub fn was_removed(&self, id: &str) -> (found: bool)
        ensures
            found == ever_removed(self.entries(), self.entries().len() as int).contains(id@),
    {
        let mut i: usize = 0;
        while i < self.commits.len()
            invariant
                i <= self.commits.len(),
                !ever_removed(self.commits@, i as int).contains(id@),
            decreases self.commits.len() - i,
        {
            if contains_id(&self.commits[i].removes, id) {
                proof {
                    lemma_removed_stays(
                        self.commits@,
                        i as int + 1,
                        self.commits@.len() as int,
                        id@,
                    );
                }
                return true;
            }
            i += 1;
        }
        false
    }

    /// Whether none of `adds` carries an identifier that the log has
    /// added before.
    fn all_fresh(&self, adds: &Vec<DataFile>) -> (fresh: bool)
        ensures
            fresh == (forall|id: Seq<char>| #[trigger]
                ids_of(adds@).contains(id) ==> !ever_added(
                    self.entries(),
                    self.entries().len() as int,
                ).contains(id)),
    {
        let mut i: usize = 0;
        while i < adds.len()
            invariant
                i <= adds.len(),
                forall|j: int|
                    0 <= j < i ==> !ever_added(
                        self.commits@,
                        self.commits@.len() as int,
                    ).contains(#[trigger] ids_of(adds@)[j]),
            decreases adds.len() - i,
        {
            if self.was_added(adds[i].id.as_str()) {
                assert(ids_of(adds@).contains(ids_of(adds@)[i as int]));
                return false;
            }
            i += 1;
        }
        true
    }

    /// Whether every identifier of `removes` is alive at the head.
    fn all_live(&self, removes: &Vec<String>) -> (live: bool)
        requires
            self.wf(),
        ensures
            live == (forall|id: Seq<char>| #[trigger]
                names_of(removes@).contains(id) ==> live_ids(
                    self.entries(),
                    self.entries().len() as int,
                ).contains(id)),
    {
        let mut i: usize = 0;
        while i < removes.len()
            invariant
                self.wf(),
                i <= removes.len(),
                forall|j: int|
                    0 <= j < i ==> live_ids(self.commits@, self.commits@.len() as int).contains(
                        #[trigger] names_of(removes@)[j],
                    ),
            decreases removes.len() - i,
        {
            if !self.is_live(removes[i].as_str()) {
                assert(names_of(removes@).contains(names_of(removes@)[i as int]));
                return false;
            }
            i += 1;
        }
        true
    }

    /// Appends one commit on top of `base_version`, as a compare-and-swap
    /// on the version after it.
    ///
    /// The commit takes version `base_version + 1` when the base is the
    /// head and the commit keeps the log valid. Its timestamp is `now_ms`,
    /// or one millisecond after the previous commit where the clock has
    /// not advanced. A base behind the head is a conflict: another writer
    /// holds that version. Any refusal leaves the log unchanged.
    pub fn commit(
        &mut self,
        base_version: i64,
        operation: Operation,
        parameters: Vec<Parameter>,
        adds: Vec<DataFile>,
        removes: Vec<String>,
        now_ms: i64,
    ) -> (result: Result<i64, LakehouseError>)
        requires
            old(self).wf(),
        ensures
            final(self).wf(),
            final(self).table() == old(self).table(),
            result matches Ok(version) ==> version == old(self).spec_head() + 1
                && final(self).spec_head() == version,
            result is Err ==> final(self).entries() == old(self).entries(),
            match verdict(
                old(self).entries(),
                base_version as int,
                operation,
                ids_of(adds@),
                names_of(removes@),
            ) {
                CommitVerdict::Accepted => {
                    &&& result == Ok::<i64, LakehouseError>((base_version + 1) as i64)
                    &&& final(self).entries() == old(self).entries().push(
                        CommitEntry {
                            version: (base_version + 1) as i64,
                            timestamp_ms: monotonized(
                                old(self).entries().last().timestamp_ms as int,
                                now_ms as int,
                            ) as i64,
                            operation,
                            parameters,
                            adds,
                            removes,
                            schema: None,
                        },
                    )
                },
                CommitVerdict::Conflict => {
                    &&& result matches Err(LakehouseError::CommitConflict { table, version })
                    &&& table@ == old(self).table()
                    &&& version == base_version + 1
                    &&& final(self).entries() == old(self).entries()
                },
                CommitVerdict::UnknownBase => {
                    &&& result matches Err(LakehouseError::VersionNotFound { table, version })
                    &&& table@ == old(self).table()
                    &&& version == base_version
                    &&& final(self).entries() == old(self).entries()
                },
                CommitVerdict::AlreadyCreated => {
                    &&& result matches Err(LakehouseError::TableAlreadyExists(table))
                    &&& table@ == old(self).table()
                    &&& final(self).entries() == old(self).entries()
                },
                CommitVerdict::Invalid => {
                    &&& result matches Err(LakehouseError::Internal(_))
                    &&& final(self).entries() == old(self).entries()
                },
            },
    {
        let head = self.head();
        if base_version > head || base_version < 0 {
            return Err(
                LakehouseError::VersionNotFound { table: self.name.clone(), version: base_version },
            );
        }
        if base_version < head {
            return Err(
                LakehouseError::CommitConflict {
                    table: self.name.clone(),
                    version: base_version + 1,
                },
            );
        }
        match operation {
            Operation::Create => {
                return Err(LakehouseError::TableAlreadyExists(self.name.clone()));
            },
            _ => {},
        }
        let count = self.commits.len();
        let previous_ms = self.commits[count - 1].timestamp_ms;
        if previous_ms == i64::MAX || head == i64::MAX - 1 {
            return Err(LakehouseError::Internal(String::from_str("the log is full")));
        }
        let add_ids = file_ids(&adds);
        if !all_distinct(&add_ids) || !all_distinct(&removes) {
            return Err(
                LakehouseError::Internal(String::from_str("a file is named twice in one commit")),
            );
        }
        if !self.all_fresh(&adds) {
            return Err(
                LakehouseError::Internal(String::from_str("a file identifier is used again")),
            );
        }
        if !self.all_live(&removes) {
            return Err(
                LakehouseError::Internal(String::from_str("a removed file is not alive")),
            );
        }
        let timestamp_ms = if now_ms > previous_ms {
            now_ms
        } else {
            previous_ms + 1
        };
        let entry = CommitEntry {
            version: base_version + 1,
            timestamp_ms,
            operation,
            parameters,
            adds,
            removes,
            schema: None,
        };
        self.commits.push(entry);
        proof {
            let before = old(self).commits@;
            let after = self.commits@;
            assert forall|i: int| 0 <= i < after.len() implies #[trigger] commit_follows(
                after,
                i,
            ) by {
                lemma_prefix_determines(before, after, i);
                if i < before.len() {
                    assert(commit_follows(before, i));
                }
            }
        }
        Ok(base_version + 1)
    }

    /// The file-set of a version: the files alive after replaying the
    /// commits up to and including `version`, in the order in which they
    /// were added. A version below 0 or beyond the head is not found.
    pub fn live_files_at(&self, version: i64) -> (result: Result<Vec<DataFile>, LakehouseError>)
        requires
            self.wf(),
        ensures
            match result {
                Ok(files) => {
                    &&& 0 <= version <= self.spec_head()
                    &&& files_view(files@) == live_files(self.entries(), version + 1)
                },
                Err(e) => {
                    &&& version < 0 || version > self.spec_head()
                    &&& e matches LakehouseError::VersionNotFound { table, version: v }
                    &&& table@ == self.table()
                    &&& v == version
                },
            },
    {
        let count = self.commits.len();
        if version < 0 || version > self.head() {
            return Err(
                LakehouseError::VersionNotFound { table: self.name.clone(), version },
            );
        }
        let last = version as usize;
        let mut live: Vec<DataFile> = Vec::new();
        let mut n: usize = 0;
        assert(files_view(live@) =~= live_files(self.commits@, 0));
        while n <= last
            invariant
                n <= last + 1,
                last < self.commits.len(),
                files_view(live@) == live_files(self.commits@, n as int),
            decreases last + 1 - n,
        {
            let c = &self.commits[n];
            live = extend_and_retain(&live, &c.adds, &c.removes);
            n += 1;
        }
        Ok(live)
    }

    /// The schema that the table was created with.
    pub fn schema(&self) -> (schema: &TableSchema)
        requires
            self.wf(),
        ensures
            self.entries()[0].schema == Some(*schema),
    {
        proof {
            assert(commit_follows(self.commits@, 0));
        }
        match &self.commits[0].schema {
            Some(schema) => schema,
            // The creation commit of a valid log records the schema.
            None => vstd::pervasive::unreached(),
        }
    }

    /// The state of the table at a version: the files alive after the
    /// commits up to and including it, and the time of its commit.
    pub fn read_state(&self, version: i64) -> (result: Result<TableState, LakehouseError>)
        requires
            self.wf(),
        ensures
            match result {
                Ok(state) => {
                    &&& 0 <= version <= self.spec_head()
                    &&& state.version == version
                    &&& state.timestamp_ms == self.entries()[version as int].timestamp_ms
                    &&& files_view(state.files@) == live_files(self.entries(), version + 1)
                },
                Err(e) => {
                    &&& version < 0 || version > self.spec_head()
                    &&& e matches LakehouseError::VersionNotFound { table, version: v }
                    &&& table@ == self.table()
                    &&& v == version
                },
            },
    {
        match self.live_files_at(version) {
            Ok(files) => {
                let count = self.commits.len();
                assert(version < count);
                let timestamp_ms = self.commits[version as usize].timestamp_ms;
                Ok(TableState { version, timestamp_ms, files })
            },
            Err(e) => Err(e),
        }
    }

    /// Summarizes the file-set of a version, so that readers need not
    /// replay the log from its start.
    pub fn checkpoint(&self, version: i64) -> (result: Result<Checkpoint, LakehouseError>)
        requires
            self.wf(),
        ensures
            match result {
                Ok(checkpoint) => {
                    &&& 0 <= version <= self.spec_head()
                    &&& checkpoint.version == version
                    &&& checkpoint.summarizes(self.entries())
                },
                Err(e) => {
                    &&& version < 0 || version > self.spec_head()
                    &&& e matches LakehouseError::VersionNotFound { table, version: v }
                    &&& table@ == self.table()
                    &&& v == version
                },
            },
    {
        match self.live_files_at(version) {
            Ok(files) => Ok(Checkpoint { version, files }),
            Err(e) => Err(e),
        }
    }

    /// The file-set of a version at or after a checkpoint, replayed from
    /// the checkpoint on: the same files as a replay from the log's start
    /// gives.
    pub fn live_files_since(&self, checkpoint: &Checkpoint, version: i64) -> (result: Result<
        Vec<DataFile>,
        LakehouseError,
    >)
        requires
            self.wf(),
            checkpoint.summarizes(self.entries()),
        ensures
            match result {
                Ok(files) => {
                    &&& checkpoint.version <= version <= self.spec_head()
                    &&& files_view(files@) == live_files(self.entries(), version + 1)
                },
                Err(e) => {
                    &&& version < checkpoint.version || version > self.spec_head()
                    &&& e matches LakehouseError::VersionNotFound { table, version: v }
                    &&& table@ == self.table()
                    &&& v == version
                },
            },
    {
        let count = self.commits.len();
        if version < checkpoint.version || version > self.head() {
            return Err(
                LakehouseError::VersionNotFound { table: self.name.clone(), version },
            );
        }
        let last = version as usize;
        let mut live: Vec<DataFile> = Vec::new();
        let mut k: usize = 0;
        while k < checkpoint.files.len()
            invariant
                k <= checkpoint.files.len(),
                live@.len() == k,
                forall|j: int| 0 <= j < k ==> live@[j]@ == checkpoint.files@[j]@,
            decreases checkpoint.files.len() - k,
        {
            live.push(checkpoint.files[k].copy());
            k += 1;
        }
        assert(files_view(live@) =~= files_view(checkpoint.files@));
        let mut n: usize = checkpoint.version as usize + 1;
        while n <= last
            invariant
                n <= last + 1,
                last < self.commits.len(),
                files_view(live@) == live_files(self.commits@, n as int),
            decreases last + 1 - n,
        {
            let c = &self.commits[n];
            live = extend_and_retain(&live, &c.adds, &c.removes);
            n += 1;
        }
        Ok(live)
    }

    /// The file-set at the head.
    pub fn live_files(&self) -> (files: Vec<DataFile>)
        requires
            self.wf(),
        ensures
            files_view(files@) == live_files(self.entries(), self.entries().len() as int),
    {
        match self.live_files_at(self.head()) {
            Ok(files) => files,
            Err(_) => Vec::new(),
        }
    }

    /// The timestamp of a version, if the log holds it.
    pub fn timestamp_of(&self, version: i64) -> (timestamp: Option<i64>)
        requires
            self.wf(),
        ensures
            match timestamp {
                Some(t) => 0 <= version <= self.spec_head() && t == self.entries()[
                    version as int
                ].timestamp_ms,
                None => version < 0 || version > self.spec_head(),
            },
    {
        match self.entry(version) {
            Some(e) => Some(e.timestamp_ms),
            None => None,
        }
    }

    /// The version that was the head at time `timestamp_ms`: the greatest
    /// version whose commit is stamped at or before it. Before the
    /// table's creation no version is found.
    pub fn version_at_timestamp(&self, timestamp_ms: i64) -> (result: Result<i64, LakehouseError>)
        requires
            self.wf(),
        ensures
            match result {
                Ok(v) => {
                    &&& 0 <= v <= self.spec_head()
                    &&& self.entries()[v as int].timestamp_ms <= timestamp_ms
                    &&& forall|w: int|
                        v < w <= self.spec_head() ==> timestamp_ms < (#[trigger] self.entries()[w]).timestamp_ms
                },
                Err(e) => {
                    &&& forall|w: int|
                        0 <= w <= self.spec_head() ==> timestamp_ms < (#[trigger] self.entries()[w]).timestamp_ms
                    &&& e matches LakehouseError::VersionNotFound { table, version }
                    &&& table@ == self.table()
                    &&& version == -1
                },
            },
    {
        if timestamp_ms < self.commits[0].timestamp_ms {
            proof {
                assert forall|w: int| 0 <= w <= self.spec_head() implies timestamp_ms < (
                #[trigger] self.entries()[w]).timestamp_ms by {
                    lemma_timestamps_increase(self.commits@, 0, w);
                }
            }
            return Err(
                LakehouseError::VersionNotFound { table: self.name.clone(), version: -1 },
            );
        }
        // Invariant: entry `low` is stamped at or before the time asked for,
        // every entry from `high` on after it.
        let mut low: usize = 0;
        let mut high: usize = self.commits.len();
        while high - low > 1
            invariant
                self.wf(),
                low < high <= self.commits.len(),
                self.commits@[low as int].timestamp_ms <= timestamp_ms,
                forall|w: int|
                    high <= w < self.commits@.len() ==> timestamp_ms < (#[trigger] self.commits@[w]).timestamp_ms,
            decreases high - low,
        {
            let mid = low + (high - low) / 2;
            if self.commits[mid].timestamp_ms <= timestamp_ms {
                low = mid;
            } else {
                proof {
                    assert forall|w: int| mid <= w < self.commits@.len() implies timestamp_ms < (
                    #[trigger] self.commits@[w]).timestamp_ms by {
                        lemma_timestamps_increase(self.commits@, mid as int, w);
                    }
                }
                high = mid;
            }
        }
        Ok(low as i64)
    }

    /// The most recent commits, newest first: all of them, or the `limit`
    /// newest where a limit is given.
    pub fn history(&self, limit: Option<usize>) -> (infos: Vec<VersionInfo>)
        requires
            self.wf(),
        ensures
            infos@.len() == match limit {
                Some(n) => if n < self.entries().len() {
                    n as int
                } else {
                    self.entries().len() as int
                },
                None => self.entries().len() as int,
            },
            forall|i: int|
                0 <= i < infos@.len() ==> (#[trigger] infos@[i]).describes(
                    self.entries()[self.spec_head() - i],
                ),
    {
        let count = self.commits.len();
        let wanted = match limit {
            Some(n) => if n < count {
                n
            } else {
                count
            },
            None => count,
        };
        let mut infos: Vec<VersionInfo> = Vec::new();
        let mut i: usize = 0;
        while i < wanted
            invariant
                count == self.commits.len(),
                wanted <= count,
                i <= wanted,
                infos@.len() == i,
                forall|j: int|
                    0 <= j < i ==> (#[trigger] infos@[j]).describes(
                        self.commits@[count - 1 - j],
                    ),
            decreases wanted - i,
        {
            let entry = &self.commits[count - 1 - i];
            infos.push(
                VersionInfo {
                    version: entry.version,
                    timestamp: Some(entry.timestamp_ms),
                    operation: Some(String::from_str(entry.operation.as_str())),
                    parameters: Some(parameters_to_json(&entry.parameters)),
                },
            );
            i += 1;
        }
        infos
    }

    /// Whether the file with this identifier is alive at the head.
    pub fn is_live(&self, id: &str) -> (live: bool)
        requires
            self.wf(),
        ensures
            live == live_ids(self.entries(), self.entries().len() as int).contains(id@),
    {
        proof {
            lemma_live_is_added_minus_removed(self.commits@, self.commits@.len() as int);
        }
        self.was_added(id) && !self.was_removed(id)
    }
}

/// Versions are handed out in order: a commit is accepted only on top of
/// the head, and then the log that holds it has the entry's version as its
/// new head, one above the old.
pub proof fn lemma_versions_are_contiguous(
    commits: Seq<CommitEntry>,
    base: int,
    operation: Operation,
    adds: Seq<Seq<char>>,
    removes: Seq<Seq<char>>,
    entry: CommitEntry,
)
    requires
        well_formed(commits),
        verdict(commits, base, operation, adds, removes) is Accepted,
        well_formed(commits.push(entry)),
    ensures
        base == commits.len() - 1,
        entry.version == base + 1,
        forall|i: int| 0 <= i < commits.len() ==> (#[trigger] commits[i]).version == i,
        forall|i: int| 0 <= i < commits.len() ==> (#[trigger] commits[i]).version < entry.version,
{
    let after = commits.push(entry);
    assert(commit_follows(after, commits.len() as int));
    assert forall|i: int| 0 <= i < commits.len() implies (#[trigger] commits[i]).version == i by {
        assert(commit_follows(commits, i));
    }
}

/// Two writers that start from the same head cannot both take the next
/// version. Once the first has committed, the second is refused with a
/// conflict on its old base. On top of the new head it is no longer in
/// conflict, and an append whose files are new to the log is accepted
/// there, at a version above the first writer's.
pub proof fn lemma_conflict_safety(
    commits: Seq<CommitEntry>,
    first: CommitEntry,
    operation: Operation,
    adds: Seq<Seq<char>>,
    removes: Seq<Seq<char>>,
)
    requires
        well_formed(commits),
        well_formed(commits.push(first)),
    ensures
        verdict(commits.push(first), commits.len() - 1, operation, adds, removes) is Conflict,
        !(verdict(commits.push(first), commits.len() as int, operation, adds, removes)
            is Conflict),
        !(verdict(commits.push(first), commits.len() as int, operation, adds, removes)
            is UnknownBase),
        ({
            &&& operation is Append
            &&& removes.len() == 0
            &&& verdict(commits, commits.len() - 1, operation, adds, removes) is Accepted
            &&& forall|id: Seq<char>| #[trigger]
                adds.contains(id) ==> !first.added_ids().contains(id)
            &&& first.timestamp_ms < i64::MAX
            &&& commits.len() + 1 < i64::MAX
        }) ==> verdict(commits.push(first), commits.len() as int, operation, adds, removes)
            is Accepted,
{
    let after = commits.push(first);
    lemma_prefix_determines(commits, after, commits.len() as int);
}

/// What the first `n` commits added, the first `m >= n` commits added too.
pub proof fn lemma_added_stays(commits: Seq<CommitEntry>, n: int, m: int, id: Seq<char>)
    requires
        n <= m,
        ever_added(commits, n).contains(id),
    ensures
        ever_added(commits, m).contains(id),
    decreases m - n,
{
    if n < m {
        lemma_added_stays(commits, n, m - 1, id);
    }
}

/// What the first `n` commits removed, the first `m >= n` commits removed
/// too.
pub proof fn lemma_removed_stays(commits: Seq<CommitEntry>, n: int, m: int, id: Seq<char>)
    requires
        n <= m,
        ever_removed(commits, n).contains(id),
    ensures
        ever_removed(commits, m).contains(id),
    decreases m - n,
{
    if n < m {
        lemma_removed_stays(commits, n, m - 1, id);
    }
}

} // verus!
