//! Vacuum: which data files may be deleted without breaking a read of any
//! version that is still within the retention period.

use crate::error::LakehouseError;
use crate::log::entry::CommitEntry;
use crate::log::layout::{starts_with, LOG_PREFIX};
use crate::log::replay::{
    lemma_timestamps_increase, live_ids, well_formed,
};
use crate::log::table::{contains_file, contains_id, TableLog};
use crate::text::{names_of, str_eq};
use vstd::prelude::*;

verus! {

/// The number of milliseconds in an hour.
pub const MS_PER_HOUR: i64 = 3_600_000;

/// The retention horizon: the time `retention_hours` before `now_ms`.
pub open spec fn horizon(now_ms: int, retention_hours: int) -> int {
    now_ms - retention_hours * 3_600_000
}

/// The identifiers that a commit stamped at or after `horizon_ms` among
/// the first `n` commits adds or removes.
pub open spec fn referenced_since(commits: Seq<CommitEntry>, n: int, horizon_ms: int) -> Set<
    Seq<char>,
>
    decreases n,
{
    if n <= 0 {
        Set::empty()
    } else if commits[n - 1].timestamp_ms >= horizon_ms {
        referenced_since(commits, n - 1, horizon_ms).union(
            commits[n - 1].added_ids().to_set(),
        ).union(commits[n - 1].removed_ids().to_set())
    } else {
        referenced_since(commits, n - 1, horizon_ms)
    }
}

/// The identifiers that vacuum retains: those alive at the head, and those
/// that a commit within the retention period refers to.
pub open spec fn retained(commits: Seq<CommitEntry>, horizon_ms: int) -> Set<Seq<char>> {
    live_ids(commits, commits.len() as int).union(
        referenced_since(commits, commits.len() as int, horizon_ms),
    )
}

/// Whether `path` is the path of a file that the log added and that
/// vacuum retains.
pub open spec fn is_retained_path(commits: Seq<CommitEntry>, horizon_ms: int, path: Seq<char>) -> bool {
    exists|i: int, k: int|
        #![trigger commits[i].adds@[k]]
        0 <= i < commits.len() && 0 <= k < commits[i].adds@.len() && commits[i].adds@[k].path@
            == path && retained(commits, horizon_ms).contains(commits[i].adds@[k].id@)
}

/// Whether a key below a table's directory names a data file: every key
/// outside the log's directory does.
pub open spec fn is_data_key(key: Seq<char>) -> bool {
    !(LOG_PREFIX@.len() <= key.len() && key.subrange(0, LOG_PREFIX@.len() as int) == LOG_PREFIX@)
}

/// The test that vacuum deletes a key: it names a data file that is not
/// retained.
pub open spec fn deletable(commits: Seq<CommitEntry>, horizon_ms: int) -> spec_fn(Seq<char>) -> bool {
    |key: Seq<char>| is_data_key(key) && !is_retained_path(commits, horizon_ms, key)
}

/// What was referenced within the retention period by the first `n`
/// commits is referenced by the first `m >= n` commits too.
pub proof fn lemma_referenced_stays(
    commits: Seq<CommitEntry>,
    n: int,
    m: int,
    horizon_ms: int,
    id: Seq<char>,
)
    requires
        n <= m,
        referenced_since(commits, n, horizon_ms).contains(id),
    ensures
        referenced_since(commits, m, horizon_ms).contains(id),
    decreases m - n,
{
    if n < m {
        lemma_referenced_stays(commits, n, m - 1, horizon_ms, id);
    }
}

/// A file that was alive at a version committed within the retention
/// period is alive or referenced after any number of later commits.
proof fn lemma_live_then_kept(
    commits: Seq<CommitEntry>,
    version: int,
    m: int,
    horizon_ms: int,
    id: Seq<char>,
)
    requires
        well_formed(commits),
        0 <= version < m <= commits.len(),
        commits[version].timestamp_ms >= horizon_ms,
        live_ids(commits, version + 1).contains(id),
    ensures
        live_ids(commits, m).contains(id) || referenced_since(commits, m, horizon_ms).contains(id),
    decreases m,
{
    if m > version + 1 {
        lemma_live_then_kept(commits, version, m - 1, horizon_ms, id);
        lemma_timestamps_increase(commits, version, m - 1);
        if referenced_since(commits, m - 1, horizon_ms).contains(id) {
            lemma_referenced_stays(commits, m - 1, m, horizon_ms, id);
        }
    }
}

/// Vacuum is sound: a file that is alive at the head, or at any version
/// committed within the retention period, is retained.
pub proof fn lemma_vacuum_retains_readable_files(
    commits: Seq<CommitEntry>,
    version: int,
    horizon_ms: int,
    id: Seq<char>,
)
    requires
        well_formed(commits),
        0 <= version < commits.len(),
        version == commits.len() - 1 || commits[version].timestamp_ms >= horizon_ms,
        live_ids(commits, version + 1).contains(id),
    ensures
        retained(commits, horizon_ms).contains(id),
{
    if version < commits.len() - 1 {
        lemma_live_then_kept(commits, version, commits.len() as int, horizon_ms, id);
    }
}

/// Vacuum collects orphans: a data file's key that is the path of no file
/// that the log ever added is deleted.
pub proof fn lemma_vacuum_deletes_orphans(
    commits: Seq<CommitEntry>,
    horizon_ms: int,
    key: Seq<char>,
)
    requires
        is_data_key(key),
        forall|i: int, k: int|
            0 <= i < commits.len() && 0 <= k < commits[i].adds@.len() ==> (
            #[trigger] commits[i].adds@[k]).path@ != key,
    ensures
        deletable(commits, horizon_ms)(key),
{
}

/// What a vacuum plans to delete: the keys of the listing that name a
/// data file that is not retained, and nothing else. No object of the
/// log's directory is among them.
pub proof fn lemma_vacuum_plan(
    listing: Seq<Seq<char>>,
    commits: Seq<CommitEntry>,
    horizon_ms: int,
    key: Seq<char>,
)
    ensures
        listing.filter(deletable(commits, horizon_ms)).contains(key) <==> listing.contains(key)
            && is_data_key(key) && !is_retained_path(commits, horizon_ms, key),
{
    crate::log::rows::lemma_filter_members(listing, deletable(commits, horizon_ms), key);
}

impl TableLog {
    /// Whether a commit stamped at or after `horizon_ms` adds or removes
    /// the file with this identifier.
    pub fn is_referenced_since(&self, id: &str, horizon_ms: i64) -> (found: bool)
        ensures
            found == referenced_since(
                self.entries(),
                self.entries().len() as int,
                horizon_ms as int,
            ).contains(id@),
    {
        let mut i: usize = 0;
        while i < self.commits.len()
            invariant
                i <= self.commits.len(),
                !referenced_since(self.commits@, i as int, horizon_ms as int).contains(id@),
            decreases self.commits.len() - i,
        {
            let c = &self.commits[i];
            if c.timestamp_ms >= horizon_ms && (contains_file(&c.adds, id) || contains_id(
                &c.removes,
                id,
            )) {
                proof {
                    lemma_referenced_stays(
                        self.commits@,
                        i as int + 1,
                        self.commits@.len() as int,
                        horizon_ms as int,
                        id@,
                    );
                }
                return true;
            }
            i += 1;
        }
        false
    }

    /// Whether vacuum retains the file with this identifier.
    pub fn is_retained(&self, id: &str, horizon_ms: i64) -> (kept: bool)
        requires
            self.wf(),
        ensures
            kept == retained(self.entries(), horizon_ms as int).contains(id@),
    {
        self.is_live(id) || self.is_referenced_since(id, horizon_ms)
    }

    /// Whether `key` is the path of a file that the log added and that
    /// vacuum retains.
    pub fn retains_path(&self, key: &str, horizon_ms: i64) -> (kept: bool)
        requires
            self.wf(),
        ensures
            kept == is_retained_path(self.entries(), horizon_ms as int, key@),
    {
        let mut i: usize = 0;
        while i < self.commits.len()
            invariant
                self.wf(),
                i <= self.commits.len(),
                forall|a: int, k: int|
                    #![trigger self.commits@[a].adds@[k]]
                    0 <= a < i && 0 <= k < self.commits@[a].adds@.len() ==> !(
                    self.commits@[a].adds@[k].path@ == key@ && retained(
                        self.commits@,
                        horizon_ms as int,
                    ).contains(self.commits@[a].adds@[k].id@)),
            decreases self.commits.len() - i,
        {
            let adds = &self.commits[i].adds;
            let mut k: usize = 0;
            while k < adds.len()
                invariant
                    self.wf(),
                    i < self.commits.len(),
                    adds == &self.commits@[i as int].adds,
                    k <= adds.len(),
                    forall|b: int|
                        0 <= b < k ==> !((#[trigger] adds@[b]).path@ == key@ && retained(
                            self.commits@,
                            horizon_ms as int,
                        ).contains(adds@[b].id@)),
                decreases adds.len() - k,
            {
                if str_eq(adds[k].path.as_str(), key) && self.is_retained(
                    adds[k].id.as_str(),
                    horizon_ms,
                ) {
                    assert(self.commits@[i as int].adds@[k as int].path@ == key@);
                    return true;
                }
                k += 1;
            }
            i += 1;
        }
        false
    }

    /// The versions whose commit objects a vacuum may delete from the
    /// log's directory: those stamped before the horizon that lie before
    /// the checkpoint, which has summarized them. Without a checkpoint
    /// none may go.
    pub fn plan_log_truncation(&self, horizon_ms: i64, checkpoint: Option<i64>) -> (versions: Vec<
        i64,
    >)
        requires
            self.wf(),
        ensures
            forall|v: i64|
                versions@.contains(v) <==> (checkpoint matches Some(c) && 0 <= v < c && v
                    <= self.spec_head() && (#[trigger] self.entries()[v as int]).timestamp_ms
                    < horizon_ms),
            forall|i: int, j: int|
                0 <= i < j < versions@.len() ==> versions@[i] < versions@[j],
    {
        let mut versions: Vec<i64> = Vec::new();
        let limit = match checkpoint {
            Some(c) => c,
            None => {
                return versions;
            },
        };
        let mut i: usize = 0;
        while i < self.commits.len()
            invariant
                self.wf(),
                i <= self.commits.len(),
                checkpoint == Some(limit),
                forall|v: i64|
                    versions@.contains(v) <==> (0 <= v < limit && v < i && (
                    #[trigger] self.commits@[v as int]).timestamp_ms < horizon_ms),
                forall|a: int, b: int|
                    0 <= a < b < versions@.len() ==> versions@[a] < versions@[b],
                forall|a: int| 0 <= a < versions@.len() ==> versions@[a] < i,
            decreases self.commits.len() - i,
        {
            let ghost before = versions@;
            if (i as i64) < limit && self.commits[i].timestamp_ms < horizon_ms {
                versions.push(i as i64);
                assert(versions@[versions@.len() - 1] == i);
                assert forall|v: i64| versions@.contains(v) implies (0 <= v < limit && v < i + 1
                    && (#[trigger] self.commits@[v as int]).timestamp_ms < horizon_ms) by {
                    let k = choose|k: int| 0 <= k < versions@.len() && versions@[k] == v;
                    if k < before.len() {
                        assert(before[k] == v);
                        assert(before.contains(v));
                    }
                }
                assert forall|v: i64|
                    (0 <= v < limit && v < i + 1 && (#[trigger] self.commits@[
                        v as int
                    ]).timestamp_ms < horizon_ms) implies versions@.contains(v) by {
                    if v < i {
                        assert(before.contains(v));
                        let k = choose|k: int| 0 <= k < before.len() && before[k] == v;
                        assert(versions@[k] == v);
                    }
                }
            }
            i += 1;
        }
        versions
    }

    /// Plans a vacuum: the keys of the listing that are to be deleted, in
    /// the listing's order.
    ///
    /// The retention horizon lies `retention_hours` before `now_ms`. A key
    /// is deleted when it names a data file that is neither alive at the
    /// head nor referred to by a commit stamped at or after the horizon.
    /// A retention of zero hours is refused while retention is enforced.
    pub fn plan_vacuum(
        &self,
        listing: &Vec<String>,
        now_ms: i64,
        retention_hours: u64,
        enforce_retention: bool,
    ) -> (result: Result<Vec<String>, LakehouseError>)
        requires
            self.wf(),
        ensures
            match result {
                Ok(keys) => {
                    &&& !(retention_hours == 0 && enforce_retention)
                    &&& names_of(keys@) == names_of(listing@).filter(
                        deletable(self.entries(), horizon(now_ms as int, retention_hours as int)),
                    )
                },
                Err(e) => {
                    &&& retention_hours == 0 && enforce_retention
                    &&& e is Config
                },
            },
    {
        if retention_hours == 0 && enforce_retention {
            return Err(
                LakehouseError::Config(
                    String::from_str("a retention of zero hours needs enforcement switched off"),
                ),
            );
        }
        let ghost exact = horizon(now_ms as int, retention_hours as int);
        // Below the smallest timestamp every commit is within the period,
        // so a horizon that does not fit is as good as the smallest one.
        let wide: i128 = now_ms as i128 - retention_hours as i128 * (MS_PER_HOUR as i128);
        let horizon_ms: i64 = if wide < i64::MIN as i128 {
            i64::MIN
        } else {
            wide as i64
        };
        proof {
            assert(horizon_ms == exact || (horizon_ms == i64::MIN && exact < i64::MIN));
            lemma_same_retention(self.commits@, self.commits@.len() as int, exact, horizon_ms as int);
            assert forall|key: Seq<char>| #[trigger]
                is_retained_path(self.commits@, exact, key) == is_retained_path(
                    self.commits@,
                    horizon_ms as int,
                    key,
                ) by {}
        }
        let ghost delete = deletable(self.commits@, exact);
        let mut keys: Vec<String> = Vec::new();
        let mut i: usize = 0;
        proof {
            reveal(Seq::filter);
            assert(names_of(listing@).subrange(0, 0) =~= Seq::empty());
            assert(names_of(keys@) =~= Seq::empty());
        }
        while i < listing.len()
            invariant
                self.wf(),
                i <= listing.len(),
                delete == deletable(self.commits@, exact),
                forall|key: Seq<char>| #[trigger]
                    is_retained_path(self.commits@, exact, key) == is_retained_path(
                        self.commits@,
                        horizon_ms as int,
                        key,
                    ),
                names_of(keys@) == names_of(listing@).subrange(0, i as int).filter(delete),
            decreases listing.len() - i,
        {
            let key = listing[i].as_str();
            let ghost before = names_of(listing@).subrange(0, i as int);
            proof {
                before.lemma_filter_push(key@, delete);
                assert(names_of(listing@).subrange(0, i as int + 1) =~= before.push(key@));
            }
            if !starts_with(key, LOG_PREFIX) && !self.retains_path(key, horizon_ms) {
                let ghost prev = names_of(keys@);
                keys.push(listing[i].clone());
                assert(names_of(keys@) =~= prev.push(key@));
            }
            i += 1;
        }
        assert(names_of(listing@).subrange(0, listing@.len() as int) =~= names_of(listing@));
        Ok(keys)
    }
}

/// A horizon below every possible timestamp retains what the smallest
/// timestamp as horizon retains.
proof fn lemma_same_retention(commits: Seq<CommitEntry>, n: int, exact: int, clipped: int)
    requires
        exact == clipped || (clipped == i64::MIN && exact < i64::MIN),
    ensures
        referenced_since(commits, n, exact) == referenced_since(commits, n, clipped),
    decreases n,
{
    if n > 0 {
        lemma_same_retention(commits, n - 1, exact, clipped);
    }
}

} // verus!
