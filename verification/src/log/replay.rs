//! What a sequence of commit entries means: which files were ever added or
//! removed, which are alive after a prefix of the log, and when a sequence
//! is a valid log.

use crate::log::entry::{files_view, CommitEntry, FileView};
use vstd::prelude::*;

verus! {

/// The identifiers added by the first `n` commits.
pub open spec fn ever_added(commits: Seq<CommitEntry>, n: int) -> Set<Seq<char>>
    decreases n,
{
    if n <= 0 {
        Set::empty()
    } else {
        ever_added(commits, n - 1).union(commits[n - 1].added_ids().to_set())
    }
}

/// The identifiers removed by the first `n` commits.
pub open spec fn ever_removed(commits: Seq<CommitEntry>, n: int) -> Set<Seq<char>>
    decreases n,
{
    if n <= 0 {
        Set::empty()
    } else {
        ever_removed(commits, n - 1).union(commits[n - 1].removed_ids().to_set())
    }
}

/// The identifiers alive after replaying the first `n` commits in order:
/// each commit first adds its files, then takes its removed files away.
pub open spec fn live_ids(commits: Seq<CommitEntry>, n: int) -> Set<Seq<char>>
    decreases n,
{
    if n <= 0 {
        Set::empty()
    } else {
        live_ids(commits, n - 1).union(commits[n - 1].added_ids().to_set()).difference(
            commits[n - 1].removed_ids().to_set(),
        )
    }
}

/// The test that a file's identifier is not among `removed`.
pub open spec fn not_among(removed: Seq<Seq<char>>) -> spec_fn(FileView) -> bool {
    |f: FileView| !removed.contains(f.id)
}

/// The files alive after replaying the first `n` commits, in the order in
/// which they were added.
pub open spec fn live_files(commits: Seq<CommitEntry>, n: int) -> Seq<FileView>
    decreases n,
{
    if n <= 0 {
        Seq::empty()
    } else {
        let c = commits[n - 1];
        (live_files(commits, n - 1) + files_view(c.adds@)).filter(not_among(c.removed_ids()))
    }
}

/// Whether entry `i` may follow the entries before it: it carries the next
/// version and a later timestamp, only the first entry creates the table,
/// it adds no identifier twice nor one that was added before, and it
/// removes only files that are alive, each once.
pub open spec fn commit_follows(commits: Seq<CommitEntry>, i: int) -> bool {
    let c = commits[i];
    &&& c.version == i
    &&& (i == 0 ==> c.operation is Create && c.schema is Some && c.adds@.len() == 0
        && c.removes@.len() == 0)
    &&& (i > 0 ==> !(c.operation is Create) && commits[i - 1].timestamp_ms < c.timestamp_ms)
    &&& c.added_ids().no_duplicates()
    &&& c.removed_ids().no_duplicates()
    &&& forall|id: Seq<char>| #[trigger]
        c.added_ids().contains(id) ==> !ever_added(commits, i).contains(id)
    &&& forall|id: Seq<char>| #[trigger]
        c.removed_ids().contains(id) ==> live_ids(commits, i).contains(id)
}

/// Whether a sequence of entries is a valid log: it starts with the
/// creation commit and every entry may follow its predecessors.
pub open spec fn well_formed(commits: Seq<CommitEntry>) -> bool {
    &&& commits.len() >= 1
    &&& forall|i: int| 0 <= i < commits.len() ==> #[trigger] commit_follows(commits, i)
}

/// What the first `n` commits add, remove and leave alive depends on those
/// commits only.
pub proof fn lemma_prefix_determines(a: Seq<CommitEntry>, b: Seq<CommitEntry>, n: int)
    requires
        n <= a.len(),
        n <= b.len(),
        forall|i: int| 0 <= i < n ==> a[i] == b[i],
    ensures
        ever_added(a, n) == ever_added(b, n),
        ever_removed(a, n) == ever_removed(b, n),
        live_ids(a, n) == live_ids(b, n),
        live_files(a, n) == live_files(b, n),
    decreases n,
{
    if n > 0 {
        lemma_prefix_determines(a, b, n - 1);
    }
}

/// Every prefix of a valid log that holds the creation commit is itself a
/// valid log.
pub proof fn lemma_prefix_is_well_formed(commits: Seq<CommitEntry>, n: int)
    requires
        well_formed(commits),
        1 <= n <= commits.len(),
    ensures
        well_formed(commits.subrange(0, n)),
{
    let prefix = commits.subrange(0, n);
    assert forall|i: int| 0 <= i < prefix.len() implies #[trigger] commit_follows(prefix, i) by {
        assert(commit_follows(commits, i));
        lemma_prefix_determines(commits, prefix, i);
    }
}

/// In a valid log, versions count up from 0 and a later commit carries a
/// later timestamp.
pub proof fn lemma_timestamps_increase(commits: Seq<CommitEntry>, i: int, j: int)
    requires
        well_formed(commits),
        0 <= i <= j < commits.len(),
    ensures
        commits[i].version == i,
        commits[j].version == j,
        i < j ==> commits[i].timestamp_ms < commits[j].timestamp_ms,
        commits[i].timestamp_ms <= commits[j].timestamp_ms,
    decreases j - i,
{
    assert(commit_follows(commits, i));
    assert(commit_follows(commits, j));
    if i < j {
        lemma_timestamps_increase(commits, i, j - 1);
    }
}

/// In a valid log, what was removed had been added, and what is alive had
/// been added.
pub proof fn lemma_removed_and_live_were_added(commits: Seq<CommitEntry>, n: int)
    requires
        well_formed(commits),
        0 <= n <= commits.len(),
    ensures
        ever_removed(commits, n).subset_of(ever_added(commits, n)),
        live_ids(commits, n).subset_of(ever_added(commits, n)),
    decreases n,
{
    if n > 0 {
        lemma_removed_and_live_were_added(commits, n - 1);
        assert(commit_follows(commits, n - 1));
    }
}

/// The file-set reconstructed by replaying the log commit by commit equals
/// everything the log ever added without everything it ever removed.
pub proof fn lemma_live_is_added_minus_removed(commits: Seq<CommitEntry>, n: int)
    requires
        well_formed(commits),
        0 <= n <= commits.len(),
    ensures
        live_ids(commits, n) == ever_added(commits, n).difference(ever_removed(commits, n)),
    decreases n,
{
    if n > 0 {
        lemma_live_is_added_minus_removed(commits, n - 1);
        lemma_removed_and_live_were_added(commits, n - 1);
        assert(commit_follows(commits, n - 1));
        let c = commits[n - 1];
        assert forall|id: Seq<char>|
            live_ids(commits, n).contains(id) == ever_added(commits, n).difference(
                ever_removed(commits, n),
            ).contains(id) by {
            if c.added_ids().contains(id) {
                assert(!ever_added(commits, n - 1).contains(id));
            }
        }
        assert(live_ids(commits, n) =~= ever_added(commits, n).difference(
            ever_removed(commits, n),
        ));
    } else {
        assert(live_ids(commits, n) =~= ever_added(commits, n).difference(
            ever_removed(commits, n),
        ));
    }
}

} // verus!
