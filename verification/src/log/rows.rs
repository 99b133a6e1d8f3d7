//! What a table holds, row by row: the rows of its live files, and how a
//! commit changes them.

use crate::log::entry::{files_view, CommitEntry, FileView};
use crate::log::replay::{
    commit_follows, lemma_prefix_determines, lemma_removed_and_live_were_added,
    live_files, live_ids, not_among, well_formed,
};
use vstd::multiset::Multiset;
use vstd::prelude::*;

verus! {

/// The test that a file's identifier is among `removed`.
pub open spec fn among(removed: Seq<Seq<char>>) -> spec_fn(FileView) -> bool {
    |f: FileView| removed.contains(f.id)
}

/// The identifiers of a list of file views, in order.
pub open spec fn view_ids(files: Seq<FileView>) -> Seq<Seq<char>> {
    files.map_values(|f: FileView| f.id)
}

/// The rows of a list of files, as a multiset, where `contents` gives the
/// rows that the file of each identifier holds.
pub open spec fn rows_of<R>(files: Seq<FileView>, contents: Map<Seq<char>, Seq<R>>) -> Multiset<R>
    decreases files.len(),
{
    if files.len() == 0 {
        Multiset::empty()
    } else {
        rows_of(files.drop_last(), contents).add(contents[files.last().id].to_multiset())
    }
}

/// What a scan of the table returns after the first `n` commits: the rows
/// of the files alive then.
pub open spec fn scan<R>(commits: Seq<CommitEntry>, n: int, contents: Map<Seq<char>, Seq<R>>) -> Multiset<R> {
    rows_of(live_files(commits, n), contents)
}

/// A filtered sequence holds the elements of the sequence that pass the
/// test, and no others.
pub proof fn lemma_filter_members<A>(s: Seq<A>, p: spec_fn(A) -> bool, a: A)
    ensures
        s.filter(p).contains(a) <==> s.contains(a) && p(a),
{
    if s.filter(p).contains(a) {
        s.lemma_filter_contains_rev(p, a);
        let i = choose|i: int| 0 <= i < s.filter(p).len() && s.filter(p)[i] == a;
        s.lemma_filter_pred(p, i);
    }
    if s.contains(a) && p(a) {
        let i = choose|i: int| 0 <= i < s.len() && s[i] == a;
        s.lemma_filter_contains(p, i);
    }
}

/// The files alive after a prefix of a valid log carry exactly the
/// identifiers alive after it.
pub proof fn lemma_live_files_carry_live_ids(commits: Seq<CommitEntry>, n: int, id: Seq<char>)
    requires
        well_formed(commits),
        0 <= n <= commits.len(),
    ensures
        view_ids(live_files(commits, n)).contains(id) <==> live_ids(commits, n).contains(id),
    decreases n,
{
    if n > 0 {
        lemma_live_files_carry_live_ids(commits, n - 1, id);
        let c = commits[n - 1];
        let before = live_files(commits, n - 1);
        let all = before + files_view(c.adds@);
        let keep = not_among(c.removed_ids());
        let after = all.filter(keep);
        if view_ids(after).contains(id) {
            let i = choose|i: int| 0 <= i < view_ids(after).len() && view_ids(after)[i] == id;
            let f = after[i];
            lemma_filter_members(all, keep, f);
            let j = choose|j: int| 0 <= j < all.len() && all[j] == f;
            if j < before.len() {
                assert(view_ids(before)[j] == id);
            } else {
                assert(c.added_ids()[j - before.len()] == id);
            }
        }
        if live_ids(commits, n).contains(id) {
            if live_ids(commits, n - 1).contains(id) {
                let j = choose|j: int| 0 <= j < view_ids(before).len() && view_ids(before)[j] == id;
                assert(all[j] == before[j]);
                lemma_filter_members(all, keep, before[j]);
                let k = choose|k: int| 0 <= k < after.len() && after[k] == before[j];
                assert(view_ids(after)[k] == id);
            } else {
                let j = choose|j: int| 0 <= j < c.added_ids().len() && c.added_ids()[j] == id;
                let f = files_view(c.adds@)[j];
                assert(all[before.len() + j] == f);
                lemma_filter_members(all, keep, f);
                let k = choose|k: int| 0 <= k < after.len() && after[k] == f;
                assert(view_ids(after)[k] == id);
            }
        }
    }
}

/// The rows of two lists of files together are the rows of the one and
/// the rows of the other.
pub proof fn lemma_rows_of_concat<R>(
    a: Seq<FileView>,
    b: Seq<FileView>,
    contents: Map<Seq<char>, Seq<R>>,
)
    ensures
        rows_of(a + b, contents) == rows_of(a, contents).add(rows_of(b, contents)),
    decreases b.len(),
{
    if b.len() == 0 {
        assert(a + b =~= a);
        assert(rows_of(a, contents).add(Multiset::empty()) =~= rows_of(a, contents));
    } else {
        lemma_rows_of_concat(a, b.drop_last(), contents);
        assert((a + b).drop_last() =~= a + b.drop_last());
        assert(rows_of(a + b, contents) =~= rows_of(a, contents).add(rows_of(b, contents)));
    }
}

/// A test splits the rows of a list of files into the rows of the files
/// that pass and the rows of the files that fail.
pub proof fn lemma_rows_split<R>(
    s: Seq<FileView>,
    pass: spec_fn(FileView) -> bool,
    fail: spec_fn(FileView) -> bool,
    contents: Map<Seq<char>, Seq<R>>,
)
    requires
        forall|f: FileView| #[trigger] pass(f) == !fail(f),
    ensures
        rows_of(s, contents) == rows_of(s.filter(pass), contents).add(
            rows_of(s.filter(fail), contents),
        ),
    decreases s.len(),
{
    reveal(Seq::filter);
    if s.len() == 0 {
        assert(rows_of(s, contents) =~= rows_of(s.filter(pass), contents).add(
            rows_of(s.filter(fail), contents),
        ));
    } else {
        lemma_rows_split(s.drop_last(), pass, fail, contents);
        let rest = s.drop_last();
        if pass(s.last()) {
            assert(s.filter(pass).drop_last() =~= rest.filter(pass));
        } else {
            assert(s.filter(fail).drop_last() =~= rest.filter(fail));
        }
        assert(rows_of(s, contents) =~= rows_of(s.filter(pass), contents).add(
            rows_of(s.filter(fail), contents),
        ));
    }
}

/// A list of files none of which fails a test is left as it is by the
/// filter for that test.
pub proof fn lemma_filter_keeps_all<A>(s: Seq<A>, p: spec_fn(A) -> bool)
    requires
        forall|i: int| 0 <= i < s.len() ==> p(#[trigger] s[i]),
    ensures
        s.filter(p) == s,
    decreases s.len(),
{
    reveal(Seq::filter);
    if s.len() > 0 {
        lemma_filter_keeps_all(s.drop_last(), p);
        assert(s.drop_last().push(s.last()) =~= s);
    }
}

/// How one commit changes what a scan returns: the rows after the commit,
/// together with the rows of the files it removed, are the rows before it
/// together with the rows of the files it added.
pub proof fn lemma_commit_changes_rows<R>(
    commits: Seq<CommitEntry>,
    contents: Map<Seq<char>, Seq<R>>,
)
    requires
        well_formed(commits),
        commits.len() >= 2,
    ensures
        ({
            let n = commits.len() as int;
            let c = commits.last();
            let removed = live_files(commits, n - 1).filter(among(c.removed_ids()));
            scan(commits, n, contents).add(rows_of(removed, contents)) == scan(
                commits,
                n - 1,
                contents,
            ).add(rows_of(files_view(c.adds@), contents))
        }),
{
    let n = commits.len() as int;
    let c = commits.last();
    let before = live_files(commits, n - 1);
    let added = files_view(c.adds@);
    let keep = not_among(c.removed_ids());
    let drop = among(c.removed_ids());
    assert(commit_follows(commits, n - 1));
    lemma_removed_and_live_were_added(commits, n - 1);
    assert forall|i: int| 0 <= i < added.len() implies keep(#[trigger] added[i]) by {
        assert(c.added_ids()[i] == added[i].id);
        assert(c.added_ids().contains(added[i].id));
        if c.removed_ids().contains(added[i].id) {
            assert(live_ids(commits, n - 1).contains(added[i].id));
        }
    }
    lemma_filter_keeps_all(added, keep);
    Seq::filter_distributes_over_add(before, added, keep);
    lemma_rows_of_concat(before.filter(keep), added, contents);
    lemma_rows_split(before, keep, drop, contents);
    let kept_rows = rows_of(before.filter(keep), contents);
    let dropped_rows = rows_of(before.filter(drop), contents);
    let added_rows = rows_of(added, contents);
    assert(kept_rows.add(added_rows).add(dropped_rows) =~= kept_rows.add(dropped_rows).add(
        added_rows,
    ));
}

/// A commit that only adds files adds their rows to what a scan returns,
/// and takes none away.
pub proof fn lemma_append_adds_rows<R>(
    commits: Seq<CommitEntry>,
    contents: Map<Seq<char>, Seq<R>>,
)
    requires
        well_formed(commits),
        commits.len() >= 2,
        commits.last().removes@.len() == 0,
    ensures
        scan(commits, commits.len() as int, contents) == scan(
            commits,
            commits.len() - 1,
            contents,
        ).add(rows_of(files_view(commits.last().adds@), contents)),
{
    let n = commits.len() as int;
    let c = commits.last();
    let before = live_files(commits, n - 1);
    lemma_commit_changes_rows(commits, contents);
    reveal(Seq::filter);
    assert(c.removed_ids() =~= Seq::empty());
    lemma_nothing_among_none(before);
    assert(rows_of(before.filter(among(c.removed_ids())), contents) =~= Multiset::empty());
    assert(scan(commits, n, contents).add(Multiset::empty()) =~= scan(commits, n, contents));
}

/// No file is among no identifiers.
proof fn lemma_nothing_among_none(s: Seq<FileView>)
    ensures
        s.filter(among(Seq::empty())) == Seq::<FileView>::empty(),
    decreases s.len(),
{
    reveal(Seq::filter);
    if s.len() > 0 {
        lemma_nothing_among_none(s.drop_last());
    }
}

/// A commit that replaces files by files that hold the same rows leaves
/// what a scan returns unchanged.
pub proof fn lemma_rewrite_keeps_rows<R>(
    commits: Seq<CommitEntry>,
    contents: Map<Seq<char>, Seq<R>>,
)
    requires
        well_formed(commits),
        commits.len() >= 2,
        rows_of(files_view(commits.last().adds@), contents) == rows_of(
            live_files(commits, commits.len() - 1).filter(among(commits.last().removed_ids())),
            contents,
        ),
    ensures
        scan(commits, commits.len() as int, contents) == scan(
            commits,
            commits.len() - 1,
            contents,
        ),
{
    let n = commits.len() as int;
    lemma_commit_changes_rows(commits, contents);
    let x = rows_of(files_view(commits.last().adds@), contents);
    let a = scan(commits, n, contents);
    let b = scan(commits, n - 1, contents);
    assert(a.add(x) == b.add(x));
    assert forall|r: R| a.count(r) == b.count(r) by {
        assert(a.add(x).count(r) == a.count(r) + x.count(r));
        assert(b.add(x).count(r) == b.count(r) + x.count(r));
    }
    assert(a =~= b);
}

/// A delete by a row predicate is sound: when the files that the commit
/// leaves in place hold no matching row, and the files it adds hold the
/// rows of the removed files that do not match, then afterwards a scan
/// returns no matching row, and every other row as often as before.
pub proof fn lemma_delete_removes_matching_rows<R>(
    commits: Seq<CommitEntry>,
    contents: Map<Seq<char>, Seq<R>>,
    matches: spec_fn(R) -> bool,
)
    requires
        well_formed(commits),
        commits.len() >= 2,
        ({
            let before = live_files(commits, commits.len() - 1);
            let c = commits.last();
            let untouched = rows_of(before.filter(not_among(c.removed_ids())), contents);
            let removed = rows_of(before.filter(among(c.removed_ids())), contents);
            let added = rows_of(files_view(c.adds@), contents);
            &&& forall|r: R| matches(r) ==> untouched.count(r) == 0
            &&& forall|r: R| matches(r) ==> added.count(r) == 0
            &&& forall|r: R| !matches(r) ==> added.count(r) == removed.count(r)
        }),
    ensures
        forall|r: R| matches(r) ==> scan(commits, commits.len() as int, contents).count(r) == 0,
        forall|r: R|
            !matches(r) ==> scan(commits, commits.len() as int, contents).count(r) == scan(
                commits,
                commits.len() - 1,
                contents,
            ).count(r),
{
    let n = commits.len() as int;
    let c = commits.last();
    let before = live_files(commits, n - 1);
    let keep = not_among(c.removed_ids());
    let drop = among(c.removed_ids());
    let untouched = rows_of(before.filter(keep), contents);
    let removed = rows_of(before.filter(drop), contents);
    let added = rows_of(files_view(c.adds@), contents);
    lemma_commit_changes_rows(commits, contents);
    lemma_rows_split(before, keep, drop, contents);
    let after = scan(commits, n, contents);
    let prior = scan(commits, n - 1, contents);
    assert forall|r: R| after.count(r) + removed.count(r) == prior.count(r) + added.count(r) by {
        assert(after.add(removed).count(r) == after.count(r) + removed.count(r));
        assert(prior.add(added).count(r) == prior.count(r) + added.count(r));
    }
    assert forall|r: R| prior.count(r) == untouched.count(r) + removed.count(r) by {
        assert(untouched.add(removed).count(r) == untouched.count(r) + removed.count(r));
    }
}

/// Reading a version gives the same files, and so the same rows, however
/// the log has grown since: later commits do not change an earlier
/// version.
pub proof fn lemma_time_travel_is_stable<R>(
    commits: Seq<CommitEntry>,
    later: Seq<CommitEntry>,
    version: int,
    contents: Map<Seq<char>, Seq<R>>,
)
    requires
        0 <= version < commits.len(),
    ensures
        live_files(commits + later, version + 1) == live_files(commits, version + 1),
        live_ids(commits + later, version + 1) == live_ids(commits, version + 1),
        scan(commits + later, version + 1, contents) == scan(commits, version + 1, contents),
{
    lemma_prefix_determines(commits + later, commits, version + 1);
}

} // verus!
