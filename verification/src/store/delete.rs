//! Predicate delete: which files a delete can skip, what happens to each
//! file that holds matching rows, and the commit that results.

use crate::error::LakehouseError;
use crate::log::entry::{files_view, DataFile, FileView, StatsView};
use crate::text::{names_of, str_eq};
use vstd::prelude::*;

verus! {

/// Whether `a` comes before `b`, or equals it, in the byte-wise
/// lexicographic order in which strings are compared.
pub open spec fn lex_le(a: Seq<u8>, b: Seq<u8>) -> bool
    decreases a.len(),
{
    if a.len() == 0 {
        true
    } else if b.len() == 0 {
        false
    } else if a[0] != b[0] {
        a[0] < b[0]
    } else {
        lex_le(a.drop_first(), b.drop_first())
    }
}

/// Compares two byte strings lexicographically.
pub fn bytes_le(a: &[u8], b: &[u8]) -> (le: bool)
    ensures
        le == lex_le(a@, b@),
{
    let mut i: usize = 0;
    assert(a@.subrange(0, a@.len() as int) =~= a@);
    assert(b@.subrange(0, b@.len() as int) =~= b@);
    while i < a.len() && i < b.len()
        invariant
            i <= a.len(),
            i <= b.len(),
            lex_le(a@, b@) == lex_le(
                a@.subrange(i as int, a@.len() as int),
                b@.subrange(i as int, b@.len() as int),
            ),
        decreases a.len() - i,
    {
        let ghost ra = a@.subrange(i as int, a@.len() as int);
        let ghost rb = b@.subrange(i as int, b@.len() as int);
        assert(ra[0] == a@[i as int] && rb[0] == b@[i as int]);
        if a[i] != b[i] {
            return a[i] < b[i];
        }
        assert(ra.drop_first() =~= a@.subrange(i as int + 1, a@.len() as int));
        assert(rb.drop_first() =~= b@.subrange(i as int + 1, b@.len() as int));
        i += 1;
    }
    let ghost ra = a@.subrange(i as int, a@.len() as int);
    assert(ra.len() == a@.len() - i);
    i == a.len()
}

/// Whether a file with these summaries may hold a row whose `column`
/// equals `value`: it may unless a summary of that column excludes the
/// value.
pub open spec fn may_hold(stats: Seq<StatsView>, column: Seq<char>, value: Seq<char>) -> bool {
    forall|i: int|
        0 <= i < stats.len() && (#[trigger] stats[i]).column == column ==> lex_le(
            vstd::utf8::encode_utf8(stats[i].min),
            vstd::utf8::encode_utf8(value),
        ) && lex_le(vstd::utf8::encode_utf8(value), vstd::utf8::encode_utf8(stats[i].max))
}

/// Tests an equality predicate against a file's min/max summaries. A
/// delete skips the files for which this is false.
pub fn may_match_equal(file: &DataFile, column: &str, value: &str) -> (may: bool)
    ensures
        may == may_hold(file@.stats, column@, value@),
{
    let mut i: usize = 0;
    while i < file.stats.len()
        invariant
            i <= file.stats.len(),
            may_hold(file@.stats.subrange(0, i as int), column@, value@),
        decreases file.stats.len() - i,
    {
        let s = &file.stats[i];
        assert(file@.stats[i as int] == s@);
        if str_eq(s.column.as_str(), column) {
            if !(bytes_le(s.min.as_str().as_bytes(), value.as_bytes()) && bytes_le(
                value.as_bytes(),
                s.max.as_str().as_bytes(),
            )) {
                return false;
            }
        }
        assert forall|j: int|
            0 <= j < i + 1 && (#[trigger] file@.stats.subrange(0, i as int + 1)[j]).column
                == column@ implies lex_le(
            vstd::utf8::encode_utf8(file@.stats.subrange(0, i as int + 1)[j].min),
            vstd::utf8::encode_utf8(value@),
        ) && lex_le(
            vstd::utf8::encode_utf8(value@),
            vstd::utf8::encode_utf8(file@.stats.subrange(0, i as int + 1)[j].max),
        ) by {
            if j < i {
                assert(file@.stats.subrange(0, i as int)[j] == file@.stats[j]);
            }
        }
        i += 1;
    }
    assert(file@.stats.subrange(0, file@.stats.len() as int) =~= file@.stats);
    true
}

/// What a delete does with one file.
#[derive(Debug, Clone, Copy, PartialEq, Eq, Structural)]
pub enum FileAction {
    /// No row matches: the file stays as it is.
    Untouched,
    /// Every row matches: the file is removed and nothing is written.
    Drop,
    /// Some rows match: the file is removed and the other rows are
    /// written into a new file.
    Rewrite,
}

/// The action for a file that splits into `kept` rows and `removed` rows.
pub open spec fn action_for(kept: nat, removed: nat) -> FileAction {
    if removed == 0 {
        FileAction::Untouched
    } else if kept == 0 {
        FileAction::Drop
    } else {
        FileAction::Rewrite
    }
}

/// Decides what a delete does with a file whose rows split into
/// `kept_rows` and `removed_rows`.
pub fn decide(kept_rows: u64, removed_rows: u64) -> (action: FileAction)
    ensures
        action == action_for(kept_rows as nat, removed_rows as nat),
{
    if removed_rows == 0 {
        FileAction::Untouched
    } else if kept_rows == 0 {
        FileAction::Drop
    } else {
        FileAction::Rewrite
    }
}

/// How the rows of one live file split under the predicate.
#[derive(Debug, Clone)]
pub struct FileSplit {
    /// The identifier of the file that was read.
    pub file_id: String,
    /// The number of rows that do not match.
    pub kept_rows: u64,
    /// The number of rows that match.
    pub removed_rows: u64,
    /// The new file that holds the kept rows, where the file is rewritten.
    pub rewritten: Option<DataFile>,
}

impl FileSplit {
    /// Whether a split carries a new file exactly where the file is
    /// rewritten, holding as many rows as are kept.
    pub open spec fn consistent(self) -> bool {
        match action_for(self.kept_rows as nat, self.removed_rows as nat) {
            FileAction::Rewrite => self.rewritten matches Some(f) && f.rows == self.kept_rows,
            _ => self.rewritten is None,
        }
    }
}

/// The identifiers of the files that the splits remove, in order.
pub open spec fn removes_of(splits: Seq<FileSplit>) -> Seq<Seq<char>>
    decreases splits.len(),
{
    if splits.len() == 0 {
        Seq::empty()
    } else if splits.last().removed_rows > 0 {
        removes_of(splits.drop_last()).push(splits.last().file_id@)
    } else {
        removes_of(splits.drop_last())
    }
}

/// The new files that the splits add, in order.
pub open spec fn adds_of(splits: Seq<FileSplit>) -> Seq<FileView>
    decreases splits.len(),
{
    if splits.len() == 0 {
        Seq::empty()
    } else {
        match splits.last().rewritten {
            Some(f) => adds_of(splits.drop_last()).push(f@),
            None => adds_of(splits.drop_last()),
        }
    }
}

/// The number of rows that the splits remove.
pub open spec fn removed_rows_of(splits: Seq<FileSplit>) -> nat
    decreases splits.len(),
{
    if splits.len() == 0 {
        0
    } else {
        removed_rows_of(splits.drop_last()) + splits.last().removed_rows as nat
    }
}

/// The content of the commit that a delete makes.
#[derive(Debug, Clone)]
pub struct DeletePlan {
    pub removes: Vec<String>,
    pub adds: Vec<DataFile>,
    pub num_deleted_rows: u64,
}

/// Assembles the commit of a delete from the splits of the files that
/// were read: files without a matching row are left alone, files with
/// only matching rows are removed, the others are removed and replaced.
/// Splits that are not consistent, or more removed rows than can be
/// counted, are an internal error.
pub fn assemble_delete(splits: &Vec<FileSplit>) -> (result: Result<DeletePlan, LakehouseError>)
    ensures
        match result {
            Ok(plan) => {
                &&& forall|i: int| 0 <= i < splits@.len() ==> (#[trigger] splits@[i]).consistent()
                &&& names_of(plan.removes@) == removes_of(splits@)
                &&& files_view(plan.adds@) == adds_of(splits@)
                &&& plan.num_deleted_rows == removed_rows_of(splits@)
            },
            Err(e) => {
                &&& e is Internal
                &&& (exists|i: int| 0 <= i < splits@.len() && !(#[trigger] splits@[i]).consistent())
                    || removed_rows_of(splits@) > u64::MAX
            },
        },
{
    let mut removes: Vec<String> = Vec::new();
    let mut adds: Vec<DataFile> = Vec::new();
    let mut total: u64 = 0;
    let mut i: usize = 0;
    assert(splits@.subrange(0, 0) =~= Seq::empty());
    assert(names_of(removes@) =~= Seq::empty());
    assert(files_view(adds@) =~= Seq::empty());
    while i < splits.len()
        invariant
            i <= splits.len(),
            forall|j: int| 0 <= j < i ==> (#[trigger] splits@[j]).consistent(),
            names_of(removes@) == removes_of(splits@.subrange(0, i as int)),
            files_view(adds@) == adds_of(splits@.subrange(0, i as int)),
            total == removed_rows_of(splits@.subrange(0, i as int)),
        decreases splits.len() - i,
    {
        let split = &splits[i];
        let ghost prefix = splits@.subrange(0, i as int + 1);
        assert(prefix.drop_last() =~= splits@.subrange(0, i as int));
        assert(prefix.last() == splits@[i as int]);
        let action = decide(split.kept_rows, split.removed_rows);
        let consistent = match &split.rewritten {
            Some(f) => action == FileAction::Rewrite && f.rows == split.kept_rows,
            None => action != FileAction::Rewrite,
        };
        if !consistent {
            return Err(
                LakehouseError::Internal(
                    String::from_str("a file's split does not fit its replacement"),
                ),
            );
        }
        if split.removed_rows > u64::MAX - total {
            proof {
                lemma_removed_rows_grow(splits@, i as int + 1);
            }
            return Err(
                LakehouseError::Internal(String::from_str("too many removed rows to count")),
            );
        }
        total = total + split.removed_rows;
        if split.removed_rows > 0 {
            let ghost before = names_of(removes@);
            removes.push(split.file_id.clone());
            assert(names_of(removes@) =~= before.push(split.file_id@));
        }
        match &split.rewritten {
            Some(f) => {
                let ghost before = files_view(adds@);
                adds.push(f.copy());
                assert(files_view(adds@) =~= before.push(f@));
            },
            None => {},
        }
        i += 1;
    }
    assert(splits@.subrange(0, splits@.len() as int) =~= splits@);
    Ok(DeletePlan { removes, adds, num_deleted_rows: total })
}

/// The rows removed by a prefix of the splits are not more than those
/// removed by all of them.
proof fn lemma_removed_rows_grow(splits: Seq<FileSplit>, n: int)
    requires
        0 <= n <= splits.len(),
    ensures
        removed_rows_of(splits.subrange(0, n)) <= removed_rows_of(splits),
    decreases splits.len(),
{
    if n < splits.len() {
        lemma_removed_rows_grow(splits.drop_last(), n);
        assert(splits.drop_last().subrange(0, n) =~= splits.subrange(0, n));
    } else {
        assert(splits.subrange(0, n) =~= splits);
    }
}

} // verus!
