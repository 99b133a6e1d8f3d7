//! Partitioning: the directory that encodes a partition tuple, and the
//! routing of rows or files to their partitions.

use crate::log::entry::{
    files_view, partition_view, DataFile, FileView, PartitionValue, PartitionView,
};
use crate::text::{names_of, str_eq};
use vstd::prelude::*;

verus! {

/// The directory of a partition tuple below the table's directory:
/// `column=value/` for each partition column, in order.
pub open spec fn partition_dir(values: Seq<PartitionView>) -> Seq<char>
    decreases values.len(),
{
    if values.len() == 0 {
        Seq::empty()
    } else {
        partition_dir(values.drop_last()) + values.last().column + "="@ + values.last().value
            + "/"@
    }
}

/// The key of a data file below the table's directory: its partition's
/// directory, its identifier, and the suffix `.dat`.
pub open spec fn data_file_key(values: Seq<PartitionView>, id: Seq<char>) -> Seq<char> {
    partition_dir(values) + id + ".dat"@
}

/// The directory that encodes a partition tuple.
pub fn partition_path(values: &Vec<PartitionValue>) -> (path: String)
    ensures
        path@ == partition_dir(partition_view(values@)),
{
    let mut path = String::new();
    let mut i: usize = 0;
    assert(partition_view(values@).subrange(0, 0) =~= Seq::empty());
    while i < values.len()
        invariant
            i <= values.len(),
            path@ == partition_dir(partition_view(values@).subrange(0, i as int)),
        decreases values.len() - i,
    {
        let ghost prefix = partition_view(values@).subrange(0, i as int + 1);
        assert(prefix.drop_last() =~= partition_view(values@).subrange(0, i as int));
        assert(prefix.last() == values@[i as int]@);
        path.append(values[i].column.as_str());
        path.append("=");
        path.append(values[i].value.as_str());
        path.append("/");
        i += 1;
    }
    assert(partition_view(values@).subrange(0, values@.len() as int) =~= partition_view(values@));
    path
}

/// The key under which a new data file is written.
pub fn data_file_path(values: &Vec<PartitionValue>, id: &str) -> (key: String)
    ensures
        key@ == data_file_key(partition_view(values@), id@),
{
    let mut key = partition_path(values);
    key.append(id);
    key.append(".dat");
    key
}

/// The partition columns that a file carries values of, in order.
pub open spec fn partition_columns_of(values: Seq<PartitionView>) -> Seq<Seq<char>> {
    values.map_values(|p: PartitionView| p.column)
}

/// Whether each of the files carries a value of each of the partition
/// columns, in their order, and of no other column.
pub open spec fn fit_partitions(files: Seq<FileView>, columns: Seq<Seq<char>>) -> bool {
    forall|i: int|
        0 <= i < files.len() ==> partition_columns_of((#[trigger] files[i]).partition_values)
            == columns
}

/// Whether a file's partition values are values of the given partition
/// columns, in their order.
pub fn file_fits(file: &DataFile, columns: &Vec<String>) -> (fits: bool)
    ensures
        fits == (partition_columns_of(file@.partition_values) == names_of(columns@)),
{
    if file.partition_values.len() != columns.len() {
        assert(partition_columns_of(file@.partition_values).len() != names_of(columns@).len());
        return false;
    }
    let mut i: usize = 0;
    while i < columns.len()
        invariant
            i <= columns.len(),
            file.partition_values.len() == columns.len(),
            forall|j: int| 0 <= j < i ==> file.partition_values@[j].column@ == columns@[j]@,
        decreases columns.len() - i,
    {
        if !str_eq(file.partition_values[i].column.as_str(), columns[i].as_str()) {
            assert(partition_columns_of(file@.partition_values)[i as int] != names_of(columns@)[
                i as int
            ]);
            return false;
        }
        i += 1;
    }
    assert(partition_columns_of(file@.partition_values) =~= names_of(columns@));
    true
}

/// Whether all files fit the table's partition columns.
pub fn files_fit(files: &Vec<DataFile>, columns: &Vec<String>) -> (fit: bool)
    ensures
        fit == fit_partitions(files_view(files@), names_of(columns@)),
{
    let mut i: usize = 0;
    while i < files.len()
        invariant
            i <= files.len(),
            forall|j: int|
                0 <= j < i ==> partition_columns_of((#[trigger] files_view(files@)[j]).partition_values)
                    == names_of(columns@),
        decreases files.len() - i,
    {
        if !file_fits(&files[i], columns) {
            assert(files_view(files@)[i as int] == files@[i as int]@);
            return false;
        }
        assert(files_view(files@)[i as int] == files@[i as int]@);
        i += 1;
    }
    true
}

/// The distinct keys of a sequence, each at the place of its first
/// occurrence.
pub open spec fn distinct(keys: Seq<Seq<char>>) -> Seq<Seq<char>>
    decreases keys.len(),
{
    if keys.len() == 0 {
        Seq::empty()
    } else if distinct(keys.drop_last()).contains(keys.last()) {
        distinct(keys.drop_last())
    } else {
        distinct(keys.drop_last()).push(keys.last())
    }
}

/// The positions at which `key` occurs in `keys`, in increasing order.
pub open spec fn positions(keys: Seq<Seq<char>>, key: Seq<char>) -> Seq<int>
    decreases keys.len(),
{
    if keys.len() == 0 {
        Seq::empty()
    } else if keys.last() == key {
        positions(keys.drop_last(), key).push(keys.len() - 1)
    } else {
        positions(keys.drop_last(), key)
    }
}

/// One partition and the positions of the items that belong to it.
#[derive(Debug, Clone)]
pub struct Group {
    pub key: String,
    pub members: Vec<usize>,
}

/// The positions held in a vector, as integers.
pub open spec fn as_ints(v: Seq<usize>) -> Seq<int> {
    v.map_values(|i: usize| i as int)
}

/// Whether `groups` is the grouping of `keys`: one group per distinct key,
/// in the order of first occurrence, each with the positions of its key.
pub open spec fn is_grouping(keys: Seq<Seq<char>>, groups: Seq<Group>) -> bool {
    &&& groups.len() == distinct(keys).len()
    &&& forall|g: int|
        0 <= g < groups.len() ==> (#[trigger] groups[g]).key@ == distinct(keys)[g] && as_ints(
            groups[g].members@,
        ) == positions(keys, distinct(keys)[g])
}

/// A key is among the distinct keys exactly if it occurs, and no distinct
/// key is listed twice.
pub proof fn lemma_distinct(keys: Seq<Seq<char>>, key: Seq<char>)
    ensures
        distinct(keys).contains(key) <==> keys.contains(key),
        distinct(keys).no_duplicates(),
    decreases keys.len(),
{
    if keys.len() > 0 {
        let rest = keys.drop_last();
        lemma_distinct(rest, key);
        lemma_distinct(rest, keys.last());
        if keys.contains(key) {
            let i = choose|i: int| 0 <= i < keys.len() && keys[i] == key;
            if i < keys.len() - 1 {
                assert(rest[i] == key);
            }
        }
        if rest.contains(key) {
            let i = choose|i: int| 0 <= i < rest.len() && rest[i] == key;
            assert(keys[i] == key);
        }
        if distinct(rest).contains(keys.last()) {
        } else {
            let d = distinct(rest).push(keys.last());
            assert(d[d.len() - 1] == keys.last());
            if distinct(rest).contains(key) {
                let i = choose|i: int| 0 <= i < distinct(rest).len() && distinct(rest)[i] == key;
                assert(d[i] == key);
            }
        }
        assert(keys[keys.len() - 1] == keys.last());
    }
}

/// Routing loses and duplicates nothing: every position is a member of
/// the group of its key, once, and of no other group.
pub proof fn lemma_positions(keys: Seq<Seq<char>>, key: Seq<char>, i: int)
    ensures
        positions(keys, key).contains(i) <==> 0 <= i < keys.len() && keys[i] == key,
        positions(keys, key).no_duplicates(),
        forall|a: int, b: int|
            0 <= a < b < positions(keys, key).len() ==> positions(keys, key)[a] < positions(
                keys,
                key,
            )[b],
        forall|a: int|
            0 <= a < positions(keys, key).len() ==> 0 <= #[trigger] positions(keys, key)[a]
                < keys.len(),
    decreases keys.len(),
{
    if keys.len() > 0 {
        let rest = keys.drop_last();
        lemma_positions(rest, key, i);
        let p = positions(keys, key);
        let q = positions(rest, key);
        if keys.last() == key {
            assert(p[p.len() - 1] == keys.len() - 1);
            if q.contains(i) {
                let a = choose|a: int| 0 <= a < q.len() && q[a] == i;
                assert(p[a] == i);
            }
        }
    }
}

/// Whether two lists hold the same strings in the same order.
pub fn same_strings(a: &Vec<String>, b: &Vec<String>) -> (same: bool)
    ensures
        same == (names_of(a@) == names_of(b@)),
{
    if a.len() != b.len() {
        assert(names_of(a@).len() != names_of(b@).len());
        return false;
    }
    let mut i: usize = 0;
    while i < a.len()
        invariant
            a.len() == b.len(),
            i <= a.len(),
            forall|j: int| 0 <= j < i ==> a@[j]@ == b@[j]@,
        decreases a.len() - i,
    {
        if !str_eq(a[i].as_str(), b[i].as_str()) {
            assert(names_of(a@)[i as int] != names_of(b@)[i as int]);
            return false;
        }
        i += 1;
    }
    assert(names_of(a@) =~= names_of(b@));
    true
}

/// The distinct keys, each at the place of its first occurrence.
pub fn distinct_keys(keys: &Vec<String>) -> (out: Vec<String>)
    ensures
        names_of(out@) == distinct(names_of(keys@)),
{
    let mut out: Vec<String> = Vec::new();
    let mut i: usize = 0;
    assert(names_of(keys@).subrange(0, 0) =~= Seq::empty());
    assert(names_of(out@) =~= Seq::empty());
    while i < keys.len()
        invariant
            i <= keys.len(),
            names_of(out@) == distinct(names_of(keys@).subrange(0, i as int)),
        decreases keys.len() - i,
    {
        let ghost prefix = names_of(keys@).subrange(0, i as int + 1);
        assert(prefix.drop_last() =~= names_of(keys@).subrange(0, i as int));
        assert(prefix.last() == keys@[i as int]@);
        if !crate::log::table::contains_id(&out, keys[i].as_str()) {
            let ghost before = names_of(out@);
            out.push(keys[i].clone());
            assert(names_of(out@) =~= before.push(keys@[i as int]@));
        }
        i += 1;
    }
    assert(names_of(keys@).subrange(0, keys@.len() as int) =~= names_of(keys@));
    out
}

/// The positions at which `key` occurs in `keys`.
pub fn positions_of(keys: &Vec<String>, key: &str) -> (out: Vec<usize>)
    ensures
        as_ints(out@) == positions(names_of(keys@), key@),
{
    let mut out: Vec<usize> = Vec::new();
    let mut i: usize = 0;
    assert(names_of(keys@).subrange(0, 0) =~= Seq::empty());
    assert(as_ints(out@) =~= Seq::empty());
    while i < keys.len()
        invariant
            i <= keys.len(),
            as_ints(out@) == positions(names_of(keys@).subrange(0, i as int), key@),
        decreases keys.len() - i,
    {
        let ghost prefix = names_of(keys@).subrange(0, i as int + 1);
        assert(prefix.drop_last() =~= names_of(keys@).subrange(0, i as int));
        assert(prefix.last() == keys@[i as int]@);
        if str_eq(keys[i].as_str(), key) {
            let ghost before = as_ints(out@);
            out.push(i);
            assert(as_ints(out@) =~= before.push(i as int));
        }
        i += 1;
    }
    assert(names_of(keys@).subrange(0, keys@.len() as int) =~= names_of(keys@));
    out
}

/// Routes items to their partitions: one group per distinct key, in the
/// order in which the keys first occur, each with the positions of the
/// items that carry its key.
pub fn group_by_key(keys: &Vec<String>) -> (groups: Vec<Group>)
    ensures
        is_grouping(names_of(keys@), groups@),
{
    let firsts = distinct_keys(keys);
    let mut groups: Vec<Group> = Vec::new();
    let mut g: usize = 0;
    while g < firsts.len()
        invariant
            g <= firsts.len(),
            names_of(firsts@) == distinct(names_of(keys@)),
            groups@.len() == g,
            forall|h: int|
                0 <= h < g ==> (#[trigger] groups@[h]).key@ == distinct(names_of(keys@))[h]
                    && as_ints(groups@[h].members@) == positions(
                    names_of(keys@),
                    distinct(names_of(keys@))[h],
                ),
        decreases firsts.len() - g,
    {
        assert(names_of(firsts@)[g as int] == firsts@[g as int]@);
        let members = positions_of(keys, firsts[g].as_str());
        groups.push(Group { key: firsts[g].clone(), members });
        g += 1;
    }
    groups
}

/// The number of files of at most `target_bytes` that hold `bytes` bytes:
/// the quotient, rounded up.
pub fn files_needed(bytes: u64, target_bytes: u64) -> (count: u64)
    requires
        target_bytes > 0,
    ensures
        count == if bytes as int % target_bytes as int == 0 {
            bytes as int / target_bytes as int
        } else {
            bytes as int / target_bytes as int + 1
        },
{
    let whole = bytes / target_bytes;
    if bytes % target_bytes == 0 {
        whole
    } else {
        assert(whole < u64::MAX) by (nonlinear_arith)
            requires
                whole == bytes as int / target_bytes as int,
                bytes as int % target_bytes as int != 0,
                target_bytes > 0,
                bytes <= u64::MAX,
        ;
        whole + 1
    }
}

} // verus!
