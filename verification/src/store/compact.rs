//! Compaction: which small files of a partition are rewritten together.

use crate::log::entry::{files_view, DataFile, FileView};
use crate::store::partition::{
    as_ints, distinct, group_by_key, is_grouping, lemma_positions, partition_dir, partition_path,
    positions,
};
use crate::text::names_of;
use vstd::prelude::*;

verus! {

/// The test that a file is small: below `threshold` bytes.
pub open spec fn is_small(threshold: nat) -> spec_fn(FileView) -> bool {
    |f: FileView| f.bytes < threshold
}

/// The partition directory of each file, in order.
pub open spec fn paths_of(files: Seq<FileView>) -> Seq<Seq<char>> {
    files.map_values(|f: FileView| partition_dir(f.partition_values))
}

/// The small files of one partition that are rewritten together.
#[derive(Debug, Clone)]
pub struct CompactionGroup {
    /// The partition's directory.
    pub partition: String,
    /// The identifiers of the files to rewrite, in the file-set's order.
    pub inputs: Vec<String>,
}

/// The mathematical content of a [`CompactionGroup`].
pub struct CompactionView {
    pub partition: Seq<char>,
    pub inputs: Seq<Seq<char>>,
}

impl View for CompactionGroup {
    type V = CompactionView;

    open spec fn view(&self) -> CompactionView {
        CompactionView { partition: self.partition@, inputs: names_of(self.inputs@) }
    }
}

/// The views of a list of groups, in order.
pub open spec fn plan_view(groups: Seq<CompactionGroup>) -> Seq<CompactionView> {
    groups.map_values(|g: CompactionGroup| g@)
}

/// The identifiers of the files at the given positions.
pub open spec fn ids_at(files: Seq<FileView>, members: Seq<int>) -> Seq<Seq<char>> {
    members.map_values(|i: int| files[i].id)
}

/// All small files of one partition, as a group.
pub open spec fn partition_group(smalls: Seq<FileView>, key: Seq<char>) -> CompactionView {
    CompactionView { partition: key, inputs: ids_at(smalls, positions(paths_of(smalls), key)) }
}

/// The small files of each partition, one group per partition in the
/// order in which the partitions first occur.
pub open spec fn partition_groups(smalls: Seq<FileView>) -> Seq<CompactionView> {
    distinct(paths_of(smalls)).map_values(|key: Seq<char>| partition_group(smalls, key))
}

/// The test that a group is worth rewriting: it joins at least two files.
pub open spec fn joins_files() -> spec_fn(CompactionView) -> bool {
    |g: CompactionView| g.inputs.len() >= 2
}

/// The compaction plan of a file-set: within each partition, all files
/// below the threshold, where there are at least two of them.
pub open spec fn compaction_plan(files: Seq<FileView>, threshold: nat) -> Seq<CompactionView> {
    partition_groups(files.filter(is_small(threshold))).filter(joins_files())
}

/// A compaction plan names only files of the file-set that are small: every
/// input of every group is the identifier of a file below the threshold
/// in the group's partition.
pub proof fn lemma_plan_selects_small_files(files: Seq<FileView>, threshold: nat, g: int, k: int)
    requires
        0 <= g < compaction_plan(files, threshold).len(),
        0 <= k < compaction_plan(files, threshold)[g].inputs.len(),
    ensures
        exists|i: int|
            0 <= i < files.len() && (#[trigger] files[i]).id == compaction_plan(
                files,
                threshold,
            )[g].inputs[k] && files[i].bytes < threshold && partition_dir(files[i].partition_values)
                == compaction_plan(files, threshold)[g].partition,
{
    let smalls = files.filter(is_small(threshold));
    let groups = partition_groups(smalls);
    let plan = groups.filter(joins_files());
    let group = plan[g];
    assert(plan.contains(group));
    crate::log::rows::lemma_filter_members(groups, joins_files(), group);
    let h = choose|h: int| 0 <= h < groups.len() && groups[h] == group;
    let key = distinct(paths_of(smalls))[h];
    assert(group == partition_group(smalls, key));
    let members = positions(paths_of(smalls), key);
    let m = members[k];
    lemma_positions(paths_of(smalls), key, m);
    assert(members.contains(m));
    assert(paths_of(smalls)[m] == key);
    let f = smalls[m];
    assert(smalls.contains(f));
    crate::log::rows::lemma_filter_members(files, is_small(threshold), f);
    let i = choose|i: int| 0 <= i < files.len() && files[i] == f;
    assert(files[i].id == group.inputs[k]);
}

/// The files of `files` that are below `threshold` bytes.
pub fn small_files(files: &Vec<DataFile>, threshold: u64) -> (out: Vec<DataFile>)
    ensures
        files_view(out@) == files_view(files@).filter(is_small(threshold as nat)),
{
    let ghost small = is_small(threshold as nat);
    let mut out: Vec<DataFile> = Vec::new();
    let mut i: usize = 0;
    proof {
        reveal(Seq::filter);
        assert(files_view(files@).subrange(0, 0) =~= Seq::empty());
        assert(files_view(out@) =~= Seq::empty());
    }
    while i < files.len()
        invariant
            i <= files.len(),
            small == is_small(threshold as nat),
            files_view(out@) == files_view(files@).subrange(0, i as int).filter(small),
        decreases files.len() - i,
    {
        let ghost before = files_view(files@).subrange(0, i as int);
        proof {
            before.lemma_filter_push(files@[i as int]@, small);
            assert(files_view(files@).subrange(0, i as int + 1) =~= before.push(files@[i as int]@));
        }
        if files[i].bytes < threshold {
            let ghost prev = files_view(out@);
            out.push(files[i].copy());
            assert(files_view(out@) =~= prev.push(files@[i as int]@));
        }
        i += 1;
    }
    assert(files_view(files@).subrange(0, files@.len() as int) =~= files_view(files@));
    out
}

/// Plans a compaction of a file-set: selects, within each partition, the
/// files below `small_file_bytes`, and groups them where a partition has
/// at least two. The rows of a group's files are to be written into new
/// files; the commit removes the group's files and adds the new ones.
pub fn plan_compaction(live: &Vec<DataFile>, small_file_bytes: u64) -> (plan: Vec<CompactionGroup>)
    ensures
        plan_view(plan@) == compaction_plan(files_view(live@), small_file_bytes as nat),
{
    let smalls = small_files(live, small_file_bytes);
    let mut paths: Vec<String> = Vec::new();
    let mut i: usize = 0;
    while i < smalls.len()
        invariant
            i <= smalls.len(),
            paths@.len() == i,
            forall|j: int|
                0 <= j < i ==> paths@[j]@ == partition_dir(smalls@[j]@.partition_values),
        decreases smalls.len() - i,
    {
        paths.push(partition_path(&smalls[i].partition_values));
        i += 1;
    }
    assert(names_of(paths@) =~= paths_of(files_view(smalls@)));
    let groups = group_by_key(&paths);
    let ghost all = partition_groups(files_view(smalls@));
    let ghost joins = joins_files();
    let mut plan: Vec<CompactionGroup> = Vec::new();
    let mut g: usize = 0;
    proof {
        reveal(Seq::filter);
        assert(all.subrange(0, 0) =~= Seq::empty());
        assert(plan_view(plan@) =~= Seq::empty());
    }
    while g < groups.len()
        invariant
            g <= groups.len(),
            smalls@.len() == paths@.len(),
            names_of(paths@) == paths_of(files_view(smalls@)),
            is_grouping(names_of(paths@), groups@),
            all == partition_groups(files_view(smalls@)),
            joins == joins_files(),
            plan_view(plan@) == all.subrange(0, g as int).filter(joins),
        decreases groups.len() - g,
    {
        let group = &groups[g];
        let ghost key = distinct(names_of(paths@))[g as int];
        let ghost wanted = partition_group(files_view(smalls@), key);
        assert(all[g as int] == wanted);
        proof {
            assert(as_ints(group.members@) == positions(names_of(paths@), key));
            assert(wanted.inputs.len() == group.members@.len());
            all.subrange(0, g as int).lemma_filter_push(wanted, joins);
            assert(all.subrange(0, g as int + 1) =~= all.subrange(0, g as int).push(wanted));
        }
        if group.members.len() >= 2 {
            let mut inputs: Vec<String> = Vec::new();
            let mut m: usize = 0;
            while m < group.members.len()
                invariant
                    m <= group.members.len(),
                    smalls@.len() == paths@.len(),
                    as_ints(group.members@) == positions(names_of(paths@), key),
                    inputs@.len() == m,
                    forall|j: int|
                        0 <= j < m ==> inputs@[j]@ == files_view(smalls@)[group.members@[j] as int].id,
                decreases group.members.len() - m,
            {
                let position = group.members[m];
                proof {
                    lemma_positions(names_of(paths@), key, 0);
                    assert(as_ints(group.members@)[m as int] == position);
                    assert(0 <= positions(names_of(paths@), key)[m as int] < paths@.len());
                }
                inputs.push(smalls[position].id.clone());
                m += 1;
            }
            assert(names_of(inputs@) =~= wanted.inputs) by {
                assert forall|j: int| 0 <= j < inputs@.len() implies names_of(inputs@)[j]
                    == wanted.inputs[j] by {
                    assert(as_ints(group.members@)[j] == group.members@[j] as int);
                }
            }
            let ghost prev = plan_view(plan@);
            plan.push(CompactionGroup { partition: group.key.clone(), inputs });
            assert(plan_view(plan@) =~= prev.push(wanted));
        }
        g += 1;
    }
    assert(all.subrange(0, groups@.len() as int) =~= all);
    plan
}

} // verus!
