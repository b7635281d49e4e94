use vstd::prelude::*;
use crate::find_dups::HashEntry;

verus! {

/// What to do with the duplicates of each group.
#[derive(Debug, Clone, Copy, PartialEq, Eq)]
pub enum ProcessAction {
    Move,
    Delete,
}

/// One file of a group in a duplicate list.
pub struct ProcessFile {
    pub path: String,
    pub hash: String,
    pub distance_from_representative: u32,
}

/// One group of a duplicate list: the file chosen to represent it and its files.
pub struct ProcessGroup {
    pub group_id: usize,
    pub representative_file: String,
    pub files: Vec<ProcessFile>,
}

/// A file to move or delete, with its group and the file of the group that is kept.
pub struct ProcessTarget {
    pub group_id: usize,
    pub file: ProcessFile,
    pub keep: String,
}

/// The size recorded for path `p`: the last record of that path wins.
pub open spec fn size_lookup(table: Seq<(String, u64)>, p: Seq<char>) -> Option<u64>
    decreases table.len(),
{
    if table.len() == 0 {
        None
    } else if table.last().0@ == p {
        Some(table.last().1)
    } else {
        size_lookup(table.drop_last(), p)
    }
}

/// The records of `es` that carry a file size, in order, as (path, size).
pub open spec fn size_records(es: Seq<HashEntry>) -> Seq<(String, u64)>
    decreases es.len(),
{
    if es.len() == 0 {
        seq![]
    } else {
        match es.last().file_size {
            Some(s) => size_records(es.drop_last()).push((es.last().file_path, s)),
            None => size_records(es.drop_last()),
        }
    }
}

/// Every entry that carries a size has a record of its path and size.
pub proof fn lemma_size_records_complete(es: Seq<HashEntry>, i: int)
    requires
        0 <= i < es.len(),
        es[i].file_size is Some,
    ensures
        exists|t: int|
            0 <= t < size_records(es).len() && (#[trigger] size_records(es)[t]).0@ == es[i].file_path@
                && Some(size_records(es)[t].1) == es[i].file_size,
    decreases es.len(),
{
    let rest = size_records(es.drop_last());
    if i == es.len() - 1 {
        let t = rest.len() as int;
        assert(size_records(es)[t] == (es.last().file_path, es.last().file_size->0));
    } else {
        lemma_size_records_complete(es.drop_last(), i);
        let t = choose|t: int|
            0 <= t < rest.len() && (#[trigger] rest[t]).0@ == es.drop_last()[i].file_path@ && Some(
                rest[t].1,
            ) == es.drop_last()[i].file_size;
        assert(size_records(es)[t] == rest[t]);
    }
}

/// Every record comes from an entry that carries that size under that path.
pub proof fn lemma_size_records_sound(es: Seq<HashEntry>, t: int)
    requires
        0 <= t < size_records(es).len(),
    ensures
        exists|i: int|
            0 <= i < es.len() && (#[trigger] es[i]).file_path@ == size_records(es)[t].0@ && es[i].file_size
                == Some(size_records(es)[t].1),
    decreases es.len(),
{
    let rest = size_records(es.drop_last());
    if t < rest.len() {
        assert(size_records(es)[t] == rest[t]);
        lemma_size_records_sound(es.drop_last(), t);
        let i = choose|i: int|
            0 <= i < es.drop_last().len() && (#[trigger] es.drop_last()[i]).file_path@ == rest[t].0@
                && es.drop_last()[i].file_size == Some(rest[t].1);
        assert(es[i] == es.drop_last()[i]);
    } else {
        assert(es[es.len() - 1] == es.last());
    }
}

/// The size found for the path of a sized entry that no later sized entry
/// shares is that entry's size.
pub proof fn lemma_size_lookup_finds_entry(es: Seq<HashEntry>, i: int)
    requires
        0 <= i < es.len(),
        es[i].file_size is Some,
        forall|j: int| i < j < es.len() && (#[trigger] es[j]).file_path@ == es[i].file_path@ ==> es[j].file_size is None,
    ensures
        size_lookup(size_records(es), es[i].file_path@) == es[i].file_size,
    decreases es.len(),
{
    let rest = size_records(es.drop_last());
    if i < es.len() - 1 {
        let l = es.len() - 1;
        assert(es[l] == es.last());
        if es.last().file_path@ == es[i].file_path@ {
            assert(es.last().file_size is None);
        }
        assert forall|j: int| i < j < es.drop_last().len() && (#[trigger] es.drop_last()[j]).file_path@
            == es.drop_last()[i].file_path@ implies es.drop_last()[j].file_size is None by {
            assert(es.drop_last()[j] == es[j]);
        }
        lemma_size_lookup_finds_entry(es.drop_last(), i);
        match es.last().file_size {
            Some(s) => {
                assert(size_records(es).drop_last() =~= rest);
            },
            None => {},
        }
    }
}

/// Builds the table of file sizes from the entries of a hash database:
/// one (path, size) record per entry that carries a size, in order.
pub fn file_size_table(entries: &Vec<HashEntry>) -> (r: Vec<(String, u64)>)
    ensures
        r@ == size_records(entries@),
        forall|i: int|
            0 <= i < entries@.len() && (#[trigger] entries@[i]).file_size is Some ==> exists|t: int|
                0 <= t < r@.len() && (#[trigger] r@[t]).0@ == entries@[i].file_path@ && Some(r@[t].1)
                    == entries@[i].file_size,
{
    let mut r: Vec<(String, u64)> = Vec::new();
    let mut k: usize = 0;
    while k < entries.len()
        invariant
            k <= entries@.len(),
            r@ == size_records(entries@.take(k as int)),
        decreases entries@.len() - k,
    {
        proof {
            assert(entries@.take(k + 1).drop_last() =~= entries@.take(k as int));
        }
        match entries[k].file_size {
            Some(s) => {
                r.push((entries[k].file_path.clone(), s));
            },
            None => {},
        }
        k = k + 1;
    }
    proof {
        assert(entries@.take(entries@.len() as int) =~= entries@);
        assert forall|i: int|
            0 <= i < entries@.len() && (#[trigger] entries@[i]).file_size is Some implies exists|t: int|
                0 <= t < r@.len() && (#[trigger] r@[t]).0@ == entries@[i].file_path@ && Some(r@[t].1)
                    == entries@[i].file_size by {
            lemma_size_records_complete(entries@, i);
        }
    }
    r
}

/// The size recorded for `path`, or `None`.
pub fn lookup_size(table: &Vec<(String, u64)>, path: &String) -> (r: Option<u64>)
    ensures
        r == size_lookup(table@, path@),
{
    let mut k: usize = table.len();
    proof {
        assert(table@.take(k as int) =~= table@);
    }
    while k > 0
        invariant
            k <= table@.len(),
            size_lookup(table@, path@) == size_lookup(table@.take(k as int), path@),
        decreases k,
    {
        proof {
            assert(table@.take(k as int).drop_last() =~= table@.take(k - 1));
        }
        if table[k - 1].0 == *path {
            return Some(table[k - 1].1);
        }
        k = k - 1;
    }
    None
}

/// The size of a file for the choice of the largest: its recorded size, or 0.
pub open spec fn size_or_zero(table: Seq<(String, u64)>, p: Seq<char>) -> u64 {
    match size_lookup(table, p) {
        Some(s) => s,
        None => 0,
    }
}

/// Position, among the first `k` files, of the largest one; of several
/// equally large files the last.
pub open spec fn largest_upto(fs: Seq<ProcessFile>, table: Seq<(String, u64)>, k: nat) -> nat
    decreases k,
{
    if k <= 1 {
        0
    } else {
        let b = largest_upto(fs, table, (k - 1) as nat);
        if size_or_zero(table, fs[k - 1].path@) >= size_or_zero(table, fs[b as int].path@) {
            (k - 1) as nat
        } else {
            b
        }
    }
}

/// The path of the largest file of a group (the last of several equally large ones).
pub fn find_largest_file(group: &ProcessGroup, table: &Vec<(String, u64)>) -> (r: String)
    requires
        group.files@.len() > 0,
    ensures
        r@ == group.files@[largest_upto(group.files@, table@, group.files@.len()) as int].path@,
{
    let fs = &group.files;
    let mut best: usize = 0;
    let mut best_size = match lookup_size(table, &fs[0].path) {
        Some(s) => s,
        None => 0,
    };
    let mut k: usize = 1;
    while k < fs.len()
        invariant
            1 <= k <= fs@.len(),
            fs == group.files,
            best == largest_upto(fs@, table@, k as nat),
            best < k,
            best_size == size_or_zero(table@, fs@[best as int].path@),
        decreases fs@.len() - k,
    {
        let s = match lookup_size(table, &fs[k].path) {
            Some(s) => s,
            None => 0,
        };
        if s >= best_size {
            best = k;
            best_size = s;
        }
        k = k + 1;
    }
    fs[best].path.clone()
}

/// The path of the file a group keeps. Without size records: the group's
/// representative file, or its first file where none is named. With size
/// records: the largest file of the group.
pub open spec fn kept_path(g: ProcessGroup, table: Seq<(String, u64)>) -> Seq<char> {
    if table.len() == 0 {
        if g.representative_file@.len() > 0 {
            g.representative_file@
        } else {
            g.files@[0].path@
        }
    } else {
        g.files@[largest_upto(g.files@, table, g.files@.len()) as int].path@
    }
}

/// Whether a group can choose the file it keeps: it has files, or there are
/// no size records and it names a representative file.
pub open spec fn group_can_choose(g: ProcessGroup, table: Seq<(String, u64)>) -> bool {
    g.files@.len() > 0 || (table.len() == 0 && g.representative_file@.len() > 0)
}

/// The files of the group with index `gi` to move or delete, in order, as
/// (group index, file index): every file whose path is not the kept path.
pub open spec fn group_targets(g: ProcessGroup, table: Seq<(String, u64)>, k: nat) -> Seq<nat>
    decreases k,
{
    if k == 0 {
        seq![]
    } else if g.files@[k - 1].path@ != kept_path(g, table) {
        group_targets(g, table, (k - 1) as nat).push((k - 1) as nat)
    } else {
        group_targets(g, table, (k - 1) as nat)
    }
}

/// All files to move or delete, group by group, as (group index, file index).
pub open spec fn all_targets(gs: Seq<ProcessGroup>, table: Seq<(String, u64)>) -> Seq<(nat, nat)>
    decreases gs.len(),
{
    if gs.len() == 0 {
        seq![]
    } else {
        all_targets(gs.drop_last(), table) + group_targets(gs.last(), table, gs.last().files@.len()).map_values(
            |f: nat| ((gs.len() - 1) as nat, f),
        )
    }
}

/// Whether `t` is the target that names file `f` of group `g` of `gs`.
pub open spec fn target_matches(gs: Seq<ProcessGroup>, table: Seq<(String, u64)>, gf: (nat, nat), t: ProcessTarget) -> bool {
    let g = gs[gf.0 as int];
    let f = g.files@[gf.1 as int];
    &&& t.group_id == g.group_id
    &&& t.file.path@ == f.path@
    &&& t.file.hash@ == f.hash@
    &&& t.file.distance_from_representative == f.distance_from_representative
    &&& t.keep@ == kept_path(g, table)
}


/// The path of the file a group keeps (see `kept_path`).
pub fn file_to_keep(group: &ProcessGroup, table: &Vec<(String, u64)>) -> (r: String)
    requires
        group_can_choose(*group, table@),
    ensures
        r@ == kept_path(*group, table@),
{
    if table.len() == 0 {
        if group.representative_file.as_str().unicode_len() > 0 {
            group.representative_file.clone()
        } else {
            group.files[0].path.clone()
        }
    } else {
        find_largest_file(group, table)
    }
}

/// A field-by-field copy of a file of a duplicate list.
pub fn copy_process_file(f: &ProcessFile) -> (r: ProcessFile)
    ensures
        r == *f,
{
    ProcessFile {
        path: f.path.clone(),
        hash: f.hash.clone(),
        distance_from_representative: f.distance_from_representative,
    }
}

/// The files to move or delete: in each group, every file whose path is not
/// that of the file the group keeps (see `kept_path`), group by group.
pub fn files_to_process(groups: &Vec<ProcessGroup>, table: &Vec<(String, u64)>) -> (r: Vec<ProcessTarget>)
    requires
        forall|g: int| 0 <= g < groups@.len() ==> group_can_choose(#[trigger] groups@[g], table@),
    ensures
        r@.len() == all_targets(groups@, table@).len(),
        forall|k: int|
            0 <= k < r@.len() ==> target_matches(groups@, table@, all_targets(groups@, table@)[k], #[trigger] r@[k]),
{
    let ghost gs = groups@;
    let mut r: Vec<ProcessTarget> = Vec::new();
    let mut gi: usize = 0;
    while gi < groups.len()
        invariant
            gi <= gs.len(),
            gs == groups@,
            forall|g: int| 0 <= g < gs.len() ==> group_can_choose(#[trigger] gs[g], table@),
            r@.len() == all_targets(gs.take(gi as int), table@).len(),
            forall|k: int|
                0 <= k < r@.len() ==> target_matches(gs, table@, all_targets(gs.take(gi as int), table@)[k], #[trigger] r@[k]),
        decreases gs.len() - gi,
    {
        let group = &groups[gi];
        let keep = file_to_keep(group, table);
        let ghost before = all_targets(gs.take(gi as int), table@);
        let ghost base = r@.len();
        let mut fi: usize = 0;
        while fi < group.files.len()
            invariant
                fi <= group.files@.len(),
                gi < gs.len(),
                *group == gs[gi as int],
                keep@ == kept_path(*group, table@),
                r@.len() == base + group_targets(*group, table@, fi as nat).len(),
                base == before.len(),
                forall|k: int| 0 <= k < base ==> target_matches(gs, table@, before[k], #[trigger] r@[k]),
                forall|k: int|
                    0 <= k < group_targets(*group, table@, fi as nat).len() ==> target_matches(
                        gs,
                        table@,
                        (gi as nat, group_targets(*group, table@, fi as nat)[k]),
                        #[trigger] r@[base + k],
                    ),
            decreases group.files@.len() - fi,
        {
            if group.files[fi].path != keep {
                let t = ProcessTarget { group_id: group.group_id, file: copy_process_file(&group.files[fi]), keep: keep.clone() };
                r.push(t);
            }
            fi = fi + 1;
        }
        proof {
            let t1 = gs.take(gi + 1);
            assert(t1.drop_last() =~= gs.take(gi as int));
            assert(t1.last() == gs[gi as int]);
            let gt = group_targets(gs[gi as int], table@, gs[gi as int].files@.len());
            let mapped = gt.map_values(|f: nat| (gi as nat, f));
            assert(all_targets(t1, table@) == before + mapped);
            assert forall|k: int| 0 <= k < r@.len() implies target_matches(gs, table@, all_targets(t1, table@)[k], #[trigger] r@[k]) by {
                if k < base {
                    assert(all_targets(t1, table@)[k] == before[k]);
                } else {
                    assert(all_targets(t1, table@)[k] == mapped[k - base]);
                    assert(r@[k] == r@[base + (k - base)]);
                }
            }
        }
        gi = gi + 1;
    }
    proof {
        assert(gs.take(gs.len() as int) =~= gs);
    }
    r
}


proof fn lemma_group_targets_props(g: ProcessGroup, table: Seq<(String, u64)>, k: nat)
    requires
        k <= g.files@.len(),
    ensures
        forall|t: int|
            0 <= t < group_targets(g, table, k).len() ==> group_targets(g, table, k)[t] < k
                && g.files@[#[trigger] group_targets(g, table, k)[t] as int].path@ != kept_path(g, table),
        forall|f: nat| f < k && g.files@[f as int].path@ != kept_path(g, table) ==> #[trigger] group_targets(g, table, k).contains(f),
    decreases k,
{
    if k > 0 {
        lemma_group_targets_props(g, table, (k - 1) as nat);
        let g0 = group_targets(g, table, (k - 1) as nat);
        let g1 = group_targets(g, table, k);
        assert forall|f: nat| f < k && g.files@[f as int].path@ != kept_path(g, table) implies #[trigger] g1.contains(f) by {
            if f < k - 1 {
                assert(g0.contains(f));
                let w = choose|w: int| 0 <= w < g0.len() && g0[w] == f;
                assert(g1[w] == f);
            } else {
                assert(g1[g1.len() - 1] == f);
            }
        }
    }
}

/// Within a group, exactly the files whose path differs from the kept path
/// are moved or deleted: the kept file is never among them.
pub proof fn lemma_targets_spare_kept_file(g: ProcessGroup, table: Seq<(String, u64)>, f: nat)
    requires
        f < g.files@.len(),
    ensures
        group_targets(g, table, g.files@.len()).contains(f) <==> g.files@[f as int].path@ != kept_path(g, table),
{
    lemma_group_targets_props(g, table, g.files@.len());
    if group_targets(g, table, g.files@.len()).contains(f) {
        let w = choose|w: int| 0 <= w < group_targets(g, table, g.files@.len()).len() && group_targets(g, table, g.files@.len())[w] == f;
        assert(g.files@[group_targets(g, table, g.files@.len())[w] as int].path@ != kept_path(g, table));
    }
}

proof fn lemma_largest_upto_max(fs: Seq<ProcessFile>, table: Seq<(String, u64)>, k: nat)
    requires
        1 <= k <= fs.len(),
    ensures
        forall|t: int| 0 <= t < k ==> size_or_zero(table, fs[largest_upto(fs, table, k) as int].path@)
            >= size_or_zero(table, #[trigger] fs[t].path@),
    decreases k,
{
    if k > 1 {
        lemma_largest_upto_max(fs, table, (k - 1) as nat);
    }
}

/// With size records, a group keeps one of its largest files.
pub proof fn lemma_kept_file_is_largest(g: ProcessGroup, table: Seq<(String, u64)>, t: int)
    requires
        table.len() > 0,
        0 <= t < g.files@.len(),
    ensures
        size_or_zero(table, kept_path(g, table)) >= size_or_zero(table, g.files@[t].path@),
{
    lemma_largest_upto_max(g.files@, table, g.files@.len());
}

} // verus!
