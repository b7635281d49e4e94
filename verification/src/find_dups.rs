use vstd::prelude::*;
use crate::hamming::{hamming, hamming_distance};

verus! {

/// One image of a hash database: its path, its hash in text form, its 64-bit
/// hash value and, where the database records it, the file size in bytes.
pub struct HashEntry {
    pub file_path: String,
    pub hash: String,
    pub hash_bits: u64,
    pub file_size: Option<u64>,
}

/// One file of a duplicate group.
pub struct DuplicateFile {
    pub path: String,
    pub hash: String,
    pub distance_from_first: u32,
    pub is_original: bool,
}

/// A group of images whose hashes are within the threshold of the group's first image.
pub struct DuplicateGroup {
    pub group_id: usize,
    pub original_index: usize,
    pub files: Vec<DuplicateFile>,
}

/// The result of a duplicate search.
pub struct DuplicatesReport {
    pub total_groups: usize,
    pub total_duplicates: usize,
    pub threshold: u32,
    pub groups: Vec<DuplicateGroup>,
}

/// The first index at or after `k` whose entry has path `p`.
pub open spec fn first_with_path(es: Seq<HashEntry>, p: Seq<char>, k: nat) -> Option<nat>
    decreases es.len() - k,
{
    if k >= es.len() {
        None
    } else if es[k as int].file_path@ == p {
        Some(k)
    } else {
        first_with_path(es, p, k + 1)
    }
}

/// The file size recorded for path `p` (by its first entry), or 0 where there is none.
pub open spec fn size_for_path(es: Seq<HashEntry>, p: Seq<char>) -> u64 {
    match first_with_path(es, p, 0) {
        Some(k) => match es[k as int].file_size {
            Some(s) => s,
            None => 0,
        },
        None => 0,
    }
}

/// The hash value recorded for path `p` (by its first entry), or 0 where there is none.
pub open spec fn bits_for_path(es: Seq<HashEntry>, p: Seq<char>) -> u64 {
    match first_with_path(es, p, 0) {
        Some(k) => es[k as int].hash_bits,
        None => 0,
    }
}

/// Whether entry `j`, not yet placed in a group, is within `thr` of entry `base`.
pub open spec fn joins(es: Seq<HashEntry>, processed: Seq<bool>, base: int, thr: u32, j: int) -> bool {
    !processed[j] && hamming(es[base].hash_bits, es[j].hash_bits) <= thr
}

/// The indices below `upto`, in increasing order, that join the group of `base`.
pub open spec fn candidates(
    es: Seq<HashEntry>,
    processed: Seq<bool>,
    base: int,
    thr: u32,
    upto: nat,
) -> Seq<usize>
    decreases upto,
{
    if upto == 0 {
        seq![]
    } else {
        let rest = candidates(es, processed, base, thr, (upto - 1) as nat);
        if joins(es, processed, base, thr, upto - 1) {
            rest.push((upto - 1) as usize)
        } else {
            rest
        }
    }
}

/// `processed` with every index of `m` marked.
pub open spec fn mark_all(processed: Seq<bool>, m: Seq<usize>) -> Seq<bool> {
    Seq::new(processed.len(), |t: int| processed[t] || m.contains(t as usize))
}

/// The members of the group that entry `i` opens: `i` itself, then every
/// entry not yet placed whose hash is within `thr` of it, in index order.
pub open spec fn members(es: Seq<HashEntry>, thr: u32, i: nat, processed: Seq<bool>) -> Seq<usize> {
    let p1 = processed.update(i as int, true);
    seq![i as usize] + candidates(es, p1, i as int, thr, es.len())
}

/// The groups, as index lists, that the greedy scan from entry `i` on forms,
/// given which entries are already placed. Only groups of two or more entries are kept.
pub open spec fn raw_groups(es: Seq<HashEntry>, thr: u32, i: nat, processed: Seq<bool>) -> Seq<
    Seq<usize>,
>
    decreases es.len() - i,
{
    if i >= es.len() {
        seq![]
    } else if processed[i as int] {
        raw_groups(es, thr, i + 1, processed)
    } else {
        let m = members(es, thr, i, processed);
        let p2 = mark_all(processed.update(i as int, true), m);
        if m.len() > 1 {
            seq![m] + raw_groups(es, thr, i + 1, p2)
        } else {
            raw_groups(es, thr, i + 1, p2)
        }
    }
}

/// All groups of the database, as index lists, in the order they are found.
pub open spec fn all_raw_groups(es: Seq<HashEntry>, thr: u32) -> Seq<Seq<usize>> {
    raw_groups(es, thr, 0, Seq::new(es.len(), |t: int| false))
}

/// Sort key of an entry: the file size recorded for its path.
pub open spec fn size_key(es: Seq<HashEntry>, idx: usize) -> u64 {
    size_for_path(es, es[idx as int].file_path@)
}

/// The first position at or after `k` in `s` whose key is smaller than `kx`, or `s.len()`.
pub open spec fn first_smaller(es: Seq<HashEntry>, s: Seq<usize>, kx: u64, k: nat) -> nat
    decreases s.len() - k,
{
    if k >= s.len() {
        s.len()
    } else if size_key(es, s[k as int]) < kx {
        k
    } else {
        first_smaller(es, s, kx, k + 1)
    }
}

/// `m` sorted by file size, largest first; entries of equal size keep their order.
pub open spec fn sort_by_size(es: Seq<HashEntry>, m: Seq<usize>) -> Seq<usize>
    decreases m.len(),
{
    if m.len() == 0 {
        seq![]
    } else {
        let s = sort_by_size(es, m.drop_last());
        s.insert(first_smaller(es, s, size_key(es, m.last()), 0) as int, m.last())
    }
}

/// Whether `g` is the report group with id `gid` made of the entries `m`:
/// the files sorted by size with the largest first and marked as the original,
/// each with its Hamming distance from the original.
pub open spec fn group_matches(es: Seq<HashEntry>, m: Seq<usize>, gid: usize, g: DuplicateGroup) -> bool {
    let s = sort_by_size(es, m);
    let ob = bits_for_path(es, es[s[0] as int].file_path@);
    &&& g.group_id == gid
    &&& g.original_index == 0
    &&& g.files@.len() == s.len()
    &&& forall|t: int|
        #![trigger g.files@[t]]
        0 <= t < s.len() ==> {
            &&& g.files@[t].path@ == es[s[t] as int].file_path@
            &&& g.files@[t].hash@ == es[s[t] as int].hash@
            &&& g.files@[t].distance_from_first == hamming(
                ob,
                bits_for_path(es, es[s[t] as int].file_path@),
            )
            &&& g.files@[t].is_original == (t == 0)
        }
}

/// Number of duplicates in a list of groups: each group's size less one.
pub open spec fn duplicate_count(gs: Seq<Seq<usize>>) -> nat
    decreases gs.len(),
{
    if gs.len() == 0 {
        0
    } else {
        duplicate_count(gs.drop_last()) + (gs.last().len() - 1) as nat
    }
}


/// Total number of indices over a list of groups.
pub open spec fn total_len(gs: Seq<Seq<usize>>) -> nat
    decreases gs.len(),
{
    if gs.len() == 0 {
        0
    } else {
        total_len(gs.drop_last()) + gs.last().len()
    }
}

/// Number of entries not yet placed in a group.
pub open spec fn count_unplaced(s: Seq<bool>) -> nat
    decreases s.len(),
{
    if s.len() == 0 {
        0
    } else {
        count_unplaced(s.drop_last()) + if !s.last() { 1nat } else { 0nat }
    }
}

proof fn lemma_count_unplaced_update(s: Seq<bool>, j: int)
    requires
        0 <= j < s.len(),
        !s[j],
    ensures
        count_unplaced(s.update(j, true)) + 1 == count_unplaced(s),
    decreases s.len(),
{
    if j < s.len() - 1 {
        assert(s.update(j, true).drop_last() =~= s.drop_last().update(j, true));
        lemma_count_unplaced_update(s.drop_last(), j);
    } else {
        assert(s.update(j, true).drop_last() =~= s.drop_last());
    }
}

proof fn lemma_count_unplaced_all_false(n: nat)
    ensures
        count_unplaced(Seq::new(n, |t: int| false)) == n,
    decreases n,
{
    if n > 0 {
        assert(Seq::new(n, |t: int| false).drop_last() =~= Seq::new((n - 1) as nat, |t: int| false));
        lemma_count_unplaced_all_false((n - 1) as nat);
    }
}

proof fn lemma_candidates_below(
    es: Seq<HashEntry>,
    processed: Seq<bool>,
    base: int,
    thr: u32,
    upto: nat,
)
    ensures
        forall|t: int|
            0 <= t < candidates(es, processed, base, thr, upto).len() ==> candidates(
                es,
                processed,
                base,
                thr,
                upto,
            )[t] < upto,
        candidates(es, processed, base, thr, upto).len() <= upto,
    decreases upto,
{
    if upto > 0 {
        lemma_candidates_below(es, processed, base, thr, (upto - 1) as nat);
    }
}

proof fn lemma_total_len_prefix(gs: Seq<Seq<usize>>, k: int)
    requires
        0 <= k <= gs.len(),
        forall|t: int| 0 <= t < gs.len() ==> #[trigger] gs[t].len() > 0,
    ensures
        total_len(gs.take(k)) <= total_len(gs),
        duplicate_count(gs.take(k)) <= total_len(gs.take(k)),
    decreases gs.len(),
{
    if k < gs.len() {
        assert(gs.drop_last().take(k) =~= gs.take(k));
        assert forall|t: int| 0 <= t < gs.drop_last().len() implies #[trigger] gs.drop_last()[t].len() > 0 by {
            assert(gs.drop_last()[t] == gs[t]);
        }
        lemma_total_len_prefix(gs.drop_last(), k);
    } else {
        assert(gs.take(k) =~= gs);
        lemma_duplicate_count_le_total(gs);
    }
}

proof fn lemma_duplicate_count_le_total(gs: Seq<Seq<usize>>)
    requires
        forall|t: int| 0 <= t < gs.len() ==> #[trigger] gs[t].len() > 0,
    ensures
        duplicate_count(gs) <= total_len(gs),
    decreases gs.len(),
{
    if gs.len() > 0 {
        assert forall|t: int| 0 <= t < gs.drop_last().len() implies #[trigger] gs.drop_last()[t].len() > 0 by {
            assert(gs.drop_last()[t] == gs[t]);
        }
        lemma_duplicate_count_le_total(gs.drop_last());
    }
}

/// Index of the first entry whose path is `p`.
fn find_path_index(es: &Vec<HashEntry>, p: &String) -> (r: Option<usize>)
    ensures
        match r {
            Some(k) => first_with_path(es@, p@, 0) == Some(k as nat) && k < es@.len(),
            None => first_with_path(es@, p@, 0) is None,
        },
{
    let mut k: usize = 0;
    while k < es.len()
        invariant
            k <= es@.len(),
            first_with_path(es@, p@, 0) == first_with_path(es@, p@, k as nat),
        decreases es@.len() - k,
    {
        if es[k].file_path == *p {
            return Some(k);
        }
        k = k + 1;
    }
    None
}

/// File size recorded for the path of entry `idx`.
fn size_of_entry(es: &Vec<HashEntry>, idx: usize) -> (r: u64)
    requires
        idx < es@.len(),
    ensures
        r == size_key(es@, idx),
{
    match find_path_index(es, &es[idx].file_path) {
        Some(k) => match es[k].file_size {
            Some(s) => s,
            None => 0,
        },
        None => 0,
    }
}

/// Hash value recorded for path `p`.
fn bits_of_path(es: &Vec<HashEntry>, p: &String) -> (r: u64)
    ensures
        r == bits_for_path(es@, p@),
{
    match find_path_index(es, p) {
        Some(k) => es[k].hash_bits,
        None => 0,
    }
}

proof fn lemma_sort_by_size_elements(es: Seq<HashEntry>, m: Seq<usize>)
    ensures
        sort_by_size(es, m).len() == m.len(),
        forall|t: int| 0 <= t < m.len() ==> m.contains(#[trigger] sort_by_size(es, m)[t]),
    decreases m.len(),
{
    if m.len() > 0 {
        let s = sort_by_size(es, m.drop_last());
        lemma_sort_by_size_elements(es, m.drop_last());
        lemma_first_smaller_bound(es, s, size_key(es, m.last()), 0);
        let pos = first_smaller(es, s, size_key(es, m.last()), 0);
        let r = s.insert(pos as int, m.last());
        assert forall|t: int| 0 <= t < m.len() implies m.contains(#[trigger] r[t]) by {
            if t < pos {
                assert(m.drop_last().contains(s[t]));
            } else if t > pos {
                assert(m.drop_last().contains(s[t - 1]));
            } else {
                assert(m[m.len() - 1] == r[t]);
            }
        }
    }
}

proof fn lemma_first_smaller_bound(es: Seq<HashEntry>, s: Seq<usize>, kx: u64, k: nat)
    requires
        k <= s.len(),
    ensures
        k <= first_smaller(es, s, kx, k) <= s.len(),
    decreases s.len() - k,
{
    if k < s.len() {
        lemma_first_smaller_bound(es, s, kx, k + 1);
    }
}

/// The members `m` sorted by file size, largest first, keeping the order of equal sizes.
fn sort_members_by_size(es: &Vec<HashEntry>, m: &Vec<usize>) -> (r: Vec<usize>)
    requires
        forall|t: int| 0 <= t < m@.len() ==> m@[t] < es@.len(),
    ensures
        r@ == sort_by_size(es@, m@),
{
    let mut r: Vec<usize> = Vec::new();
    let mut k: usize = 0;
    while k < m.len()
        invariant
            k <= m@.len(),
            forall|t: int| 0 <= t < m@.len() ==> m@[t] < es@.len(),
            r@ == sort_by_size(es@, m@.take(k as int)),
        decreases m@.len() - k,
    {
        let x = m[k];
        let kx = size_of_entry(es, x);
        proof {
            lemma_sort_by_size_elements(es@, m@.take(k as int));
            assert forall|t: int| 0 <= t < r@.len() implies r@[t] < es@.len() by {
                assert(m@.take(k as int).contains(r@[t]));
            }
        }
        let mut pos: usize = 0;
        while pos < r.len() && size_of_entry(es, r[pos]) >= kx
            invariant
                pos <= r@.len(),
                forall|t: int| 0 <= t < r@.len() ==> r@[t] < es@.len(),
                first_smaller(es@, r@, kx, 0) == first_smaller(es@, r@, kx, pos as nat),
            decreases r@.len() - pos,
        {
            pos = pos + 1;
        }
        proof {
            assert(m@.take(k + 1).drop_last() =~= m@.take(k as int));
        }
        r.insert(pos, x);
        k = k + 1;
    }
    proof {
        assert(m@.take(m@.len() as int) =~= m@);
    }
    r
}


/// Whether every group has at least two members, each an index below `n`.
pub open spec fn groups_wf(gs: Seq<Seq<usize>>, n: nat) -> bool {
    forall|g: int|
        0 <= g < gs.len() ==> {
            &&& #[trigger] gs[g].len() >= 2
            &&& forall|t: int| 0 <= t < gs[g].len() ==> gs[g][t] < n
        }
}

/// Every group the scan forms has at least two members, each a valid entry index.
pub proof fn lemma_raw_groups_wf(es: Seq<HashEntry>, thr: u32, i: nat, processed: Seq<bool>)
    requires
        processed.len() == es.len(),
    ensures
        groups_wf(raw_groups(es, thr, i, processed), es.len()),
    decreases es.len() - i,
{
    if i < es.len() {
        if processed[i as int] {
            lemma_raw_groups_wf(es, thr, i + 1, processed);
        } else {
            let p1 = processed.update(i as int, true);
            let m = members(es, thr, i, processed);
            let p2 = mark_all(p1, m);
            lemma_raw_groups_wf(es, thr, i + 1, p2);
            lemma_candidates_below(es, p1, i as int, thr, es.len());
            let rest = raw_groups(es, thr, i + 1, p2);
            if m.len() > 1 {
                let all = seq![m] + rest;
                assert forall|g: int| 0 <= g < all.len() implies {
                    &&& #[trigger] all[g].len() >= 2
                    &&& forall|t: int| 0 <= t < all[g].len() ==> all[g][t] < es.len()
                } by {
                    if g == 0 {
                        assert forall|t: int| 0 <= t < all[g].len() implies all[g][t] < es.len() by {
                            if t > 0 {
                                assert(m[t] == candidates(es, p1, i as int, thr, es.len())[t - 1]);
                            }
                        }
                    } else {
                        assert(all[g] == rest[g - 1]);
                    }
                }
            }
        }
    }
}

/// The greedy grouping of the database, as lists of entry indices.
fn group_indices(es: &Vec<HashEntry>, threshold: u32) -> (r: Vec<Vec<usize>>)
    ensures
        r@.map_values(|v: Vec<usize>| v@) == all_raw_groups(es@, threshold),
        total_len(all_raw_groups(es@, threshold)) <= es@.len(),
{
    let n = es.len();
    let mut processed: Vec<bool> = Vec::new();
    let mut z: usize = 0;
    while z < n
        invariant
            z <= n,
            n == es@.len(),
            processed@ =~= Seq::new(z as nat, |t: int| false),
        decreases n - z,
    {
        processed.push(false);
        z = z + 1;
    }
    let ghost start = processed@;
    proof {
        lemma_count_unplaced_all_false(n as nat);
    }
    let mut groups: Vec<Vec<usize>> = Vec::new();
    let mut i: usize = 0;
    while i < n
        invariant
            i <= n,
            n == es@.len(),
            processed@.len() == n,
            start == Seq::new(n as nat, |t: int| false),
            groups@.map_values(|v: Vec<usize>| v@) + raw_groups(es@, threshold, i as nat, processed@)
                == raw_groups(es@, threshold, 0, start),
            total_len(groups@.map_values(|v: Vec<usize>| v@)) + count_unplaced(processed@) <= n,
        decreases n - i,
    {
        if !processed[i] {
            let ghost p0 = processed@;
            let ghost p1 = p0.update(i as int, true);
            proof {
                lemma_count_unplaced_update(p0, i as int);
            }
            processed.set(i, true);
            let base_bits = es[i].hash_bits;
            let mut group: Vec<usize> = Vec::new();
            group.push(i);
            let mut j: usize = 0;
            while j < n
                invariant
                    j <= n,
                    n == es@.len(),
                    i < n,
                    base_bits == es@[i as int].hash_bits,
                    p1.len() == n,
                    p1 == p0.update(i as int, true),
                    processed@ =~= mark_all(p1, candidates(es@, p1, i as int, threshold, j as nat)),
                    group@ == seq![i] + candidates(es@, p1, i as int, threshold, j as nat),
                    count_unplaced(processed@) + group@.len() == count_unplaced(p0),
                decreases n - j,
            {
                proof {
                    lemma_candidates_below(es@, p1, i as int, threshold, j as nat);
                    let c = candidates(es@, p1, i as int, threshold, j as nat);
                    if c.contains(j) {
                        let t = choose|t: int| 0 <= t < c.len() && c[t] == j;
                        assert(c[t] < j);
                    }
                    assert(processed@[j as int] == p1[j as int]);
                }
                if !processed[j] && hamming_distance(base_bits, es[j].hash_bits) <= threshold {
                    proof {
                        lemma_count_unplaced_update(processed@, j as int);
                    }
                    processed.set(j, true);
                    group.push(j);
                }
                proof {
                    let c = candidates(es@, p1, i as int, threshold, j as nat);
                    let c1 = candidates(es@, p1, i as int, threshold, (j + 1) as nat);
                    if joins(es@, p1, i as int, threshold, j as int) {
                        assert(c1 == c.push(j));
                        assert forall|t: int| 0 <= t < n implies processed@[t] == mark_all(p1, c1)[t] by {
                            if c.contains(t as usize) {
                                let w = choose|w: int| 0 <= w < c.len() && c[w] == t as usize;
                                assert(c1[w] == t as usize);
                            }
                            if t == j {
                                assert(c1[c.len() as int] == j);
                            }
                            if c1.contains(t as usize) {
                                let w = choose|w: int| 0 <= w < c1.len() && c1[w] == t as usize;
                                if w < c.len() {
                                    assert(c[w] == t as usize);
                                }
                            }
                        }
                    }
                    assert(processed@ =~= mark_all(p1, c1));
                }
                j = j + 1;
            }
            proof {
                let m = members(es@, threshold, i as nat, p0);
                let c = candidates(es@, p1, i as int, threshold, n as nat);
                assert(m == group@);
                assert forall|t: int| 0 <= t < n implies mark_all(p1, m)[t] == mark_all(p1, c)[t] by {
                    if c.contains(t as usize) {
                        let w = choose|w: int| 0 <= w < c.len() && c[w] == t as usize;
                        assert(m[w + 1] == t as usize);
                    }
                    if m.contains(t as usize) {
                        let w = choose|w: int| 0 <= w < m.len() && m[w] == t as usize;
                        if w > 0 {
                            assert(c[w - 1] == t as usize);
                        }
                    }
                }
                assert(mark_all(p1, m) =~= mark_all(p1, c));
                let gv = groups@.map_values(|v: Vec<usize>| v@);
                let rest = raw_groups(es@, threshold, (i + 1) as nat, processed@);
                if group@.len() > 1 {
                    assert(groups@.push(group).map_values(|v: Vec<usize>| v@) =~= gv.push(group@));
                    assert(gv.push(group@) + rest =~= gv + (seq![group@] + rest));
                    assert(gv.push(group@).drop_last() =~= gv);
                }
            }
            if group.len() > 1 {
                groups.push(group);
            }
        }
        i = i + 1;
    }
    proof {
        assert(groups@.map_values(|v: Vec<usize>| v@) + seq![] =~= groups@.map_values(|v: Vec<usize>| v@));
    }
    groups
}


/// Groups the images of a hash database by perceptual similarity.
///
/// Scanning the entries in order, each entry not yet placed opens a group and
/// takes every later entry not yet placed whose hash is within `threshold`
/// (Hamming distance) of its own. Groups of one entry are dropped. Within a
/// group the files are ordered by file size, largest first (equal sizes keep
/// their order); the first is the original and every distance is measured
/// from it.
pub fn find_duplicates(entries: &Vec<HashEntry>, threshold: u32) -> (r: DuplicatesReport)
    ensures
        r.threshold == threshold,
        r.total_groups == r.groups@.len(),
        r.groups@.len() == all_raw_groups(entries@, threshold).len(),
        forall|k: int|
            0 <= k < r.groups@.len() ==> group_matches(
                entries@,
                all_raw_groups(entries@, threshold)[k],
                k as usize,
                #[trigger] r.groups@[k],
            ),
        r.total_duplicates == duplicate_count(all_raw_groups(entries@, threshold)),
{
    let raw = group_indices(entries, threshold);
    let ghost rg = all_raw_groups(entries@, threshold);
    proof {
        lemma_raw_groups_wf(entries@, threshold, 0, Seq::new(entries@.len(), |t: int| false));
        assert(rg.take(0) =~= seq![]);
    }
    let mut groups: Vec<DuplicateGroup> = Vec::new();
    let mut total: usize = 0;
    let mut k: usize = 0;
    while k < raw.len()
        invariant
            k <= raw@.len(),
            raw@.map_values(|v: Vec<usize>| v@) == rg,
            rg == all_raw_groups(entries@, threshold),
            groups_wf(rg, entries@.len()),
            total_len(rg) <= entries@.len(),
            groups@.len() == k,
            forall|kk: int|
                0 <= kk < k ==> group_matches(entries@, rg[kk], kk as usize, #[trigger] groups@[kk]),
            total == duplicate_count(rg.take(k as int)),
        decreases raw@.len() - k,
    {
        let m = &raw[k];
        assert(rg[k as int] == m@);
        assert(m@.len() >= 2);
        let sorted = sort_members_by_size(entries, m);
        proof {
            lemma_sort_by_size_elements(entries@, m@);
            assert forall|t: int| 0 <= t < sorted@.len() implies sorted@[t] < entries@.len() by {
                assert(m@.contains(sorted@[t]));
            }
        }
        let ob = bits_of_path(entries, &entries[sorted[0]].file_path);
        let mut files: Vec<DuplicateFile> = Vec::new();
        let mut t: usize = 0;
        while t < sorted.len()
            invariant
                t <= sorted@.len(),
                sorted@ == sort_by_size(entries@, m@),
                sorted@.len() >= 2,
                forall|u: int| 0 <= u < sorted@.len() ==> sorted@[u] < entries@.len(),
                ob == bits_for_path(entries@, entries@[sorted@[0] as int].file_path@),
                files@.len() == t,
                forall|u: int|
                    #![trigger files@[u]]
                    0 <= u < t ==> {
                        &&& files@[u].path@ == entries@[sorted@[u] as int].file_path@
                        &&& files@[u].hash@ == entries@[sorted@[u] as int].hash@
                        &&& files@[u].distance_from_first == hamming(
                            ob,
                            bits_for_path(entries@, entries@[sorted@[u] as int].file_path@),
                        )
                        &&& files@[u].is_original == (u == 0)
                    },
            decreases sorted@.len() - t,
        {
            let idx = sorted[t];
            let fb = bits_of_path(entries, &entries[idx].file_path);
            let d = hamming_distance(ob, fb);
            let file = DuplicateFile {
                path: entries[idx].file_path.clone(),
                hash: entries[idx].hash.clone(),
                distance_from_first: d,
                is_original: t == 0,
            };
            files.push(file);
            t = t + 1;
        }
        proof {
            assert(rg.take(k + 1).drop_last() =~= rg.take(k as int));
            assert(rg.take(k + 1).last() == rg[k as int]);
            assert forall|g: int| 0 <= g < rg.len() implies #[trigger] rg[g].len() > 0 by {
                assert(rg[g].len() >= 2);
            }
            lemma_total_len_prefix(rg, k + 1);
            assert(files@.len() == rg[k as int].len());
            assert(duplicate_count(rg.take(k + 1)) == total + (files@.len() - 1));
            assert(duplicate_count(rg.take(k + 1)) <= total_len(rg.take(k + 1)));
            assert(total_len(rg.take(k + 1)) <= total_len(rg));
        }
        let n_entries = entries.len();
        assert(total + (files@.len() - 1) <= n_entries);
        total = total + (files.len() - 1);
        let group = DuplicateGroup { group_id: k, original_index: 0, files };
        groups.push(group);
        k = k + 1;
    }
    proof {
        assert(rg.take(k as int) =~= rg);
    }
    DuplicatesReport { total_groups: groups.len(), total_duplicates: total, threshold, groups }
}


proof fn lemma_candidates_join(
    es: Seq<HashEntry>,
    processed: Seq<bool>,
    base: int,
    thr: u32,
    upto: nat,
)
    requires
        upto <= usize::MAX,
    ensures
        forall|t: int|
            0 <= t < candidates(es, processed, base, thr, upto).len() ==> joins(
                es,
                processed,
                base,
                thr,
                #[trigger] candidates(es, processed, base, thr, upto)[t] as int,
            ),
        forall|a: int, b: int|
            0 <= a < b < candidates(es, processed, base, thr, upto).len() ==> candidates(
                es,
                processed,
                base,
                thr,
                upto,
            )[a] < candidates(es, processed, base, thr, upto)[b],
    decreases upto,
{
    if upto > 0 {
        lemma_candidates_join(es, processed, base, thr, (upto - 1) as nat);
        lemma_candidates_below(es, processed, base, thr, (upto - 1) as nat);
    }
}

/// Whether no index occurs twice in a list of groups, whether in one group or in two.
pub open spec fn no_index_repeats(gs: Seq<Seq<usize>>) -> bool {
    forall|g1: int, g2: int, a: int, b: int|
        0 <= g1 < gs.len() && 0 <= g2 < gs.len() && 0 <= a < gs[g1].len() && 0 <= b < gs[g2].len()
            && (g1 != g2 || a != b) ==> #[trigger] gs[g1][a] != #[trigger] gs[g2][b]
}

/// Whether every index of every group is unplaced in `processed`.
pub open spec fn all_unplaced(gs: Seq<Seq<usize>>, processed: Seq<bool>) -> bool {
    forall|g: int, a: int|
        0 <= g < gs.len() && 0 <= a < gs[g].len() ==> !processed[#[trigger] gs[g][a] as int]
}

proof fn lemma_raw_groups_disjoint(es: Seq<HashEntry>, thr: u32, i: nat, processed: Seq<bool>)
    requires
        processed.len() == es.len(),
        es.len() <= usize::MAX,
    ensures
        no_index_repeats(raw_groups(es, thr, i, processed)),
        all_unplaced(raw_groups(es, thr, i, processed), processed),
    decreases es.len() - i,
{
    lemma_raw_groups_wf(es, thr, i, processed);
    if i < es.len() {
        if processed[i as int] {
            lemma_raw_groups_disjoint(es, thr, i + 1, processed);
        } else {
            let p1 = processed.update(i as int, true);
            let m = members(es, thr, i, processed);
            let c = candidates(es, p1, i as int, thr, es.len());
            let p2 = mark_all(p1, m);
            lemma_raw_groups_disjoint(es, thr, i + 1, p2);
            lemma_raw_groups_wf(es, thr, i + 1, p2);
            lemma_candidates_join(es, p1, i as int, thr, es.len());
            lemma_candidates_below(es, p1, i as int, thr, es.len());
            let rest = raw_groups(es, thr, i + 1, p2);
            // members of m are unplaced in processed and pairwise distinct
            assert forall|a: int| 0 <= a < m.len() implies !processed[#[trigger] m[a] as int] by {
                if a > 0 {
                    assert(m[a] == c[a - 1]);
                    assert(joins(es, p1, i as int, thr, c[a - 1] as int));
                }
            }
            assert forall|a: int, b: int| 0 <= a < b < m.len() implies m[a] != m[b] by {
                assert(m[b] == c[b - 1]);
                assert(joins(es, p1, i as int, thr, c[b - 1] as int));
                if a > 0 {
                    assert(m[a] == c[a - 1]);
                }
            }
            // members of later groups are unplaced in p2, hence outside m and unplaced in processed
            assert forall|g: int, b: int| 0 <= g < rest.len() && 0 <= b < rest[g].len() implies !m.contains(
                #[trigger] rest[g][b],
            ) && !processed[rest[g][b] as int] by {
                assert(!p2[rest[g][b] as int]);
            }
            if m.len() > 1 {
                let all = seq![m] + rest;
                assert(raw_groups(es, thr, i, processed) == all);
                assert forall|g1: int, g2: int, a: int, b: int|
                    0 <= g1 < all.len() && 0 <= g2 < all.len() && 0 <= a < all[g1].len() && 0 <= b
                        < all[g2].len() && (g1 != g2 || a != b) implies #[trigger] all[g1][a]
                    != #[trigger] all[g2][b] by {
                    if g1 == 0 && g2 == 0 {
                        if a < b {
                            assert(m[a] != m[b]);
                        } else {
                            assert(m[b] != m[a]);
                        }
                    } else if g1 == 0 {
                        assert(all[g2] == rest[g2 - 1]);
                        assert(!m.contains(rest[g2 - 1][b]));
                    } else if g2 == 0 {
                        assert(all[g1] == rest[g1 - 1]);
                        assert(!m.contains(rest[g1 - 1][a]));
                    } else {
                        assert(all[g1] == rest[g1 - 1]);
                        assert(all[g2] == rest[g2 - 1]);
                    }
                }
                assert forall|g: int, a: int| 0 <= g < all.len() && 0 <= a < all[g].len() implies !processed[
                    #[trigger] all[g][a] as int] by {
                    if g > 0 {
                        assert(all[g] == rest[g - 1]);
                    }
                }
            } else {
                assert(raw_groups(es, thr, i, processed) == rest);
            }
        }
    }
}

/// No image appears in two duplicate groups, nor twice in one.
pub proof fn lemma_groups_disjoint(es: Seq<HashEntry>, thr: u32)
    requires
        es.len() <= usize::MAX,
    ensures
        no_index_repeats(all_raw_groups(es, thr)),
{
    lemma_raw_groups_disjoint(es, thr, 0, Seq::new(es.len(), |t: int| false));
}

proof fn lemma_raw_groups_within(es: Seq<HashEntry>, thr: u32, i: nat, processed: Seq<bool>)
    requires
        processed.len() == es.len(),
        es.len() <= usize::MAX,
    ensures
        forall|g: int, t: int|
            0 <= g < raw_groups(es, thr, i, processed).len() && 0 <= t < raw_groups(
                es,
                thr,
                i,
                processed,
            )[g].len() ==> hamming(
                es[raw_groups(es, thr, i, processed)[g][0] as int].hash_bits,
                es[#[trigger] raw_groups(es, thr, i, processed)[g][t] as int].hash_bits,
            ) <= thr,
    decreases es.len() - i,
{
    lemma_raw_groups_wf(es, thr, i, processed);
    if i < es.len() {
        if processed[i as int] {
            lemma_raw_groups_within(es, thr, i + 1, processed);
        } else {
            let p1 = processed.update(i as int, true);
            let m = members(es, thr, i, processed);
            let c = candidates(es, p1, i as int, thr, es.len());
            let p2 = mark_all(p1, m);
            lemma_raw_groups_within(es, thr, i + 1, p2);
            lemma_candidates_join(es, p1, i as int, thr, es.len());
            let rest = raw_groups(es, thr, i + 1, p2);
            crate::hamming::lemma_hamming_metric(es[i as int].hash_bits, es[i as int].hash_bits, es[i as int].hash_bits);
            if m.len() > 1 {
                let all = seq![m] + rest;
                assert forall|g: int, t: int| 0 <= g < all.len() && 0 <= t < all[g].len() implies hamming(
                    es[all[g][0] as int].hash_bits,
                    es[#[trigger] all[g][t] as int].hash_bits,
                ) <= thr by {
                    if g == 0 {
                        if t > 0 {
                            assert(m[t] == c[t - 1]);
                            assert(joins(es, p1, i as int, thr, c[t - 1] as int));
                        }
                    } else {
                        assert(all[g] == rest[g - 1]);
                    }
                }
            }
        }
    }
}

/// Every image of a group is within the threshold of the image that opened the group.
pub proof fn lemma_group_members_within_threshold(es: Seq<HashEntry>, thr: u32, g: int, t: int)
    requires
        es.len() <= usize::MAX,
        0 <= g < all_raw_groups(es, thr).len(),
        0 <= t < all_raw_groups(es, thr)[g].len(),
    ensures
        hamming(
            es[all_raw_groups(es, thr)[g][0] as int].hash_bits,
            es[all_raw_groups(es, thr)[g][t] as int].hash_bits,
        ) <= thr,
{
    lemma_raw_groups_within(es, thr, 0, Seq::new(es.len(), |t: int| false));
    assert(all_raw_groups(es, thr)[g][t] == all_raw_groups(es, thr)[g][t]);
}

proof fn lemma_first_smaller_props(es: Seq<HashEntry>, s: Seq<usize>, kx: u64, k: nat)
    requires
        k <= s.len(),
    ensures
        forall|t: int| k <= t < first_smaller(es, s, kx, k) ==> size_key(es, #[trigger] s[t]) >= kx,
        first_smaller(es, s, kx, k) < s.len() ==> size_key(es, s[first_smaller(es, s, kx, k) as int]) < kx,
        k <= first_smaller(es, s, kx, k) <= s.len(),
    decreases s.len() - k,
{
    if k < s.len() {
        lemma_first_smaller_props(es, s, kx, k + 1);
    }
}

/// Sorting by size orders the files from the largest to the smallest and keeps
/// exactly the files it was given.
pub proof fn lemma_sort_by_size_sorted(es: Seq<HashEntry>, m: Seq<usize>)
    ensures
        forall|a: int, b: int|
            0 <= a < b < sort_by_size(es, m).len() ==> size_key(es, #[trigger] sort_by_size(es, m)[a])
                >= size_key(es, #[trigger] sort_by_size(es, m)[b]),
        sort_by_size(es, m).to_multiset() == m.to_multiset(),
    decreases m.len(),
{
    if m.len() > 0 {
        let s = sort_by_size(es, m.drop_last());
        lemma_sort_by_size_sorted(es, m.drop_last());
        let kx = size_key(es, m.last());
        lemma_first_smaller_props(es, s, kx, 0);
        let pos = first_smaller(es, s, kx, 0);
        let r = s.insert(pos as int, m.last());
        assert forall|a: int, b: int| 0 <= a < b < r.len() implies size_key(es, #[trigger] r[a])
            >= size_key(es, #[trigger] r[b]) by {
            if b < pos {
                assert(r[a] == s[a] && r[b] == s[b]);
            } else if b == pos {
                assert(r[a] == s[a]);
            } else if a < pos {
                assert(r[a] == s[a] && r[b] == s[b - 1]);
                if pos < s.len() {
                    assert(size_key(es, s[pos as int]) < kx);
                    if b - 1 > pos {
                        assert(size_key(es, s[pos as int]) >= size_key(es, s[b - 1]));
                    }
                }
            } else if a == pos {
                assert(r[b] == s[b - 1]);
                assert(size_key(es, s[pos as int]) < kx);
                if b - 1 > pos {
                    assert(size_key(es, s[pos as int]) >= size_key(es, s[b - 1]));
                }
            } else {
                assert(r[a] == s[a - 1] && r[b] == s[b - 1]);
            }
        }
        let x = m.last();
        assert(r.remove(pos as int) =~= s);
        assert(r[pos as int] == x);
        r.to_multiset_ensures();
        m.drop_last().to_multiset_ensures();
        assert(m.drop_last().push(x) =~= m);
        assert(s.to_multiset() =~= r.to_multiset().remove(x));
        assert(r.to_multiset().count(x) > 0) by {
            assert(r.contains(x));
        }
        broadcast use vstd::multiset::group_multiset_axioms;
        assert(r.to_multiset() =~= s.to_multiset().insert(x));
        assert(m.to_multiset() =~= m.drop_last().to_multiset().insert(x));
        assert(sort_by_size(es, m) == r);
        assert(s.to_multiset() == m.drop_last().to_multiset());
        assert(r.to_multiset() =~= m.to_multiset());
    } else {
        assert(sort_by_size(es, m) =~= m);
    }
}

/// In every reported group the original is a largest file of the group.
pub proof fn lemma_original_is_largest(es: Seq<HashEntry>, thr: u32, g: int, t: int)
    requires
        0 <= g < all_raw_groups(es, thr).len(),
        0 <= t < sort_by_size(es, all_raw_groups(es, thr)[g]).len(),
    ensures
        size_key(es, sort_by_size(es, all_raw_groups(es, thr)[g])[0])
            >= size_key(es, sort_by_size(es, all_raw_groups(es, thr)[g])[t]),
{
    lemma_sort_by_size_sorted(es, all_raw_groups(es, thr)[g]);
    if t > 0 {
        assert(size_key(es, sort_by_size(es, all_raw_groups(es, thr)[g])[0]) >= size_key(
            es,
            sort_by_size(es, all_raw_groups(es, thr)[g])[t],
        ));
    }
}

} // verus!
verus! {

proof fn lemma_candidates_complete(
    es: Seq<HashEntry>,
    processed: Seq<bool>,
    base: int,
    thr: u32,
    upto: nat,
    j: int,
)
    requires
        upto <= usize::MAX,
        0 <= j < upto,
        joins(es, processed, base, thr, j),
    ensures
        candidates(es, processed, base, thr, upto).contains(j as usize),
    decreases upto,
{
    let rest = candidates(es, processed, base, thr, (upto - 1) as nat);
    if j == upto - 1 {
        assert(candidates(es, processed, base, thr, upto).last() == j as usize);
    } else {
        lemma_candidates_complete(es, processed, base, thr, (upto - 1) as nat, j);
        let k = choose|k: int| 0 <= k < rest.len() && rest[k] == j as usize;
        if joins(es, processed, base, thr, upto - 1) {
            assert(candidates(es, processed, base, thr, upto)[k] == j as usize);
        }
    }
}

proof fn lemma_candidates_only_joining(
    es: Seq<HashEntry>,
    processed: Seq<bool>,
    base: int,
    thr: u32,
    upto: nat,
    j: int,
)
    requires
        upto <= usize::MAX,
        0 <= j < upto,
        candidates(es, processed, base, thr, upto).contains(j as usize),
    ensures
        joins(es, processed, base, thr, j),
{
    lemma_candidates_join(es, processed, base, thr, upto);
    lemma_candidates_below(es, processed, base, thr, upto);
    let c = candidates(es, processed, base, thr, upto);
    let k = choose|k: int| 0 <= k < c.len() && c[k] == j as usize;
    assert(c[k] as int == j);
    assert(joins(es, processed, base, thr, c[k] as int));
}

/// Whether some group of `gs` holds both `a` and `b`.
pub open spec fn grouped_together(gs: Seq<Seq<usize>>, a: int, b: int) -> bool {
    exists|g: int| 0 <= g < gs.len() && #[trigger] gs[g].contains(a as usize) && gs[g].contains(b as usize)
}

/// Whether no group of `gs` holds `a`.
pub open spec fn in_no_group(gs: Seq<Seq<usize>>, a: int) -> bool {
    forall|g: int| 0 <= g < gs.len() ==> !(#[trigger] gs[g]).contains(a as usize)
}

proof fn lemma_raw_equal_grouped(es: Seq<HashEntry>, thr: u32, i: nat, processed: Seq<bool>, a: int, b: int)
    requires
        processed.len() == es.len(),
        es.len() <= usize::MAX,
        0 <= a < es.len(),
        0 <= b < es.len(),
        a != b,
        es[a].hash_bits == es[b].hash_bits,
        !processed[a],
        !processed[b],
        forall|k: int| 0 <= k < i && k < es.len() ==> processed[k],
    ensures
        grouped_together(raw_groups(es, thr, i, processed), a, b),
    decreases es.len() - i,
{
    crate::hamming::lemma_hamming_metric(es[a].hash_bits, es[a].hash_bits, es[a].hash_bits);
    if i >= es.len() {
        assert(processed[a]);
    } else if processed[i as int] {
        lemma_raw_equal_grouped(es, thr, i + 1, processed, a, b);
    } else {
        let p1 = processed.update(i as int, true);
        let m = members(es, thr, i, processed);
        let c = candidates(es, p1, i as int, thr, es.len());
        let p2 = mark_all(p1, m);
        let rest = raw_groups(es, thr, i + 1, p2);
        crate::hamming::lemma_hamming_metric(es[i as int].hash_bits, es[a].hash_bits, es[b].hash_bits);
        crate::hamming::lemma_hamming_metric(es[i as int].hash_bits, es[b].hash_bits, es[a].hash_bits);
        if i == a || i == b {
            let other = if i == a { b } else { a };
            assert(joins(es, p1, i as int, thr, other));
            lemma_candidates_complete(es, p1, i as int, thr, es.len(), other);
            let k = choose|k: int| 0 <= k < c.len() && c[k] == other as usize;
            assert(m[k + 1] == other as usize);
            assert(m[0] == i as usize);
            assert(m.len() > 1);
            assert(raw_groups(es, thr, i, processed)[0] == m);
            assert(m.contains(a as usize) && m.contains(b as usize));
        } else if hamming(es[i as int].hash_bits, es[a].hash_bits) <= thr {
            assert(joins(es, p1, i as int, thr, a));
            assert(joins(es, p1, i as int, thr, b));
            lemma_candidates_complete(es, p1, i as int, thr, es.len(), a);
            lemma_candidates_complete(es, p1, i as int, thr, es.len(), b);
            let ka = choose|k: int| 0 <= k < c.len() && c[k] == a as usize;
            let kb = choose|k: int| 0 <= k < c.len() && c[k] == b as usize;
            assert(m[ka + 1] == a as usize);
            assert(m[kb + 1] == b as usize);
            assert(m.len() > 1);
            assert(raw_groups(es, thr, i, processed)[0] == m);
            assert(m.contains(a as usize) && m.contains(b as usize));
        } else {
            assert(!joins(es, p1, i as int, thr, a));
            assert(!joins(es, p1, i as int, thr, b));
            if c.contains(a as usize) {
                lemma_candidates_only_joining(es, p1, i as int, thr, es.len(), a);
            }
            if c.contains(b as usize) {
                lemma_candidates_only_joining(es, p1, i as int, thr, es.len(), b);
            }
            assert(!m.contains(a as usize)) by {
                if m.contains(a as usize) {
                    let k = choose|k: int| 0 <= k < m.len() && m[k] == a as usize;
                    if k > 0 {
                        assert(c[k - 1] == a as usize);
                    }
                }
            }
            assert(!m.contains(b as usize)) by {
                if m.contains(b as usize) {
                    let k = choose|k: int| 0 <= k < m.len() && m[k] == b as usize;
                    if k > 0 {
                        assert(c[k - 1] == b as usize);
                    }
                }
            }
            assert(!p2[a] && !p2[b]);
            assert forall|k: int| 0 <= k < i + 1 && k < es.len() implies p2[k] by {
                if k < i {
                    assert(processed[k]);
                }
            }
            lemma_raw_equal_grouped(es, thr, i + 1, p2, a, b);
            let g = choose|g: int|
                0 <= g < rest.len() && #[trigger] rest[g].contains(a as usize) && rest[g].contains(
                    b as usize,
                );
            if m.len() > 1 {
                assert(raw_groups(es, thr, i, processed)[g + 1] == rest[g]);
            } else {
                assert(raw_groups(es, thr, i, processed) == rest);
            }
        }
    }
}

proof fn lemma_raw_isolated_ungrouped(es: Seq<HashEntry>, thr: u32, i: nat, processed: Seq<bool>, a: int)
    requires
        processed.len() == es.len(),
        es.len() <= usize::MAX,
        0 <= a < es.len(),
        forall|e: int| 0 <= e < es.len() && e != a ==> hamming(es[a].hash_bits, #[trigger] es[e].hash_bits) > thr,
    ensures
        in_no_group(raw_groups(es, thr, i, processed), a),
    decreases es.len() - i,
{
    if i < es.len() {
        if processed[i as int] {
            lemma_raw_isolated_ungrouped(es, thr, i + 1, processed, a);
        } else {
            let p1 = processed.update(i as int, true);
            let m = members(es, thr, i, processed);
            let c = candidates(es, p1, i as int, thr, es.len());
            let p2 = mark_all(p1, m);
            let rest = raw_groups(es, thr, i + 1, p2);
            lemma_raw_isolated_ungrouped(es, thr, i + 1, p2, a);
            if m.len() > 1 {
                let all = seq![m] + rest;
                assert(raw_groups(es, thr, i, processed) == all);
                assert(!m.contains(a as usize)) by {
                    lemma_candidates_below(es, p1, i as int, thr, es.len());
                    if i == a {
                        lemma_candidates_join(es, p1, i as int, thr, es.len());
                        let j = c[0] as int;
                        assert(joins(es, p1, i as int, thr, j));
                        assert(es[j] == es[j]);
                    } else if m.contains(a as usize) {
                        let k = choose|k: int| 0 <= k < m.len() && m[k] == a as usize;
                        assert(k > 0);
                        assert(c[k - 1] == a as usize);
                        lemma_candidates_only_joining(es, p1, i as int, thr, es.len(), a);
                        crate::hamming::lemma_hamming_metric(es[i as int].hash_bits, es[a].hash_bits, es[a].hash_bits);
                        assert(es[i as int] == es[i as int]);
                    }
                }
                assert forall|g: int| 0 <= g < all.len() implies !(#[trigger] all[g]).contains(a as usize) by {
                    if g > 0 {
                        assert(all[g] == rest[g - 1]);
                    }
                }
            } else {
                assert(raw_groups(es, thr, i, processed) == rest);
            }
        }
    }
}

/// Two different entries with equal hash values end up in one group.
pub proof fn lemma_equal_hashes_grouped(es: Seq<HashEntry>, thr: u32, a: int, b: int)
    requires
        es.len() <= usize::MAX,
        0 <= a < es.len(),
        0 <= b < es.len(),
        a != b,
        es[a].hash_bits == es[b].hash_bits,
    ensures
        grouped_together(all_raw_groups(es, thr), a, b),
{
    lemma_raw_equal_grouped(es, thr, 0, Seq::new(es.len(), |t: int| false), a, b);
}

/// An entry farther than the threshold from every other entry is in no group.
pub proof fn lemma_isolated_entry_ungrouped(es: Seq<HashEntry>, thr: u32, a: int)
    requires
        es.len() <= usize::MAX,
        0 <= a < es.len(),
        forall|e: int| 0 <= e < es.len() && e != a ==> hamming(es[a].hash_bits, #[trigger] es[e].hash_bits) > thr,
    ensures
        in_no_group(all_raw_groups(es, thr), a),
{
    lemma_raw_isolated_ungrouped(es, thr, 0, Seq::new(es.len(), |t: int| false), a);
}


/// Whether `r` reports, in order, the groups the greedy scan forms for `es`,
/// as `find_duplicates` ensures.
pub open spec fn reports_groups_of(r: DuplicatesReport, es: Seq<HashEntry>, thr: u32) -> bool {
    &&& r.groups@.len() == all_raw_groups(es, thr).len()
    &&& forall|k: int|
        0 <= k < r.groups@.len() ==> group_matches(
            es,
            all_raw_groups(es, thr)[k],
            k as usize,
            #[trigger] r.groups@[k],
        )
}

/// Whether some file of `g` has path `p`.
pub open spec fn group_has_path(g: DuplicateGroup, p: Seq<char>) -> bool {
    exists|t: int| 0 <= t < g.files@.len() && (#[trigger] g.files@[t]).path@ == p
}

/// Two different entries with equal hash values are reported in one group.
pub proof fn lemma_equal_hashes_reported_together(
    es: Seq<HashEntry>,
    thr: u32,
    r: DuplicatesReport,
    a: int,
    b: int,
)
    requires
        es.len() <= usize::MAX,
        0 <= a < es.len(),
        0 <= b < es.len(),
        a != b,
        es[a].hash_bits == es[b].hash_bits,
        reports_groups_of(r, es, thr),
    ensures
        exists|k: int|
            0 <= k < r.groups@.len() && group_has_path(#[trigger] r.groups@[k], es[a].file_path@)
                && group_has_path(r.groups@[k], es[b].file_path@),
{
    broadcast use vstd::seq_lib::group_to_multiset_ensures;
    lemma_equal_hashes_grouped(es, thr, a, b);
    let gs = all_raw_groups(es, thr);
    let g = choose|g: int|
        0 <= g < gs.len() && #[trigger] gs[g].contains(a as usize) && gs[g].contains(b as usize);
    let m = gs[g];
    let sorted = sort_by_size(es, m);
    lemma_sort_by_size_sorted(es, m);
    lemma_sort_by_size_elements(es, m);
    assert(sorted.to_multiset().count(a as usize) > 0);
    assert(sorted.to_multiset().count(b as usize) > 0);
    assert(sorted.contains(a as usize));
    assert(sorted.contains(b as usize));
    let ta = choose|t: int| 0 <= t < sorted.len() && sorted[t] == a as usize;
    let tb = choose|t: int| 0 <= t < sorted.len() && sorted[t] == b as usize;
    let rg = r.groups@[g];
    assert(group_matches(es, m, g as usize, rg));
    assert(rg.files@[ta].path@ == es[a].file_path@);
    assert(rg.files@[tb].path@ == es[b].file_path@);
    assert(group_has_path(rg, es[a].file_path@));
    assert(group_has_path(rg, es[b].file_path@));
}

/// Where no two entries share a path, an entry farther than the threshold
/// from every other entry is in no reported group.
pub proof fn lemma_isolated_entry_unreported(es: Seq<HashEntry>, thr: u32, r: DuplicatesReport, a: int)
    requires
        es.len() <= usize::MAX,
        0 <= a < es.len(),
        forall|i: int, j: int|
            0 <= i < es.len() && 0 <= j < es.len() && i != j ==> (#[trigger] es[i]).file_path@
                != (#[trigger] es[j]).file_path@,
        forall|e: int| 0 <= e < es.len() && e != a ==> hamming(es[a].hash_bits, #[trigger] es[e].hash_bits) > thr,
        reports_groups_of(r, es, thr),
    ensures
        forall|k: int| 0 <= k < r.groups@.len() ==> !group_has_path(#[trigger] r.groups@[k], es[a].file_path@),
{
    lemma_isolated_entry_ungrouped(es, thr, a);
    let gs = all_raw_groups(es, thr);
    lemma_raw_groups_wf(es, thr, 0, Seq::new(es.len(), |t: int| false));
    assert forall|k: int| 0 <= k < r.groups@.len() implies !group_has_path(
        #[trigger] r.groups@[k],
        es[a].file_path@,
    ) by {
        let m = gs[k];
        let sorted = sort_by_size(es, m);
        lemma_sort_by_size_elements(es, m);
        assert(group_matches(es, m, k as usize, r.groups@[k]));
        if group_has_path(r.groups@[k], es[a].file_path@) {
            let t = choose|t: int|
                0 <= t < r.groups@[k].files@.len() && (#[trigger] r.groups@[k].files@[t]).path@
                    == es[a].file_path@;
            assert(m.contains(sorted[t]));
            let mi = choose|mi: int| 0 <= mi < m.len() && m[mi] == sorted[t];
            assert(gs[k].len() >= 2);
            assert(m[mi] < es.len());
            let e = sorted[t] as int;
            assert(es[e].file_path@ == es[a].file_path@);
            assert(e == a);
            assert(!gs[k].contains(a as usize));
        }
    }
}

/// The number of duplicates in reported groups: each group's files less one.
pub open spec fn reported_duplicates(gs: Seq<DuplicateGroup>) -> nat
    decreases gs.len(),
{
    if gs.len() == 0 {
        0
    } else {
        reported_duplicates(gs.drop_last()) + (gs.last().files@.len() - 1) as nat
    }
}

/// Whether no two entries of `es` share a path.
pub open spec fn paths_distinct(es: Seq<HashEntry>) -> bool {
    forall|i: int, j: int|
        0 <= i < es.len() && 0 <= j < es.len() && i != j ==> (#[trigger] es[i]).file_path@
            != (#[trigger] es[j]).file_path@
}

/// What a duplicates report says of a database with distinct paths: its
/// counts, and for each group its id, at least two files, the first as the
/// original, sizes from the largest down, and distances from the first file
/// that are Hamming distances of at most twice the threshold; no path lies
/// in two groups.
pub open spec fn report_law(r: DuplicatesReport, es: Seq<HashEntry>, thr: u32) -> bool {
    &&& r.threshold == thr
    &&& r.total_groups == r.groups@.len()
    &&& r.total_duplicates == reported_duplicates(r.groups@)
    &&& forall|k: int|
        #![trigger r.groups@[k]]
        0 <= k < r.groups@.len() ==> {
            let g = r.groups@[k];
            &&& g.group_id == k
            &&& g.files@.len() >= 2
            &&& g.original_index == 0
            &&& forall|m: int| 0 <= m < g.files@.len() ==> (#[trigger] g.files@[m]).is_original == (m == 0)
            &&& forall|a: int, b: int|
                0 <= a < b < g.files@.len() ==> size_for_path(es, (#[trigger] g.files@[a]).path@)
                    >= size_for_path(es, (#[trigger] g.files@[b]).path@)
            &&& forall|m: int|
                0 <= m < g.files@.len() ==> (#[trigger] g.files@[m]).distance_from_first == hamming(
                    bits_for_path(es, g.files@[0].path@),
                    bits_for_path(es, g.files@[m].path@),
                ) && g.files@[m].distance_from_first <= 2 * thr
        }
    &&& forall|k1: int, k2: int, a: int, b: int|
        0 <= k1 < r.groups@.len() && 0 <= k2 < r.groups@.len() && k1 != k2 && 0 <= a
            < r.groups@[k1].files@.len() && 0 <= b < r.groups@[k2].files@.len() ==> (
        #[trigger] r.groups@[k1].files@[a]).path@ != (#[trigger] r.groups@[k2].files@[b]).path@
}

proof fn lemma_first_with_path_unique(es: Seq<HashEntry>, i: int, k: nat)
    requires
        paths_distinct(es),
        k <= i < es.len(),
    ensures
        first_with_path(es, es[i].file_path@, k) == Some(i as nat),
    decreases i - k,
{
    if k < i {
        assert(es[k as int].file_path@ != es[i].file_path@);
        lemma_first_with_path_unique(es, i, k + 1);
    }
}

proof fn lemma_reported_duplicates_prefix(gs: Seq<DuplicateGroup>, raw: Seq<Seq<usize>>, n: int)
    requires
        gs.len() == raw.len(),
        0 <= n <= gs.len(),
        forall|k: int| 0 <= k < gs.len() ==> (#[trigger] gs[k]).files@.len() == raw[k].len(),
    ensures
        reported_duplicates(gs.take(n)) == duplicate_count(raw.take(n)),
    decreases n,
{
    if n > 0 {
        lemma_reported_duplicates_prefix(gs, raw, n - 1);
        assert(gs.take(n).drop_last() =~= gs.take(n - 1));
        assert(raw.take(n).drop_last() =~= raw.take(n - 1));
        assert(gs.take(n).last() == gs[n - 1]);
        assert(raw.take(n).last() == raw[n - 1]);
    }
}

/// The report `find_duplicates` gives for a database with distinct paths
/// meets `report_law`.
pub proof fn lemma_report_law(es: Seq<HashEntry>, thr: u32, r: DuplicatesReport)
    requires
        es.len() <= usize::MAX,
        paths_distinct(es),
        r.threshold == thr,
        r.total_groups == r.groups@.len(),
        r.total_duplicates == duplicate_count(all_raw_groups(es, thr)),
        reports_groups_of(r, es, thr),
    ensures
        report_law(r, es, thr),
{
    let gs = all_raw_groups(es, thr);
    lemma_raw_groups_wf(es, thr, 0, Seq::new(es.len(), |t: int| false));
    lemma_groups_disjoint(es, thr);
    assert forall|k: int| 0 <= k < r.groups@.len() implies (#[trigger] r.groups@[k]).files@.len()
        == gs[k].len() by {
        assert(group_matches(es, gs[k], k as usize, r.groups@[k]));
        lemma_sort_by_size_elements(es, gs[k]);
    }
    lemma_reported_duplicates_prefix(r.groups@, gs, gs.len() as int);
    assert(r.groups@.take(gs.len() as int) =~= r.groups@);
    assert(gs.take(gs.len() as int) =~= gs);
    assert forall|k: int| #![trigger r.groups@[k]] 0 <= k < r.groups@.len() implies {
        let g = r.groups@[k];
        &&& g.group_id == k
        &&& g.files@.len() >= 2
        &&& g.original_index == 0
        &&& forall|m: int| 0 <= m < g.files@.len() ==> (#[trigger] g.files@[m]).is_original == (m == 0)
        &&& forall|a: int, b: int|
            0 <= a < b < g.files@.len() ==> size_for_path(es, (#[trigger] g.files@[a]).path@)
                >= size_for_path(es, (#[trigger] g.files@[b]).path@)
        &&& forall|m: int|
            0 <= m < g.files@.len() ==> (#[trigger] g.files@[m]).distance_from_first == hamming(
                bits_for_path(es, g.files@[0].path@),
                bits_for_path(es, g.files@[m].path@),
            ) && g.files@[m].distance_from_first <= 2 * thr
    } by {
        let g = r.groups@[k];
        let m = gs[k];
        let srt = sort_by_size(es, m);
        assert(group_matches(es, m, k as usize, g));
        lemma_sort_by_size_elements(es, m);
        lemma_sort_by_size_sorted(es, m);
        assert(m.len() >= 2);
        assert forall|a: int, b: int| 0 <= a < b < g.files@.len() implies size_for_path(
            es,
            (#[trigger] g.files@[a]).path@,
        ) >= size_for_path(es, (#[trigger] g.files@[b]).path@) by {
            assert(size_key(es, srt[a]) >= size_key(es, srt[b]));
        }
        assert forall|t: int| 0 <= t < g.files@.len() implies (#[trigger] g.files@[t]).distance_from_first
            == hamming(bits_for_path(es, g.files@[0].path@), bits_for_path(es, g.files@[t].path@))
            && g.files@[t].distance_from_first <= 2 * thr by {
            assert(g.files@[0].path@ == es[srt[0] as int].file_path@);
            assert(g.files@[t].path@ == es[srt[t] as int].file_path@);
            assert(m.contains(srt[0]));
            assert(m.contains(srt[t]));
            let p0 = choose|p: int| 0 <= p < m.len() && m[p] == srt[0];
            let pt = choose|p: int| 0 <= p < m.len() && m[p] == srt[t];
            assert(m[p0] < es.len() && m[pt] < es.len());
            lemma_first_with_path_unique(es, srt[0] as int, 0);
            lemma_first_with_path_unique(es, srt[t] as int, 0);
            lemma_group_members_within_threshold(es, thr, k, p0);
            lemma_group_members_within_threshold(es, thr, k, pt);
            let h0 = es[m[0] as int].hash_bits;
            let ha = es[srt[0] as int].hash_bits;
            let hb = es[srt[t] as int].hash_bits;
            crate::hamming::lemma_hamming_metric(ha, h0, hb);
            crate::hamming::lemma_hamming_metric(h0, ha, hb);
        }
    }
    assert forall|k1: int, k2: int, a: int, b: int|
        0 <= k1 < r.groups@.len() && 0 <= k2 < r.groups@.len() && k1 != k2 && 0 <= a
            < r.groups@[k1].files@.len() && 0 <= b < r.groups@[k2].files@.len() implies (
    #[trigger] r.groups@[k1].files@[a]).path@ != (#[trigger] r.groups@[k2].files@[b]).path@ by {
        let m1 = gs[k1];
        let m2 = gs[k2];
        let s1 = sort_by_size(es, m1);
        let s2 = sort_by_size(es, m2);
        assert(group_matches(es, m1, k1 as usize, r.groups@[k1]));
        assert(group_matches(es, m2, k2 as usize, r.groups@[k2]));
        lemma_sort_by_size_elements(es, m1);
        lemma_sort_by_size_elements(es, m2);
        assert(m1.contains(s1[a]));
        assert(m2.contains(s2[b]));
        let p1 = choose|p: int| 0 <= p < m1.len() && m1[p] == s1[a];
        let p2 = choose|p: int| 0 <= p < m2.len() && m2[p] == s2[b];
        assert(m1[p1] < es.len() && m2[p2] < es.len());
        if r.groups@[k1].files@[a].path@ == r.groups@[k2].files@[b].path@ {
            assert(es[s1[a] as int].file_path@ == es[s2[b] as int].file_path@);
            assert(s1[a] == s2[b]);
            assert(gs[k1][p1] != gs[k2][p2]);
        }
    }
}

/// In every group that `find_duplicates` reports for a database with
/// distinct paths, the entries behind the files carry recorded sizes from the
/// largest down: the original's entry has the largest recorded size of its
/// group.
pub proof fn lemma_reported_sizes_descend(es: Seq<HashEntry>, thr: u32, r: DuplicatesReport)
    requires
        es.len() <= usize::MAX,
        paths_distinct(es),
        r.threshold == thr,
        r.total_groups == r.groups@.len(),
        r.total_duplicates == duplicate_count(all_raw_groups(es, thr)),
        reports_groups_of(r, es, thr),
    ensures
        forall|k: int, a: int, b: int, i: int, j: int|
            0 <= k < r.groups@.len() && 0 <= a < b < r.groups@[k].files@.len() && 0 <= i < es.len()
                && 0 <= j < es.len() && (#[trigger] es[i]).file_path@ == (
            #[trigger] r.groups@[k].files@[a]).path@ && (#[trigger] es[j]).file_path@ == (
            #[trigger] r.groups@[k].files@[b]).path@ ==> match es[i].file_size {
                Some(s) => s as int,
                None => 0,
            } >= match es[j].file_size {
                Some(s) => s as int,
                None => 0,
            },
{
    lemma_report_law(es, thr, r);
    assert forall|k: int, a: int, b: int, i: int, j: int|
        0 <= k < r.groups@.len() && 0 <= a < b < r.groups@[k].files@.len() && 0 <= i < es.len()
            && 0 <= j < es.len() && (#[trigger] es[i]).file_path@ == (
        #[trigger] r.groups@[k].files@[a]).path@ && (#[trigger] es[j]).file_path@ == (
        #[trigger] r.groups@[k].files@[b]).path@ implies match es[i].file_size {
            Some(s) => s as int,
            None => 0,
        } >= match es[j].file_size {
            Some(s) => s as int,
            None => 0,
        } by {
        let g = r.groups@[k];
        assert(size_for_path(es, g.files@[a].path@) >= size_for_path(es, g.files@[b].path@));
        lemma_first_with_path_unique(es, i, 0);
        lemma_first_with_path_unique(es, j, 0);
    }
}
} // verus!
