use vstd::prelude::*;
use crate::find_dups::{reported_duplicates, DuplicateFile, DuplicateGroup, DuplicatesReport};

verus! {

/// The groups of a duplicates report that still hold files at least a given
/// distance apart.
pub struct FilteredReport {
    pub original_threshold: u32,
    pub filter_threshold: u32,
    pub filtered_groups: usize,
    pub filtered_duplicates: usize,
    pub groups: Vec<DuplicateGroup>,
}

/// Whether a file survives the filter: it is far enough from the first file, or it is the original.
pub open spec fn passes(f: DuplicateFile, min: u32) -> bool {
    f.distance_from_first >= min || f.is_original
}

/// The files of `fs` that survive the filter, in order.
pub open spec fn kept(fs: Seq<DuplicateFile>, min: u32) -> Seq<DuplicateFile>
    decreases fs.len(),
{
    if fs.len() == 0 {
        seq![]
    } else if passes(fs.last(), min) {
        kept(fs.drop_last(), min).push(fs.last())
    } else {
        kept(fs.drop_last(), min)
    }
}

/// Whether some file before position `k` has path `p`.
pub open spec fn path_seen(fs: Seq<DuplicateFile>, p: Seq<char>, k: int) -> bool {
    exists|u: int| 0 <= u < k && #[trigger] fs[u].path@ == p
}

/// The first file of each path, in order.
pub open spec fn first_occurrences(fs: Seq<DuplicateFile>) -> Seq<DuplicateFile>
    decreases fs.len(),
{
    if fs.len() == 0 {
        seq![]
    } else if path_seen(fs, fs.last().path@, fs.len() - 1) {
        first_occurrences(fs.drop_last())
    } else {
        first_occurrences(fs.drop_last()).push(fs.last())
    }
}

/// Lexicographic order of byte strings from position `k` on.
pub open spec fn bytes_lt_from(a: Seq<u8>, b: Seq<u8>, k: nat) -> bool
    decreases a.len() - k,
{
    if k >= a.len() {
        k < b.len()
    } else if k >= b.len() {
        false
    } else if a[k as int] < b[k as int] {
        true
    } else if a[k as int] > b[k as int] {
        false
    } else {
        bytes_lt_from(a, b, k + 1)
    }
}

/// The order of strings: lexicographic on their UTF-8 bytes.
pub open spec fn path_lt(a: Seq<char>, b: Seq<char>) -> bool {
    bytes_lt_from(vstd::utf8::encode_utf8(a), vstd::utf8::encode_utf8(b), 0)
}

/// The first position at or after `k` whose path is greater than `p`, or `s.len()`.
pub open spec fn first_greater(s: Seq<DuplicateFile>, p: Seq<char>, k: nat) -> nat
    decreases s.len() - k,
{
    if k >= s.len() {
        s.len()
    } else if path_lt(p, s[k as int].path@) {
        k
    } else {
        first_greater(s, p, k + 1)
    }
}

/// `fs` sorted by path; files of equal path keep their order.
pub open spec fn sort_by_path(fs: Seq<DuplicateFile>) -> Seq<DuplicateFile>
    decreases fs.len(),
{
    if fs.len() == 0 {
        seq![]
    } else {
        let s = sort_by_path(fs.drop_last());
        s.insert(first_greater(s, fs.last().path@, 0) as int, fs.last())
    }
}

/// The files of `fs` with the original flag set to `want`, in order.
pub open spec fn flagged(fs: Seq<DuplicateFile>, want: bool) -> Seq<DuplicateFile>
    decreases fs.len(),
{
    if fs.len() == 0 {
        seq![]
    } else if fs.last().is_original == want {
        flagged(fs.drop_last(), want).push(fs.last())
    } else {
        flagged(fs.drop_last(), want)
    }
}

/// `fs` with only its first file marked as the original.
pub open spec fn mark_first_original(fs: Seq<DuplicateFile>) -> Seq<DuplicateFile> {
    Seq::new(
        fs.len(),
        |i: int|
            DuplicateFile {
                path: fs[i].path,
                hash: fs[i].hash,
                distance_from_first: fs[i].distance_from_first,
                is_original: i == 0,
            },
    )
}

/// The surviving files of a group with one file per path, ordered by path.
pub open spec fn deduped(fs: Seq<DuplicateFile>, min: u32) -> Seq<DuplicateFile> {
    sort_by_path(first_occurrences(kept(fs, min)))
}

/// Whether a group stays in the filtered report: it had more than one file,
/// more than one file survives, and one of the survivors that is not the
/// original is at least `min` away.
pub open spec fn group_stays(fs: Seq<DuplicateFile>, min: u32) -> bool {
    let d = deduped(fs, min);
    &&& d.len() > 1
    &&& fs.len() > 1
    &&& exists|t: int| 0 <= t < d.len() && !(#[trigger] d[t]).is_original && d[t].distance_from_first >= min
}

/// The files of a group that stays: the originals first, then the others,
/// with only the first file marked as the original.
pub open spec fn filtered_files(fs: Seq<DuplicateFile>, min: u32) -> Seq<DuplicateFile> {
    let d = deduped(fs, min);
    mark_first_original(flagged(d, true) + flagged(d, false))
}


/// A field-by-field copy of a duplicate file.
pub fn copy_file(f: &DuplicateFile) -> (r: DuplicateFile)
    ensures
        r == *f,
{
    DuplicateFile {
        path: f.path.clone(),
        hash: f.hash.clone(),
        distance_from_first: f.distance_from_first,
        is_original: f.is_original,
    }
}

fn kept_files(fs: &Vec<DuplicateFile>, min: u32) -> (r: Vec<DuplicateFile>)
    ensures
        r@ == kept(fs@, min),
{
    let mut r: Vec<DuplicateFile> = Vec::new();
    let mut k: usize = 0;
    while k < fs.len()
        invariant
            k <= fs@.len(),
            r@ == kept(fs@.take(k as int), min),
        decreases fs@.len() - k,
    {
        proof {
            assert(fs@.take(k + 1).drop_last() =~= fs@.take(k as int));
        }
        if fs[k].distance_from_first >= min || fs[k].is_original {
            r.push(copy_file(&fs[k]));
        }
        k = k + 1;
    }
    proof {
        assert(fs@.take(fs@.len() as int) =~= fs@);
    }
    r
}

fn first_occurrence_files(fs: &Vec<DuplicateFile>) -> (r: Vec<DuplicateFile>)
    ensures
        r@ == first_occurrences(fs@),
{
    let mut r: Vec<DuplicateFile> = Vec::new();
    let mut k: usize = 0;
    while k < fs.len()
        invariant
            k <= fs@.len(),
            r@ == first_occurrences(fs@.take(k as int)),
        decreases fs@.len() - k,
    {
        let mut seen = false;
        let mut u: usize = 0;
        while u < k
            invariant
                u <= k < fs@.len(),
                seen == path_seen(fs@, fs@[k as int].path@, u as int),
            decreases k - u,
        {
            if fs[u].path == fs[k].path {
                seen = true;
            }
            u = u + 1;
        }
        proof {
            let t = fs@.take(k + 1);
            assert(t.drop_last() =~= fs@.take(k as int));
            assert(t.last() == fs@[k as int]);
            if path_seen(fs@, fs@[k as int].path@, k as int) {
                let w = choose|w: int| 0 <= w < k && #[trigger] fs@[w].path@ == fs@[k as int].path@;
                assert(t[w] == fs@[w]);
            }
            if path_seen(t, t.last().path@, t.len() - 1) {
                let w = choose|w: int| 0 <= w < t.len() - 1 && #[trigger] t[w].path@ == t.last().path@;
                assert(t[w] == fs@[w]);
            }
        }
        if !seen {
            r.push(copy_file(&fs[k]));
        }
        k = k + 1;
    }
    proof {
        assert(fs@.take(fs@.len() as int) =~= fs@);
    }
    r
}

/// Whether `a` sorts before `b`: lexicographic comparison of their UTF-8 bytes.
pub fn path_less(a: &String, b: &String) -> (r: bool)
    ensures
        r == path_lt(a@, b@),
{
    let x = a.as_str().as_bytes();
    let y = b.as_str().as_bytes();
    let mut k: usize = 0;
    while k < x.len() && k < y.len() && x[k] == y[k]
        invariant
            k <= x@.len(),
            k <= y@.len(),
            x@ == vstd::utf8::encode_utf8(a@),
            y@ == vstd::utf8::encode_utf8(b@),
            path_lt(a@, b@) == bytes_lt_from(x@, y@, k as nat),
        decreases x@.len() - k,
    {
        k = k + 1;
    }
    if k >= x.len() {
        k < y.len()
    } else if k >= y.len() {
        false
    } else {
        x[k] < y[k]
    }
}

proof fn lemma_first_greater_bound(s: Seq<DuplicateFile>, p: Seq<char>, k: nat)
    requires
        k <= s.len(),
    ensures
        k <= first_greater(s, p, k) <= s.len(),
    decreases s.len() - k,
{
    if k < s.len() {
        lemma_first_greater_bound(s, p, k + 1);
    }
}

fn sort_files_by_path(fs: &Vec<DuplicateFile>) -> (r: Vec<DuplicateFile>)
    ensures
        r@ == sort_by_path(fs@),
{
    let mut r: Vec<DuplicateFile> = Vec::new();
    let mut k: usize = 0;
    while k < fs.len()
        invariant
            k <= fs@.len(),
            r@ == sort_by_path(fs@.take(k as int)),
        decreases fs@.len() - k,
    {
        let mut pos: usize = 0;
        while pos < r.len() && !path_less(&fs[k].path, &r[pos].path)
            invariant
                pos <= r@.len(),
                k < fs@.len(),
                first_greater(r@, fs@[k as int].path@, 0) == first_greater(r@, fs@[k as int].path@, pos as nat),
            decreases r@.len() - pos,
        {
            pos = pos + 1;
        }
        proof {
            assert(fs@.take(k + 1).drop_last() =~= fs@.take(k as int));
            lemma_first_greater_bound(r@, fs@[k as int].path@, 0);
        }
        r.insert(pos, copy_file(&fs[k]));
        k = k + 1;
    }
    proof {
        assert(fs@.take(fs@.len() as int) =~= fs@);
    }
    r
}

fn flagged_files(fs: &Vec<DuplicateFile>, want: bool) -> (r: Vec<DuplicateFile>)
    ensures
        r@ == flagged(fs@, want),
{
    let mut r: Vec<DuplicateFile> = Vec::new();
    let mut k: usize = 0;
    while k < fs.len()
        invariant
            k <= fs@.len(),
            r@ == flagged(fs@.take(k as int), want),
        decreases fs@.len() - k,
    {
        proof {
            assert(fs@.take(k + 1).drop_last() =~= fs@.take(k as int));
        }
        if fs[k].is_original == want {
            r.push(copy_file(&fs[k]));
        }
        k = k + 1;
    }
    proof {
        assert(fs@.take(fs@.len() as int) =~= fs@);
    }
    r
}

fn mark_first(fs: &Vec<DuplicateFile>) -> (r: Vec<DuplicateFile>)
    ensures
        r@ == mark_first_original(fs@),
{
    let mut r: Vec<DuplicateFile> = Vec::new();
    let mut k: usize = 0;
    while k < fs.len()
        invariant
            k <= fs@.len(),
            r@ =~= mark_first_original(fs@).take(k as int),
        decreases fs@.len() - k,
    {
        let f = DuplicateFile {
            path: fs[k].path.clone(),
            hash: fs[k].hash.clone(),
            distance_from_first: fs[k].distance_from_first,
            is_original: k == 0,
        };
        r.push(f);
        k = k + 1;
    }
    r
}

/// Filters the files of one duplicate group.
///
/// Keeps the files at least `min_distance` from the first file and the
/// originals, one file per path (the first), ordered by path. The group stays
/// only if it had more than one file, more than one file survives and a
/// surviving file that is not the original is at least `min_distance` away;
/// its files are then the originals followed by the others, with only the
/// first marked as the original.
pub fn filter_group(files: &Vec<DuplicateFile>, min_distance: u32) -> (r: Option<Vec<DuplicateFile>>)
    ensures
        r is Some <==> group_stays(files@, min_distance),
        r matches Some(v) ==> v@ == filtered_files(files@, min_distance),
        r matches Some(v) ==> 1 < v@.len() <= files@.len(),
{
    proof {
        lemma_filtered_files_len(files@, min_distance);
    }
    let k = kept_files(files, min_distance);
    let f = first_occurrence_files(&k);
    let d = sort_files_by_path(&f);
    if d.len() > 1 && files.len() > 1 {
        let mut has = false;
        let mut t: usize = 0;
        while t < d.len()
            invariant
                t <= d@.len(),
                has == exists|u: int|
                    0 <= u < t && !(#[trigger] d@[u]).is_original && d@[u].distance_from_first
                        >= min_distance,
            decreases d@.len() - t,
        {
            if !d[t].is_original && d[t].distance_from_first >= min_distance {
                has = true;
            }
            t = t + 1;
        }
        if has {
            let mut originals = flagged_files(&d, true);
            let mut others = flagged_files(&d, false);
            originals.append(&mut others);
            Some(mark_first(&originals))
        } else {
            None
        }
    } else {
        None
    }
}


proof fn lemma_kept_len(fs: Seq<DuplicateFile>, min: u32)
    ensures
        kept(fs, min).len() <= fs.len(),
    decreases fs.len(),
{
    if fs.len() > 0 {
        lemma_kept_len(fs.drop_last(), min);
    }
}

proof fn lemma_first_occurrences_len(fs: Seq<DuplicateFile>)
    ensures
        first_occurrences(fs).len() <= fs.len(),
    decreases fs.len(),
{
    if fs.len() > 0 {
        lemma_first_occurrences_len(fs.drop_last());
    }
}

proof fn lemma_sort_by_path_len(fs: Seq<DuplicateFile>)
    ensures
        sort_by_path(fs).len() == fs.len(),
    decreases fs.len(),
{
    if fs.len() > 0 {
        lemma_sort_by_path_len(fs.drop_last());
        lemma_first_greater_bound(sort_by_path(fs.drop_last()), fs.last().path@, 0);
    }
}

proof fn lemma_flagged_len(fs: Seq<DuplicateFile>)
    ensures
        flagged(fs, true).len() + flagged(fs, false).len() == fs.len(),
    decreases fs.len(),
{
    if fs.len() > 0 {
        lemma_flagged_len(fs.drop_last());
    }
}

proof fn lemma_filtered_files_len(fs: Seq<DuplicateFile>, min: u32)
    ensures
        filtered_files(fs, min).len() == deduped(fs, min).len(),
        deduped(fs, min).len() <= fs.len(),
{
    lemma_kept_len(fs, min);
    lemma_first_occurrences_len(kept(fs, min));
    lemma_sort_by_path_len(first_occurrences(kept(fs, min)));
    lemma_flagged_len(deduped(fs, min));
}

/// Indices of the groups that stay in the filtered report, in order.
pub open spec fn staying(gs: Seq<DuplicateGroup>, min: u32) -> Seq<int>
    decreases gs.len(),
{
    if gs.len() == 0 {
        seq![]
    } else if group_stays(gs.last().files@, min) {
        staying(gs.drop_last(), min).push(gs.len() - 1)
    } else {
        staying(gs.drop_last(), min)
    }
}

/// Number of duplicates among the groups that stay: each one's file count less one.
pub open spec fn filtered_count(gs: Seq<DuplicateGroup>, min: u32) -> nat
    decreases gs.len(),
{
    if gs.len() == 0 {
        0
    } else if group_stays(gs.last().files@, min) {
        filtered_count(gs.drop_last(), min) + (filtered_files(gs.last().files@, min).len() - 1) as nat
    } else {
        filtered_count(gs.drop_last(), min)
    }
}

/// Total number of files over all groups of a report.
pub open spec fn file_count(gs: Seq<DuplicateGroup>) -> nat
    decreases gs.len(),
{
    if gs.len() == 0 {
        0
    } else {
        file_count(gs.drop_last()) + gs.last().files@.len()
    }
}

proof fn lemma_staying_below(gs: Seq<DuplicateGroup>, min: u32)
    ensures
        forall|k: int| 0 <= k < staying(gs, min).len() ==> 0 <= #[trigger] staying(gs, min)[k] < gs.len(),
    decreases gs.len(),
{
    if gs.len() > 0 {
        lemma_staying_below(gs.drop_last(), min);
        let s0 = staying(gs.drop_last(), min);
        assert forall|k: int| 0 <= k < staying(gs, min).len() implies 0 <= #[trigger] staying(gs, min)[k] < gs.len() by {
            if k < s0.len() {
                assert(staying(gs, min)[k] == s0[k]);
            }
        }
    }
}

/// Keeps the groups of a duplicates report that hold files at least
/// `min_distance` apart (see `filter_group`), in their order.
pub fn filter_report(report: &DuplicatesReport, min_distance: u32) -> (r: FilteredReport)
    requires
        file_count(report.groups@) <= usize::MAX,
    ensures
        r.original_threshold == report.threshold,
        r.filter_threshold == min_distance,
        r.filtered_groups == r.groups@.len(),
        r.groups@.len() == staying(report.groups@, min_distance).len(),
        forall|k: int|
            #![trigger r.groups@[k]]
            0 <= k < r.groups@.len() ==> {
                let g = report.groups@[staying(report.groups@, min_distance)[k]];
                &&& r.groups@[k].group_id == g.group_id
                &&& r.groups@[k].original_index == 0
                &&& r.groups@[k].files@ == filtered_files(g.files@, min_distance)
            },
        r.filtered_duplicates == filtered_count(report.groups@, min_distance),
        r.filtered_duplicates == reported_duplicates(r.groups@),
{
    let ghost gs = report.groups@;
    let mut groups: Vec<DuplicateGroup> = Vec::new();
    let mut total: usize = 0;
    let mut k: usize = 0;
    while k < report.groups.len()
        invariant
            k <= gs.len(),
            gs == report.groups@,
            file_count(gs) <= usize::MAX,
            groups@.len() == staying(gs.take(k as int), min_distance).len(),
            forall|j: int|
                #![trigger groups@[j]]
                0 <= j < groups@.len() ==> {
                    let g = gs[staying(gs.take(k as int), min_distance)[j]];
                    &&& groups@[j].group_id == g.group_id
                    &&& groups@[j].original_index == 0
                    &&& groups@[j].files@ == filtered_files(g.files@, min_distance)
                },
            total == filtered_count(gs.take(k as int), min_distance),
            total == reported_duplicates(groups@),
            total <= file_count(gs.take(k as int)),
        decreases gs.len() - k,
    {
        let ghost t0 = gs.take(k as int);
        let ghost t1 = gs.take(k + 1);
        proof {
            assert(t1.drop_last() =~= t0);
            assert(t1.last() == gs[k as int]);
            lemma_staying_below(t0, min_distance);
            lemma_file_count_prefix(gs, k + 1);
        }
        let group = &report.groups[k];
        match filter_group(&group.files, min_distance) {
            Some(files) => {
                assert(total + (files@.len() - 1) <= file_count(t1));
                total = total + (files.len() - 1);
                let ghost before = groups@;
                groups.push(DuplicateGroup { group_id: group.group_id, original_index: 0, files });
                proof {
                    assert(groups@.drop_last() =~= before);
                    assert forall|j: int| 0 <= j < groups@.len() implies #[trigger] staying(t1, min_distance)[j]
                        == (if j < groups@.len() - 1 { staying(t0, min_distance)[j] } else { k as int }) by {}
                }
            },
            None => {},
        }
        k = k + 1;
    }
    proof {
        assert(gs.take(gs.len() as int) =~= gs);
    }
    FilteredReport {
        original_threshold: report.threshold,
        filter_threshold: min_distance,
        filtered_groups: groups.len(),
        filtered_duplicates: total,
        groups,
    }
}

proof fn lemma_file_count_prefix(gs: Seq<DuplicateGroup>, k: int)
    requires
        0 <= k <= gs.len(),
    ensures
        file_count(gs.take(k)) <= file_count(gs),
    decreases gs.len(),
{
    if k < gs.len() {
        assert(gs.drop_last().take(k) =~= gs.take(k));
        lemma_file_count_prefix(gs.drop_last(), k);
    } else {
        assert(gs.take(k) =~= gs);
    }
}


proof fn lemma_kept_subset(fs: Seq<DuplicateFile>, min: u32)
    ensures
        forall|t: int|
            0 <= t < kept(fs, min).len() ==> fs.contains(#[trigger] kept(fs, min)[t]) && passes(
                kept(fs, min)[t],
                min,
            ),
    decreases fs.len(),
{
    if fs.len() > 0 {
        lemma_kept_subset(fs.drop_last(), min);
        let k0 = kept(fs.drop_last(), min);
        assert forall|t: int| 0 <= t < kept(fs, min).len() implies fs.contains(#[trigger] kept(fs, min)[t])
            && passes(kept(fs, min)[t], min) by {
            if t < k0.len() {
                assert(kept(fs, min)[t] == k0[t]);
                let w = choose|w: int| 0 <= w < fs.drop_last().len() && fs.drop_last()[w] == k0[t];
                assert(fs[w] == k0[t]);
            } else {
                assert(fs[fs.len() - 1] == kept(fs, min)[t]);
            }
        }
    }
}

proof fn lemma_first_occurrences_props(fs: Seq<DuplicateFile>)
    ensures
        forall|t: int|
            0 <= t < first_occurrences(fs).len() ==> fs.contains(#[trigger] first_occurrences(fs)[t]),
        forall|a: int, b: int|
            0 <= a < b < first_occurrences(fs).len() ==> (#[trigger] first_occurrences(fs)[a]).path@
                != (#[trigger] first_occurrences(fs)[b]).path@,
    decreases fs.len(),
{
    if fs.len() > 0 {
        let d = fs.drop_last();
        lemma_first_occurrences_props(d);
        let f0 = first_occurrences(d);
        let f = first_occurrences(fs);
        assert forall|t: int| 0 <= t < f.len() implies fs.contains(#[trigger] f[t]) by {
            if t < f0.len() {
                assert(f[t] == f0[t]);
                let w = choose|w: int| 0 <= w < d.len() && d[w] == f0[t];
                assert(fs[w] == f0[t]);
            } else {
                assert(fs[fs.len() - 1] == f[t]);
            }
        }
        if !path_seen(fs, fs.last().path@, fs.len() - 1) {
            assert forall|a: int, b: int| 0 <= a < b < f.len() implies (#[trigger] f[a]).path@ != (
            #[trigger] f[b]).path@ by {
                if b == f.len() - 1 {
                    assert(f[a] == f0[a]);
                    let w = choose|w: int| 0 <= w < d.len() && d[w] == f0[a];
                    assert(fs[w] == d[w]);
                    if f[a].path@ == f[b].path@ {
                        assert(fs[w].path@ == fs.last().path@);
                    }
                } else {
                    assert(f[a] == f0[a] && f[b] == f0[b]);
                }
            }
        }
    }
}

proof fn lemma_sort_by_path_subset(fs: Seq<DuplicateFile>)
    ensures
        sort_by_path(fs).len() == fs.len(),
        forall|t: int| 0 <= t < sort_by_path(fs).len() ==> fs.contains(#[trigger] sort_by_path(fs)[t]),
        (forall|a: int, b: int| 0 <= a < b < fs.len() ==> (#[trigger] fs[a]).path@ != (#[trigger] fs[b]).path@)
            ==> (forall|a: int, b: int|
            0 <= a < b < sort_by_path(fs).len() ==> (#[trigger] sort_by_path(fs)[a]).path@ != (
            #[trigger] sort_by_path(fs)[b]).path@),
    decreases fs.len(),
{
    lemma_sort_by_path_len(fs);
    if fs.len() > 0 {
        let d = fs.drop_last();
        lemma_sort_by_path_subset(d);
        let s = sort_by_path(d);
        let x = fs.last();
        lemma_first_greater_bound(s, x.path@, 0);
        let pos = first_greater(s, x.path@, 0) as int;
        let r = s.insert(pos, x);
        assert forall|t: int| 0 <= t < r.len() implies fs.contains(#[trigger] r[t]) by {
            if t < pos {
                let w = choose|w: int| 0 <= w < d.len() && d[w] == s[t];
                assert(fs[w] == s[t]);
            } else if t > pos {
                let w = choose|w: int| 0 <= w < d.len() && d[w] == s[t - 1];
                assert(fs[w] == s[t - 1]);
            } else {
                assert(fs[fs.len() - 1] == r[t]);
            }
        }
        if forall|a: int, b: int| 0 <= a < b < fs.len() ==> (#[trigger] fs[a]).path@ != (#[trigger] fs[b]).path@ {
            assert forall|a: int, b: int| 0 <= a < b < d.len() implies (#[trigger] d[a]).path@ != (
            #[trigger] d[b]).path@ by {
                assert(d[a] == fs[a] && d[b] == fs[b]);
            }
            assert forall|t: int| 0 <= t < s.len() implies (#[trigger] s[t]).path@ != x.path@ by {
                let w = choose|w: int| 0 <= w < d.len() && d[w] == s[t];
                assert(fs[w] == d[w]);
                assert(fs[fs.len() - 1] == x);
            }
            assert forall|a: int, b: int| 0 <= a < b < r.len() implies (#[trigger] r[a]).path@ != (
            #[trigger] r[b]).path@ by {
                if b < pos {
                    assert(r[a] == s[a] && r[b] == s[b]);
                } else if b == pos {
                    assert(r[a] == s[a]);
                } else if a < pos {
                    assert(r[a] == s[a] && r[b] == s[b - 1]);
                } else if a == pos {
                    assert(r[b] == s[b - 1]);
                } else {
                    assert(r[a] == s[a - 1] && r[b] == s[b - 1]);
                }
            }
        }
    }
}

proof fn lemma_flagged_subset(fs: Seq<DuplicateFile>, want: bool)
    ensures
        forall|t: int| 0 <= t < flagged(fs, want).len() ==> fs.contains(#[trigger] flagged(fs, want)[t]),
    decreases fs.len(),
{
    if fs.len() > 0 {
        lemma_flagged_subset(fs.drop_last(), want);
        let f0 = flagged(fs.drop_last(), want);
        assert forall|t: int| 0 <= t < flagged(fs, want).len() implies fs.contains(#[trigger] flagged(fs, want)[t]) by {
            if t < f0.len() {
                assert(flagged(fs, want)[t] == f0[t]);
                let w = choose|w: int| 0 <= w < fs.drop_last().len() && fs.drop_last()[w] == f0[t];
                assert(fs[w] == f0[t]);
            } else {
                assert(fs[fs.len() - 1] == flagged(fs, want)[t]);
            }
        }
    }
}

/// Every file of a filtered group comes from the group's input files, keeping
/// its path, hash and distance, and that input file was either at least
/// `min` away from the first file or an original. Only the first file of the
/// filtered group is marked as the original.
pub proof fn lemma_filtered_files_from_input(fs: Seq<DuplicateFile>, min: u32, t: int)
    requires
        0 <= t < filtered_files(fs, min).len(),
    ensures
        exists|u: int|
            0 <= u < fs.len() && (#[trigger] fs[u]).path == filtered_files(fs, min)[t].path
                && fs[u].hash == filtered_files(fs, min)[t].hash && fs[u].distance_from_first
                == filtered_files(fs, min)[t].distance_from_first && passes(fs[u], min),
        filtered_files(fs, min)[t].is_original == (t == 0),
{
    let k = kept(fs, min);
    let f = first_occurrences(k);
    let d = sort_by_path(f);
    let c = flagged(d, true) + flagged(d, false);
    lemma_kept_subset(fs, min);
    lemma_first_occurrences_props(k);
    lemma_sort_by_path_subset(f);
    lemma_flagged_subset(d, true);
    lemma_flagged_subset(d, false);
    let x = c[t];
    let t1 = flagged(d, true).len();
    if t < t1 {
        assert(x == flagged(d, true)[t]);
    } else {
        assert(x == flagged(d, false)[t - t1]);
    }
    let wd = choose|w: int| 0 <= w < d.len() && d[w] == x;
    let wf = choose|w: int| 0 <= w < f.len() && f[w] == d[wd];
    let wk = choose|w: int| 0 <= w < k.len() && k[w] == f[wf];
    assert(passes(k[wk], min));
    let u = choose|w: int| 0 <= w < fs.len() && fs[w] == k[wk];
    assert(fs[u] == x);
}

proof fn lemma_flagged_distinct(fs: Seq<DuplicateFile>, want: bool)
    requires
        forall|a: int, b: int| 0 <= a < b < fs.len() ==> (#[trigger] fs[a]).path@ != (#[trigger] fs[b]).path@,
    ensures
        forall|a: int, b: int|
            0 <= a < b < flagged(fs, want).len() ==> (#[trigger] flagged(fs, want)[a]).path@ != (
            #[trigger] flagged(fs, want)[b]).path@,
        forall|t: int| 0 <= t < flagged(fs, want).len() ==> (#[trigger] flagged(fs, want)[t]).is_original == want,
    decreases fs.len(),
{
    if fs.len() > 0 {
        let d = fs.drop_last();
        assert forall|a: int, b: int| 0 <= a < b < d.len() implies (#[trigger] d[a]).path@ != (#[trigger] d[b]).path@ by {
            assert(d[a] == fs[a] && d[b] == fs[b]);
        }
        lemma_flagged_distinct(d, want);
        lemma_flagged_subset(d, want);
        let f0 = flagged(d, want);
        let f = flagged(fs, want);
        assert forall|t: int| 0 <= t < f.len() implies (#[trigger] f[t]).is_original == want by {
            if t < f0.len() {
                assert(f[t] == f0[t]);
            }
        }
        assert forall|a: int, b: int| 0 <= a < b < f.len() implies (#[trigger] f[a]).path@ != (#[trigger] f[b]).path@ by {
            assert(f[a] == f0[a]);
            if b == f.len() - 1 && fs.last().is_original == want {
                let w = choose|w: int| 0 <= w < d.len() && d[w] == f0[a];
                assert(fs[w] == d[w]);
                assert(fs[fs.len() - 1] == f[b]);
            } else {
                assert(f[b] == f0[b]);
            }
        }
    }
}

/// No two files of a filtered group share a path.
pub proof fn lemma_filtered_paths_distinct(fs: Seq<DuplicateFile>, min: u32)
    ensures
        forall|a: int, b: int|
            0 <= a < b < filtered_files(fs, min).len() ==> (#[trigger] filtered_files(fs, min)[a]).path@
                != (#[trigger] filtered_files(fs, min)[b]).path@,
{
    let d = deduped(fs, min);
    lemma_first_occurrences_props(kept(fs, min));
    lemma_sort_by_path_subset(first_occurrences(kept(fs, min)));
    lemma_flagged_distinct(d, true);
    lemma_flagged_distinct(d, false);
    lemma_flagged_subset(d, true);
    lemma_flagged_subset(d, false);
    let o = flagged(d, true);
    let n = flagged(d, false);
    let c = o + n;
    let r = filtered_files(fs, min);
    assert forall|a: int, b: int| 0 <= a < b < r.len() implies (#[trigger] r[a]).path@ != (#[trigger] r[b]).path@ by {
        assert(r[a].path == c[a].path && r[b].path == c[b].path);
        if b < o.len() {
            assert(c[a] == o[a] && c[b] == o[b]);
        } else if a >= o.len() {
            assert(c[a] == n[a - o.len()] && c[b] == n[b - o.len()]);
        } else {
            assert(c[a] == o[a] && c[b] == n[b - o.len()]);
            let wa = choose|w: int| 0 <= w < d.len() && d[w] == o[a];
            let wb = choose|w: int| 0 <= w < d.len() && d[w] == n[b - o.len()];
            assert(wa != wb);
            if wa < wb {
                assert(d[wa].path@ != d[wb].path@);
            } else {
                assert(d[wb].path@ != d[wa].path@);
            }
        }
    }
}


/// Duplicates counted over the groups at indices `st` of `gs`, after
/// filtering: each filtered group's files less one.
spec fn duplicates_at(st: Seq<int>, gs: Seq<DuplicateGroup>, min: u32) -> nat
    decreases st.len(),
{
    if st.len() == 0 {
        0
    } else {
        duplicates_at(st.drop_last(), gs, min) + (filtered_files(gs[st.last()].files@, min).len() - 1) as nat
    }
}

proof fn lemma_duplicates_at_prefix(st: Seq<int>, gs: Seq<DuplicateGroup>, min: u32)
    requires
        gs.len() > 0,
        forall|k: int| 0 <= k < st.len() ==> 0 <= #[trigger] st[k] < gs.len() - 1,
    ensures
        duplicates_at(st, gs.drop_last(), min) == duplicates_at(st, gs, min),
    decreases st.len(),
{
    if st.len() > 0 {
        lemma_duplicates_at_prefix(st.drop_last(), gs, min);
        assert(gs.drop_last()[st.last()] == gs[st.last()]);
    }
}

proof fn lemma_filtered_count_at(gs: Seq<DuplicateGroup>, min: u32)
    ensures
        filtered_count(gs, min) == duplicates_at(staying(gs, min), gs, min),
    decreases gs.len(),
{
    if gs.len() > 0 {
        let gd = gs.drop_last();
        lemma_filtered_count_at(gd, min);
        lemma_staying_below(gd, min);
        lemma_duplicates_at_prefix(staying(gd, min), gs, min);
        if group_stays(gs.last().files@, min) {
            let st = staying(gd, min).push(gs.len() - 1);
            assert(st.drop_last() =~= staying(gd, min));
        }
    }
}

proof fn lemma_duplicates_at_groups(st: Seq<int>, gs: Seq<DuplicateGroup>, min: u32, rg: Seq<DuplicateGroup>)
    requires
        rg.len() == st.len(),
        forall|k: int| 0 <= k < rg.len() ==> (#[trigger] rg[k]).files@ == filtered_files(gs[st[k]].files@, min),
    ensures
        duplicates_at(st, gs, min) == reported_duplicates(rg),
    decreases st.len(),
{
    if st.len() > 0 {
        lemma_duplicates_at_groups(st.drop_last(), gs, min, rg.drop_last());
        assert(rg.last() == rg[rg.len() - 1]);
    }
}

/// A filtered report whose groups are the filtered groups that stay counts
/// as duplicates, for `filtered_count`, exactly each returned group's files
/// less one.
pub proof fn lemma_filtered_duplicates_of_groups(report: DuplicatesReport, min: u32, r: FilteredReport)
    requires
        r.groups@.len() == staying(report.groups@, min).len(),
        forall|k: int|
            0 <= k < r.groups@.len() ==> (#[trigger] r.groups@[k]).files@ == filtered_files(
                report.groups@[staying(report.groups@, min)[k]].files@,
                min,
            ),
        r.filtered_duplicates == filtered_count(report.groups@, min),
    ensures
        r.filtered_duplicates == reported_duplicates(r.groups@),
{
    lemma_filtered_count_at(report.groups@, min);
    lemma_duplicates_at_groups(staying(report.groups@, min), report.groups@, min, r.groups@);
}
} // verus!
