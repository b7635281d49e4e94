use vstd::prelude::*;
use crate::filter::{bytes_lt_from, path_less, path_lt};
use crate::image_loader::{image_extension, FileScanner};

verus! {

broadcast use vstd::seq_lib::group_to_multiset_ensures;

/// An entry met while walking a directory: its path, whether it is a regular
/// file, and its extension in lower case, if it has one.
pub struct WalkEntry {
    pub path: String,
    pub is_file: bool,
    pub extension: Option<String>,
}

/// Whether an entry is an image file: a regular file with an image extension.
pub open spec fn is_image_entry(e: WalkEntry) -> bool {
    e.is_file && (e.extension matches Some(x) && image_extension(x@))
}

/// The paths of the image files among `es`, in the order met.
pub open spec fn image_entry_paths(es: Seq<WalkEntry>) -> Seq<Seq<char>>
    decreases es.len(),
{
    if es.len() == 0 {
        seq![]
    } else if is_image_entry(es.last()) {
        image_entry_paths(es.drop_last()).push(es.last().path@)
    } else {
        image_entry_paths(es.drop_last())
    }
}

/// The texts of a sequence of strings.
pub open spec fn texts(s: Seq<String>) -> Seq<Seq<char>> {
    s.map_values(|x: String| x@)
}

/// Whether no string of `s` sorts before one that comes earlier.
pub open spec fn paths_sorted(s: Seq<String>) -> bool {
    forall|i: int, j: int| 0 <= i < j < s.len() ==> !path_lt(#[trigger] s[j]@, #[trigger] s[i]@)
}

proof fn lemma_bytes_lt_asymmetric(a: Seq<u8>, b: Seq<u8>, k: nat)
    requires
        bytes_lt_from(a, b, k),
    ensures
        !bytes_lt_from(b, a, k),
    decreases a.len() - k,
{
    if k < a.len() && k < b.len() && a[k as int] == b[k as int] {
        lemma_bytes_lt_asymmetric(a, b, k + 1);
    }
}

proof fn lemma_bytes_lt_transitive(a: Seq<u8>, b: Seq<u8>, c: Seq<u8>, k: nat)
    requires
        bytes_lt_from(a, b, k),
        bytes_lt_from(b, c, k),
    ensures
        bytes_lt_from(a, c, k),
    decreases a.len() - k,
{
    if k < a.len() && k < b.len() && k < c.len() && a[k as int] == b[k as int] && b[k as int]
        == c[k as int] {
        lemma_bytes_lt_transitive(a, b, c, k + 1);
    }
}

/// The order of paths is a strict order: no path sorts before itself or
/// both before and after another, and it is transitive.
pub proof fn lemma_path_order_strict(a: Seq<char>, b: Seq<char>, c: Seq<char>)
    ensures
        path_lt(a, b) ==> !path_lt(b, a),
        path_lt(a, b) && path_lt(b, c) ==> path_lt(a, c),
{
    let x = vstd::utf8::encode_utf8(a);
    let y = vstd::utf8::encode_utf8(b);
    let z = vstd::utf8::encode_utf8(c);
    if path_lt(a, b) {
        lemma_bytes_lt_asymmetric(x, y, 0);
        if path_lt(b, c) {
            lemma_bytes_lt_transitive(x, y, z, 0);
        }
    }
}

impl FileScanner {
    /// The paths of the image files among `entries`, in the order met.
    pub fn image_paths(entries: &Vec<WalkEntry>) -> (r: Vec<String>)
        ensures
            texts(r@) == image_entry_paths(entries@),
    {
        let mut r: Vec<String> = Vec::new();
        let mut k: usize = 0;
        while k < entries.len()
            invariant
                k <= entries@.len(),
                texts(r@) == image_entry_paths(entries@.take(k as int)),
            decreases entries@.len() - k,
        {
            proof {
                assert(entries@.take(k + 1).drop_last() =~= entries@.take(k as int));
            }
            let e = &entries[k];
            let is_image = match &e.extension {
                Some(x) => e.is_file && FileScanner::is_image_extension(x.as_str()),
                None => false,
            };
            if is_image {
                r.push(e.path.clone());
                proof {
                    assert(texts(r@) =~= texts(r@.drop_last()).push(r@.last()@));
                }
            }
            k = k + 1;
        }
        proof {
            assert(entries@.take(entries@.len() as int) =~= entries@);
        }
        r
    }
}

/// Sorts paths by their UTF-8 bytes; the result holds the same strings.
pub fn sort_paths(paths: Vec<String>) -> (r: Vec<String>)
    ensures
        paths_sorted(r@),
        r@.to_multiset() == paths@.to_multiset(),
{
    let ghost all = paths@;
    let mut rest = paths;
    let mut out: Vec<String> = Vec::new();
    while rest.len() > 0
        invariant
            paths_sorted(out@),
            out@.to_multiset().add(rest@.to_multiset()) == all.to_multiset(),
        decreases rest@.len(),
    {
        let ghost before = rest@;
        let x = match rest.pop() {
            Some(x) => x,
            None => {
                return out;
            }
        };
        proof {
            assert(before == rest@.push(x));
            vstd::seq_lib::to_multiset_build(rest@, x);
        }
        let mut k: usize = 0;
        while k < out.len() && !path_less(&x, &out[k])
            invariant
                k <= out@.len(),
                forall|i: int| 0 <= i < k ==> !path_lt(x@, #[trigger] out@[i]@),
            decreases out@.len() - k,
        {
            k = k + 1;
        }
        let ghost old_out = out@;
        out.insert(k, x);
        proof {
            vstd::seq_lib::to_multiset_insert(old_out, k as int, x);
            assert forall|i: int, j: int| 0 <= i < j < out@.len() implies !path_lt(
                #[trigger] out@[j]@,
                #[trigger] out@[i]@,
            ) by {
                if j < k {
                    assert(out@[i] == old_out[i] && out@[j] == old_out[j]);
                } else if j == k {
                    assert(out@[i] == old_out[i]);
                } else if i < k {
                    assert(out@[i] == old_out[i] && out@[j] == old_out[j - 1]);
                } else if i == k {
                    let y = old_out[j - 1];
                    assert(out@[j] == y);
                    assert(path_lt(x@, old_out[k as int]@));
                    lemma_path_order_strict(y@, x@, old_out[k as int]@);
                    lemma_path_order_strict(x@, old_out[k as int]@, x@);
                    if j - 1 > k {
                        assert(!path_lt(old_out[j - 1]@, old_out[k as int]@));
                    }
                } else {
                    assert(out@[i] == old_out[i - 1] && out@[j] == old_out[j - 1]);
                }
            }
        }
    }
    proof {
        assert(rest@.to_multiset() =~= vstd::multiset::Multiset::empty());
    }
    out
}

} // verus!
