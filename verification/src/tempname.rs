//! Support for registered temporary files: the naming rule that derives
//! a prefix and a suffix from a desired filename. Creating the file and
//! keeping the process-wide registry are the caller's work.

use vstd::prelude::*;
use crate::file::copy_range;
use crate::oid::clone_bytes;

verus! {

/// `k` is the position of the last dot of `nm`, and not its first byte:
/// the position the name splits at.
pub open spec fn is_split_dot(nm: Seq<u8>, k: int) -> bool {
    0 < k < nm.len() && nm[k] == 46 && (forall|j: int| k < j < nm.len() ==> nm[j] != 46)
}

/// The name has an extension: a dot past its first byte.
pub open spec fn has_extension(nm: Seq<u8>) -> bool {
    exists|k: int| is_split_dot(nm, k)
}

/// The position the name splits at.
pub open spec fn split_at(nm: Seq<u8>) -> int {
    choose|k: int| is_split_dot(nm, k)
}

/// Two split positions coincide: the last dot is one position.
proof fn lemma_split_dot_unique(nm: Seq<u8>, k1: int, k2: int)
    requires
        is_split_dot(nm, k1),
        is_split_dot(nm, k2),
    ensures
        k1 == k2,
{
    if k1 < k2 {
        assert(nm[k2] != 46);
    } else if k2 < k1 {
        assert(nm[k1] != 46);
    }
}

/// Splits `filename` into the stem and the extension that a registered
/// temporary file's name is built from: the part before the last dot and
/// the part after it. A name whose only dot is its first byte, or that
/// has none, is all stem. Mirrors how a path's stem and extension are
/// read off its final component.
pub fn tempfile_name_parts(filename: &Vec<u8>) -> (r: (Vec<u8>, Option<Vec<u8>>))
    ensures
        has_extension(filename@) ==> {
            let k = split_at(filename@);
            r.0@ == filename@.subrange(0, k) && (r.1 matches Some(e) && e@ == filename@.subrange(
                k + 1,
                filename@.len() as int,
            ))
        },
        !has_extension(filename@) ==> r.0@ == filename@ && r.1 is None,
{
    let n = filename.len();
    if n < 2 {
        return (clone_bytes(filename), None);
    }
    let mut best: usize = 0;
    let mut i: usize = 1;
    while i < n
        invariant
            1 <= i <= n,
            n == filename@.len(),
            best == 0 ==> forall|j: int| 1 <= j < i ==> filename@[j] != 46,
            best != 0 ==> 1 <= best < i && filename@[best as int] == 46 && (forall|j: int|
                best < j < i ==> filename@[j] != 46),
        decreases n - i,
    {
        if filename[i] == 46 {
            best = i;
        }
        i = i + 1;
    }
    if best == 0 {
        proof {
            assert forall|k: int| !is_split_dot(filename@, k) by {
                if 0 < k < filename@.len() {
                    assert(filename@[k] != 46);
                }
            }
        }
        return (clone_bytes(filename), None);
    }
    proof {
        assert(is_split_dot(filename@, best as int));
        lemma_split_dot_unique(filename@, split_at(filename@), best as int);
    }
    let stem = copy_range(filename, 0, best);
    let ext = copy_range(filename, best + 1, n - best - 1);
    (stem, Some(ext))
}

/// Registration bookkeeping never replaces an existing entry: an
/// identifier is never reused, so the slot a new entry goes into is
/// vacant, which callers establish before handing the previous value in.
pub fn expect_none<T>(v: Option<T>)
    requires
        v is None,
{
}

} // verus!
