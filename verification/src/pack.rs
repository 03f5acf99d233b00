//! Verification of pack and pack-index files: extension dispatch, trailing
//! checksum verification of the file itself and of a sibling pack, and
//! aggregation of per-entry decode statistics into averages.
//!
//! Opening files and decoding pack entries are the caller's work; this
//! module receives plain byte buffers and already-decoded per-entry
//! statistics and makes every decision about them.

use vstd::prelude::*;
use crate::oid::{ObjectId, SHA1_SIZE, bytes_eq, clone_bytes};
use crate::file::{checksum_ok, content_of, trailer_of, verify_buffer_checksum};
use crate::digest::sha1_of;

verus! {

/// Per-entry decode statistics of one pack entry.
#[derive(Clone, Copy, Debug, PartialEq, Eq, Structural)]
pub struct DecodeEntryResult {
    /// Length of the delta chain resolved for the entry.
    pub num_deltas: u32,
    /// Size of the entry after decompression, in bytes.
    pub decompressed_size: u64,
    /// Size of the entry as stored, in bytes.
    pub compressed_size: u64,
    /// Size of the fully resolved object, in bytes.
    pub object_size: u64,
}

/// The statistics part of a successful index verification: the verified
/// identifier of the sibling pack, the averaged per-entry statistics, and
/// optionally the full per-entry list.
pub struct PackFileChecksumResult {
    /// The sibling pack's verified trailing digest.
    pub pack_id: ObjectId,
    /// Field-wise average of the per-entry statistics.
    pub average: DecodeEntryResult,
    /// The full per-entry list, kept only when statistics were requested.
    pub entries: Option<Vec<DecodeEntryResult>>,
}

/// The error of [`verify_pack_or_pack_index`].
pub enum PackError {
    /// A recomputed digest does not match a stored trailer.
    Mismatch { actual: ObjectId, expected: ObjectId },
    /// The path's extension names no supported file type; the payload is
    /// the attempted extension, absent when the path had none.
    Configuration { extension: Option<Vec<u8>> },
}

/// The bytes of `pack`.
pub open spec fn ext_pack() -> Seq<u8> {
    seq![112u8, 97u8, 99u8, 107u8]
}

/// The bytes of `idx`.
pub open spec fn ext_idx() -> Seq<u8> {
    seq![105u8, 100u8, 120u8]
}

/// Sum of the delta-chain lengths of the first `i` entries.
pub open spec fn total_deltas(s: Seq<DecodeEntryResult>, i: int) -> int
    decreases i,
{
    if i <= 0 {
        0
    } else {
        total_deltas(s, i - 1) + s[i - 1].num_deltas
    }
}

/// Sum of the decompressed sizes of the first `i` entries.
pub open spec fn total_decompressed(s: Seq<DecodeEntryResult>, i: int) -> int
    decreases i,
{
    if i <= 0 {
        0
    } else {
        total_decompressed(s, i - 1) + s[i - 1].decompressed_size
    }
}

/// Sum of the stored sizes of the first `i` entries.
pub open spec fn total_compressed(s: Seq<DecodeEntryResult>, i: int) -> int
    decreases i,
{
    if i <= 0 {
        0
    } else {
        total_compressed(s, i - 1) + s[i - 1].compressed_size
    }
}

/// Sum of the resolved object sizes of the first `i` entries.
pub open spec fn total_object(s: Seq<DecodeEntryResult>, i: int) -> int
    decreases i,
{
    if i <= 0 {
        0
    } else {
        total_object(s, i - 1) + s[i - 1].object_size
    }
}

/// The all-zero statistics record.
pub open spec fn zero_entry() -> DecodeEntryResult {
    DecodeEntryResult { num_deltas: 0, decompressed_size: 0, compressed_size: 0, object_size: 0 }
}

/// `a` is the field-wise average (rounded down) of the entries of `s`.
pub open spec fn avg_matches(a: DecodeEntryResult, s: Seq<DecodeEntryResult>) -> bool {
    let n = s.len() as int;
    &&& a.num_deltas == total_deltas(s, n) / n
    &&& a.decompressed_size == total_decompressed(s, n) / n
    &&& a.compressed_size == total_compressed(s, n) / n
    &&& a.object_size == total_object(s, n) / n
}

/// Field-wise average (rounded down) of a non-empty entry list.
pub fn average_entries(entries: &Vec<DecodeEntryResult>) -> (r: DecodeEntryResult)
    requires
        entries@.len() > 0,
    ensures
        avg_matches(r, entries@),
{
    let n = entries.len();
    let mut deltas: u128 = 0;
    let mut decompressed: u128 = 0;
    let mut compressed: u128 = 0;
    let mut object: u128 = 0;
    let mut i: usize = 0;
    while i < n
        invariant
            i <= n,
            n == entries@.len(),
            deltas == total_deltas(entries@, i as int),
            decompressed == total_decompressed(entries@, i as int),
            compressed == total_compressed(entries@, i as int),
            object == total_object(entries@, i as int),
            deltas <= i * 0xFFFF_FFFF,
            decompressed <= i * 0xFFFF_FFFF_FFFF_FFFF,
            compressed <= i * 0xFFFF_FFFF_FFFF_FFFF,
            object <= i * 0xFFFF_FFFF_FFFF_FFFF,
        decreases n - i,
    {
        let e = entries[i];
        deltas = deltas + e.num_deltas as u128;
        decompressed = decompressed + e.decompressed_size as u128;
        compressed = compressed + e.compressed_size as u128;
        object = object + e.object_size as u128;
        i = i + 1;
    }
    proof {
        lemma_avg_bound(deltas as int, n as int, 0xFFFF_FFFF);
        lemma_avg_bound(decompressed as int, n as int, 0xFFFF_FFFF_FFFF_FFFF);
        lemma_avg_bound(compressed as int, n as int, 0xFFFF_FFFF_FFFF_FFFF);
        lemma_avg_bound(object as int, n as int, 0xFFFF_FFFF_FFFF_FFFF);
    }
    DecodeEntryResult {
        num_deltas: (deltas / n as u128) as u32,
        decompressed_size: (decompressed / n as u128) as u64,
        compressed_size: (compressed / n as u128) as u64,
        object_size: (object / n as u128) as u64,
    }
}

/// A sum of `n` addends each at most `m` averages to at most `m`.
proof fn lemma_avg_bound(total: int, n: int, m: int)
    requires
        0 < n,
        0 <= total <= n * m,
        0 <= m,
    ensures
        0 <= total / n <= m,
{
    vstd::arithmetic::div_mod::lemma_div_is_ordered(total, n * m, n);
    vstd::arithmetic::div_mod::lemma_div_multiples_vanish(m, n);
    vstd::arithmetic::div_mod::lemma_div_is_ordered(0, total, n);
}

/// The bytes of `pack`.
fn ext_pack_exec() -> (r: Vec<u8>)
    ensures
        r@ == ext_pack(),
{
    let mut r: Vec<u8> = Vec::new();
    r.push(112);
    r.push(97);
    r.push(99);
    r.push(107);
    proof {
        assert(r@ =~= ext_pack());
    }
    r
}

/// The bytes of `idx`.
fn ext_idx_exec() -> (r: Vec<u8>)
    ensures
        r@ == ext_idx(),
{
    let mut r: Vec<u8> = Vec::new();
    r.push(105);
    r.push(100);
    r.push(120);
    proof {
        assert(r@ =~= ext_idx());
    }
    r
}

/// Resolves a path's extension to a pack or pack-index verification and
/// performs it on plain buffers.
///
/// - extension `pack`: verify `data`'s trailing checksum; no statistics.
/// - extension `idx`: verify `data`'s trailing checksum; when a sibling
///   pack's buffer is supplied together with its decoded per-entry
///   statistics, verify the sibling's checksum too and reduce the
///   statistics to averages, keeping the full list only when
///   `want_statistics` is set. An absent sibling degrades to verifying
///   the index alone (the caller reports the warning).
/// - any other extension, or none: a configuration failure before any
///   buffer is looked at.
pub fn verify_pack_or_pack_index(
    extension: Option<&Vec<u8>>,
    data: &Vec<u8>,
    sibling_pack: Option<(&Vec<u8>, Vec<DecodeEntryResult>)>,
    want_statistics: bool,
) -> (r: Result<(ObjectId, Option<PackFileChecksumResult>), PackError>)
    requires
        data@.len() >= SHA1_SIZE,
        sibling_pack matches Some((p, _)) ==> p@.len() >= SHA1_SIZE,
    ensures
        match r {
            Err(PackError::Configuration { extension: e }) => !(extension matches Some(x) && (x@
                == ext_pack() || x@ == ext_idx())) && (match (e, extension) {
                (Some(ev), Some(xv)) => ev@ == xv@,
                (None, None) => true,
                _ => false,
            }),
            Err(PackError::Mismatch { actual, expected }) => (extension matches Some(x) && (x@
                == ext_pack() || x@ == ext_idx())) && ((!checksum_ok(data@) && actual@ == sha1_of(
                content_of(data@),
            ) && expected@ == trailer_of(data@)) || ((extension matches Some(x) && x@ == ext_idx())
                && checksum_ok(data@) && (sibling_pack matches Some((p, _)) && !checksum_ok(p@)
                && actual@ == sha1_of(content_of(p@)) && expected@ == trailer_of(p@)))),
            Ok((id, stats)) => {
                &&& extension matches Some(x) && (x@ == ext_pack() || x@ == ext_idx())
                &&& checksum_ok(data@)
                &&& id@ == sha1_of(content_of(data@))
                &&& (extension matches Some(x) && x@ == ext_pack() ==> stats is None)
                &&& (extension matches Some(x) && x@ == ext_idx() ==> match sibling_pack {
                    None => stats is None,
                    Some((p, es)) => checksum_ok(p@) && (stats matches Some(s) && s.pack_id@
                        == sha1_of(content_of(p@)) && (es@.len() > 0 ==> avg_matches(
                        s.average,
                        es@,
                    )) && (es@.len() == 0 ==> s.average == zero_entry()) && (want_statistics
                        ==> (s.entries matches Some(v) && v@ == es@)) && (!want_statistics
                        ==> s.entries is None)),
                })
            },
        },
        (extension matches Some(x) && (x@ == ext_pack() || x@ == ext_idx())) && checksum_ok(data@)
            && (sibling_pack matches Some((p, _)) ==> checksum_ok(p@)) ==> r is Ok,
{
    let x = match extension {
        None => {
            return Err(PackError::Configuration { extension: None });
        },
        Some(x) => x,
    };
    let is_pack = bytes_eq(x, &ext_pack_exec());
    let is_idx = bytes_eq(x, &ext_idx_exec());
    if !is_pack && !is_idx {
        return Err(PackError::Configuration { extension: Some(clone_bytes(x)) });
    }
    let id = match verify_buffer_checksum(data) {
        Ok(id) => id,
        Err((actual, expected)) => {
            return Err(PackError::Mismatch { actual, expected });
        },
    };
    if is_pack {
        return Ok((id, None));
    }
    match sibling_pack {
        None => Ok((id, None)),
        Some((p, es)) => {
            let pack_id = match verify_buffer_checksum(p) {
                Ok(pid) => pid,
                Err((actual, expected)) => {
                    return Err(PackError::Mismatch { actual, expected });
                },
            };
            let average = if es.len() > 0 {
                average_entries(&es)
            } else {
                DecodeEntryResult {
                    num_deltas: 0,
                    decompressed_size: 0,
                    compressed_size: 0,
                    object_size: 0,
                }
            };
            let entries = if want_statistics {
                Some(es)
            } else {
                None
            };
            Ok((id, Some(PackFileChecksumResult { pack_id, average, entries })))
        },
    }
}

} // verus!
