//! The split-chain filename convention: a file named `graph-<hex>.graph`
//! must embed the lowercase hexadecimal encoding of its own content
//! digest; any other name passes the check trivially.

use vstd::prelude::*;
use crate::oid::ObjectId;
use crate::file::copy_range;

verus! {

/// The bytes of `graph-`.
pub open spec fn graph_prefix_spec() -> Seq<u8> {
    seq![103u8, 114u8, 97u8, 112u8, 104u8, 45u8]
}

/// The bytes of `.graph`.
pub open spec fn graph_suffix_spec() -> Seq<u8> {
    seq![46u8, 103u8, 114u8, 97u8, 112u8, 104u8]
}

/// The name follows the split-chain pattern `graph-<middle>.graph`.
pub open spec fn has_graph_pattern(nm: Seq<u8>) -> bool {
    &&& nm.len() >= 12
    &&& nm.subrange(0, 6) == graph_prefix_spec()
    &&& nm.subrange(nm.len() - 6, nm.len() as int) == graph_suffix_spec()
}

/// The `<middle>` part of a pattern-shaped name.
pub open spec fn pattern_mid(nm: Seq<u8>) -> Seq<u8> {
    nm.subrange(6, nm.len() - 6)
}

/// ASCII hexadecimal digit, either case.
pub open spec fn is_hex_digit(c: u8) -> bool {
    (48 <= c <= 57) || (97 <= c <= 102) || (65 <= c <= 70)
}

/// Numeric value of a hexadecimal digit.
pub open spec fn hex_val(c: u8) -> int {
    if 48 <= c <= 57 {
        c - 48
    } else if 97 <= c <= 102 {
        c - 87
    } else {
        c - 55
    }
}

/// The lowercase hexadecimal digit for a value below 16.
pub open spec fn hex_digit_lower(v: int) -> u8 {
    if v < 10 {
        (48 + v) as u8
    } else {
        (87 + v) as u8
    }
}

/// Lowercase hexadecimal encoding: two digits for each byte.
pub open spec fn hex_seq(s: Seq<u8>) -> Seq<u8> {
    Seq::new(
        2 * s.len(),
        |i: int|
            if i % 2 == 0 {
                hex_digit_lower(s[i / 2] as int / 16)
            } else {
                hex_digit_lower(s[i / 2] as int % 16)
            },
    )
}

/// `mid` is a 40-digit hexadecimal spelling of exactly `digest`.
pub open spec fn hex_decodes_to(mid: Seq<u8>, digest: Seq<u8>) -> bool {
    &&& mid.len() == 40
    &&& forall|i: int| 0 <= i < 40 ==> is_hex_digit(#[trigger] mid[i])
    &&& forall|j: int|
        0 <= j < 20 ==> hex_val(mid[2 * j]) * 16 + hex_val(mid[2 * j + 1]) == #[trigger] digest[j]
}

/// The filename check passes: either the name does not follow the
/// split-chain pattern, or its embedded digest is exactly `digest`.
pub open spec fn filename_ok(nm: Seq<u8>, digest: Seq<u8>) -> bool {
    has_graph_pattern(nm) ==> hex_decodes_to(pattern_mid(nm), digest)
}

/// The canonical split-chain name for a file whose digest is `digest`.
pub open spec fn expected_name_spec(digest: Seq<u8>) -> Seq<u8> {
    graph_prefix_spec() + hex_seq(digest) + graph_suffix_spec()
}

/// The bytes of `graph-`.
fn graph_prefix() -> (r: Vec<u8>)
    ensures
        r@ == graph_prefix_spec(),
{
    let mut r: Vec<u8> = Vec::new();
    r.push(103);
    r.push(114);
    r.push(97);
    r.push(112);
    r.push(104);
    r.push(45);
    proof {
        assert(r@ =~= graph_prefix_spec());
    }
    r
}

/// The bytes of `.graph`.
fn graph_suffix() -> (r: Vec<u8>)
    ensures
        r@ == graph_suffix_spec(),
{
    let mut r: Vec<u8> = Vec::new();
    r.push(46);
    r.push(103);
    r.push(114);
    r.push(97);
    r.push(112);
    r.push(104);
    proof {
        assert(r@ =~= graph_suffix_spec());
    }
    r
}

/// The lowercase hexadecimal digit for `v`.
fn hex_digit_lower_exec(v: u8) -> (r: u8)
    requires
        v < 16,
    ensures
        r == hex_digit_lower(v as int),
{
    if v < 10 {
        48 + v
    } else {
        87 + v
    }
}

/// Lowercase hexadecimal encoding of `bytes`.
pub fn hex_encode(bytes: &Vec<u8>) -> (r: Vec<u8>)
    ensures
        r@ == hex_seq(bytes@),
{
    let mut r: Vec<u8> = Vec::new();
    let mut i: usize = 0;
    while i < bytes.len()
        invariant
            i <= bytes@.len(),
            r@ == hex_seq(bytes@.subrange(0, i as int)),
        decreases bytes@.len() - i,
    {
        let b = bytes[i];
        r.push(hex_digit_lower_exec(b / 16));
        r.push(hex_digit_lower_exec(b % 16));
        proof {
            assert(r@ =~= hex_seq(bytes@.subrange(0, i + 1)));
        }
        i = i + 1;
    }
    proof {
        assert(bytes@.subrange(0, bytes@.len() as int) =~= bytes@);
    }
    r
}

/// Builds the canonical split-chain name for `digest`.
fn canonical_name(digest: &ObjectId) -> (r: Vec<u8>)
    ensures
        r@ == expected_name_spec(digest@),
{
    let mut r = graph_prefix();
    let mut hex = hex_encode(digest.as_bytes());
    let mut suffix = graph_suffix();
    r.append(&mut hex);
    r.append(&mut suffix);
    proof {
        assert(r@ =~= expected_name_spec(digest@));
    }
    r
}

/// If `filename` follows the split-chain pattern `graph-<hex>.graph`,
/// checks that `<hex>` spells exactly `expected`; any other shape passes.
/// On failure reports the canonically expected filename.
pub fn verify_split_chain_filename_hash(filename: &Vec<u8>, expected: &ObjectId) -> (r: Result<
    (),
    Vec<u8>,
>)
    requires
        expected.wf(),
    ensures
        r is Ok <==> filename_ok(filename@, expected@),
        r matches Err(name) ==> name@ == expected_name_spec(expected@),
{
    let n = filename.len();
    if n < 12 {
        return Ok(());
    }
    let prefix = copy_range(filename, 0, 6);
    let expected_prefix = graph_prefix();
    if !crate::oid::bytes_eq(&prefix, &expected_prefix) {
        return Ok(());
    }
    let suffix = copy_range(filename, n - 6, 6);
    let expected_suffix = graph_suffix();
    if !crate::oid::bytes_eq(&suffix, &expected_suffix) {
        return Ok(());
    }
    if n - 12 != 40 {
        return Err(canonical_name(expected));
    }
    let mid = copy_range(filename, 6, 40);
    let digest = expected.as_bytes();
    let mut j: usize = 0;
    while j < 20
        invariant
            j <= 20,
            mid@.len() == 40,
            digest@.len() == 20,
            mid@ == pattern_mid(filename@),
            has_graph_pattern(filename@),
            expected.wf(),
            digest@ == expected@,
            forall|t: int| 0 <= t < 2 * j ==> is_hex_digit(#[trigger] mid@[t]),
            forall|t: int|
                0 <= t < j ==> hex_val(mid@[2 * t]) * 16 + hex_val(mid@[2 * t + 1])
                    == #[trigger] digest@[t],
        decreases 20 - j,
    {
        let c1 = mid[2 * j];
        let c2 = mid[2 * j + 1];
        let v1 = hex_value_exec(c1);
        let v2 = hex_value_exec(c2);
        match (v1, v2) {
            (Some(v1), Some(v2)) => {
                if v1 * 16 + v2 != digest[j] {
                    return Err(canonical_name(expected));
                }
            },
            _ => {
                return Err(canonical_name(expected));
            },
        }
        j = j + 1;
    }
    Ok(())
}

/// The numeric value of a hexadecimal digit, if it is one.
fn hex_value_exec(c: u8) -> (r: Option<u8>)
    ensures
        r matches Some(v) ==> is_hex_digit(c) && v == hex_val(c) && v < 16,
        r is None ==> !is_hex_digit(c),
{
    if 48 <= c && c <= 57 {
        Some(c - 48)
    } else if 97 <= c && c <= 102 {
        Some(c - 87)
    } else if 65 <= c && c <= 70 {
        Some(c - 55)
    } else {
        None
    }
}

} // verus!
