//! A read-only view of a commit-graph file: a byte buffer mapped to the
//! header, the fan-out table, the fixed-size commit records and the
//! trailing digest.
//!
//! Layout of a commit-graph file of `n` records:
//! - bytes `0..4`: the magic `CGPH`;
//! - bytes `4..1028`: the fan-out table, 256 big-endian 32-bit values,
//!   whose last entry declares the record count `n`;
//! - bytes `1028..1028 + 52 * n`: the records, 52 bytes each: the commit
//!   identifier (20 bytes), the root-tree identifier (20 bytes), the
//!   generation number, the first and the second parent position (each a
//!   big-endian 32-bit value, [`NO_PARENT`] meaning absent);
//! - the last 20 bytes: the digest of everything before them.

use vstd::prelude::*;
use crate::oid::{ObjectId, SHA1_SIZE, bytes_eq};
use crate::digest::{sha1_of, sha1_prefix};

verus! {

/// Bytes before the first record: the magic and the fan-out table.
pub const HEADER_SIZE: usize = 1028;

/// Size in bytes of one stored commit record.
pub const RECORD_SIZE: usize = 52;

/// Sentinel parent position meaning "no parent in this slot".
pub const NO_PARENT: u32 = 0xFFFF_FFFF;

/// The big-endian 32-bit value stored at `off`.
pub open spec fn be32_at(d: Seq<u8>, off: int) -> int {
    d[off] * 0x100_0000 + d[off + 1] * 0x1_0000 + d[off + 2] * 0x100 + d[off + 3]
}

/// The record count the fan-out table declares (its last entry).
pub open spec fn count_of(d: Seq<u8>) -> int {
    be32_at(d, HEADER_SIZE - 4)
}

/// Structural well-formedness of a commit-graph buffer: the magic, and a
/// length that matches the declared record count exactly.
pub open spec fn data_wf(d: Seq<u8>) -> bool {
    &&& d.len() >= HEADER_SIZE + SHA1_SIZE
    &&& d[0] == 0x43u8 && d[1] == 0x47u8 && d[2] == 0x50u8 && d[3] == 0x48u8
    &&& d.len() == HEADER_SIZE + RECORD_SIZE * count_of(d) + SHA1_SIZE
}

/// Everything the trailing digest covers: all bytes but the trailer.
pub open spec fn content_of(d: Seq<u8>) -> Seq<u8> {
    d.subrange(0, d.len() - SHA1_SIZE)
}

/// The stored trailing digest: the last 20 bytes.
pub open spec fn trailer_of(d: Seq<u8>) -> Seq<u8> {
    d.subrange(d.len() - SHA1_SIZE, d.len() as int)
}

/// The recomputed digest matches the stored trailer.
pub open spec fn checksum_ok(d: Seq<u8>) -> bool {
    sha1_of(content_of(d)) == trailer_of(d)
}

/// Byte offset of record `i`.
pub open spec fn rec_off(i: int) -> int {
    HEADER_SIZE + RECORD_SIZE * i
}

/// The identifier of record `i`.
pub open spec fn rec_id(d: Seq<u8>, i: int) -> Seq<u8> {
    d.subrange(rec_off(i), rec_off(i) + 20)
}

/// The root-tree identifier of record `i`.
pub open spec fn rec_root(d: Seq<u8>, i: int) -> Seq<u8> {
    d.subrange(rec_off(i) + 20, rec_off(i) + 40)
}

/// The generation number of record `i`.
pub open spec fn rec_gen(d: Seq<u8>, i: int) -> int {
    be32_at(d, rec_off(i) + 40)
}

/// The first parent position of record `i`.
pub open spec fn rec_p1(d: Seq<u8>, i: int) -> int {
    be32_at(d, rec_off(i) + 44)
}

/// The second parent position of record `i`.
pub open spec fn rec_p2(d: Seq<u8>, i: int) -> int {
    be32_at(d, rec_off(i) + 48)
}

/// Reads the big-endian 32-bit value at `off`.
pub(crate) fn read_be32(data: &Vec<u8>, off: usize) -> (r: u32)
    requires
        off + 4 <= data@.len(),
    ensures
        r == be32_at(data@, off as int),
{
    // Binding the length tells the verifier the offsets fit in a usize.
    let len = data.len();
    proof {
        assert(off + 4 <= len);
    }
    (data[off] as u32) * 0x100_0000 + (data[off + 1] as u32) * 0x1_0000
        + (data[off + 2] as u32) * 0x100 + (data[off + 3] as u32)
}

/// Copies `data[off .. off + n]`.
pub(crate) fn copy_range(data: &Vec<u8>, off: usize, n: usize) -> (r: Vec<u8>)
    requires
        off + n <= data@.len(),
    ensures
        r@ == data@.subrange(off as int, off + n),
{
    let total = data.len();
    let mut r: Vec<u8> = Vec::new();
    let mut i: usize = 0;
    while i < n
        invariant
            i <= n,
            off + n <= total,
            total == data@.len(),
            r@ == data@.subrange(off as int, off + i),
        decreases n - i,
    {
        r.push(data[off + i]);
        proof {
            assert(r@ =~= data@.subrange(off as int, off + i + 1));
        }
        i = i + 1;
    }
    r
}

/// Recomputes the digest over everything but the trailing 20 bytes of a
/// raw buffer and compares it to that trailer: the verified digest on
/// success, both the actual and the expected digest on mismatch. Pure
/// function of the buffer.
pub fn verify_buffer_checksum(data: &Vec<u8>) -> (r: Result<ObjectId, (ObjectId, ObjectId)>)
    requires
        data@.len() >= SHA1_SIZE,
    ensures
        match r {
            Ok(id) => checksum_ok(data@) && id@ == sha1_of(content_of(data@)) && id.wf(),
            Err((actual, expected)) => !checksum_ok(data@) && actual@ == sha1_of(content_of(data@))
                && expected@ == trailer_of(data@) && actual.wf() && expected.wf(),
        },
{
    let content_len = data.len() - SHA1_SIZE;
    let actual = ObjectId::from_bytes(sha1_prefix(data, content_len)).unwrap();
    let expected = ObjectId::from_bytes(copy_range(data, content_len, SHA1_SIZE)).unwrap();
    if bytes_eq(actual.as_bytes(), expected.as_bytes()) {
        Ok(actual)
    } else {
        Err((actual, expected))
    }
}

/// A commit-graph file: its byte buffer and the name under which it was
/// found, with the buffer's structure established on construction.
pub struct File {
    data: Vec<u8>,
    filename: Vec<u8>,
}

impl File {
    /// The file's bytes.
    pub closed spec fn bytes(&self) -> Seq<u8> {
        self.data@
    }

    /// The file's name (the last path component, without directories).
    pub closed spec fn name(&self) -> Seq<u8> {
        self.filename@
    }

    /// A well-formed file has a structurally valid buffer.
    pub open spec fn wf(&self) -> bool {
        data_wf(self.bytes())
    }

    /// Maps `data` as a commit-graph file found under the name `filename`;
    /// rejects a buffer whose magic or length is wrong.
    pub fn new(data: Vec<u8>, filename: Vec<u8>) -> (r: Option<File>)
        ensures
            match r {
                Some(f) => data_wf(data@) && f.bytes() == data@ && f.name() == filename@ && f.wf(),
                None => !data_wf(data@),
            },
    {
        if data.len() < HEADER_SIZE + SHA1_SIZE {
            return None;
        }
        if !(data[0] == 0x43 && data[1] == 0x47 && data[2] == 0x50 && data[3] == 0x48) {
            return None;
        }
        let n = read_be32(&data, HEADER_SIZE - 4);
        let expected: u64 = HEADER_SIZE as u64 + RECORD_SIZE as u64 * n as u64 + SHA1_SIZE as u64;
        if data.len() as u64 == expected {
            Some(File { data, filename })
        } else {
            None
        }
    }

    /// The record count the file declares.
    pub fn num_commits(&self) -> (r: u32)
        requires
            self.wf(),
        ensures
            r == count_of(self.bytes()),
    {
        read_be32(&self.data, HEADER_SIZE - 4)
    }

    /// The stored trailing digest over the entire content of this file.
    pub fn checksum(&self) -> (r: ObjectId)
        requires
            self.wf(),
        ensures
            r@ == trailer_of(self.bytes()),
            r.wf(),
    {
        let off = self.data.len() - SHA1_SIZE;
        let bytes = copy_range(&self.data, off, SHA1_SIZE);
        ObjectId::from_bytes(bytes).unwrap()
    }

    /// Recomputes the digest over everything except the trailer and
    /// compares it to the stored trailer: the verified digest on success,
    /// both the actual and the expected digest on mismatch.
    pub fn verify_checksum(&self) -> (r: Result<ObjectId, (ObjectId, ObjectId)>)
        requires
            self.wf(),
        ensures
            match r {
                Ok(id) => checksum_ok(self.bytes()) && id@ == sha1_of(content_of(self.bytes()))
                    && id.wf(),
                Err((actual, expected)) => !checksum_ok(self.bytes())
                    && actual@ == sha1_of(content_of(self.bytes()))
                    && expected@ == trailer_of(self.bytes())
                    && actual.wf() && expected.wf(),
            },
    {
        verify_buffer_checksum(&self.data)
    }

    /// Read-only access to the file's name bytes.
    pub fn name_bytes(&self) -> (r: &Vec<u8>)
        ensures
            r@ == self.name(),
    {
        &self.filename
    }

    /// Read-only access to the file's bytes.
    pub fn data_bytes(&self) -> (r: &Vec<u8>)
        ensures
            r@ == self.bytes(),
    {
        &self.data
    }
}

} // verus!
