//! Object identifiers: fixed-size digests of the legacy hash algorithm,
//! with the byte-wise lexicographic order the file formats sort by and
//! hexadecimal encoding and decoding for split-chain filenames.

use vstd::prelude::*;

verus! {

/// Size in bytes of a digest of the legacy hash algorithm.
pub const SHA1_SIZE: usize = 20;

/// True when every byte of `s` is zero (the null digest).
pub open spec fn is_null_seq(s: Seq<u8>) -> bool {
    forall|i: int| 0 <= i < s.len() ==> s[i] == 0
}

/// Strict byte-wise lexicographic order on byte sequences of equal
/// length: the sequences agree up to some position at which `a` holds the
/// smaller byte.
pub open spec fn seq_lt(a: Seq<u8>, b: Seq<u8>) -> bool
    recommends
        a.len() == b.len(),
{
    exists|k: int|
        #![trigger a[k], b[k]]
        0 <= k < a.len() && k < b.len() && (forall|j: int| 0 <= j < k ==> a[j] == b[j]) && a[k]
            < b[k]
}

/// The order is transitive on sequences of one length.
pub proof fn lemma_seq_lt_trans(a: Seq<u8>, b: Seq<u8>, c: Seq<u8>)
    requires
        a.len() == b.len(),
        b.len() == c.len(),
        seq_lt(a, b),
        seq_lt(b, c),
    ensures
        seq_lt(a, c),
{
    let k1 = choose|k: int|
        #![trigger a[k], b[k]]
        0 <= k < a.len() && k < b.len() && (forall|j: int| 0 <= j < k ==> a[j] == b[j]) && a[k]
            < b[k];
    let k2 = choose|k: int|
        #![trigger b[k], c[k]]
        0 <= k < b.len() && k < c.len() && (forall|j: int| 0 <= j < k ==> b[j] == c[j]) && b[k]
            < c[k];
    if k1 < k2 {
        assert(forall|j: int| 0 <= j < k1 ==> a[j] == c[j]);
        assert(a[k1] < c[k1]);
    } else if k2 < k1 {
        assert(forall|j: int| 0 <= j < k2 ==> a[j] == c[j]);
        assert(a[k2] < c[k2]);
    } else {
        assert(forall|j: int| 0 <= j < k1 ==> a[j] == c[j]);
        assert(a[k1] < c[k1]);
    }
}

/// An object identifier: a digest of exactly [`SHA1_SIZE`] bytes.
pub struct ObjectId {
    bytes: Vec<u8>,
}

impl View for ObjectId {
    type V = Seq<u8>;

    closed spec fn view(&self) -> Seq<u8> {
        self.bytes@
    }
}

impl Clone for ObjectId {
    fn clone(&self) -> (r: Self)
        ensures
            r@ == self@,
    {
        ObjectId { bytes: clone_bytes(&self.bytes) }
    }
}

impl ObjectId {
    /// A well-formed identifier holds exactly [`SHA1_SIZE`] bytes.
    pub open spec fn wf(&self) -> bool {
        self@.len() == SHA1_SIZE
    }

    /// Wraps `bytes` as an identifier; rejects any length other than
    /// [`SHA1_SIZE`].
    pub fn from_bytes(bytes: Vec<u8>) -> (r: Option<ObjectId>)
        ensures
            bytes@.len() == SHA1_SIZE ==> (r matches Some(id) && id@ == bytes@ && id.wf()),
            bytes@.len() != SHA1_SIZE ==> r is None,
    {
        if bytes.len() == SHA1_SIZE {
            Some(ObjectId { bytes })
        } else {
            None
        }
    }

    /// The all-zero null identifier.
    pub fn null() -> (r: ObjectId)
        ensures
            r.wf(),
            is_null_seq(r@),
    {
        let mut bytes: Vec<u8> = Vec::new();
        let mut i: usize = 0;
        while i < SHA1_SIZE
            invariant
                i <= SHA1_SIZE,
                bytes@.len() == i,
                forall|j: int| 0 <= j < i ==> bytes@[j] == 0,
            decreases SHA1_SIZE - i,
        {
            bytes.push(0u8);
            i = i + 1;
        }
        ObjectId { bytes }
    }

    /// Read-only access to the identifier's bytes.
    pub fn as_bytes(&self) -> (r: &Vec<u8>)
        ensures
            r@ == self@,
    {
        &self.bytes
    }

    /// True exactly when this is the null (all-zero) identifier.
    pub fn is_null(&self) -> (r: bool)
        ensures
            r == is_null_seq(self@),
    {
        let mut i: usize = 0;
        while i < self.bytes.len()
            invariant
                i <= self.bytes@.len(),
                forall|j: int| 0 <= j < i ==> self.bytes@[j] == 0,
            decreases self.bytes@.len() - i,
        {
            if self.bytes[i] != 0 {
                return false;
            }
            i = i + 1;
        }
        true
    }
}

/// True exactly when `a` sorts strictly before `b` in byte-wise
/// lexicographic order.
pub fn oid_lt(a: &ObjectId, b: &ObjectId) -> (r: bool)
    requires
        a.wf(),
        b.wf(),
    ensures
        r == seq_lt(a@, b@),
{
    let av = a.as_bytes();
    let bv = b.as_bytes();
    let mut i: usize = 0;
    while i < SHA1_SIZE
        invariant
            i <= SHA1_SIZE,
            av@ == a@,
            bv@ == b@,
            a@.len() == SHA1_SIZE,
            b@.len() == SHA1_SIZE,
            forall|j: int| 0 <= j < i ==> a@[j] == b@[j],
        decreases SHA1_SIZE - i,
    {
        if av[i] < bv[i] {
            proof {
                assert(a@[i as int] < b@[i as int]);
                assert(seq_lt(a@, b@));
            }
            return true;
        }
        if av[i] > bv[i] {
            proof {
                assert forall|k: int|
                    0 <= k < a@.len() && (forall|j: int| 0 <= j < k ==> a@[j] == b@[j]) implies !(
                a@[k] < b@[k]) by {
                    if k < i as int {
                        assert(a@[k] == b@[k]);
                    } else if k == i as int {
                        assert(a@[k] > b@[k]);
                    } else {
                        assert(a@[i as int] == b@[i as int]);
                    }
                }
            }
            return false;
        }
        i = i + 1;
    }
    proof {
        assert forall|k: int|
            0 <= k < a@.len() && (forall|j: int| 0 <= j < k ==> a@[j] == b@[j]) implies !(a@[k]
            < b@[k]) by {
            assert(a@[k] == b@[k]);
        }
    }
    false
}

/// Copies a byte vector.
pub fn clone_bytes(v: &Vec<u8>) -> (r: Vec<u8>)
    ensures
        r@ == v@,
{
    let mut r: Vec<u8> = Vec::new();
    let mut i: usize = 0;
    while i < v.len()
        invariant
            i <= v@.len(),
            r@ == v@.subrange(0, i as int),
        decreases v@.len() - i,
    {
        r.push(v[i]);
        i = i + 1;
    }
    proof {
        assert(r@ == v@.subrange(0, v@.len() as int));
        assert(v@.subrange(0, v@.len() as int) == v@);
    }
    r
}

/// True when `a` and `b` hold the same bytes.
pub fn bytes_eq(a: &Vec<u8>, b: &Vec<u8>) -> (r: bool)
    ensures
        r == (a@ == b@),
{
    if a.len() != b.len() {
        proof {
            assert(a@.len() != b@.len());
        }
        return false;
    }
    let mut i: usize = 0;
    while i < a.len()
        invariant
            i <= a@.len(),
            a@.len() == b@.len(),
            forall|j: int| 0 <= j < i ==> a@[j] == b@[j],
        decreases a@.len() - i,
    {
        if a[i] != b[i] {
            return false;
        }
        i = i + 1;
    }
    proof {
        assert(a@ =~= b@);
    }
    true
}

} // verus!
