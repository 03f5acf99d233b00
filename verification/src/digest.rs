//! The content digest used by all file trailers.

use vstd::prelude::*;
use crate::oid::SHA1_SIZE;

verus! {

/// The digest of the legacy hash algorithm over a byte sequence.
pub uninterp spec fn sha1_of(data: Seq<u8>) -> Seq<u8>;

/// Relies on `git_features::hash::Sha1` (`update`, then `digest`): the
/// digest depends on the hashed bytes alone and is exactly 20 bytes long.
#[verifier::external_body]
pub(crate) fn sha1_prefix(data: &Vec<u8>, n: usize) -> (r: Vec<u8>)
    requires
        n <= data@.len(),
    ensures
        r@ == sha1_of(data@.subrange(0, n as int)),
        r@.len() == SHA1_SIZE,
{
    let mut hasher = git_features::hash::Sha1::default();
    hasher.update(&data[..n]);
    hasher.digest().to_vec()
}

} // verus!
