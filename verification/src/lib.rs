//! Verification of the binary on-disk formats of a version-control object
//! store: commit-graph files and pack/pack-index files.
//!
//! The core is a single-pass traversal over a commit-graph file that checks
//! its trailing digest, the strict ascending order of commit identifiers,
//! per-record semantic invariants, and accumulates summary statistics, plus
//! a dispatcher that verifies the trailing digest of pack and pack-index
//! files and aggregates per-entry decode statistics.

pub mod digest;
pub mod file;
pub mod naming;
pub mod oid;
pub mod pack;
pub mod tempname;
pub mod verify;

use vstd::prelude::*;

verus! {

/// Generation numbers at or above this value are not valid in a stored
/// commit record; the traversal rejects any record exceeding it.
pub const GENERATION_NUMBER_MAX: u32 = 0x3FFF_FFFF;

/// The format's sentinel for "generation intentionally unknown".
pub const GENERATION_NUMBER_INFINITY: u32 = 0xFFFF_FFFF;

/// Initial value of the minimum-generation accumulator, meaning "no
/// generation observed yet"; distinct in role from
/// [`GENERATION_NUMBER_INFINITY`] even though the underlying value agrees.
pub const GENERATION_UNOBSERVED: u32 = 0xFFFF_FFFF;

} // verus!
