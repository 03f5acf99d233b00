//! The single-pass traversal over all commit records of a commit-graph
//! file: checksum and filename verification first, then per-record
//! ordering, semantic and generation checks, a caller-supplied processor
//! invoked once per record, and summary statistics accumulated on the way.

use vstd::prelude::*;
use std::collections::HashMap;
use crate::oid::{ObjectId, SHA1_SIZE, is_null_seq, seq_lt, oid_lt, lemma_seq_lt_trans};
use crate::file::{
    File, HEADER_SIZE, RECORD_SIZE, NO_PARENT, count_of, data_wf, content_of, trailer_of,
    checksum_ok, rec_off, rec_id, rec_root, rec_gen, rec_p1, rec_p2, read_be32, copy_range,
};
use crate::digest::sha1_of;
use crate::naming::{filename_ok, expected_name_spec, verify_split_chain_filename_hash};
use crate::{GENERATION_NUMBER_MAX, GENERATION_NUMBER_INFINITY, GENERATION_UNOBSERVED};

verus! {

broadcast use vstd::std_specs::hash::group_hash_axioms;

/// The all-zero null identifier.
pub open spec fn null_id() -> Seq<u8> {
    Seq::new(SHA1_SIZE as nat, |i: int| 0u8)
}

/// The identifier a record must sort strictly above: its predecessor's,
/// or the null identifier for the first record.
pub open spec fn prev_id_spec(d: Seq<u8>, i: int) -> Seq<u8> {
    if i == 0 {
        null_id()
    } else {
        rec_id(d, i - 1)
    }
}

/// Record `i` sorts strictly above its predecessor.
pub open spec fn order_ok_at(d: Seq<u8>, i: int) -> bool {
    seq_lt(prev_id_spec(d, i), rec_id(d, i))
}

/// Record `i` has a non-null root-tree identifier.
pub open spec fn root_ok_at(d: Seq<u8>, i: int) -> bool {
    !is_null_seq(rec_root(d, i))
}

/// Record `i` has a generation within the allowed maximum.
pub open spec fn gen_ok_at(d: Seq<u8>, i: int) -> bool {
    rec_gen(d, i) <= GENERATION_NUMBER_MAX
}

/// The checks made on record `i` before the processor sees it.
pub open spec fn pre_ok_at(d: Seq<u8>, i: int) -> bool {
    order_ok_at(d, i) && root_ok_at(d, i) && gen_ok_at(d, i)
}

/// A stored parent position is either absent or within the table.
pub open spec fn parent_ok(p: int, n: int) -> bool {
    p == NO_PARENT || p < n
}

/// Both parent positions of record `i` resolve.
pub open spec fn parents_ok_at(d: Seq<u8>, i: int) -> bool {
    parent_ok(rec_p1(d, i), count_of(d)) && parent_ok(rec_p2(d, i), count_of(d))
}

/// Record `i` passes every per-record check.
pub open spec fn rec_ok_at(d: Seq<u8>, i: int) -> bool {
    pre_ok_at(d, i) && parents_ok_at(d, i)
}

/// Every record below `i` passes every per-record check.
pub open spec fn prefix_ok(d: Seq<u8>, i: int) -> bool {
    forall|j: int| 0 <= j < i ==> rec_ok_at(d, j)
}

/// Every record of the file passes every per-record check.
pub open spec fn records_ok(d: Seq<u8>) -> bool {
    prefix_ok(d, count_of(d))
}

/// Number of parents of record `i` (each of the two slots may be absent).
pub open spec fn parent_count_at(d: Seq<u8>, i: int) -> int {
    (if rec_p1(d, i) == NO_PARENT {
        0int
    } else {
        1int
    }) + (if rec_p2(d, i) == NO_PARENT {
        0int
    } else {
        1int
    })
}

/// Largest generation among the first `i` records, `0` for none.
pub open spec fn max_gen_prefix(d: Seq<u8>, i: int) -> int
    decreases i,
{
    if i <= 0 {
        0
    } else {
        let g = rec_gen(d, i - 1);
        let m = max_gen_prefix(d, i - 1);
        if g > m {
            g
        } else {
            m
        }
    }
}

/// Smallest generation among the first `i` records, the unobserved
/// sentinel for none.
pub open spec fn min_gen_prefix(d: Seq<u8>, i: int) -> int
    decreases i,
{
    if i <= 0 {
        GENERATION_UNOBSERVED as int
    } else {
        let g = rec_gen(d, i - 1);
        let m = min_gen_prefix(d, i - 1);
        if g < m {
            g
        } else {
            m
        }
    }
}

/// Largest parent count among the first `i` records.
pub open spec fn max_parents_prefix(d: Seq<u8>, i: int) -> int
    decreases i,
{
    if i <= 0 {
        0
    } else {
        let p = parent_count_at(d, i - 1);
        let m = max_parents_prefix(d, i - 1);
        if p > m {
            p
        } else {
            m
        }
    }
}

/// Mapping from parent count to the number of records with that count,
/// over the first `i` records.
pub open spec fn parent_counts_prefix(d: Seq<u8>, i: int) -> Map<u32, u32>
    decreases i,
{
    if i <= 0 {
        Map::empty()
    } else {
        let m = parent_counts_prefix(d, i - 1);
        let k = parent_count_at(d, i - 1) as u32;
        let sofar: int = if m.dom().contains(k) {
            m[k] as int
        } else {
            0
        };
        m.insert(k, (sofar + 1) as u32)
    }
}

/// One commit record, read out of the file: its table position, its
/// identifiers, its generation and its two parent slots.
pub struct Commit {
    /// Position of the record within the commit table.
    pub pos: u32,
    /// The commit's identifier.
    pub id: ObjectId,
    /// The commit's root-tree identifier.
    pub root_tree_id: ObjectId,
    /// The commit's generation number.
    pub generation: u32,
    /// First parent position, [`NO_PARENT`] when absent.
    pub parent1: u32,
    /// Second parent position, [`NO_PARENT`] when absent.
    pub parent2: u32,
}

/// `c` holds exactly the fields of record `i` of `d`.
pub open spec fn commit_matches(c: Commit, d: Seq<u8>, i: int) -> bool {
    &&& c.pos == i
    &&& c.id@ == rec_id(d, i)
    &&& c.root_tree_id@ == rec_root(d, i)
    &&& c.generation == rec_gen(d, i)
    &&& c.parent1 == rec_p1(d, i)
    &&& c.parent2 == rec_p2(d, i)
}

/// The per-record check a caller supplies to [`File::traverse`]: invoked
/// once per record, in storage order; its failure aborts the traversal
/// with the caller's error preserved unmodified.
pub trait CommitProcessor<E> {
    /// Inspects one commit record.
    fn process(&mut self, commit: &Commit) -> Result<(), E>;
}

/// The error of [`File::traverse`].
pub enum Error<E> {
    /// A parent position of the record at `pos` points outside the table.
    Commit { pos: u32, parent: u32 },
    /// The record at `pos` has the null identifier.
    CommitId { id: ObjectId, pos: u32 },
    /// The record at `pos` does not sort strictly above its predecessor.
    CommitsOutOfOrder { id: ObjectId, pos: u32, predecessor_id: ObjectId },
    /// A split-chain filename embeds a digest other than the file's; the
    /// payload is the canonically expected filename.
    Filename(Vec<u8>),
    /// A record's generation exceeds the allowed maximum.
    Generation { generation: u32, id: ObjectId },
    /// The recomputed digest does not match the stored trailer.
    Mismatch { actual: ObjectId, expected: ObjectId },
    /// The caller-supplied processor failed; its error, unmodified.
    Processor(E),
    /// A record's root-tree identifier is the null identifier.
    RootTreeId { id: ObjectId, root_tree_id: ObjectId },
}

/// Summary statistics of one traversal.
pub struct Outcome {
    /// The largest encountered generation number.
    pub max_generation: u32,
    /// The smallest encountered generation number.
    pub min_generation: u32,
    /// The largest number of parents in a single commit.
    pub max_parents: u32,
    /// The total number of commits the file declares.
    pub num_commits: u32,
    /// A mapping of `N` to the number of commits with `N` parents.
    pub parent_counts: HashMap<u32, u32>,
}

/// `o` holds exactly the statistics of the whole file `d`.
pub open spec fn outcome_matches(o: Outcome, d: Seq<u8>) -> bool {
    let n = count_of(d);
    &&& o.num_commits == n
    &&& o.max_generation == max_gen_prefix(d, n)
    &&& o.min_generation == if n == 0 {
        0int
    } else {
        min_gen_prefix(d, n)
    }
    &&& o.max_parents == max_parents_prefix(d, n)
    &&& o.parent_counts@ == parent_counts_prefix(d, n)
}

/// The traversal reached record `i`: everything before passed, and the
/// record itself passed the checks made before the processor runs.
pub open spec fn reached_at(d: Seq<u8>, i: int) -> bool {
    0 <= i < count_of(d) && prefix_ok(d, i) && pre_ok_at(d, i)
}

/// What [`File::traverse`] promises of its result.
pub open spec fn traverse_post<E>(r: Result<Outcome, Error<E>>, d: Seq<u8>, nm: Seq<u8>) -> bool {
    let n = count_of(d);
    &&& match r {
        Ok(o) => checksum_ok(d) && filename_ok(nm, trailer_of(d)) && records_ok(d)
            && outcome_matches(o, d),
        Err(e) => match e {
            Error::Mismatch { actual, expected } => !checksum_ok(d) && actual@ == sha1_of(
                content_of(d),
            ) && expected@ == trailer_of(d),
            Error::Filename(name) => checksum_ok(d) && !filename_ok(nm, trailer_of(d)) && name@
                == expected_name_spec(trailer_of(d)),
            Error::CommitId { id, pos } => checksum_ok(d) && filename_ok(nm, trailer_of(d)) && pos
                < n && prefix_ok(d, pos as int) && id@ == rec_id(d, pos as int) && is_null_seq(id@)
                && !order_ok_at(d, pos as int),
            Error::CommitsOutOfOrder { id, pos, predecessor_id } => checksum_ok(d) && filename_ok(
                nm,
                trailer_of(d),
            ) && pos < n && prefix_ok(d, pos as int) && id@ == rec_id(d, pos as int)
                && predecessor_id@ == prev_id_spec(d, pos as int) && !order_ok_at(d, pos as int)
                && !is_null_seq(id@),
            Error::RootTreeId { id, root_tree_id } => checksum_ok(d) && filename_ok(
                nm,
                trailer_of(d),
            ) && exists|i: int|
                {
                    &&& #[trigger] reached_at_order(d, i)
                    &&& id@ == rec_id(d, i)
                    &&& root_tree_id@ == rec_root(d, i)
                    &&& is_null_seq(root_tree_id@)
                },
            Error::Generation { generation, id } => checksum_ok(d) && filename_ok(
                nm,
                trailer_of(d),
            ) && exists|i: int|
                {
                    &&& #[trigger] reached_at_order(d, i)
                    &&& root_ok_at(d, i)
                    &&& !gen_ok_at(d, i)
                    &&& id@ == rec_id(d, i)
                    &&& generation == rec_gen(d, i)
                },
            Error::Processor(_) => checksum_ok(d) && filename_ok(nm, trailer_of(d)) && exists|
                i: int,
            |
                #[trigger] reached_at(d, i),
            Error::Commit { pos, parent } => checksum_ok(d) && filename_ok(nm, trailer_of(d)) && pos
                < n && prefix_ok(d, pos as int) && pre_ok_at(d, pos as int) && !parents_ok_at(
                d,
                pos as int,
            ) && (if !parent_ok(rec_p1(d, pos as int), n) {
                parent == rec_p1(d, pos as int)
            } else {
                parent == rec_p2(d, pos as int) && !parent_ok(rec_p2(d, pos as int), n)
            }),
        },
    }
    &&& (checksum_ok(d) && filename_ok(nm, trailer_of(d)) && records_ok(d) ==> (r is Ok || r
        matches Err(Error::Processor(_))))
}

/// The traversal reached record `i` and its ordering check passed.
pub open spec fn reached_at_order(d: Seq<u8>, i: int) -> bool {
    0 <= i < count_of(d) && prefix_ok(d, i) && order_ok_at(d, i)
}

impl File {
    /// Reads record `i` out of the file.
    pub fn commit_at(&self, i: u32) -> (c: Commit)
        requires
            self.wf(),
            i < count_of(self.bytes()),
        ensures
            commit_matches(c, self.bytes(), i as int),
            c.id.wf(),
            c.root_tree_id.wf(),
    {
        let ghost d = self.bytes();
        let data = self.data_bytes();
        let total = data.len();
        proof {
            assert(total == d.len());
            assert(d.len() == HEADER_SIZE + RECORD_SIZE * count_of(d) + SHA1_SIZE);
            assert(RECORD_SIZE * (i as int) + RECORD_SIZE <= RECORD_SIZE * count_of(d));
            assert(HEADER_SIZE + RECORD_SIZE * (i as int) + RECORD_SIZE <= total);
        }
        let off: usize = HEADER_SIZE + RECORD_SIZE * (i as usize);
        let id = ObjectId::from_bytes(copy_range(data, off, 20)).unwrap();
        let root = ObjectId::from_bytes(copy_range(data, off + 20, 20)).unwrap();
        let generation = read_be32(data, off + 40);
        let parent1 = read_be32(data, off + 44);
        let parent2 = read_be32(data, off + 48);
        Commit { pos: i, id, root_tree_id: root, generation, parent1, parent2 }
    }

    /// Traverses all commit records in storage order, verifying the
    /// trailing checksum and the split-chain filename first, then the
    /// per-record invariants, invoking `processor` once per record, and
    /// accumulating summary statistics.
    pub fn traverse<E, P: CommitProcessor<E>>(&self, processor: &mut P) -> (r: Result<
        Outcome,
        Error<E>,
    >)
        requires
            self.wf(),
        ensures
            traverse_post(r, self.bytes(), self.name()),
    {
        let ghost d = self.bytes();
        match self.verify_checksum() {
            Ok(_) => {},
            Err((actual, expected)) => {
                return Err(Error::Mismatch { actual, expected });
            },
        }
        let stored = self.checksum();
        match verify_split_chain_filename_hash(self.name_bytes(), &stored) {
            Ok(()) => {},
            Err(name) => {
                return Err(Error::Filename(name));
            },
        }
        let n = self.num_commits();
        let mut max_generation: u32 = 0;
        let mut min_generation: u32 = GENERATION_UNOBSERVED;
        let mut max_parents: u32 = 0;
        let mut parent_counts: HashMap<u32, u32> = HashMap::new();
        let mut prev_id = ObjectId::null();
        let mut i: u32 = 0;
        while i < n
            invariant
                self.wf(),
                d == self.bytes(),
                n == count_of(d),
                i <= n,
                checksum_ok(d),
                filename_ok(self.name(), trailer_of(d)),
                prev_id.wf(),
                prev_id@ == prev_id_spec(d, i as int),
                prefix_ok(d, i as int),
                max_generation == max_gen_prefix(d, i as int),
                min_generation == min_gen_prefix(d, i as int),
                i == 0 <==> min_generation == GENERATION_UNOBSERVED,
                i > 0 ==> min_generation <= GENERATION_NUMBER_MAX,
                max_parents == max_parents_prefix(d, i as int),
                parent_counts@ == parent_counts_prefix(d, i as int),
                forall|k: u32| #[trigger]
                    parent_counts@.dom().contains(k) ==> parent_counts@[k] <= i,
            decreases n - i,
        {
            let c = self.commit_at(i);
            if !oid_lt(&prev_id, &c.id) {
                proof {
                    assert(!rec_ok_at(d, i as int));
                }
                if c.id.is_null() {
                    return Err(Error::CommitId { id: c.id, pos: i });
                }
                return Err(Error::CommitsOutOfOrder { id: c.id, pos: i, predecessor_id: prev_id });
            }
            if c.root_tree_id.is_null() {
                proof {
                    assert(reached_at_order(d, i as int));
                    assert(!rec_ok_at(d, i as int));
                }
                return Err(Error::RootTreeId { id: c.id, root_tree_id: c.root_tree_id });
            }
            if c.generation > GENERATION_NUMBER_MAX {
                proof {
                    assert(reached_at_order(d, i as int));
                    assert(!rec_ok_at(d, i as int));
                }
                return Err(Error::Generation { generation: c.generation, id: c.id });
            }
            match processor.process(&c) {
                Ok(()) => {},
                Err(e) => {
                    proof {
                        assert(reached_at(d, i as int));
                    }
                    return Err(Error::Processor(e));
                },
            }
            if c.generation > max_generation {
                max_generation = c.generation;
            }
            if c.generation < min_generation {
                min_generation = c.generation;
            }
            let mut pc: u32 = 0;
            if c.parent1 != NO_PARENT {
                if c.parent1 >= n {
                    proof {
                        assert(!rec_ok_at(d, i as int));
                    }
                    return Err(Error::Commit { pos: i, parent: c.parent1 });
                }
                pc = pc + 1;
            }
            if c.parent2 != NO_PARENT {
                if c.parent2 >= n {
                    proof {
                        assert(!rec_ok_at(d, i as int));
                    }
                    return Err(Error::Commit { pos: i, parent: c.parent2 });
                }
                pc = pc + 1;
            }
            if pc > max_parents {
                max_parents = pc;
            }
            let sofar: u32 = match parent_counts.get(&pc) {
                Some(v) => *v,
                None => 0,
            };
            parent_counts.insert(pc, sofar + 1);
            prev_id = c.id;
            i = i + 1;
        }
        if min_generation == GENERATION_NUMBER_INFINITY {
            min_generation = 0;
        }
        Ok(
            Outcome {
                max_generation,
                min_generation,
                max_parents,
                num_commits: n,
                parent_counts,
            },
        )
    }
}


/// Total of all values of a parent-count mapping.
pub open spec fn map_sum(m: Map<u32, u32>) -> int
    decreases m.dom().len() when m.dom().finite()
{
    if m.dom().finite() && m.dom().len() > 0 {
        let k = m.dom().choose();
        m[k] + map_sum(m.remove(k))
    } else {
        0
    }
}

proof fn lemma_map_sum_nonneg(m: Map<u32, u32>)
    requires
        m.dom().finite(),
    ensures
        map_sum(m) >= 0,
    decreases m.dom().len(),
{
    if m.dom().len() > 0 {
        let k = m.dom().choose();
        lemma_map_sum_nonneg(m.remove(k));
    }
}

proof fn lemma_map_sum_remove(m: Map<u32, u32>, k: u32)
    requires
        m.dom().finite(),
        m.dom().contains(k),
    ensures
        map_sum(m) == m[k] + map_sum(m.remove(k)),
    decreases m.dom().len(),
{
    let c = m.dom().choose();
    if c == k {
    } else {
        let mr = m.remove(c);
        let mrk = m.remove(k);
        lemma_map_sum_remove(mr, k);
        lemma_map_sum_remove(mrk, c);
        assert(mr.remove(k) =~= mrk.remove(c));
        assert(map_sum(m) == m[c] + map_sum(mr));
    }
}

proof fn lemma_map_sum_insert(m: Map<u32, u32>, k: u32, v: u32)
    requires
        m.dom().finite(),
    ensures
        map_sum(m.insert(k, v)) == map_sum(m) - (if m.dom().contains(k) {
            m[k] as int
        } else {
            0
        }) + v,
{
    let mi = m.insert(k, v);
    lemma_map_sum_remove(mi, k);
    if m.dom().contains(k) {
        lemma_map_sum_remove(m, k);
        assert(mi.remove(k) =~= m.remove(k));
    } else {
        assert(mi.remove(k) =~= m);
    }
}

proof fn lemma_pcounts_facts(d: Seq<u8>, i: int)
    requires
        0 <= i <= u32::MAX,
    ensures
        parent_counts_prefix(d, i).dom().finite(),
        map_sum(parent_counts_prefix(d, i)) == i,
    decreases i,
{
    if i > 0 {
        lemma_pcounts_facts(d, i - 1);
        let m = parent_counts_prefix(d, i - 1);
        let k = parent_count_at(d, i - 1) as u32;
        let sofar: int = if m.dom().contains(k) {
            m[k] as int
        } else {
            0
        };
        if m.dom().contains(k) {
            lemma_map_sum_remove(m, k);
            lemma_map_sum_nonneg(m.remove(k));
        }
        assert(sofar <= i - 1);
        lemma_map_sum_insert(m, k, (sofar + 1) as u32);
    }
}

/// The values of the parent-count mapping sum exactly to the total
/// commit count: every record is counted under exactly one parent count.
pub proof fn lemma_parent_counts_total(o: Outcome, d: Seq<u8>)
    requires
        outcome_matches(o, d),
    ensures
        map_sum(o.parent_counts@) == o.num_commits,
{
    assert(0 <= count_of(d) <= u32::MAX);
    lemma_pcounts_facts(d, count_of(d));
}

proof fn lemma_min_le_max_gen(d: Seq<u8>, n: int)
    requires
        1 <= n,
    ensures
        min_gen_prefix(d, n) <= max_gen_prefix(d, n),
    decreases n,
{
    if n == 1 {
        assert(0 <= rec_gen(d, 0) <= 0xFFFF_FFFF);
    } else {
        lemma_min_le_max_gen(d, n - 1);
    }
}

/// With at least one record the smallest observed generation never
/// exceeds the largest; with no records both statistics are zero.
pub proof fn lemma_outcome_generation_bounds(o: Outcome, d: Seq<u8>)
    requires
        outcome_matches(o, d),
    ensures
        count_of(d) > 0 ==> o.min_generation <= o.max_generation,
        count_of(d) == 0 ==> o.min_generation == 0 && o.max_generation == 0,
{
    if count_of(d) > 0 {
        lemma_min_le_max_gen(d, count_of(d));
    }
}

/// Adjacent strict ordering extends to every pair: the identifier table
/// of a file whose records all pass the ordering check is globally
/// strictly ascending, the property binary search relies on.
pub proof fn lemma_ids_strictly_ascending(d: Seq<u8>, i: int, j: int)
    requires
        data_wf(d),
        forall|k: int| 0 <= k < count_of(d) ==> #[trigger] order_ok_at(d, k),
        0 <= i < j < count_of(d),
    ensures
        seq_lt(rec_id(d, i), rec_id(d, j)),
    decreases j - i,
{
    assert(RECORD_SIZE * j + RECORD_SIZE <= RECORD_SIZE * count_of(d));
    assert(rec_off(j) + 20 <= d.len());
    if j == i + 1 {
        assert(order_ok_at(d, j));
        assert(prev_id_spec(d, j) == rec_id(d, i));
    } else {
        lemma_ids_strictly_ascending(d, i, j - 1);
        assert(order_ok_at(d, j));
        lemma_seq_lt_trans(rec_id(d, i), rec_id(d, j - 1), rec_id(d, j));
    }
}

} // verus!
