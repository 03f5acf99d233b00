//! Traversal, checksum and naming scenarios on commit-graph buffers.

use git_verify::file::{File, NO_PARENT};
use git_verify::verify::{Commit, CommitProcessor, Error, Outcome};
use git_verify::{GENERATION_NUMBER_MAX, GENERATION_NUMBER_INFINITY};

fn digest(data: &[u8]) -> Vec<u8> {
    let mut h = git_features::hash::Sha1::default();
    h.update(data);
    h.digest().to_vec()
}

fn oid(last: u8) -> Vec<u8> {
    let mut v = vec![0u8; 20];
    v[19] = last;
    v
}

struct Rec {
    id: Vec<u8>,
    root: Vec<u8>,
    gen: u32,
    p1: u32,
    p2: u32,
}

fn rec(id: u8, root: u8, gen: u32, p1: u32, p2: u32) -> Rec {
    Rec { id: oid(id), root: oid(root), gen, p1, p2 }
}

fn build_graph(records: &[Rec]) -> Vec<u8> {
    let n = records.len() as u32;
    let mut d = vec![0x43u8, 0x47, 0x50, 0x48];
    for _ in 0..255 {
        d.extend_from_slice(&0u32.to_be_bytes());
    }
    d.extend_from_slice(&n.to_be_bytes());
    for r in records {
        d.extend_from_slice(&r.id);
        d.extend_from_slice(&r.root);
        d.extend_from_slice(&r.gen.to_be_bytes());
        d.extend_from_slice(&r.p1.to_be_bytes());
        d.extend_from_slice(&r.p2.to_be_bytes());
    }
    let t = digest(&d);
    d.extend_from_slice(&t);
    d
}

fn graph_file(records: &[Rec], name: &[u8]) -> File {
    match File::new(build_graph(records), name.to_vec()) {
        Some(f) => f,
        None => panic!("buffer should parse"),
    }
}

struct AcceptAll;

impl CommitProcessor<()> for AcceptAll {
    fn process(&mut self, _commit: &Commit) -> Result<(), ()> {
        Ok(())
    }
}

struct RejectAt {
    pos: u32,
    seen: Vec<u32>,
}

impl CommitProcessor<String> for RejectAt {
    fn process(&mut self, commit: &Commit) -> Result<(), String> {
        self.seen.push(commit.pos);
        if commit.pos == self.pos {
            Err(String::from("stopped by processor"))
        } else {
            Ok(())
        }
    }
}

fn traverse_ok(f: &File) -> Outcome {
    match f.traverse(&mut AcceptAll) {
        Ok(o) => o,
        Err(_) => panic!("expected a successful traversal"),
    }
}

#[test]
fn well_formed_file_traverses_and_counts() {
    let recs = [
        rec(1, 9, 1, NO_PARENT, NO_PARENT),
        rec(2, 9, 2, 0, NO_PARENT),
        rec(5, 9, 3, 0, 1),
    ];
    let f = graph_file(&recs, b"any.graph");
    assert!(f.verify_checksum().is_ok());
    let o = traverse_ok(&f);
    assert_eq!(o.num_commits, 3);
    assert_eq!(o.max_generation, 3);
    assert_eq!(o.min_generation, 1);
    assert_eq!(o.max_parents, 2);
    assert_eq!(o.parent_counts.get(&0), Some(&1));
    assert_eq!(o.parent_counts.get(&1), Some(&1));
    assert_eq!(o.parent_counts.get(&2), Some(&1));
}

#[test]
fn empty_file_has_zero_generations() {
    let f = graph_file(&[], b"empty.graph");
    let o = traverse_ok(&f);
    assert_eq!(o.num_commits, 0);
    assert_eq!(o.min_generation, 0);
    assert_eq!(o.max_generation, 0);
    assert_eq!(o.max_parents, 0);
    assert!(o.parent_counts.is_empty());
}

#[test]
fn parent_counts_sum_to_commit_count() {
    let recs = [
        rec(1, 9, 1, NO_PARENT, NO_PARENT),
        rec(2, 9, 1, 0, NO_PARENT),
        rec(3, 9, 2, 1, NO_PARENT),
        rec(4, 9, 3, 1, 2),
    ];
    let f = graph_file(&recs, b"sum.graph");
    let o = traverse_ok(&f);
    let total: u32 = o.parent_counts.values().sum();
    assert_eq!(total, o.num_commits);
    assert!(o.min_generation <= o.max_generation);
}

#[test]
fn descending_ids_are_out_of_order() {
    let recs = [rec(5, 9, 1, NO_PARENT, NO_PARENT), rec(2, 9, 1, NO_PARENT, NO_PARENT)];
    let f = graph_file(&recs, b"o.graph");
    match f.traverse(&mut AcceptAll) {
        Err(Error::CommitsOutOfOrder { id, pos, predecessor_id }) => {
            assert_eq!(pos, 1);
            assert_eq!(id.as_bytes(), &oid(2));
            assert_eq!(predecessor_id.as_bytes(), &oid(5));
        },
        _ => panic!("expected an out-of-order failure"),
    }
}

#[test]
fn equal_ids_are_out_of_order() {
    let recs = [rec(3, 9, 1, NO_PARENT, NO_PARENT), rec(3, 9, 1, NO_PARENT, NO_PARENT)];
    let f = graph_file(&recs, b"eq.graph");
    match f.traverse(&mut AcceptAll) {
        Err(Error::CommitsOutOfOrder { pos, .. }) => assert_eq!(pos, 1),
        _ => panic!("expected an out-of-order failure"),
    }
}

#[test]
fn null_id_is_invalid() {
    let recs = [rec(0, 9, 1, NO_PARENT, NO_PARENT)];
    let f = graph_file(&recs, b"n.graph");
    match f.traverse(&mut AcceptAll) {
        Err(Error::CommitId { id, pos }) => {
            assert_eq!(pos, 0);
            assert_eq!(id.as_bytes(), &vec![0u8; 20]);
        },
        _ => panic!("expected an invalid-id failure"),
    }
}

#[test]
fn flipped_byte_mismatches_with_original_trailer() {
    let recs = [rec(1, 9, 1, NO_PARENT, NO_PARENT)];
    let mut data = build_graph(&recs);
    let trailer: Vec<u8> = data[data.len() - 20..].to_vec();
    data[1040] ^= 0x01;
    let f = File::new(data.clone(), b"flip.graph".to_vec()).unwrap();
    let recomputed = digest(&data[..data.len() - 20]);
    match f.verify_checksum() {
        Err((actual, expected)) => {
            assert_eq!(expected.as_bytes(), &trailer);
            assert_eq!(actual.as_bytes(), &recomputed);
            assert_ne!(actual.as_bytes(), expected.as_bytes());
        },
        Ok(_) => panic!("expected a checksum mismatch"),
    }
    match f.traverse(&mut AcceptAll) {
        Err(Error::Mismatch { expected, .. }) => assert_eq!(expected.as_bytes(), &trailer),
        _ => panic!("expected a checksum mismatch from the traversal"),
    }
}

fn hex_lower(bytes: &[u8]) -> Vec<u8> {
    let mut out = Vec::new();
    for b in bytes {
        let hi = b >> 4;
        let lo = b & 15;
        out.push(if hi < 10 { b'0' + hi } else { b'a' + hi - 10 });
        out.push(if lo < 10 { b'0' + lo } else { b'a' + lo - 10 });
    }
    out
}

#[test]
fn split_chain_name_with_wrong_hex_fails() {
    let recs = [rec(1, 9, 1, NO_PARENT, NO_PARENT)];
    let data = build_graph(&recs);
    let trailer: Vec<u8> = data[data.len() - 20..].to_vec();
    let mut wrong_name = b"graph-".to_vec();
    wrong_name.extend_from_slice(&[b'0'; 40]);
    wrong_name.extend_from_slice(b".graph");
    let f = File::new(data, wrong_name).unwrap();
    assert!(f.verify_checksum().is_ok());
    let mut canonical = b"graph-".to_vec();
    canonical.extend_from_slice(&hex_lower(&trailer));
    canonical.extend_from_slice(b".graph");
    match f.traverse(&mut AcceptAll) {
        Err(Error::Filename(name)) => assert_eq!(name, canonical),
        _ => panic!("expected a naming failure"),
    }
}

#[test]
fn split_chain_name_with_correct_hex_passes() {
    let recs = [rec(1, 9, 1, NO_PARENT, NO_PARENT)];
    let data = build_graph(&recs);
    let trailer: Vec<u8> = data[data.len() - 20..].to_vec();
    let mut name = b"graph-".to_vec();
    name.extend_from_slice(&hex_lower(&trailer));
    name.extend_from_slice(b".graph");
    let f = File::new(data, name).unwrap();
    assert!(f.traverse(&mut AcceptAll).is_ok());
}

#[test]
fn uppercase_hex_in_split_chain_name_passes() {
    let recs = [rec(1, 9, 1, NO_PARENT, NO_PARENT)];
    let data = build_graph(&recs);
    let trailer: Vec<u8> = data[data.len() - 20..].to_vec();
    let mut name = b"graph-".to_vec();
    name.extend_from_slice(&hex_lower(&trailer).to_ascii_uppercase());
    name.extend_from_slice(b".graph");
    let f = File::new(data, name).unwrap();
    assert!(f.traverse(&mut AcceptAll).is_ok());
}

#[test]
fn non_split_chain_name_passes_trivially() {
    let recs = [rec(1, 9, 1, NO_PARENT, NO_PARENT)];
    let f = graph_file(&recs, b"commit-graph");
    assert!(f.traverse(&mut AcceptAll).is_ok());
}

#[test]
fn null_root_tree_fails_at_any_position() {
    for bad in 0..3u32 {
        let recs: Vec<Rec> = (0..3u32)
            .map(|i| rec(i as u8 + 1, if i == bad { 0 } else { 9 }, 1, NO_PARENT, NO_PARENT))
            .collect();
        let f = graph_file(&recs, b"r.graph");
        match f.traverse(&mut AcceptAll) {
            Err(Error::RootTreeId { id, root_tree_id }) => {
                assert_eq!(id.as_bytes(), &oid(bad as u8 + 1));
                assert_eq!(root_tree_id.as_bytes(), &vec![0u8; 20]);
            },
            _ => panic!("expected a root-tree failure"),
        }
    }
}

#[test]
fn generation_above_maximum_fails() {
    let recs = [rec(1, 9, GENERATION_NUMBER_MAX + 1, NO_PARENT, NO_PARENT)];
    let f = graph_file(&recs, b"g.graph");
    match f.traverse(&mut AcceptAll) {
        Err(Error::Generation { generation, id }) => {
            assert_eq!(generation, GENERATION_NUMBER_MAX + 1);
            assert_eq!(id.as_bytes(), &oid(1));
        },
        _ => panic!("expected a generation failure"),
    }
}

#[test]
fn generation_at_maximum_passes() {
    let recs = [rec(1, 9, GENERATION_NUMBER_MAX, NO_PARENT, NO_PARENT)];
    let f = graph_file(&recs, b"g2.graph");
    let o = traverse_ok(&f);
    assert_eq!(o.max_generation, GENERATION_NUMBER_MAX);
    assert!(GENERATION_NUMBER_MAX < GENERATION_NUMBER_INFINITY);
}

#[test]
fn dangling_parent_fails() {
    let recs = [rec(1, 9, 1, 7, NO_PARENT)];
    let f = graph_file(&recs, b"p.graph");
    match f.traverse(&mut AcceptAll) {
        Err(Error::Commit { pos, parent }) => {
            assert_eq!(pos, 0);
            assert_eq!(parent, 7);
        },
        _ => panic!("expected a parent-link failure"),
    }
}

#[test]
fn dangling_second_parent_fails() {
    let recs = [rec(1, 9, 1, NO_PARENT, NO_PARENT), rec(2, 9, 1, 0, 9)];
    let f = graph_file(&recs, b"p2.graph");
    match f.traverse(&mut AcceptAll) {
        Err(Error::Commit { pos, parent }) => {
            assert_eq!(pos, 1);
            assert_eq!(parent, 9);
        },
        _ => panic!("expected a parent-link failure"),
    }
}

#[test]
fn processor_failure_aborts_with_original_error() {
    let recs = [
        rec(1, 9, 1, NO_PARENT, NO_PARENT),
        rec(2, 9, 1, NO_PARENT, NO_PARENT),
        rec(3, 9, 1, NO_PARENT, NO_PARENT),
    ];
    let f = graph_file(&recs, b"pr.graph");
    let mut p = RejectAt { pos: 1, seen: Vec::new() };
    match f.traverse(&mut p) {
        Err(Error::Processor(msg)) => assert_eq!(msg, "stopped by processor"),
        _ => panic!("expected a processor failure"),
    }
    assert_eq!(p.seen, vec![0, 1]);
}

#[test]
fn records_are_read_back_exactly() {
    let recs = [rec(1, 9, 4, NO_PARENT, NO_PARENT), rec(3, 8, 7, 0, NO_PARENT)];
    let f = graph_file(&recs, b"read.graph");
    assert_eq!(f.num_commits(), 2);
    let c = f.commit_at(1);
    assert_eq!(c.pos, 1);
    assert_eq!(c.id.as_bytes(), &oid(3));
    assert_eq!(c.root_tree_id.as_bytes(), &oid(8));
    assert_eq!(c.generation, 7);
    assert_eq!(c.parent1, 0);
    assert_eq!(c.parent2, NO_PARENT);
    let t: Vec<u8> = build_graph(&recs);
    assert_eq!(f.checksum().as_bytes(), &t[t.len() - 20..].to_vec());
}

#[test]
fn malformed_buffers_are_rejected() {
    assert!(File::new(vec![0u8; 10], b"x".to_vec()).is_none());
    let mut data = build_graph(&[rec(1, 9, 1, NO_PARENT, NO_PARENT)]);
    data[0] = 0x44;
    assert!(File::new(data, b"x".to_vec()).is_none());
    let mut short = build_graph(&[rec(1, 9, 1, NO_PARENT, NO_PARENT)]);
    short.pop();
    assert!(File::new(short, b"x".to_vec()).is_none());
}
