//! The flat Merkle tree with the DA chain's hashing convention (SHA-256 with
//! domain-separated leaf and node prefixes), taken from the tree library the
//! service is built on, and the two proof builders on top of it: the
//! header-field merkleizer and the row-root range-proof builder.

use vstd::prelude::*;
use nmt_rs::TmSha2Hasher;
use nmt_rs::simple_merkle::db::MemDb;
use nmt_rs::simple_merkle::proof::Proof;
use nmt_rs::simple_merkle::tree::{MerkleHash, MerkleTree};

verus! {

/// A flat Merkle tree over raw byte leaves, with the DA chain's SHA-256
/// hashing convention. Holds the tree of the underlying library; Verus sees
/// it only through [`tm_tree_leaves`] and the trusted operations below.
#[verifier::external_body]
pub struct TmTree {
    inner: MerkleTree<MemDb<[u8; 32]>, TmSha2Hasher>,
}

/// The raw leaves a tree currently holds, in insertion order.
pub uninterp spec fn tm_tree_leaves(t: TmTree) -> Seq<Seq<u8>>;

/// The domain-separated SHA-256 hash of one raw leaf.
pub uninterp spec fn tm_leaf_hash(data: Seq<u8>) -> Seq<u8>;

/// The root digest of the tree built over the given raw leaves.
pub uninterp spec fn tm_root(leaves: Seq<Seq<u8>>) -> Seq<u8>;

/// The verdict of checking a range proof: whether `siblings`, starting at
/// leaf position `start`, tie the given leaf hashes to `root`.
pub uninterp spec fn tm_check(
    siblings: Seq<Seq<u8>>,
    start: int,
    root: Seq<u8>,
    leaf_hashes: Seq<Seq<u8>>,
) -> bool;

/// Relies on `TmSha2Hasher::hash_leaf`: the 32-byte leaf digest, a function
/// of the leaf bytes alone.
#[verifier::external_body]
pub fn tm_hash_leaf(data: &Vec<u8>) -> (r: Vec<u8>)
    ensures
        r@ == tm_leaf_hash(data@),
        r@.len() == 32,
{
    let hasher = TmSha2Hasher::new();
    hasher.hash_leaf(data.as_slice()).to_vec()
}

/// Relies on `MerkleTree::with_hasher`: a freshly built tree holds no leaves.
#[verifier::external_body]
pub fn tm_tree_new() -> (t: TmTree)
    ensures
        tm_tree_leaves(t) == Seq::<Seq<u8>>::empty(),
{
    TmTree { inner: MerkleTree::with_hasher(TmSha2Hasher::new()) }
}

/// Relies on `MerkleTree::push_raw_leaf`: appends one raw leaf.
#[verifier::external_body]
pub fn tm_tree_push(t: &mut TmTree, leaf: &Vec<u8>)
    ensures
        tm_tree_leaves(*final(t)) == tm_tree_leaves(*old(t)).push(leaf@),
{
    t.inner.push_raw_leaf(leaf.as_slice());
}

/// Relies on `MerkleTree::root`: the 32-byte root digest of the tree's
/// leaves, a function of the leaves alone; the leaves are not changed.
#[verifier::external_body]
pub fn tm_tree_root(t: &mut TmTree) -> (r: Vec<u8>)
    ensures
        tm_tree_leaves(*final(t)) == tm_tree_leaves(*old(t)),
        r@ == tm_root(tm_tree_leaves(*old(t))),
        r@.len() == 32,
{
    t.inner.root().to_vec()
}

/// The sibling hashes of the range proof built over the given leaves for the
/// given range.
pub uninterp spec fn tm_range_siblings(leaves: Seq<Seq<u8>>, start: int, end: int) -> Seq<
    Seq<u8>,
>;

/// Relies on `MerkleTree::build_range_proof`: the returned siblings are a
/// function of the tree's leaves and the requested range alone; starting at
/// the requested position they tie the leaf hashes of the requested non-empty
/// range to the tree's root; the leaves are not changed.
#[verifier::external_body]
pub fn tm_tree_build_range_proof(t: &mut TmTree, start: usize, end: usize) -> (r: Vec<Vec<u8>>)
    requires
        start < end <= tm_tree_leaves(*old(t)).len(),
        end <= u32::MAX,
    ensures
        tm_tree_leaves(*final(t)) == tm_tree_leaves(*old(t)),
        r@.map_values(|s: Vec<u8>| s@) == tm_range_siblings(
            tm_tree_leaves(*old(t)),
            start as int,
            end as int,
        ),
        tm_check(
            r@.map_values(|s: Vec<u8>| s@),
            start as int,
            tm_root(tm_tree_leaves(*old(t))),
            tm_tree_leaves(*old(t)).subrange(start as int, end as int).map_values(
                |l: Seq<u8>| tm_leaf_hash(l),
            ),
        ),
        forall|i: int| 0 <= i < r@.len() ==> (#[trigger] r@[i])@.len() == 32,
{
    let proof = t.inner.build_range_proof(start..end);
    proof.siblings.iter().map(|s| s.to_vec()).collect()
}

/// Relies on `Proof::verify_range`: accepts exactly when the number of leaf
/// hashes matches the claimed range and the siblings tie them to the root.
#[verifier::external_body]
pub fn tm_verify_range(
    siblings: &Vec<Vec<u8>>,
    start: u64,
    end: u64,
    root: &Vec<u8>,
    leaf_hashes: &Vec<Vec<u8>>,
) -> (r: bool)
    requires
        root@.len() == 32,
        forall|i: int| 0 <= i < siblings@.len() ==> (#[trigger] siblings@[i])@.len() == 32,
        forall|i: int| 0 <= i < leaf_hashes@.len() ==> (#[trigger] leaf_hashes@[i])@.len() == 32,
        start <= end <= u32::MAX,
    ensures
        r <==> (leaf_hashes@.len() == end - start && tm_check(
            siblings@.map_values(|s: Vec<u8>| s@),
            start as int,
            root@,
            leaf_hashes@.map_values(|h: Vec<u8>| h@),
        )),
{
    let root_arr: [u8; 32] = root.as_slice().try_into().unwrap();
    let sib: Vec<[u8; 32]> = siblings.iter().map(|s| s.as_slice().try_into().unwrap()).collect();
    let hashes: Vec<[u8; 32]> =
        leaf_hashes.iter().map(|h| h.as_slice().try_into().unwrap()).collect();
    let proof: Proof<TmSha2Hasher> = Proof { siblings: sib, range: (start as u32)..(end as u32) };
    proof.verify_range(&root_arr, &hashes).is_ok()
}

/// A range proof as plain data: the sibling hashes and the half-open leaf
/// range it covers.
pub struct TmRangeProof {
    pub siblings: Vec<Vec<u8>>,
    pub start: u64,
    pub end: u64,
}

/// Mathematical model of a range proof.
#[verifier::ext_equal]
pub ghost struct TmRangeProofModel {
    pub siblings: Seq<Seq<u8>>,
    pub start: u64,
    pub end: u64,
}

impl View for TmRangeProof {
    type V = TmRangeProofModel;

    open spec fn view(&self) -> TmRangeProofModel {
        TmRangeProofModel {
            siblings: self.siblings@.map_values(|s: Vec<u8>| s@),
            start: self.start,
            end: self.end,
        }
    }
}

impl TmRangeProofModel {
    /// Every sibling is a 32-byte digest and the range is ordered.
    pub open spec fn wf(self) -> bool {
        &&& forall|i: int|
            0 <= i < self.siblings.len() ==> (#[trigger] self.siblings[i]).len() == 32
        &&& self.start <= self.end <= u32::MAX
    }
}

impl TmRangeProof {
    /// Every sibling is a 32-byte digest and the range is ordered.
    pub open spec fn wf(&self) -> bool {
        self@.wf()
    }
}

/// Checks a plain range proof against a root and leaf hashes.
pub fn verify_range_proof(p: &TmRangeProof, root: &Vec<u8>, leaf_hashes: &Vec<Vec<u8>>) -> (r:
    bool)
    requires
        p.wf(),
        root@.len() == 32,
        forall|i: int| 0 <= i < leaf_hashes@.len() ==> (#[trigger] leaf_hashes@[i])@.len() == 32,
    ensures
        r <==> (leaf_hashes@.len() == p@.end - p@.start && tm_check(
            p@.siblings,
            p@.start as int,
            root@,
            leaf_hashes@.map_values(|h: Vec<u8>| h@),
        )),
{
    proof {
        assert(forall|i: int|
            0 <= i < p.siblings@.len() ==> (#[trigger] p.siblings@[i])@ == p@.siblings[i]);
    }
    tm_verify_range(&p.siblings, p.start, p.end, root, leaf_hashes)
}

} // verus!
