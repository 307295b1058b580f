//! The mathematical model of a tree: a strict binary tree of digests.
//!
//! Every contract of the executable tree speaks of this model. A leaf
//! carries the digest of one block; a fork carries the digest derived from
//! its two children's digests and owns both children. `build_model` and
//! `insert_model` state, as pure functions, exactly which tree batch
//! construction and single-element insertion produce.

use vstd::prelude::*;

use crate::hashing::{leaf_hash, pair_hash};

verus! {

/// A strict binary tree of digests: a node is a leaf or has exactly two
/// children, never one.
pub enum HashTree {
    Leaf { digest: Seq<u8> },
    Fork { digest: Seq<u8>, left: Box<HashTree>, right: Box<HashTree> },
}

impl HashTree {
    /// The digest stored at the top node.
    pub open spec fn digest(self) -> Seq<u8> {
        match self {
            HashTree::Leaf { digest } => digest,
            HashTree::Fork { digest, .. } => digest,
        }
    }

    /// Every fork's digest is derived from its children's digests: no stored
    /// digest is stale.
    pub open spec fn wf(self) -> bool
        decreases self,
    {
        match self {
            HashTree::Leaf { .. } => true,
            HashTree::Fork { digest, left, right } => {
                &&& digest == pair_hash((*left).digest(), (*right).digest())
                &&& (*left).wf()
                &&& (*right).wf()
            },
        }
    }

    /// The digests stored anywhere in the tree, leaves and forks alike.
    pub open spec fn digests(self) -> Set<Seq<u8>>
        decreases self,
    {
        match self {
            HashTree::Leaf { digest } => set![digest],
            HashTree::Fork { digest, left, right } => {
                set![digest].union((*left).digests()).union((*right).digests())
            },
        }
    }

    /// The digests stored at the leaves alone.
    pub open spec fn leaf_digests(self) -> Set<Seq<u8>>
        decreases self,
    {
        match self {
            HashTree::Leaf { digest } => set![digest],
            HashTree::Fork { left, right, .. } => {
                (*left).leaf_digests().union((*right).leaf_digests())
            },
        }
    }
}

/// The tree that balanced batch construction produces from a non-empty
/// sequence of subtrees: one subtree stands alone; two or more are split at
/// the midpoint (the left half no larger than the right), each half reduced
/// recursively, and joined under a fork whose digest is derived from the two
/// halves' digests.
pub open spec fn build_model(ts: Seq<HashTree>) -> HashTree
    recommends
        ts.len() > 0,
    decreases ts.len(),
{
    if ts.len() <= 1 {
        ts[0]
    } else {
        let mid = ts.len() as int / 2;
        let left = build_model(ts.subrange(0, mid));
        let right = build_model(ts.subrange(mid, ts.len() as int));
        HashTree::Fork {
            digest: pair_hash(left.digest(), right.digest()),
            left: Box::new(left),
            right: Box::new(right),
        }
    }
}

/// The leaves of a batch of blocks, one per block, in order.
pub open spec fn leaves_of(blocks: Seq<Seq<u8>>) -> Seq<HashTree> {
    blocks.map_values(|b: Seq<u8>| HashTree::Leaf { digest: leaf_hash(b) })
}

/// The tree that batch construction produces from a batch of blocks: none
/// for the empty batch, else the balanced reduction of the blocks' leaves.
pub open spec fn blocks_model(blocks: Seq<Seq<u8>>) -> Option<HashTree> {
    if blocks.len() == 0 {
        None
    } else {
        Some(build_model(leaves_of(blocks)))
    }
}

/// The tree after inserting a new node: a leaf is promoted to a fork whose
/// left child is the old leaf and whose right child is the new node; at a
/// fork, insertion descends into the left child and the fork's digest is
/// recomputed from its children's digests.
pub open spec fn insert_model(cur: HashTree, nv: HashTree) -> HashTree
    decreases cur,
{
    match cur {
        HashTree::Leaf { digest } => HashTree::Fork {
            digest: pair_hash(digest, nv.digest()),
            left: Box::new(cur),
            right: Box::new(nv),
        },
        HashTree::Fork { left, right, .. } => {
            let new_left = insert_model(*left, nv);
            HashTree::Fork {
                digest: pair_hash(new_left.digest(), (*right).digest()),
                left: Box::new(new_left),
                right,
            }
        },
    }
}

/// Balanced reduction of well-formed subtrees is well-formed: every fork it
/// adds derives its digest from its children's digests.
pub proof fn lemma_build_model_wf(ts: Seq<HashTree>)
    requires
        ts.len() > 0,
        forall|i: int| 0 <= i < ts.len() ==> (#[trigger] ts[i]).wf(),
    ensures
        build_model(ts).wf(),
    decreases ts.len(),
{
    if ts.len() > 1 {
        let mid = ts.len() as int / 2;
        lemma_build_model_wf(ts.subrange(0, mid));
        lemma_build_model_wf(ts.subrange(mid, ts.len() as int));
    }
}

/// Insertion keeps a tree well-formed: every fork it touches gets its
/// digest recomputed from its children's digests.
pub proof fn lemma_insert_model_wf(cur: HashTree, nv: HashTree)
    requires
        cur.wf(),
        nv.wf(),
    ensures
        insert_model(cur, nv).wf(),
    decreases cur,
{
    match cur {
        HashTree::Leaf { .. } => {},
        HashTree::Fork { left, .. } => {
            lemma_insert_model_wf(*left, nv);
        },
    }
}

/// Insertion into a possibly empty tree: the new node fills an empty tree.
pub open spec fn opt_insert_model(cur: Option<HashTree>, nv: HashTree) -> HashTree {
    match cur {
        None => nv,
        Some(t) => insert_model(t, nv),
    }
}

/// The digests stored in a possibly empty tree.
pub open spec fn opt_digests(t: Option<HashTree>) -> Set<Seq<u8>> {
    match t {
        None => Set::empty(),
        Some(t) => t.digests(),
    }
}

} // verus!
