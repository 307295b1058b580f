//! The tree engine: batch construction, incremental insertion, and
//! membership query over a strict binary tree of digests.

use vstd::prelude::*;

use crate::hashing::{leaf_hash, pair_hash, sha256_hasher};
use crate::model::{
    blocks_model, build_model, leaves_of, lemma_build_model_wf, lemma_insert_model_wf, opt_digests,
    opt_insert_model, HashTree,
};
use vstd::slice::{slice_index_get, slice_subrange};

verus! {

/// One node of the tree: a leaf (no children) holding the digest of one
/// block, or an internal node holding both children and the digest derived
/// from theirs.
#[derive(Debug)]
pub struct MerkleNode {
    pub left: Option<Box<MerkleNode>>,
    pub right: Option<Box<MerkleNode>>,
    pub hash: Vec<u8>,
}

/// A tree: at most one root node, which owns the whole node graph under it.
#[derive(Debug)]
pub struct MerkleTree {
    pub root: Option<Box<MerkleNode>>,
}

impl MerkleNode {
    /// The node's subtree read as the mathematical model. A node with two
    /// children reads as a fork; any other node reads as a leaf.
    pub open spec fn model(self) -> HashTree
        decreases self,
    {
        match (self.left, self.right) {
            (Some(l), Some(r)) => HashTree::Fork {
                digest: self.hash@,
                left: Box::new(l.model()),
                right: Box::new(r.model()),
            },
            _ => HashTree::Leaf { digest: self.hash@ },
        }
    }

    /// Every node under this one has no child or both: the strict binary
    /// shape, under which `model` loses nothing.
    pub open spec fn binary(self) -> bool
        decreases self,
    {
        match (self.left, self.right) {
            (None, None) => true,
            (Some(l), Some(r)) => l.binary() && r.binary(),
            _ => false,
        }
    }

    /// The model of an optional node.
    pub open spec fn opt_model(opt: Option<Box<MerkleNode>>) -> Option<HashTree> {
        match opt {
            None => None,
            Some(n) => Some(n.model()),
        }
    }

    /// The strict binary shape of an optional node.
    pub open spec fn opt_binary(opt: Option<Box<MerkleNode>>) -> bool {
        match opt {
            None => true,
            Some(n) => n.binary(),
        }
    }
}

impl View for MerkleNode {
    type V = HashTree;

    open spec fn view(&self) -> HashTree {
        self.model()
    }
}

impl View for MerkleTree {
    type V = Option<HashTree>;

    open spec fn view(&self) -> Option<HashTree> {
        MerkleNode::opt_model(self.root)
    }
}

impl MerkleTree {
    /// The strict binary shape of the whole tree.
    pub open spec fn binary(self) -> bool {
        MerkleNode::opt_binary(self.root)
    }

    /// Strict binary shape, and no stored digest is stale.
    pub open spec fn well_formed(self) -> bool {
        self.binary() && (self@ matches Some(t) ==> t.wf())
    }
}

/// A node's model carries the node's own digest at its top.
pub proof fn lemma_model_digest(n: MerkleNode)
    ensures
        n.model().digest() == n.hash@,
{
}

/// An owned copy of a byte vector, equal to the original.
fn copy_bytes(v: &Vec<u8>) -> (r: Vec<u8>)
    ensures
        r@ == v@,
{
    let mut r: Vec<u8> = Vec::new();
    let mut i: usize = 0;
    while i < v.len()
        invariant
            i <= v@.len(),
            r@ == v@.subrange(0, i as int),
        decreases v@.len() - i,
    {
        let x = v[i];
        r.push(x);
        proof {
            assert(v@.subrange(0, i + 1 as int) =~= v@.subrange(0, i as int).push(v@[i as int]));
        }
        i += 1;
    }
    proof {
        assert(v@.subrange(0, v@.len() as int) =~= v@);
    }
    r
}

/// Byte-wise equality of two digests.
fn bytes_eq(a: &Vec<u8>, b: &Vec<u8>) -> (r: bool)
    ensures
        r == (a@ == b@),
{
    if a.len() != b.len() {
        return false;
    }
    let mut i: usize = 0;
    while i < a.len()
        invariant
            a@.len() == b@.len(),
            i <= a@.len(),
            forall|j: int| 0 <= j < i ==> a@[j] == b@[j],
        decreases a@.len() - i,
    {
        if a[i] != b[i] {
            return false;
        }
        i += 1;
    }
    proof {
        assert(a@ =~= b@);
    }
    true
}

impl Clone for MerkleNode {
    /// A deep copy: same shape, same digests everywhere.
    fn clone(&self) -> (res: Self)
        ensures
            res.model() == self.model(),
            res.binary() == self.binary(),
        decreases *self,
    {
        let left = match &self.left {
            None => None,
            Some(l) => Some(Box::new((**l).clone())),
        };
        let right = match &self.right {
            None => None,
            Some(r) => Some(Box::new((**r).clone())),
        };
        MerkleNode { left, right, hash: copy_bytes(&self.hash) }
    }
}

/// The models of a sequence of nodes, in order.
pub open spec fn models_of(nodes: Seq<MerkleNode>) -> Seq<HashTree> {
    nodes.map_values(|n: MerkleNode| n.model())
}

/// Every node of the sequence has the strict binary shape.
pub open spec fn all_binary(nodes: Seq<MerkleNode>) -> bool {
    forall|i: int| 0 <= i < nodes.len() ==> (#[trigger] nodes[i]).binary()
}

impl MerkleTree {
    /// A fresh leaf for one data block, holding the block's digest.
    pub fn create_new_data_node(data: &Vec<u8>) -> (n: MerkleNode)
        ensures
            n.binary(),
            n.model() == (HashTree::Leaf { digest: leaf_hash(data@) }),
    {
        let mut parts: Vec<Vec<u8>> = Vec::new();
        parts.push(copy_bytes(data));
        let hash = sha256_hasher(&parts);
        proof {
            assert(parts@.map_values(|p: Vec<u8>| p@) =~= seq![data@]);
        }
        MerkleNode { left: None, right: None, hash }
    }

    /// Build a tree from an ordered batch of blocks: each block becomes a
    /// leaf, and the leaves are reduced by balanced midpoint pairing. An
    /// empty batch yields a tree with no root.
    pub fn new(datas: &[Vec<u8>]) -> (t: Self)
        ensures
            t.well_formed(),
            t@ == blocks_model(datas@.map_values(|d: Vec<u8>| d@)),
    {
        let mut leaf_nodes: Vec<MerkleNode> = Vec::new();
        let mut i: usize = 0;
        while i < datas.len()
            invariant
                i <= datas@.len(),
                leaf_nodes@.len() == i,
                forall|j: int| 0 <= j < i ==> (#[trigger] leaf_nodes@[j]).binary()
                    && leaf_nodes@[j].model() == (HashTree::Leaf { digest: leaf_hash(datas@[j]@) }),
            decreases datas@.len() - i,
        {
            let node = Self::create_new_data_node(slice_index_get(datas, i));
            leaf_nodes.push(node);
            i += 1;
        }
        let root = Self::build_tree(leaf_nodes.as_slice());
        proof {
            let blocks = datas@.map_values(|d: Vec<u8>| d@);
            assert(models_of(leaf_nodes@) =~= leaves_of(blocks));
            assert(all_binary(leaf_nodes@));
            if blocks.len() > 0 {
                assert forall|k: int| 0 <= k < leaves_of(blocks).len() implies (#[trigger] leaves_of(
                    blocks,
                )[k]).wf() by {}
                lemma_build_model_wf(leaves_of(blocks));
            }
        }
        MerkleTree { root }
    }

    /// Reduce an ordered sequence of nodes to one root by balanced midpoint
    /// pairing: no node for an empty sequence, a lone node copied unchanged,
    /// and otherwise an internal node over the two recursively reduced
    /// halves, its digest derived from theirs.
    pub fn build_tree(nodes: &[MerkleNode]) -> (r: Option<Box<MerkleNode>>)
        ensures
            r is None <==> nodes@.len() == 0,
            nodes@.len() > 0 ==> r.unwrap().model() == build_model(models_of(nodes@)),
            nodes@.len() > 0 && all_binary(nodes@) ==> r.unwrap().binary(),
        decreases nodes@.len(),
    {
        if nodes.is_empty() {
            return None;
        }
        if nodes.len() == 1 {
            let n = slice_index_get(nodes, 0).clone();
            return Some(Box::new(n));
        }

        let mid_node = nodes.len() / 2;
        let left_child = Self::build_tree(slice_subrange(nodes, 0, mid_node));
        let right_child = Self::build_tree(slice_subrange(nodes, mid_node, nodes.len()));

        let left_node = left_child.unwrap();
        let right_node = right_child.unwrap();
        let mut parts: Vec<Vec<u8>> = Vec::new();
        parts.push(copy_bytes(&left_node.hash));
        parts.push(copy_bytes(&right_node.hash));
        let hash = sha256_hasher(&parts);
        proof {
            let ms = models_of(nodes@);
            let mid = mid_node as int;
            assert(models_of(nodes@.subrange(0, mid)) =~= ms.subrange(0, mid));
            assert(models_of(nodes@.subrange(mid, nodes@.len() as int)) =~= ms.subrange(
                mid,
                ms.len() as int,
            ));
            assert(parts@.map_values(|p: Vec<u8>| p@) =~= seq![left_node.hash@, right_node.hash@]);
            lemma_model_digest(*left_node);
            lemma_model_digest(*right_node);
            if all_binary(nodes@) {
                assert forall|k: int| 0 <= k < mid implies (#[trigger] nodes@.subrange(0, mid)[k])
                    .binary() by {
                    assert(nodes@.subrange(0, mid)[k] == nodes@[k]);
                }
                assert forall|k: int|
                    0 <= k < nodes@.len() - mid implies (#[trigger] nodes@.subrange(
                    mid,
                    nodes@.len() as int,
                )[k]).binary() by {
                    assert(nodes@.subrange(mid, nodes@.len() as int)[k] == nodes@[k + mid]);
                }
            }
        }
        Some(Box::new(MerkleNode { left: Some(left_node), right: Some(right_node), hash }))
    }

    /// Add one block to the tree in place: a fresh leaf for the block is
    /// inserted at the leftmost insertion point and every digest along the
    /// insertion path is recomputed.
    pub fn insert(&mut self, data: &Vec<u8>)
        requires
            old(self).binary(),
        ensures
            final(self).binary(),
            final(self)@ == Some(
                opt_insert_model(old(self)@, HashTree::Leaf { digest: leaf_hash(data@) }),
            ),
            old(self).well_formed() ==> final(self).well_formed(),
    {
        let ghost old_model = self@;
        let new_node = Self::create_new_data_node(data);
        let current_root = self.root.take();

        self.root = self.insert_node(new_node, current_root);
        proof {
            match old_model {
                Some(t) => if t.wf() {
                    lemma_insert_model_wf(t, HashTree::Leaf { digest: leaf_hash(data@) });
                },
                None => {},
            }
        }
    }

    /// The recursive insertion step. An empty slot takes the new node; a
    /// leaf is promoted to an internal node over the old leaf and the new
    /// node; an internal node descends into its left child, then recomputes
    /// its digest from its two children's digests.
    pub fn insert_node(&self, new_node: MerkleNode, current_root: Option<Box<MerkleNode>>) -> (r:
        Option<Box<MerkleNode>>)
        requires
            MerkleNode::opt_binary(current_root),
        ensures
            r is Some,
            r.unwrap().model() == opt_insert_model(
                MerkleNode::opt_model(current_root),
                new_node.model(),
            ),
            new_node.binary() ==> r.unwrap().binary(),
        decreases current_root,
    {
        match current_root {
            None => Some(Box::new(new_node)),
            Some(mut node) => {
                if node.left.is_none() && node.right.is_none() {
                    proof {
                        lemma_model_digest(new_node);
                    }
                    let mut parts: Vec<Vec<u8>> = Vec::new();
                    parts.push(copy_bytes(&node.hash));
                    parts.push(copy_bytes(&new_node.hash));
                    let hash = sha256_hasher(&parts);
                    proof {
                        assert(parts@.map_values(|p: Vec<u8>| p@) =~= seq![
                            node.hash@,
                            new_node.hash@,
                        ]);
                    }
                    Some(Box::new(MerkleNode {
                        left: Some(node),
                        right: Some(Box::new(new_node)),
                        hash,
                    }))
                } else {
                    if node.left.is_some() {
                        let taken = node.left.take();
                        node.left = self.insert_node(new_node, taken);
                    } else {
                        let taken = node.right.take();
                        node.right = self.insert_node(new_node, taken);
                    }
                    proof {
                        lemma_model_digest(*node.left.unwrap());
                        lemma_model_digest(*node.right.unwrap());
                    }
                    let mut parts: Vec<Vec<u8>> = Vec::new();
                    parts.push(copy_bytes(&node.left.as_ref().unwrap().hash));
                    parts.push(copy_bytes(&node.right.as_ref().unwrap().hash));
                    let hash = sha256_hasher(&parts);
                    proof {
                        assert(parts@.map_values(|p: Vec<u8>| p@) =~= seq![
                            node.left.unwrap().hash@,
                            node.right.unwrap().hash@,
                        ]);
                    }
                    Some(Box::new(MerkleNode { left: node.left, right: node.right, hash }))
                }
            },
        }
    }

    /// Whether the block's digest is stored anywhere in the tree.
    pub fn contains(&self, data: &Vec<u8>) -> (r: bool)
        requires
            self.binary(),
        ensures
            r == opt_digests(self@).contains(leaf_hash(data@)),
    {
        let mut parts: Vec<Vec<u8>> = Vec::new();
        parts.push(copy_bytes(data));
        let data_hash = sha256_hasher(&parts);
        proof {
            assert(parts@.map_values(|p: Vec<u8>| p@) =~= seq![data@]);
        }
        self.contains_hash(&self.root, &data_hash)
    }

    /// Exhaustive depth-first search for a digest: every node is visited,
    /// and a match at any node counts.
    pub fn contains_hash(&self, node: &Option<Box<MerkleNode>>, data_hash: &Vec<u8>) -> (r: bool)
        requires
            MerkleNode::opt_binary(*node),
        ensures
            r == opt_digests(MerkleNode::opt_model(*node)).contains(data_hash@),
        decreases node,
    {
        match node {
            None => false,
            Some(n) => {
                if bytes_eq(&n.hash, data_hash) {
                    true
                } else {
                    let in_left_node = self.contains_hash(&n.left, data_hash);
                    let in_right_node = self.contains_hash(&n.right, data_hash);
                    in_left_node || in_right_node
                }
            },
        }
    }
}

} // verus!
