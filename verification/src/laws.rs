//! The general properties of the tree, each proved once and for all inputs.
//!
//! The properties are stated over the model in `crate::model`, which the
//! contracts of `crate::tree` tie to the executable functions: what holds of
//! `build_model`, `insert_model` and `digests` here holds of `new`, `insert`
//! and `contains` there.

use vstd::prelude::*;

use crate::hashing::{leaf_hash, pair_hash};
use crate::model::{
    blocks_model, build_model, insert_model, leaves_of, opt_digests, opt_insert_model, HashTree,
};
use crate::tree::MerkleTree;

verus! {

/// The digests of the blocks of a batch, one per block.
pub open spec fn block_digests(blocks: Seq<Seq<u8>>) -> Set<Seq<u8>> {
    Set::new(
        |d: Seq<u8>| exists|i: int| 0 <= i < blocks.len() && d == leaf_hash(#[trigger] blocks[i]),
    )
}

/// Construction is deterministic: a tree built from a batch is a pure
/// function of the batch, so two trees built from equal batches are equal,
/// root digest included. `MerkleTree::new` ensures the premises.
pub proof fn lemma_build_deterministic(t1: MerkleTree, t2: MerkleTree, blocks: Seq<Seq<u8>>)
    requires
        t1@ == blocks_model(blocks),
        t2@ == blocks_model(blocks),
    ensures
        t1@ == t2@,
{
}

/// A batch of one block builds a tree whose root is that block's leaf: the
/// root digest is the block's own digest, with no further hashing.
pub proof fn lemma_single_block_root(block: Seq<u8>)
    ensures
        blocks_model(seq![block]) == Some(HashTree::Leaf { digest: leaf_hash(block) }),
{
    assert(leaves_of(seq![block]) =~= seq![HashTree::Leaf { digest: leaf_hash(block) }]);
}

/// A batch of two blocks builds a root whose digest pairs the two leaf
/// digests in batch order. The two orders of distinct blocks thus give
/// distinct root digests unless the digest function itself collides on the
/// two pairings.
pub proof fn lemma_two_block_root(a: Seq<u8>, b: Seq<u8>)
    ensures
        blocks_model(seq![a, b]) matches Some(t) && t.digest() == pair_hash(
            leaf_hash(a),
            leaf_hash(b),
        ),
{
    let la = HashTree::Leaf { digest: leaf_hash(a) };
    let lb = HashTree::Leaf { digest: leaf_hash(b) };
    let ts = leaves_of(seq![a, b]);
    assert(ts.subrange(0, 1) =~= seq![la]);
    assert(ts.subrange(1, 2) =~= seq![lb]);
    assert(build_model(seq![la]) == la);
    assert(build_model(seq![lb]) == lb);
}

/// An empty batch builds a tree with no root, and an empty tree stores no
/// digest, so membership of any query is false.
pub proof fn lemma_empty_tree(query: Seq<u8>)
    ensures
        blocks_model(Seq::<Seq<u8>>::empty()) is None,
        !opt_digests(None::<HashTree>).contains(query),
{
}

/// Every digest stored in the inserted node is stored in the tree after
/// insertion.
pub proof fn lemma_insert_model_keeps_new(t: HashTree, nv: HashTree)
    ensures
        nv.digests().subset_of(insert_model(t, nv).digests()),
    decreases t,
{
    match t {
        HashTree::Leaf { .. } => {},
        HashTree::Fork { left, .. } => {
            lemma_insert_model_keeps_new(*left, nv);
        },
    }
}

/// After inserting a block into any tree, empty or not, the block's digest
/// is stored in the result: `MerkleTree::contains` then answers true for
/// the block, by its own contract.
pub proof fn lemma_insert_gives_membership(cur: Option<HashTree>, d: Seq<u8>)
    ensures
        opt_insert_model(cur, HashTree::Leaf { digest: d }).digests().contains(d),
{
    match cur {
        None => {},
        Some(t) => {
            lemma_insert_model_keeps_new(t, HashTree::Leaf { digest: d });
        },
    }
}

/// Insertion changes no leaf: the leaf digests afterwards are exactly the
/// old ones together with the new node's.
pub proof fn lemma_insert_model_leaf_digests(t: HashTree, nv: HashTree)
    ensures
        insert_model(t, nv).leaf_digests() == t.leaf_digests().union(nv.leaf_digests()),
    decreases t,
{
    match t {
        HashTree::Leaf { .. } => {},
        HashTree::Fork { left, right, .. } => {
            lemma_insert_model_leaf_digests(*left, nv);
            assert(insert_model(t, nv).leaf_digests() =~= t.leaf_digests().union(
                nv.leaf_digests(),
            ));
        },
    }
}

/// A leaf's digest is a stored digest.
pub proof fn lemma_leaf_digests_in_digests(t: HashTree)
    ensures
        t.leaf_digests().subset_of(t.digests()),
    decreases t,
{
    match t {
        HashTree::Leaf { .. } => {},
        HashTree::Fork { left, right, .. } => {
            lemma_leaf_digests_in_digests(*left);
            lemma_leaf_digests_in_digests(*right);
        },
    }
}

/// A digest stored at a leaf stays stored across any insertion: membership
/// of an earlier block is preserved. (Digests stored at internal nodes on
/// the insertion path are recomputed, so only leaf-stored digests are
/// promised to survive; a query's digest matches internal digests only if
/// the digest function collides across its two framings.)
pub proof fn lemma_insert_preserves_membership(t: HashTree, nv: HashTree, d: Seq<u8>)
    requires
        t.leaf_digests().contains(d),
    ensures
        insert_model(t, nv).digests().contains(d),
{
    lemma_insert_model_leaf_digests(t, nv);
    lemma_leaf_digests_in_digests(insert_model(t, nv));
}

/// Balanced reduction rearranges subtrees but never drops or adds a leaf:
/// its leaf digests are the union of the parts' leaf digests.
pub proof fn lemma_build_model_leaf_digests(ts: Seq<HashTree>)
    requires
        ts.len() > 0,
    ensures
        build_model(ts).leaf_digests() == Set::new(
            |d: Seq<u8>|
                exists|i: int| 0 <= i < ts.len() && (#[trigger] ts[i]).leaf_digests().contains(d),
        ),
    decreases ts.len(),
{
    let whole = Set::new(
        |d: Seq<u8>|
            exists|i: int| 0 <= i < ts.len() && (#[trigger] ts[i]).leaf_digests().contains(d),
    );
    if ts.len() <= 1 {
        assert forall|d: Seq<u8>| #![auto] ts[0].leaf_digests().contains(d) implies whole.contains(
            d,
        ) by {
            assert(0 <= 0 < ts.len() && ts[0].leaf_digests().contains(d));
        }
        assert(build_model(ts).leaf_digests() =~= whole);
    } else {
        let mid = ts.len() as int / 2;
        let lo = ts.subrange(0, mid);
        let hi = ts.subrange(mid, ts.len() as int);
        lemma_build_model_leaf_digests(lo);
        lemma_build_model_leaf_digests(hi);
        assert forall|d: Seq<u8>| #![auto] build_model(ts).leaf_digests().contains(d) implies whole
            .contains(d) by {
            if build_model(lo).leaf_digests().contains(d) {
                let i = choose|i: int| 0 <= i < lo.len() && (#[trigger] lo[i]).leaf_digests()
                    .contains(d);
                assert(ts[i].leaf_digests().contains(d));
            } else {
                let i = choose|i: int| 0 <= i < hi.len() && (#[trigger] hi[i]).leaf_digests()
                    .contains(d);
                assert(ts[i + mid].leaf_digests().contains(d));
            }
        }
        assert forall|d: Seq<u8>| #![auto] whole.contains(d) implies build_model(ts).leaf_digests()
            .contains(d) by {
            let i = choose|i: int| 0 <= i < ts.len() && (#[trigger] ts[i]).leaf_digests().contains(
                d,
            );
            if i < mid {
                assert(lo[i].leaf_digests().contains(d));
            } else {
                assert(hi[i - mid].leaf_digests().contains(d));
            }
        }
        assert(build_model(ts).leaf_digests() =~= whole);
    }
}

/// A built tree stores at its leaves exactly the digests of the batch's
/// blocks: every block of the batch is a member afterwards, and no other
/// leaf digest appears.
pub proof fn lemma_built_tree_leaf_digests(blocks: Seq<Seq<u8>>)
    requires
        blocks.len() > 0,
    ensures
        build_model(leaves_of(blocks)).leaf_digests() == block_digests(blocks),
{
    let ts = leaves_of(blocks);
    lemma_build_model_leaf_digests(ts);
    assert forall|d: Seq<u8>| #![auto]
        (exists|i: int|
            0 <= i < ts.len() && (#[trigger] ts[i]).leaf_digests().contains(
                d,
            )) implies block_digests(blocks).contains(d) by {
        let i = choose|i: int| 0 <= i < ts.len() && (#[trigger] ts[i]).leaf_digests().contains(d);
        assert(d == leaf_hash(blocks[i]));
    }
    assert forall|d: Seq<u8>| #![auto] block_digests(blocks).contains(d) implies (exists|i: int|
        0 <= i < ts.len() && (#[trigger] ts[i]).leaf_digests().contains(d)) by {
        let i = choose|i: int| 0 <= i < blocks.len() && d == leaf_hash(#[trigger] blocks[i]);
        assert(ts[i].leaf_digests().contains(d));
    }
    assert(build_model(ts).leaf_digests() =~= block_digests(blocks));
}

/// A built batch of three blocks stores exactly five digests: the three
/// leaf digests and the two fork digests. A query whose digest differs from
/// all five is not a member.
pub proof fn lemma_three_block_negative_membership(a: Seq<u8>, b: Seq<u8>, c: Seq<u8>, d: Seq<u8>)
    requires
        leaf_hash(d) != leaf_hash(a),
        leaf_hash(d) != leaf_hash(b),
        leaf_hash(d) != leaf_hash(c),
        leaf_hash(d) != pair_hash(leaf_hash(b), leaf_hash(c)),
        leaf_hash(d) != pair_hash(leaf_hash(a), pair_hash(leaf_hash(b), leaf_hash(c))),
    ensures
        !opt_digests(blocks_model(seq![a, b, c])).contains(leaf_hash(d)),
{
    let la = HashTree::Leaf { digest: leaf_hash(a) };
    let lb = HashTree::Leaf { digest: leaf_hash(b) };
    let lc = HashTree::Leaf { digest: leaf_hash(c) };
    let ts = leaves_of(seq![a, b, c]);
    assert(ts.subrange(0, 1) =~= seq![la]);
    assert(ts.subrange(1, 3) =~= seq![lb, lc]);
    assert(build_model(seq![la]) == la);
    let rest = build_model(seq![lb, lc]);
    assert(seq![lb, lc].subrange(0, 1) =~= seq![lb]);
    assert(seq![lb, lc].subrange(1, 2) =~= seq![lc]);
    assert(build_model(seq![lb]) == lb);
    assert(build_model(seq![lc]) == lc);
    assert(rest == HashTree::Fork {
        digest: pair_hash(leaf_hash(b), leaf_hash(c)),
        left: Box::new(lb),
        right: Box::new(lc),
    });
    let root = build_model(ts);
    assert(root == HashTree::Fork {
        digest: pair_hash(leaf_hash(a), pair_hash(leaf_hash(b), leaf_hash(c))),
        left: Box::new(la),
        right: Box::new(rest),
    });
    assert(la.digests() =~= set![leaf_hash(a)]);
    assert(lb.digests() =~= set![leaf_hash(b)]);
    assert(lc.digests() =~= set![leaf_hash(c)]);
    assert(rest.digests() =~= set![pair_hash(leaf_hash(b), leaf_hash(c))].union(
        lb.digests(),
    ).union(lc.digests()));
    assert(root.digests() =~= set![root.digest()].union(la.digests()).union(rest.digests()));
}

} // verus!
