//! What a sorted-pair proof establishes.
//!
//! The tree itself is never built here; whoever publishes a distribution
//! builds it and hands out the root and one sibling path per leaf. This
//! module states what that publisher and every claimant may rely on:
//! a genuine sibling path is always accepted, a path is accepted for one
//! root only, and whoever gets a changed leaf or a changed sibling accepted
//! has found two byte strings with the same SHA-256 digest.

use crate::bytes::{lemma_le_bytes_injective, lemma_le_bytes_len, lemma_pow256_widths, le_bytes};
use crate::hash::sha256;
use crate::merkle::{
    accepts, leaf_digest, leaf_preimage, lex_le, node_digest, node_preimage, proof_root, proves,
    MAX_PROOF_LEN,
};
use vstd::prelude::*;

verus! {

/// A binary tree of digests whose inner nodes follow the sorted-pair rule.
pub enum MerkleTree {
    Leaf { digest: [u8; 32] },
    Node { left: Box<MerkleTree>, right: Box<MerkleTree> },
}

impl MerkleTree {
    /// The digest that commits to the whole tree.
    pub open spec fn root(self) -> [u8; 32]
        decreases self,
    {
        match self {
            MerkleTree::Leaf { digest } => digest,
            MerkleTree::Node { left, right } => node_digest(left.root(), right.root()),
        }
    }

    /// Whether walking `path` from the root (`false` goes left, `true` goes
    /// right) ends exactly at a leaf.
    pub open spec fn has_leaf(self, path: Seq<bool>) -> bool
        decreases self,
    {
        match self {
            MerkleTree::Leaf { .. } => path.len() == 0,
            MerkleTree::Node { left, right } => path.len() > 0 && if path[0] {
                right.has_leaf(path.drop_first())
            } else {
                left.has_leaf(path.drop_first())
            },
        }
    }

    /// The digest of the leaf at the end of `path`.
    pub open spec fn leaf_at(self, path: Seq<bool>) -> [u8; 32]
        recommends
            self.has_leaf(path),
        decreases self,
    {
        match self {
            MerkleTree::Leaf { digest } => digest,
            MerkleTree::Node { left, right } => if path.len() > 0 && path[0] {
                right.leaf_at(path.drop_first())
            } else {
                left.leaf_at(path.drop_first())
            },
        }
    }

    /// The sibling path of the leaf at the end of `path`: the root of every
    /// subtree that the walk leaves aside, deepest first.
    pub open spec fn siblings(self, path: Seq<bool>) -> Seq<[u8; 32]>
        recommends
            self.has_leaf(path),
        decreases self,
    {
        match self {
            MerkleTree::Leaf { .. } => Seq::empty(),
            MerkleTree::Node { left, right } => if path.len() > 0 && path[0] {
                right.siblings(path.drop_first()).push(left.root())
            } else {
                left.siblings(path.drop_first()).push(right.root())
            },
        }
    }
}

/// Two different byte strings with the same SHA-256 digest.
pub open spec fn is_collision(x: Seq<u8>, y: Seq<u8>) -> bool {
    x != y && sha256(x) == sha256(y)
}

/// Of any two byte strings, one sorts at or before the other.
pub proof fn lemma_lex_le_total(a: Seq<u8>, b: Seq<u8>)
    ensures
        lex_le(a, b) || lex_le(b, a),
    decreases a.len(),
{
    if a.len() > 0 && b.len() > 0 && a[0] == b[0] {
        lemma_lex_le_total(a.drop_first(), b.drop_first());
    }
}

/// Two byte strings that sort at or before each other are the same.
pub proof fn lemma_lex_le_antisymmetric(a: Seq<u8>, b: Seq<u8>)
    requires
        lex_le(a, b),
        lex_le(b, a),
    ensures
        a == b,
    decreases a.len(),
{
    if a.len() > 0 && b.len() > 0 {
        lemma_lex_le_antisymmetric(a.drop_first(), b.drop_first());
        assert(a =~= seq![a[0]] + a.drop_first());
        assert(b =~= seq![b[0]] + b.drop_first());
    } else {
        assert(a =~= b);
    }
}

/// A node's digest does not depend on which child is named first.
pub proof fn lemma_node_digest_symmetric(a: [u8; 32], b: [u8; 32])
    ensures
        node_digest(a, b) == node_digest(b, a),
{
    lemma_lex_le_total(a@, b@);
    if lex_le(a@, b@) && lex_le(b@, a@) {
        lemma_lex_le_antisymmetric(a@, b@);
    }
}

/// Completeness: the sibling path of any leaf of any tree leads from that
/// leaf to the tree's root, and it has one sibling for each step of the walk.
/// So a leaf that lies at most `MAX_PROOF_LEN` steps below the root is
/// accepted with its sibling path.
pub proof fn lemma_sibling_path_proves(tree: MerkleTree, path: Seq<bool>)
    requires
        tree.has_leaf(path),
    ensures
        proves(tree.leaf_at(path), tree.siblings(path), tree.root()),
        tree.siblings(path).len() == path.len(),
        path.len() <= MAX_PROOF_LEN ==> accepts(
            tree.leaf_at(path),
            tree.siblings(path),
            tree.root(),
        ),
    decreases tree,
{
    match tree {
        MerkleTree::Leaf { .. } => {},
        MerkleTree::Node { left, right } => {
            let rest = path.drop_first();
            let leaf = tree.leaf_at(path);
            if path[0] {
                lemma_sibling_path_proves(*right, rest);
                let below = right.siblings(rest);
                assert(below.push(left.root()).drop_last() =~= below);
                lemma_node_digest_symmetric(right.root(), left.root());
            } else {
                lemma_sibling_path_proves(*left, rest);
                let below = left.siblings(rest);
                assert(below.push(right.root()).drop_last() =~= below);
            }
        },
    }
}

/// A leaf and a proof are accepted for one root and for no other.
pub proof fn lemma_other_root_rejected(
    leaf: [u8; 32],
    proof: Seq<[u8; 32]>,
    root: [u8; 32],
    other: [u8; 32],
)
    requires
        accepts(leaf, proof, root),
        other != root,
    ensures
        !accepts(leaf, proof, other),
{
}

/// Changing one child of a node changes the bytes that are hashed for it.
pub proof fn lemma_node_preimage_distinct(a: [u8; 32], b: [u8; 32], sibling: [u8; 32])
    requires
        a != b,
    ensures
        node_preimage(a, sibling) != node_preimage(b, sibling),
        node_preimage(sibling, a) != node_preimage(sibling, b),
{
    let s = sibling@;
    assert(a@ != b@) by {
        if a@ == b@ {
            assert(a =~= b);
        }
    }
    assert((a@ + s).subrange(0, 32) =~= a@ && (a@ + s).subrange(32, 64) =~= s);
    assert((b@ + s).subrange(0, 32) =~= b@ && (b@ + s).subrange(32, 64) =~= s);
    assert((s + a@).subrange(0, 32) =~= s && (s + a@).subrange(32, 64) =~= a@);
    assert((s + b@).subrange(0, 32) =~= s && (s + b@).subrange(32, 64) =~= b@);
}

/// Soundness for the leaf: if a proof that leads from `leaf` to `root` also
/// leads to `root` from a different digest `forged`, then the pair returned
/// is a SHA-256 collision.
pub proof fn lemma_forged_leaf_collides(
    leaf: [u8; 32],
    forged: [u8; 32],
    proof: Seq<[u8; 32]>,
    root: [u8; 32],
) -> (pair: (Seq<u8>, Seq<u8>))
    requires
        forged != leaf,
        proves(leaf, proof, root),
        proves(forged, proof, root),
    ensures
        is_collision(pair.0, pair.1),
    decreases proof.len(),
{
    if proof.len() == 0 {
        (Seq::empty(), Seq::empty())
    } else {
        let below = proof_root(leaf, proof.drop_last());
        let forged_below = proof_root(forged, proof.drop_last());
        if below == forged_below {
            lemma_forged_leaf_collides(leaf, forged, proof.drop_last(), below)
        } else {
            lemma_node_preimage_distinct(below, forged_below, proof.last());
            (node_preimage(below, proof.last()), node_preimage(forged_below, proof.last()))
        }
    }
}

/// Soundness for the proof: if a proof leads from `leaf` to `root`, and
/// still does after the sibling at position `at` has been replaced by a
/// different digest `forged`, then the pair returned is a SHA-256 collision.
pub proof fn lemma_forged_sibling_collides(
    leaf: [u8; 32],
    proof: Seq<[u8; 32]>,
    at: int,
    forged: [u8; 32],
    root: [u8; 32],
) -> (pair: (Seq<u8>, Seq<u8>))
    requires
        0 <= at < proof.len(),
        forged != proof[at],
        proves(leaf, proof, root),
        proves(leaf, proof.update(at, forged), root),
    ensures
        is_collision(pair.0, pair.1),
    decreases proof.len(),
{
    let changed = proof.update(at, forged);
    let below = proof_root(leaf, proof.drop_last());
    if at == proof.len() - 1 {
        assert(changed.drop_last() =~= proof.drop_last());
        lemma_node_preimage_distinct(proof[at], forged, below);
        (node_preimage(below, proof[at]), node_preimage(below, forged))
    } else {
        assert(changed.drop_last() =~= proof.drop_last().update(at, forged));
        let changed_below = proof_root(leaf, changed.drop_last());
        if below == changed_below {
            lemma_forged_sibling_collides(leaf, proof.drop_last(), at, forged, below)
        } else {
            lemma_node_preimage_distinct(below, changed_below, proof.last());
            (node_preimage(below, proof.last()), node_preimage(changed_below, proof.last()))
        }
    }
}

/// Different claims are hashed from different bytes.
pub proof fn lemma_leaf_preimage_injective(
    index: u32,
    recipient: [u8; 32],
    amount: u64,
    other_index: u32,
    other_recipient: [u8; 32],
    other_amount: u64,
)
    requires
        leaf_preimage(index, recipient, amount) == leaf_preimage(
            other_index,
            other_recipient,
            other_amount,
        ),
    ensures
        index == other_index,
        recipient == other_recipient,
        amount == other_amount,
{
    let p = leaf_preimage(index, recipient, amount);
    let q = leaf_preimage(other_index, other_recipient, other_amount);
    lemma_le_bytes_len(index as nat, 4);
    lemma_le_bytes_len(other_index as nat, 4);
    lemma_le_bytes_len(amount as nat, 8);
    lemma_le_bytes_len(other_amount as nat, 8);
    assert(p.subrange(0, 4) =~= le_bytes(index as nat, 4));
    assert(q.subrange(0, 4) =~= le_bytes(other_index as nat, 4));
    assert(p.subrange(4, 36) =~= recipient@);
    assert(q.subrange(4, 36) =~= other_recipient@);
    assert(p.subrange(36, 44) =~= le_bytes(amount as nat, 8));
    assert(q.subrange(36, 44) =~= le_bytes(other_amount as nat, 8));
    lemma_pow256_widths();
    lemma_le_bytes_injective(index as nat, other_index as nat, 4);
    lemma_le_bytes_injective(amount as nat, other_amount as nat, 8);
    assert(recipient =~= other_recipient);
}

/// Soundness for the claim: if a proof that is accepted for one
/// `(index, recipient, amount)` is accepted, against the same root, for a
/// claim that differs in any of the three, then the pair returned is a
/// SHA-256 collision.
pub proof fn lemma_forged_claim_collides(
    index: u32,
    recipient: [u8; 32],
    amount: u64,
    forged_index: u32,
    forged_recipient: [u8; 32],
    forged_amount: u64,
    proof: Seq<[u8; 32]>,
    root: [u8; 32],
) -> (pair: (Seq<u8>, Seq<u8>))
    requires
        (forged_index, forged_recipient, forged_amount) != (index, recipient, amount),
        accepts(leaf_digest(index, recipient, amount), proof, root),
        accepts(leaf_digest(forged_index, forged_recipient, forged_amount), proof, root),
    ensures
        is_collision(pair.0, pair.1),
{
    let leaf = leaf_digest(index, recipient, amount);
    let forged = leaf_digest(forged_index, forged_recipient, forged_amount);
    if leaf == forged {
        let p = leaf_preimage(index, recipient, amount);
        let q = leaf_preimage(forged_index, forged_recipient, forged_amount);
        if p == q {
            lemma_leaf_preimage_injective(
                index,
                recipient,
                amount,
                forged_index,
                forged_recipient,
                forged_amount,
            );
        }
        (p, q)
    } else {
        lemma_forged_leaf_collides(leaf, forged, proof, root)
    }
}

} // verus!
