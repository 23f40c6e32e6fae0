//! Sorted-pair Merkle proofs: leaf hashing and proof verification.
//!
//! A node's digest is the hash of its two children's digests, the smaller
//! one (in byte-wise lexicographic order) first. A proof therefore needs no
//! left/right flags: it is just the list of sibling digests, deepest first.

use crate::bytes::{bytes_equal, le_bytes, push_all, push_le};
use crate::hash::{sha256, sha256_digest};
use vstd::prelude::*;

verus! {

/// Longest proof that is ever hashed; enough for a tree of 2^64 leaves.
pub const MAX_PROOF_LEN: usize = 64;

/// Byte-wise lexicographic order: whether `a` sorts at or before `b`.
pub open spec fn lex_le(a: Seq<u8>, b: Seq<u8>) -> bool
    decreases a.len(),
{
    if a.len() == 0 {
        true
    } else if b.len() == 0 {
        false
    } else if a[0] != b[0] {
        a[0] < b[0]
    } else {
        lex_le(a.drop_first(), b.drop_first())
    }
}

/// The bytes that are hashed for the leaf of one claimant: the index, four
/// bytes little-endian; the recipient's 32 bytes; the amount, eight bytes
/// little-endian.
pub open spec fn leaf_preimage(index: u32, recipient: [u8; 32], amount: u64) -> Seq<u8> {
    le_bytes(index as nat, 4) + recipient@ + le_bytes(amount as nat, 8)
}

/// The leaf digest of one claimant.
pub open spec fn leaf_digest(index: u32, recipient: [u8; 32], amount: u64) -> [u8; 32] {
    sha256(leaf_preimage(index, recipient, amount))
}

/// The bytes that are hashed for a node with children `a` and `b`: both
/// digests, the lexicographically smaller one first.
pub open spec fn node_preimage(a: [u8; 32], b: [u8; 32]) -> Seq<u8> {
    if lex_le(a@, b@) {
        a@ + b@
    } else {
        b@ + a@
    }
}

/// The digest of a node with children `a` and `b`, in either order.
pub open spec fn node_digest(a: [u8; 32], b: [u8; 32]) -> [u8; 32] {
    sha256(node_preimage(a, b))
}

/// The digest reached from `leaf` by combining it with each sibling of
/// `proof` in turn, first sibling first.
pub open spec fn proof_root(leaf: [u8; 32], proof: Seq<[u8; 32]>) -> [u8; 32]
    decreases proof.len(),
{
    if proof.len() == 0 {
        leaf
    } else {
        node_digest(proof_root(leaf, proof.drop_last()), proof.last())
    }
}

/// Whether `proof` leads from `leaf` to `root`.
pub open spec fn proves(leaf: [u8; 32], proof: Seq<[u8; 32]>, root: [u8; 32]) -> bool {
    proof_root(leaf, proof) == root
}

/// Whether `proof` is accepted as showing `leaf` to be a member of the tree
/// under `root`: it has at most `MAX_PROOF_LEN` siblings and leads from
/// `leaf` to `root`.
pub open spec fn accepts(leaf: [u8; 32], proof: Seq<[u8; 32]>, root: [u8; 32]) -> bool {
    proof.len() <= MAX_PROOF_LEN && proves(leaf, proof, root)
}

/// Whether digest `a` sorts at or before digest `b`.
pub fn digest_le(a: &[u8; 32], b: &[u8; 32]) -> (le: bool)
    ensures
        le == lex_le(a@, b@),
{
    let mut i: usize = 0;
    assert(a@.skip(0) =~= a@ && b@.skip(0) =~= b@);
    while i < 32
        invariant
            i <= 32,
            lex_le(a@, b@) == lex_le(a@.skip(i as int), b@.skip(i as int)),
        decreases 32 - i,
    {
        let ghost ra = a@.skip(i as int);
        let ghost rb = b@.skip(i as int);
        if a[i] != b[i] {
            return a[i] < b[i];
        }
        assert(ra.drop_first() =~= a@.skip(i + 1));
        assert(rb.drop_first() =~= b@.skip(i + 1));
        i = i + 1;
    }
    true
}

/// Whether two digests are the same.
pub fn digest_eq(a: &[u8; 32], b: &[u8; 32]) -> (same: bool)
    ensures
        same == (*a == *b),
{
    let same = bytes_equal(a.as_slice(), b.as_slice());
    assert(same == (*a =~= *b));
    same
}

/// Hashes one claimant's `(index, recipient, amount)` into its leaf digest.
pub fn leaf_hash(index: u32, user: &[u8; 32], amount: u64) -> (leaf: [u8; 32])
    ensures
        leaf == leaf_digest(index, *user, amount),
{
    let mut buf: Vec<u8> = Vec::with_capacity(44);
    push_le(&mut buf, index as u64, 4);
    push_all(&mut buf, user.as_slice());
    push_le(&mut buf, amount, 8);
    sha256_digest(buf.as_slice())
}

/// Hashes two child digests into their parent's digest. The order of the
/// arguments does not matter.
pub fn hash_pair(a: &[u8; 32], b: &[u8; 32]) -> (parent: [u8; 32])
    ensures
        parent == node_digest(*a, *b),
{
    let mut buf: Vec<u8> = Vec::with_capacity(64);
    if digest_le(a, b) {
        push_all(&mut buf, a.as_slice());
        push_all(&mut buf, b.as_slice());
    } else {
        push_all(&mut buf, b.as_slice());
        push_all(&mut buf, a.as_slice());
    }
    sha256_digest(buf.as_slice())
}

/// Folds `proof` onto `leaf` and compares the outcome with `root`.
///
/// A proof of more than `MAX_PROOF_LEN` siblings is rejected on its length
/// alone, before anything is hashed.
pub fn verify_proof(leaf: &[u8; 32], proof: &Vec<[u8; 32]>, root: &[u8; 32]) -> (ok: bool)
    ensures
        ok == accepts(*leaf, proof@, *root),
{
    if proof.len() > MAX_PROOF_LEN {
        return false;
    }
    let mut computed: [u8; 32] = *leaf;
    let mut i: usize = 0;
    while i < proof.len()
        invariant
            i <= proof@.len(),
            computed == proof_root(*leaf, proof@.take(i as int)),
        decreases proof@.len() - i,
    {
        let ghost upto = proof@.take(i + 1);
        assert(upto.drop_last() =~= proof@.take(i as int));
        computed = hash_pair(&computed, &proof[i]);
        i = i + 1;
    }
    assert(proof@.take(i as int) =~= proof@);
    digest_eq(&computed, root)
}

} // verus!
