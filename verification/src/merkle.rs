//! Whitelist proofs: Merkle paths over Keccak-256 with sorted pairs.

use vstd::prelude::*;

verus! {

/// The Keccak-256 digest of a byte string.
pub uninterp spec fn keccak256(data: Seq<u8>) -> Seq<u8>;

/// The text of an account's identity in base 58, as bytes.
pub uninterp spec fn base58_text(key: Seq<u8>) -> Seq<u8>;

/// `solana_program::keccak::hashv` on two parts: the Keccak-256 digest of
/// the first part followed by the second. The function feeds its parts to
/// one hasher in their order, so the digest is that of their concatenation.
#[verifier::external_body]
fn keccak_hashv(first: &[u8], second: &[u8]) -> (digest: [u8; 32])
    ensures
        digest@ == keccak256(first@ + second@),
{
    anchor_lang::solana_program::keccak::hashv(&[first, second]).0
}

/// `Display` of `solana_program::pubkey::Pubkey`, through `to_string`: the
/// base-58 text of the 32 bytes, handed back as the bytes of that text.
#[verifier::external_body]
fn pubkey_text(key: &[u8; 32]) -> (text: Vec<u8>)
    ensures
        text@ == base58_text(key@),
{
    anchor_lang::solana_program::pubkey::Pubkey::new_from_array(*key).to_string().into_bytes()
}

/// Whether `a` comes before `b` or equals it, byte by byte from the front.
pub open spec fn lex_le(a: Seq<u8>, b: Seq<u8>) -> bool
    decreases a.len(),
{
    if a.len() == 0 {
        true
    } else if b.len() == 0 {
        false
    } else if a[0] != b[0] {
        a[0] < b[0]
    } else {
        lex_le(a.subrange(1, a.len() as int), b.subrange(1, b.len() as int))
    }
}

/// Two strings that agree on their first `k` bytes compare as their rests do.
proof fn lemma_lex_le_skip(a: Seq<u8>, b: Seq<u8>, k: int)
    requires
        0 <= k <= a.len(),
        k <= b.len(),
        forall|j: int| 0 <= j < k ==> a[j] == b[j],
    ensures
        lex_le(a, b) == lex_le(a.subrange(k, a.len() as int), b.subrange(k, b.len() as int)),
    decreases k,
{
    if k == 0 {
        assert(a.subrange(0, a.len() as int) =~= a);
        assert(b.subrange(0, b.len() as int) =~= b);
    } else {
        let a1 = a.subrange(1, a.len() as int);
        let b1 = b.subrange(1, b.len() as int);
        assert(a[0] == b[0]);
        assert forall|j: int| 0 <= j < k - 1 implies a1[j] == b1[j] by {
            assert(a1[j] == a[j + 1]);
            assert(b1[j] == b[j + 1]);
        }
        lemma_lex_le_skip(a1, b1, k - 1);
        assert(a1.subrange(k - 1, a1.len() as int) =~= a.subrange(k, a.len() as int));
        assert(b1.subrange(k - 1, b1.len() as int) =~= b.subrange(k, b.len() as int));
    }
}

/// Whether `a` comes before `b` or equals it in the order of byte strings.
pub fn bytes32_le(a: &[u8; 32], b: &[u8; 32]) -> (r: bool)
    ensures
        r == lex_le(a@, b@),
{
    let mut i: usize = 0;
    while i < 32
        invariant
            i <= 32,
            forall|j: int| 0 <= j < i ==> a@[j] == b@[j],
        decreases 32 - i,
    {
        if a[i] != b[i] {
            proof {
                lemma_lex_le_skip(a@, b@, i as int);
                let ra = a@.subrange(i as int, 32);
                let rb = b@.subrange(i as int, 32);
                assert(ra[0] == a@[i as int]);
                assert(rb[0] == b@[i as int]);
            }
            return a[i] < b[i];
        }
        i = i + 1;
    }
    proof {
        lemma_lex_le_skip(a@, b@, 32);
    }
    true
}

/// The digest that a path of `n` siblings leads to from `leaf`: at each
/// step the digest so far and the sibling are hashed as a pair, the one that
/// comes first in the order of byte strings in front.
pub open spec fn merkle_fold(siblings: Seq<[u8; 32]>, leaf: Seq<u8>, n: int) -> Seq<u8>
    decreases n,
{
    if n <= 0 {
        leaf
    } else {
        let so_far = merkle_fold(siblings, leaf, n - 1);
        let sibling = siblings[n - 1]@;
        if lex_le(so_far, sibling) {
            keccak256(so_far + sibling)
        } else {
            keccak256(sibling + so_far)
        }
    }
}

/// Whether the path `merkle_proof` leads from `leaf` to `root`.
pub fn merkle_verify(merkle_proof: &[[u8; 32]], root: &[u8; 32], leaf: &[u8; 32]) -> (r: bool)
    ensures
        r == (merkle_fold(merkle_proof@, leaf@, merkle_proof@.len() as int) == root@),
{
    let mut computed_hash: [u8; 32] = *leaf;
    let mut i: usize = 0;
    while i < merkle_proof.len()
        invariant
            i <= merkle_proof@.len(),
            computed_hash@ == merkle_fold(merkle_proof@, leaf@, i as int),
        decreases merkle_proof@.len() - i,
    {
        let sibling: &[u8; 32] = &merkle_proof[i];
        if bytes32_le(&computed_hash, sibling) {
            computed_hash = keccak_hashv(&computed_hash, sibling);
        } else {
            computed_hash = keccak_hashv(sibling, &computed_hash);
        }
        i = i + 1;
    }
    crate::state::bytes32_eq(&computed_hash, root)
}

/// The leaf of the whitelist that stands for a user: the digest of the
/// base-58 text of the user's identity.
pub open spec fn whitelist_leaf(user: Seq<u8>) -> Seq<u8> {
    keccak256(base58_text(user))
}

/// The leaf of the whitelist that stands for `user`.
pub fn whitelist_leaf_of(user: &[u8; 32]) -> (leaf: [u8; 32])
    ensures
        leaf@ == whitelist_leaf(user@),
{
    let text = pubkey_text(user);
    let empty: [u8; 0] = [];
    assert(text@ + empty@ =~= text@);
    keccak_hashv(text.as_slice(), &empty)
}

} // verus!
