//! The digest function: SHA-256, rendered as lowercase hexadecimal text.
//!
//! Every digest in the tree is produced by one pipeline: feed an ordered
//! sequence of byte parts into a single SHA-256 context, finalize, and take
//! the ASCII bytes of the lowercase hexadecimal text of the result. A leaf
//! digest feeds one part, the raw block; an internal digest feeds two
//! parts, the children's digests, which hashes their concatenation. The two
//! framings are expected never to collide, as distinct SHA-256 inputs are
//! expected never to share a digest; that is a cryptographic assumption, not
//! something stated of the digest function here.

use vstd::prelude::*;

verus! {

/// The digest that the SHA-256 hex pipeline returns for an ordered sequence
/// of input parts. What the bytes are takes the whole SHA-256 algorithm to
/// state, so the value is left unspecified; it is a function of the parts
/// alone, the same in every process and on every machine.
pub uninterp spec fn sha256_hex_of(parts: Seq<Seq<u8>>) -> Seq<u8>;

/// The digest of a single data block, as it appears in a leaf.
pub open spec fn leaf_hash(block: Seq<u8>) -> Seq<u8> {
    sha256_hex_of(seq![block])
}

/// The digest of an internal node from its two children's digests.
pub open spec fn pair_hash(left: Seq<u8>, right: Seq<u8>) -> Seq<u8> {
    sha256_hex_of(seq![left, right])
}

/// Relies on `crypto::sha2::Sha256` with `crypto::digest::Digest::input` and
/// `result_str`: feeding the parts in order into one context and finalizing
/// returns the lowercase hexadecimal text of the SHA-256 digest, a
/// deterministic function of the fed bytes alone.
#[verifier::external_body]
pub(crate) fn sha256_hasher(parts: &Vec<Vec<u8>>) -> (r: Vec<u8>)
    ensures
        r@ == sha256_hex_of(parts@.map_values(|p: Vec<u8>| p@)),
{
    let mut hasher = crypto::sha2::Sha256::new();
    for part in parts.iter() {
        crypto::digest::Digest::input(&mut hasher, part);
    }
    crypto::digest::Digest::result_str(&mut hasher).into_bytes()
}

} // verus!
