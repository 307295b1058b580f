//! A binary Merkle hash tree.
//!
//! A tree summarizes an ordered batch of byte blocks into a single root
//! digest: every leaf holds the digest of one block, and every internal node
//! holds the digest of its two children's digests. The root therefore changes
//! whenever any leaf changes, and membership of a block can be tested by
//! digest comparison alone.
//!
//! Digests are the ASCII bytes of the lowercase hexadecimal SHA-256 text, so
//! they can be compared across implementations that use the same framing.

pub mod hashing;
pub mod laws;
pub mod model;
pub mod tree;
