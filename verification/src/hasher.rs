//! The hash algorithm behind a chain, as a capability the rest of the crate is generic over.

use vstd::prelude::*;

verus! {

/// A cryptographic hash function with a fixed output width.
///
/// The clock, the generator and the verifier never look inside a digest: they only
/// need a deterministic function from messages to digests of one width. `hash` is
/// that function; `digest` computes it.
pub trait Hasher {
    /// The width, in bytes, of every digest.
    spec fn output_len() -> nat;

    /// The digest of `message`.
    spec fn hash(message: Seq<u8>) -> Seq<u8>;

    /// The width of a digest, as a run-time value.
    fn output_size() -> (n: usize)
        ensures
            n == Self::output_len(),
    ;

    /// Hashes `message`.
    fn digest(message: &[u8]) -> (out: Vec<u8>)
        ensures
            out@ == Self::hash(message@),
            out@.len() == Self::output_len(),
    ;
}

} // verus!
