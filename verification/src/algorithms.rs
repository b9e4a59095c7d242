//! The hash algorithms that ship with the crate.

use vstd::prelude::*;
use crate::hasher::Hasher;

verus! {

/// The SHA-256 digest of a message.
pub uninterp spec fn sha256_of(message: Seq<u8>) -> Seq<u8>;

/// The Keccak-256 digest of a message: Keccak with its first padding rule, which
/// SHA3-256 later changed.
pub uninterp spec fn keccak256_of(message: Seq<u8>) -> Seq<u8>;

/// Calls `Digest::digest` of `sha2::Sha256`.
///
/// Trusted: the result is the SHA-256 digest of `message`, a function of the
/// message alone, and it is 32 bytes long.
#[verifier::external_body]
fn sha256(message: &[u8]) -> (out: Vec<u8>)
    ensures
        out@ == sha256_of(message@),
        out@.len() == 32,
{
    <sha2::Sha256 as digest::Digest>::digest(message).to_vec()
}

/// Calls `Digest::digest` of `sha3::Keccak256`.
///
/// Trusted: the result is the Keccak-256 digest of `message`, a function of the
/// message alone, and it is 32 bytes long.
#[verifier::external_body]
fn keccak256(message: &[u8]) -> (out: Vec<u8>)
    ensures
        out@ == keccak256_of(message@),
        out@.len() == 32,
{
    <sha3::Keccak256 as digest::Digest>::digest(message).to_vec()
}

/// SHA-256.
#[derive(Clone, Copy, Debug, PartialEq, Eq, Hash)]
pub struct Sha256;

/// Keccak-256.
#[derive(Clone, Copy, Debug, PartialEq, Eq, Hash)]
pub struct Keccak256;

impl Hasher for Sha256 {
    open spec fn output_len() -> nat {
        32
    }

    open spec fn hash(message: Seq<u8>) -> Seq<u8> {
        sha256_of(message)
    }

    fn output_size() -> (n: usize) {
        32
    }

    fn digest(message: &[u8]) -> (out: Vec<u8>) {
        sha256(message)
    }
}

impl Hasher for Keccak256 {
    open spec fn output_len() -> nat {
        32
    }

    open spec fn hash(message: Seq<u8>) -> Seq<u8> {
        keccak256_of(message)
    }

    fn output_size() -> (n: usize) {
        32
    }

    fn digest(message: &[u8]) -> (out: Vec<u8>) {
        keccak256(message)
    }
}

} // verus!
