//! Digest outputs: the values a chain is made of.

use vstd::prelude::*;
use std::marker::PhantomData;
use crate::hasher::Hasher;

verus! {

/// The all-zero byte string of width `len`: the commitment of a tick that carries no data.
pub open spec fn zeros(len: nat) -> Seq<u8> {
    Seq::new(len, |i: int| 0u8)
}

/// Compares two byte strings.
pub fn bytes_equal(a: &[u8], b: &[u8]) -> (same: bool)
    ensures
        same == (a@ == b@),
{
    if a.len() != b.len() {
        return false;
    }
    let mut i: usize = 0;
    while i < a.len()
        invariant
            a@.len() == b@.len(),
            i <= a@.len(),
            forall|j: int| 0 <= j < i ==> a@[j] == b@[j],
        decreases a@.len() - i,
    {
        if a[i] != b[i] {
            return false;
        }
        i += 1;
    }
    assert(a@ =~= b@);
    true
}

/// A digest produced by the algorithm `H`: a seed, a tick or a data commitment.
///
/// Every value holds exactly `H::output_len()` bytes, so the digests of two
/// algorithms of different widths cannot meet in one chain.
#[derive(Debug, Hash)]
pub struct Output<H: Hasher> {
    bytes: Vec<u8>,
    algorithm: PhantomData<H>,
}

impl<H: Hasher> View for Output<H> {
    type V = Seq<u8>;

    closed spec fn view(&self) -> Seq<u8> {
        self.bytes@
    }
}

impl<H: Hasher> Output<H> {
    #[verifier::type_invariant]
    spec fn has_output_len(&self) -> bool {
        self.bytes@.len() == H::output_len()
    }

    /// Takes `bytes` as a digest if they have the width of `H`.
    pub fn from_bytes(bytes: Vec<u8>) -> (out: Option<Self>)
        ensures
            out is Some <==> bytes@.len() == H::output_len(),
            out is Some ==> out->0@ == bytes@,
    {
        if bytes.len() == H::output_size() {
            Some(Output { bytes, algorithm: PhantomData })
        } else {
            None
        }
    }

    /// The digest of `message`: a seed made from known data, or the commitment to a payload.
    pub fn digest(message: &[u8]) -> (out: Self)
        ensures
            out@ == H::hash(message@),
            out@.len() == H::output_len(),
    {
        Output { bytes: H::digest(message), algorithm: PhantomData }
    }

    /// The all-zero digest.
    pub fn zero() -> (out: Self)
        ensures
            out@ == zeros(H::output_len()),
    {
        let n = H::output_size();
        let mut bytes: Vec<u8> = Vec::new();
        while bytes.len() < n
            invariant
                n == H::output_len(),
                bytes@.len() <= n,
                forall|j: int| 0 <= j < bytes@.len() ==> bytes@[j] == 0u8,
            decreases n - bytes@.len(),
        {
            bytes.push(0u8);
        }
        Output { bytes, algorithm: PhantomData }
    }

    /// The bytes of the digest.
    pub fn as_bytes(&self) -> (bytes: &[u8])
        ensures
            bytes@ == self@,
            bytes@.len() == H::output_len(),
    {
        proof {
            use_type_invariant(self);
        }
        self.bytes.as_slice()
    }
}

impl<H: Hasher> Clone for Output<H> {
    fn clone(&self) -> (out: Self)
        ensures
            out@ == self@,
    {
        proof {
            use_type_invariant(self);
        }
        let bytes = self.bytes.clone();
        Output { bytes, algorithm: PhantomData }
    }
}

impl<H: Hasher> Default for Output<H> {
    fn default() -> (out: Self)
        ensures
            out@ == zeros(H::output_len()),
    {
        Self::zero()
    }
}

impl<H: Hasher> PartialEq for Output<H> {
    fn eq(&self, other: &Self) -> (same: bool) {
        bytes_equal(self.bytes.as_slice(), other.bytes.as_slice())
    }
}

impl<H: Hasher> vstd::std_specs::cmp::PartialEqSpecImpl for Output<H> {
    open spec fn obeys_eq_spec() -> bool {
        true
    }

    open spec fn eq_spec(&self, other: &Self) -> bool {
        self@ == other@
    }
}

impl<H: Hasher> Eq for Output<H> {}

} // verus!
