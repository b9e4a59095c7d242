//! The tick function and the generator that carries it forward.

use vstd::prelude::*;
use crate::hasher::Hasher;
use crate::output::{zeros, Output};

verus! {

/// The tick that follows `seed` when `data` is mixed in: the digest of the two, concatenated.
pub open spec fn tick_spec<H: Hasher>(seed: Seq<u8>, data: Seq<u8>) -> Seq<u8> {
    H::hash(seed + data)
}

/// The commitment of a tick that carries no data.
pub open spec fn no_data<H: Hasher>() -> Seq<u8> {
    zeros(H::output_len())
}

/// One unit of work of the clock: hashes `seed`, the seed of the chain or its
/// previous tick, together with `data`, the commitment to whatever the tick carries
/// (`Output::zero()` if it carries nothing).
///
/// Both inputs have the width of a digest, so every tick costs one hash of the same size.
pub fn tick<H: Hasher>(seed: &Output<H>, data: &Output<H>) -> (out: Output<H>)
    ensures
        out@ == tick_spec::<H>(seed@, data@),
        out@.len() == H::output_len(),
{
    let mut message: Vec<u8> = Vec::new();
    message.extend_from_slice(seed.as_bytes());
    message.extend_from_slice(data.as_bytes());
    assert(message@ =~= seed@ + data@);
    Output::digest(message.as_slice())
}

/// A running clock: it remembers the last tick (at first the seed) and hands it to
/// [`tick`] on each call of `next` or `next_with_data`.
#[derive(Debug)]
pub struct Ticks<H: Hasher> {
    seed: Output<H>,
}

impl<H: Hasher> View for Ticks<H> {
    type V = Seq<u8>;

    /// The last tick produced, or the seed if there is none yet.
    closed spec fn view(&self) -> Seq<u8> {
        self.seed@
    }
}

impl<H: Hasher> Ticks<H> {
    /// Produces the next tick, which carries no data.
    pub fn next(&mut self) -> (out: Output<H>)
        ensures
            out@ == tick_spec::<H>(old(self)@, no_data::<H>()),
            final(self)@ == out@,
    {
        let data = Output::<H>::zero();
        self.next_with_data(&data)
    }

    /// Produces the next tick, which commits to `data`.
    pub fn next_with_data(&mut self, data: &Output<H>) -> (out: Output<H>)
        ensures
            out@ == tick_spec::<H>(old(self)@, data@),
            final(self)@ == out@,
    {
        self.seed = tick::<H>(&self.seed, data);
        self.seed.clone()
    }

    /// The last tick produced, or the seed if there is none yet.
    pub fn current(&self) -> (out: &Output<H>)
        ensures
            out@ == self@,
    {
        &self.seed
    }
}

impl<H: Hasher> Clone for Ticks<H> {
    /// An independent clock that continues from the same point.
    fn clone(&self) -> (out: Self)
        ensures
            out@ == self@,
    {
        Ticks { seed: self.seed.clone() }
    }
}

/// Starts a clock at `seed`. Each call of `next` on it yields the tick after the
/// one before, without end.
pub fn ticks<H: Hasher>(seed: Output<H>) -> (out: Ticks<H>)
    ensures
        out@ == seed@,
{
    Ticks { seed }
}

} // verus!
