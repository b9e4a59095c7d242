//! The two ends of the block pipeline: a producer that cuts the stream of ticks
//! into blocks, and a replica that checks each block before it appends it.
//!
//! How the blocks travel from one to the other (a thread each, and a bounded
//! channel between them) is for the program around this crate.

use vstd::prelude::*;
use crate::checking::{accepts, check_link, rejects, tick_accepted, tick_rejected, verify_with};
use crate::clock::{no_data, tick_spec, ticks, Ticks};
use crate::hasher::Hasher;
use crate::output::Output;

verus! {

/// The tick at index `i` is the tick function applied to the one before it and
/// some commitment.
pub open spec fn derived<H: Hasher>(history: Seq<Output<H>>, i: int) -> bool {
    exists|commitment: Seq<u8>| history[i]@ == #[trigger] tick_spec::<H>(history[i - 1]@, commitment)
}

/// A seed followed by ticks that each derive from the one before.
pub open spec fn is_history<H: Hasher>(history: Seq<Output<H>>) -> bool {
    &&& history.len() >= 1
    &&& forall|i: int| 1 <= i < history.len() ==> #[trigger] derived(history, i)
}

/// [`accepts`] for the tick at index `i` of a block that comes after `last`: the
/// first tick of the block is held against `last`, every other against the one
/// before it in the block.
pub open spec fn block_tick_accepted<H: Hasher, F: Fn(usize, &Output<H>) -> Output<H>>(
    data: F,
    last: Output<H>,
    block: Seq<Output<H>>,
    i: int,
) -> bool {
    accepts(data, i as usize, if i == 0 { last } else { block[i - 1] }, block[i])
}

/// [`rejects`] for the tick at index `i` of a block that comes after `last`.
pub open spec fn block_tick_rejected<H: Hasher, F: Fn(usize, &Output<H>) -> Output<H>>(
    data: F,
    last: Output<H>,
    block: Seq<Output<H>>,
    i: int,
) -> bool {
    rejects(data, i as usize, if i == 0 { last } else { block[i - 1] }, block[i])
}

/// The supplier may be asked about every tick of `block`.
pub open spec fn block_answers<H: Hasher, F: Fn(usize, &Output<H>) -> Output<H>>(
    data: F,
    block: Seq<Output<H>>,
) -> bool {
    forall|i: int| 0 <= i < block.len() ==> call_requires(data, (i as usize, &#[trigger] block[i]))
}

/// What [`Replica::accept`] may return for a block that comes after `last`:
/// success when every tick of the block was found to follow its predecessor, and
/// otherwise the index in the block of the first tick that was found not to.
pub open spec fn block_outcome<H: Hasher, F: Fn(usize, &Output<H>) -> Output<H>>(
    data: F,
    last: Output<H>,
    block: Seq<Output<H>>,
    result: Result<(), usize>,
) -> bool {
    match result {
        Ok(()) => forall|i: int|
            0 <= i < block.len() ==> #[trigger] block_tick_accepted(data, last, block, i),
        Err(k) => {
            &&& k < block.len()
            &&& block_tick_rejected(data, last, block, k as int)
            &&& forall|i: int| 0 <= i < k ==> #[trigger] block_tick_accepted(data, last, block, i)
        },
    }
}

/// The verifier's own copy of the history. It starts as the seed alone and grows
/// by whole blocks, each checked before it is appended.
#[derive(Debug)]
pub struct Replica<H: Hasher> {
    history: Vec<Output<H>>,
}

impl<H: Hasher> View for Replica<H> {
    type V = Seq<Output<H>>;

    closed spec fn view(&self) -> Seq<Output<H>> {
        self.history@
    }
}

impl<H: Hasher> Replica<H> {
    /// The replica holds a history: a seed, then ticks that each derive from the
    /// one before. Every replica that this crate hands out does.
    pub open spec fn wf(&self) -> bool {
        is_history(self@)
    }

    /// A replica of the chain that starts at `seed`.
    pub fn new(seed: Output<H>) -> (replica: Self)
        ensures
            replica.wf(),
            replica@ == seq![seed],
    {
        let mut history: Vec<Output<H>> = Vec::new();
        history.push(seed);
        Replica { history }
    }

    /// The history so far: the seed, then every tick of every block accepted.
    pub fn history(&self) -> (history: &[Output<H>])
        ensures
            history@ == self@,
    {
        self.history.as_slice()
    }

    /// Gives up the replica for its history.
    pub fn into_history(self) -> (history: Vec<Output<H>>)
        ensures
            history@ == self@,
    {
        self.history
    }

    /// The last tick of the history: the one the next block has to continue from.
    pub fn last(&self) -> (last: &Output<H>)
        requires
            self.wf(),
        ensures
            *last == self@.last(),
    {
        &self.history[self.history.len() - 1]
    }

    /// Takes the next block off the pipeline.
    ///
    /// The first tick of the block is checked against the last tick of the
    /// history, so that a tick lost or reordered between two blocks does not go
    /// unseen; then the block is verified in itself; then it is appended. `data` is
    /// asked about each tick with the index of the tick in the block.
    ///
    /// Returns `Err` with the index in the block of the first tick that does not
    /// follow from its predecessor, and leaves the history as it was.
    pub fn accept<F>(&mut self, block: Vec<Output<H>>, data: F) -> (result: Result<(), usize>)
        where
            H: Sync,
            F: Sync + Fn(usize, &Output<H>) -> Output<H>,
        requires
            old(self).wf(),
            block_answers(data, block@),
        ensures
            final(self).wf(),
            block_outcome(data, old(self)@.last(), block@, result),
            result is Ok ==> final(self)@ == old(self)@ + block@,
            result is Err ==> final(self)@ == old(self)@,
    {
        let mut block = block;
        let ghost before = self.history@;
        let ghost added = block@;
        if block.len() > 0 {
            let last = &self.history[self.history.len() - 1];
            if !check_link(0, last, &block[0], &data) {
                return Err(0);
            }
        }
        match verify_with(block.as_slice(), &data) {
            Err(k) => {
                assert forall|i: int| 0 <= i < k implies #[trigger] block_tick_accepted(
                    data,
                    before.last(),
                    added,
                    i,
                ) by {
                    if i > 0 {
                        assert(tick_accepted(data, added, i));
                    }
                }
                Err(k)
            },
            Ok(()) => {
                assert forall|i: int| 0 <= i < added.len() implies #[trigger] block_tick_accepted(
                    data,
                    before.last(),
                    added,
                    i,
                ) by {
                    if i > 0 {
                        assert(tick_accepted(data, added, i));
                    }
                }
                self.history.append(&mut block);
                proof {
                    let after = self.history@;
                    assert forall|i: int| 1 <= i < after.len() implies #[trigger] derived(
                        after,
                        i,
                    ) by {
                        if i < before.len() {
                            assert(derived(before, i));
                            assert(after[i] == before[i] && after[i - 1] == before[i - 1]);
                        } else {
                            let j = i - before.len();
                            assert(block_tick_accepted(data, before.last(), added, j));
                            assert(after[i - 1] == if j == 0 {
                                before.last()
                            } else {
                                added[j - 1]
                            });
                        }
                    }
                }
                Ok(())
            },
        }
    }
}

/// The tick at index `i` of a block that comes after `last` follows its
/// predecessor under the commitment of position `i`.
pub open spec fn continued<H: Hasher>(
    last: Output<H>,
    block: Seq<Output<H>>,
    commitment: spec_fn(int) -> Seq<u8>,
    i: int,
) -> bool {
    block[i]@ == tick_spec::<H>((if i == 0 { last } else { block[i - 1] })@, commitment(i))
}

/// The block carries the chain on from `last`: its first tick follows `last`, and
/// every other tick follows the one before it.
pub open spec fn continues<H: Hasher>(
    last: Output<H>,
    block: Seq<Output<H>>,
    commitment: spec_fn(int) -> Seq<u8>,
) -> bool {
    forall|i: int| 0 <= i < block.len() ==> #[trigger] continued(last, block, commitment, i)
}

/// Whenever the supplier is asked about a tick of `block`, its answer is the
/// commitment of that position in the block, and nothing else.
pub open spec fn block_supplies<H: Hasher, F: Fn(usize, &Output<H>) -> Output<H>>(
    data: F,
    block: Seq<Output<H>>,
    commitment: spec_fn(int) -> Seq<u8>,
) -> bool {
    forall|i: int, d: Output<H>|
        0 <= i < block.len() && #[trigger] call_ensures(data, (i as usize, &block[i]), d) ==> d@
            == commitment(i)
}

/// With a supplier that answers in one way only, a replica accepts a block
/// exactly when the block carries the chain on from the last tick of its history;
/// otherwise it names the first tick of the block that does not.
pub proof fn lemma_block_outcome_exact<H: Hasher, F: Fn(usize, &Output<H>) -> Output<H>>(
    data: F,
    last: Output<H>,
    block: Seq<Output<H>>,
    commitment: spec_fn(int) -> Seq<u8>,
    result: Result<(), usize>,
)
    requires
        block_supplies(data, block, commitment),
        block_outcome(data, last, block, result),
    ensures
        result is Ok <==> continues(last, block, commitment),
        result is Err ==> {
            let k = result->Err_0 as int;
            &&& 0 <= k < block.len()
            &&& !continued(last, block, commitment, k)
            &&& forall|i: int| 0 <= i < k ==> #[trigger] continued(last, block, commitment, i)
        },
{
    let bound = match result {
        Ok(()) => block.len() as int,
        Err(k) => k as int,
    };
    assert forall|i: int| 0 <= i < bound implies #[trigger] continued(
        last,
        block,
        commitment,
        i,
    ) by {
        assert(block_tick_accepted(data, last, block, i));
    }
    if let Err(k) = result {
        assert(!continued(last, block, commitment, k as int));
    }
}

/// The producer's side of the pipeline: a clock, and the ticks it has produced
/// since the last block was cut.
#[derive(Debug)]
pub struct Producer<H: Hasher> {
    clock: Ticks<H>,
    pending: Vec<Output<H>>,
    block_size: usize,
}

/// What a [`Producer`] holds.
pub struct ProducerView<H: Hasher> {
    /// The last tick produced, or the seed if there is none yet.
    pub current: Seq<u8>,
    /// The ticks produced since the last block was cut, oldest first.
    pub pending: Seq<Output<H>>,
    /// The number of ticks in a block.
    pub block_size: usize,
}

impl<H: Hasher> ProducerView<H> {
    /// The pending ticks fill a block. No block is empty: a producer that was
    /// asked for blocks of no ticks cuts blocks of one.
    pub open spec fn block_ready(self) -> bool {
        self.pending.len() >= self.block_size && self.pending.len() >= 1
    }

    /// The state after the tick `out` was produced.
    pub open spec fn advanced(self, next: Self, out: Output<H>) -> bool {
        &&& next.current == out@
        &&& next.block_size == self.block_size
        &&& next.pending.len() == self.pending.len() + 1
        &&& next.pending.drop_last() == self.pending
        &&& next.pending.last()@ == out@
    }
}

impl<H: Hasher> View for Producer<H> {
    type V = ProducerView<H>;

    closed spec fn view(&self) -> ProducerView<H> {
        ProducerView { current: self.clock@, pending: self.pending@, block_size: self.block_size }
    }
}

impl<H: Hasher> Producer<H> {
    /// A producer whose clock starts at `seed` and that cuts blocks of `block_size` ticks.
    pub fn new(seed: Output<H>, block_size: usize) -> (producer: Self)
        ensures
            producer@.current == seed@,
            producer@.pending == Seq::<Output<H>>::empty(),
            producer@.block_size == block_size,
    {
        Producer { clock: ticks(seed), pending: Vec::new(), block_size }
    }

    /// Produces the next tick, which carries no data, and keeps a copy for the block.
    pub fn next(&mut self) -> (out: Output<H>)
        ensures
            out@ == tick_spec::<H>(old(self)@.current, no_data::<H>()),
            old(self)@.advanced(final(self)@, out),
    {
        let out = self.clock.next();
        self.pending.push(out.clone());
        assert(self.pending@.drop_last() =~= old(self).pending@);
        out
    }

    /// Produces the next tick, which commits to `data`, and keeps a copy for the block.
    pub fn next_with_data(&mut self, data: &Output<H>) -> (out: Output<H>)
        ensures
            out@ == tick_spec::<H>(old(self)@.current, data@),
            old(self)@.advanced(final(self)@, out),
    {
        let out = self.clock.next_with_data(data);
        self.pending.push(out.clone());
        assert(self.pending@.drop_last() =~= old(self).pending@);
        out
    }

    /// Cuts the block, once the pending ticks fill one: the block is to be handed
    /// to the verifier, and the producer starts the next one. Until then there is
    /// nothing to hand over.
    pub fn take_block(&mut self) -> (block: Option<Vec<Output<H>>>)
        ensures
            final(self)@.current == old(self)@.current,
            final(self)@.block_size == old(self)@.block_size,
            match block {
                Some(ticks) => {
                    &&& old(self)@.block_ready()
                    &&& ticks@ == old(self)@.pending
                    &&& final(self)@.pending == Seq::<Output<H>>::empty()
                },
                None => !old(self)@.block_ready() && final(self)@.pending == old(self)@.pending,
            },
    {
        if self.pending.len() >= self.block_size && self.pending.len() >= 1 {
            let mut block: Vec<Output<H>> = Vec::new();
            block.append(&mut self.pending);
            Some(block)
        } else {
            None
        }
    }
}

} // verus!
