//! What it means for a sequence of ticks to be a chain, and what [`verify`]
//! therefore answers.
//!
//! [`verify`]: crate::checking::verify

use vstd::prelude::*;
use crate::checking::{outcome, tick_accepted, tick_rejected};
use crate::clock::tick_spec;
use crate::hasher::Hasher;
use crate::output::Output;

verus! {

/// The tick at index `i` follows the one before it under the commitment of position `i`.
pub open spec fn chained<H: Hasher>(
    ticks: Seq<Output<H>>,
    commitment: spec_fn(int) -> Seq<u8>,
    i: int,
) -> bool {
    ticks[i]@ == tick_spec::<H>(ticks[i - 1]@, commitment(i))
}

/// Every tick but the first follows the one before it: `ticks` is what comes of
/// applying the tick function again and again, starting at `ticks[0]`.
pub open spec fn is_chain<H: Hasher>(
    ticks: Seq<Output<H>>,
    commitment: spec_fn(int) -> Seq<u8>,
) -> bool {
    forall|i: int| 1 <= i < ticks.len() ==> #[trigger] chained(ticks, commitment, i)
}

/// The tick at index `k` is the first that does not follow the one before it.
pub open spec fn breaks_at<H: Hasher>(
    ticks: Seq<Output<H>>,
    commitment: spec_fn(int) -> Seq<u8>,
    k: int,
) -> bool {
    &&& 1 <= k < ticks.len()
    &&& !chained(ticks, commitment, k)
    &&& forall|i: int| 1 <= i < k ==> #[trigger] chained(ticks, commitment, i)
}

/// Whenever the supplier is asked about a tick of `ticks`, its answer is the
/// commitment of that position, and nothing else.
pub open spec fn supplies<H: Hasher, F: Fn(usize, &Output<H>) -> Output<H>>(
    data: F,
    ticks: Seq<Output<H>>,
    commitment: spec_fn(int) -> Seq<u8>,
) -> bool {
    forall|i: int, d: Output<H>|
        1 <= i < ticks.len() && #[trigger] call_ensures(data, (i as usize, &ticks[i]), d) ==> d@
            == commitment(i)
}

/// With a supplier that answers in one way only, the result of verification is
/// fixed by the ticks and the commitments: success exactly for a chain, and
/// otherwise the index of the first tick that breaks it.
pub proof fn lemma_outcome_exact<H: Hasher, F: Fn(usize, &Output<H>) -> Output<H>>(
    data: F,
    ticks: Seq<Output<H>>,
    commitment: spec_fn(int) -> Seq<u8>,
    result: Result<(), usize>,
)
    requires
        supplies(data, ticks, commitment),
        outcome(data, ticks, result),
    ensures
        result is Ok <==> is_chain(ticks, commitment),
        result is Err ==> breaks_at(ticks, commitment, result->Err_0 as int),
        forall|k: int| #[trigger] breaks_at(ticks, commitment, k) ==> result == Err::<(), usize>(k as usize),
{
    let bound = match result {
        Ok(()) => ticks.len() as int,
        Err(k) => k as int,
    };
    assert forall|i: int| 1 <= i < bound implies #[trigger] chained(ticks, commitment, i) by {
        assert(tick_accepted(data, ticks, i));
    }
    if let Err(k) = result {
        assert(!chained(ticks, commitment, k as int));
    }
}

/// A sequence generated by the tick function verifies: if every tick but the
/// first is the tick function applied to its predecessor and the commitment of its
/// position, and the supplier hands out those same commitments, verification succeeds.
pub proof fn lemma_chain_verifies<H: Hasher, F: Fn(usize, &Output<H>) -> Output<H>>(
    data: F,
    ticks: Seq<Output<H>>,
    commitment: spec_fn(int) -> Seq<u8>,
    result: Result<(), usize>,
)
    requires
        is_chain(ticks, commitment),
        supplies(data, ticks, commitment),
        outcome(data, ticks, result),
    ensures
        result is Ok,
{
    lemma_outcome_exact(data, ticks, commitment, result);
}

/// Verifying the same ticks again, with a supplier that answers in one way only,
/// gives the same result.
pub proof fn lemma_verification_repeats<H: Hasher, F: Fn(usize, &Output<H>) -> Output<H>>(
    data: F,
    ticks: Seq<Output<H>>,
    commitment: spec_fn(int) -> Seq<u8>,
    first: Result<(), usize>,
    second: Result<(), usize>,
)
    requires
        supplies(data, ticks, commitment),
        outcome(data, ticks, first),
        outcome(data, ticks, second),
    ensures
        first == second,
{
    lemma_outcome_exact(data, ticks, commitment, first);
    lemma_outcome_exact(data, ticks, commitment, second);
    if let (Ok(a), Ok(b)) = (first, second) {
        assert(a == b);
    }
}

/// Where a sequence first departs from a chain, verification fails, and names
/// that place: if `altered` agrees with the chain `ticks` before index `k` and
/// differs from it at `k`, under the same commitments, the result is `Err(k)`.
pub proof fn lemma_first_difference_reported<H: Hasher, F: Fn(usize, &Output<H>) -> Output<H>>(
    data: F,
    ticks: Seq<Output<H>>,
    altered: Seq<Output<H>>,
    commitment: spec_fn(int) -> Seq<u8>,
    k: int,
    result: Result<(), usize>,
)
    requires
        is_chain(ticks, commitment),
        altered.len() == ticks.len(),
        1 <= k < ticks.len(),
        forall|i: int| 0 <= i < k ==> altered[i]@ == ticks[i]@,
        altered[k]@ != ticks[k]@,
        supplies(data, altered, commitment),
        outcome(data, altered, result),
    ensures
        result == Err::<(), usize>(k as usize),
{
    assert forall|i: int| 1 <= i < k implies #[trigger] chained(altered, commitment, i) by {
        assert(chained(ticks, commitment, i));
    }
    assert(chained(ticks, commitment, k));
    assert(breaks_at(altered, commitment, k));
    lemma_outcome_exact(data, altered, commitment, result);
}

/// Changing one tick of a chain, other than the first, in any way (be it a single
/// bit) makes verification fail at that tick, as long as the supplier still hands
/// out the commitments the chain was made with.
pub proof fn lemma_altered_tick_reported<H: Hasher, F: Fn(usize, &Output<H>) -> Output<H>>(
    data: F,
    ticks: Seq<Output<H>>,
    altered: Seq<Output<H>>,
    commitment: spec_fn(int) -> Seq<u8>,
    k: int,
    result: Result<(), usize>,
)
    requires
        is_chain(ticks, commitment),
        altered.len() == ticks.len(),
        1 <= k < ticks.len(),
        forall|i: int| 0 <= i < ticks.len() && i != k ==> altered[i]@ == ticks[i]@,
        altered[k]@ != ticks[k]@,
        supplies(data, altered, commitment),
        outcome(data, altered, result),
    ensures
        result == Err::<(), usize>(k as usize),
{
    lemma_first_difference_reported(data, ticks, altered, commitment, k, result);
}

/// Changing two ticks of a chain, neither of them the first, makes verification
/// fail at the one that comes earlier, as long as the supplier still hands out
/// the commitments the chain was made with.
pub proof fn lemma_earlier_of_two_reported<H: Hasher, F: Fn(usize, &Output<H>) -> Output<H>>(
    data: F,
    ticks: Seq<Output<H>>,
    altered: Seq<Output<H>>,
    commitment: spec_fn(int) -> Seq<u8>,
    j: int,
    k: int,
    result: Result<(), usize>,
)
    requires
        is_chain(ticks, commitment),
        altered.len() == ticks.len(),
        1 <= j < k < ticks.len(),
        forall|i: int| 0 <= i < ticks.len() && i != j && i != k ==> altered[i]@ == ticks[i]@,
        altered[j]@ != ticks[j]@,
        altered[k]@ != ticks[k]@,
        supplies(data, altered, commitment),
        outcome(data, altered, result),
    ensures
        result == Err::<(), usize>(j as usize),
{
    lemma_first_difference_reported(data, ticks, altered, commitment, j, result);
}

/// The check across the boundary of two blocks: verifying the window made of the
/// last tick of the history and the first tick of a new block succeeds exactly when
/// that first tick was derived from that last tick, and otherwise fails at index 1.
pub proof fn lemma_boundary_window<H: Hasher, F: Fn(usize, &Output<H>) -> Output<H>>(
    data: F,
    last: Output<H>,
    first: Output<H>,
    commitment: spec_fn(int) -> Seq<u8>,
    result: Result<(), usize>,
)
    requires
        supplies(data, seq![last, first], commitment),
        outcome(data, seq![last, first], result),
    ensures
        result is Ok <==> first@ == tick_spec::<H>(last@, commitment(1)),
        result is Err ==> result == Err::<(), usize>(1),
{
    let window = seq![last, first];
    lemma_outcome_exact(data, window, commitment, result);
    if first@ == tick_spec::<H>(last@, commitment(1)) {
        assert forall|i: int| 1 <= i < window.len() implies #[trigger] chained(
            window,
            commitment,
            i,
        ) by {}
    } else {
        assert(!chained(window, commitment, 1));
    }
}

/// A first tick that was derived from another seed than the last tick of the
/// history does not pass the check across the boundary, unless the two seeds
/// lead to the same tick.
pub proof fn lemma_boundary_other_seed<H: Hasher, F: Fn(usize, &Output<H>) -> Output<H>>(
    data: F,
    last: Output<H>,
    other: Output<H>,
    first: Output<H>,
    commitment: spec_fn(int) -> Seq<u8>,
    result: Result<(), usize>,
)
    requires
        first@ == tick_spec::<H>(other@, commitment(1)),
        tick_spec::<H>(other@, commitment(1)) != tick_spec::<H>(last@, commitment(1)),
        supplies(data, seq![last, first], commitment),
        outcome(data, seq![last, first], result),
    ensures
        result == Err::<(), usize>(1),
{
    lemma_boundary_window(data, last, first, commitment, result);
}

} // verus!
