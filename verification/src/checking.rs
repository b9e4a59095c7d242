//! Checking a sequence of ticks against the tick function.

use vstd::prelude::*;
use rayon::iter::{IndexedParallelIterator, ParallelIterator};
use rayon::slice::ParallelSlice;
use crate::clock::{tick, tick_spec};
use crate::hasher::Hasher;
use crate::output::{bytes_equal, Output};

verus! {

/// The supplier can answer, for the tick `cur` at `position`, with a commitment
/// under which `cur` follows `prev`.
pub open spec fn accepts<H: Hasher, F: Fn(usize, &Output<H>) -> Output<H>>(
    data: F,
    position: usize,
    prev: Output<H>,
    cur: Output<H>,
) -> bool {
    exists|d: Output<H>| #[trigger]
        call_ensures(data, (position, &cur), d) && cur@ == tick_spec::<H>(prev@, d@)
}

/// The supplier can answer, for the tick `cur` at `position`, with a commitment
/// under which `cur` does not follow `prev`.
pub open spec fn rejects<H: Hasher, F: Fn(usize, &Output<H>) -> Output<H>>(
    data: F,
    position: usize,
    prev: Output<H>,
    cur: Output<H>,
) -> bool {
    exists|d: Output<H>| #[trigger]
        call_ensures(data, (position, &cur), d) && cur@ != tick_spec::<H>(prev@, d@)
}

/// `accepts` for the tick at index `i` of `ticks` and the one before it.
pub open spec fn tick_accepted<H: Hasher, F: Fn(usize, &Output<H>) -> Output<H>>(
    data: F,
    ticks: Seq<Output<H>>,
    i: int,
) -> bool {
    accepts(data, i as usize, ticks[i - 1], ticks[i])
}

/// `rejects` for the tick at index `i` of `ticks` and the one before it.
pub open spec fn tick_rejected<H: Hasher, F: Fn(usize, &Output<H>) -> Output<H>>(
    data: F,
    ticks: Seq<Output<H>>,
    i: int,
) -> bool {
    rejects(data, i as usize, ticks[i - 1], ticks[i])
}

/// The supplier may be asked about every tick of `ticks` but the first.
pub open spec fn answers<H: Hasher, F: Fn(usize, &Output<H>) -> Output<H>>(
    data: F,
    ticks: Seq<Output<H>>,
) -> bool {
    forall|i: int| 1 <= i < ticks.len() ==> call_requires(data, (i as usize, &#[trigger] ticks[i]))
}

/// What [`verify`] may return for `ticks` and the supplier `data`: success when
/// every tick but the first was found to follow its predecessor, and otherwise
/// the index of the first tick that was found not to.
pub open spec fn outcome<H: Hasher, F: Fn(usize, &Output<H>) -> Output<H>>(
    data: F,
    ticks: Seq<Output<H>>,
    result: Result<(), usize>,
) -> bool {
    match result {
        Ok(()) => forall|i: int| 1 <= i < ticks.len() ==> #[trigger] tick_accepted(data, ticks, i),
        Err(k) => {
            &&& 1 <= k < ticks.len()
            &&& tick_rejected(data, ticks, k as int)
            &&& forall|i: int| 1 <= i < k ==> #[trigger] tick_accepted(data, ticks, i)
        },
    }
}

/// Asks the supplier for the commitment of `cur`, the tick at `position`, and
/// tells whether `cur` is the tick that follows `prev` under it.
pub fn check_link<H, F>(position: usize, prev: &Output<H>, cur: &Output<H>, data: &F) -> (ok: bool)
    where
        H: Hasher,
        F: Fn(usize, &Output<H>) -> Output<H>,
    requires
        call_requires(*data, (position, cur)),
    ensures
        ok ==> accepts(*data, position, *prev, *cur),
        !ok ==> rejects(*data, position, *prev, *cur),
{
    let commitment = data(position, cur);
    let expected = tick::<H>(prev, &commitment);
    bytes_equal(expected.as_bytes(), cur.as_bytes())
}

/// [`check_link`] for the window of two ticks that starts at index `window`: its
/// second tick stands at `window + 1`.
fn check_window<H, F>(window: usize, prev: &Output<H>, cur: &Output<H>, data: &F) -> (ok: bool)
    where
        H: Hasher,
        F: Fn(usize, &Output<H>) -> Output<H>,
    requires
        window < usize::MAX,
        call_requires(*data, ((window + 1) as usize, cur)),
    ensures
        ok ==> accepts(*data, (window + 1) as usize, *prev, *cur),
        !ok ==> rejects(*data, (window + 1) as usize, *prev, *cur),
{
    check_link(window + 1, prev, cur, data)
}

/// `check_window` may be called on the window of `ticks` that starts at `w`.
spec fn window_checkable<H: Hasher, F: Fn(usize, &Output<H>) -> Output<H>>(
    ticks: Seq<Output<H>>,
    data: &F,
    w: int,
) -> bool {
    call_requires(check_window::<H, F>, (w as usize, &ticks[w], &ticks[w + 1], data))
}

/// `ok` is what a call of `check_window` on the window of `ticks` that starts at `w` returned.
spec fn window_checked<H: Hasher, F: Fn(usize, &Output<H>) -> Output<H>>(
    ticks: Seq<Output<H>>,
    data: &F,
    w: int,
    ok: bool,
) -> bool {
    call_ensures(check_window::<H, F>, (w as usize, &ticks[w], &ticks[w + 1], data), ok)
}

/// Runs `check_window` on every window of two adjacent ticks, in parallel, through
/// rayon's `par_windows`, `enumerate`, `map` and `collect`.
///
/// Trusted: there is one result for each window, in the order of the windows, and
/// each is what one call of `check_window` on that window and its index returned.
#[verifier::external_body]
fn par_check_windows<H, F>(ticks: &[Output<H>], data: &F) -> (checks: Vec<bool>)
    where
        H: Hasher + Sync,
        F: Sync + Fn(usize, &Output<H>) -> Output<H>,
    requires
        forall|w: int| 0 <= w < ticks@.len() - 1 ==> #[trigger] window_checkable(ticks@, data, w),
    ensures
        ticks@.len() == 0 ==> checks@.len() == 0,
        ticks@.len() > 0 ==> checks@.len() == ticks@.len() - 1,
        forall|w: int| 0 <= w < checks@.len() ==> window_checked(ticks@, data, w, #[trigger] checks@[w]),
{
    ticks.par_windows(2).enumerate().map(|(w, pair)| check_window(w, &pair[0], &pair[1], data)).collect()
}

/// Finds the first failed check: `checks[w]` tells whether the tick at `w + 1`
/// follows the tick at `w`, and the result names the first tick that does not.
pub fn first_broken(checks: &[bool]) -> (result: Result<(), usize>)
    ensures
        match result {
            Ok(()) => forall|w: int| 0 <= w < checks@.len() ==> checks@[w],
            Err(k) => {
                &&& 1 <= k <= checks@.len()
                &&& !checks@[k - 1]
                &&& forall|w: int| 0 <= w < k - 1 ==> checks@[w]
            },
        },
{
    let mut w: usize = 0;
    while w < checks.len()
        invariant
            w <= checks@.len(),
            forall|v: int| 0 <= v < w ==> checks@[v],
        decreases checks@.len() - w,
    {
        if !checks[w] {
            return Err(w + 1);
        }
        w += 1;
    }
    Ok(())
}

/// [`verify`] with the supplier behind a reference.
pub fn verify_with<H, F>(ticks: &[Output<H>], data: &F) -> (result: Result<(), usize>)
    where
        H: Hasher + Sync,
        F: Sync + Fn(usize, &Output<H>) -> Output<H>,
    requires
        answers(*data, ticks@),
    ensures
        outcome(*data, ticks@, result),
{
    let n = ticks.len();
    assert forall|w: int| 0 <= w < n - 1 implies #[trigger] window_checkable(ticks@, data, w) by {}
    let checks = par_check_windows(ticks, data);
    let result = first_broken(checks.as_slice());
    proof {
        assert forall|i: int| 1 <= i < n && checks@[i - 1] implies #[trigger] tick_accepted(
            *data,
            ticks@,
            i,
        ) by {
            assert(window_checked(ticks@, data, i - 1, checks@[i - 1]));
        }
        if let Err(k) = result {
            assert(window_checked(ticks@, data, k - 1, checks@[k - 1]));
        }
    }
    result
}

/// Checks that each tick of `ticks` follows from the one before it, in parallel
/// over the pairs of adjacent ticks.
///
/// `data` maps the index of a tick and the tick itself to the commitment that
/// was mixed into it (`Output::zero()` if it carries none). It is not asked about
/// the first tick, which has no predecessor here.
///
/// Returns `Ok(())` if the sequence is a chain, and otherwise `Err` with the
/// index of the first tick that does not follow from its predecessor.
pub fn verify<H, F>(ticks: &[Output<H>], data: F) -> (result: Result<(), usize>)
    where
        H: Hasher + Sync,
        F: Sync + Fn(usize, &Output<H>) -> Output<H>,
    requires
        answers(data, ticks@),
    ensures
        outcome(data, ticks@, result),
{
    verify_with(ticks, &data)
}

} // verus!
