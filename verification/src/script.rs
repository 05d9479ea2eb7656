//! Runs of pulls.
//!
//! A script is what the listener's accept reports at successive pulls, in
//! order. The functions here say what the consumer sees over a script, and
//! the lemmas state what holds of every script.

use crate::pull::{element_of, item_of, Accepted, Pulled};
use std::task::Poll;
use vstd::prelude::*;

verus! {

/// What the successive pulls give, one outcome for each entry of `script`.
pub open spec fn pulled<S, A, E>(script: Seq<Accepted<S, A, E>>) -> Seq<Pulled<S, E>> {
    Seq::new(script.len(), |i: int| item_of(script[i]))
}

/// The elements that the consumer receives over `script`, in the order in
/// which it receives them.
pub open spec fn yielded<S, A, E>(script: Seq<Accepted<S, A, E>>) -> Seq<Result<S, E>>
    decreases script.len(),
{
    if script.len() == 0 {
        Seq::empty()
    } else {
        let earlier = yielded(script.drop_last());
        match item_of(script.last()) {
            Poll::Ready(Some(element)) => earlier.push(element),
            _ => earlier,
        }
    }
}

/// How many pulls over `script` suspend.
pub open spec fn suspensions<S, A, E>(script: Seq<Accepted<S, A, E>>) -> nat
    decreases script.len(),
{
    if script.len() == 0 {
        0
    } else {
        let earlier = suspensions(script.drop_last());
        match item_of(script.last()) {
            Poll::Pending => earlier + 1,
            _ => earlier,
        }
    }
}

/// The script of a listener whose accepts all complete at once, with
/// `results` in that order.
pub open spec fn completing<S, A, E>(results: Seq<Result<(S, A), E>>) -> Seq<Accepted<S, A, E>> {
    Seq::new(results.len(), |i: int| Poll::Ready(results[i]))
}

/// The script of a listener that is not ready `times` times and then
/// completes with `result`.
pub open spec fn delayed<S, A, E>(times: nat, result: Result<(S, A), E>) -> Seq<Accepted<S, A, E>> {
    Seq::new(times, |i: int| Poll::<Result<(S, A), E>>::Pending).push(Poll::Ready(result))
}

/// Pulls do not influence each other: over one script followed by another
/// the consumer receives what it receives over the first, then what it
/// receives over the second, and suspends as often as over both.
pub proof fn lemma_yielded_concat<S, A, E>(
    first: Seq<Accepted<S, A, E>>,
    second: Seq<Accepted<S, A, E>>,
)
    ensures
        yielded(first + second) == yielded(first) + yielded(second),
        suspensions(first + second) == suspensions(first) + suspensions(second),
    decreases second.len(),
{
    if second.len() == 0 {
        assert(first + second =~= first);
    } else {
        lemma_yielded_concat(first, second.drop_last());
        assert((first + second).drop_last() =~= first + second.drop_last());
        assert((first + second).last() == second.last());
    }
}

/// Every pull either suspends or yields exactly one element: nothing is
/// batched and nothing is dropped.
pub proof fn lemma_each_pull_counts<S, A, E>(script: Seq<Accepted<S, A, E>>)
    ensures
        yielded(script).len() + suspensions(script) == script.len(),
    decreases script.len(),
{
    if script.len() > 0 {
        lemma_each_pull_counts(script.drop_last());
    }
}

/// Where the listener's accepts complete with `results`, the consumer
/// receives one element for each of them, in the same order and without a
/// suspension: for a connection that connection, for a failure that
/// failure. Nothing is dropped, repeated or reordered.
pub proof fn lemma_order_preserved<S, A, E>(results: Seq<Result<(S, A), E>>)
    ensures
        yielded(completing(results)) == Seq::new(results.len(), |i: int| element_of(results[i])),
        yielded(completing(results)).len() == results.len(),
        forall|i: int|
            0 <= i < results.len() ==> (#[trigger] results[i] matches Ok((stream, _))
                ==> yielded(completing(results))[i] == Ok::<S, E>(stream)),
        suspensions(completing(results)) == 0,
    decreases results.len(),
{
    let script = completing(results);
    let elements = Seq::new(results.len(), |i: int| element_of(results[i]));
    if results.len() > 0 {
        lemma_order_preserved(results.drop_last());
        assert(script.drop_last() =~= completing(results.drop_last()));
        assert(script.last() == Poll::Ready(results.last()));
        assert(yielded(script) =~= elements);
    } else {
        assert(yielded(script) =~= elements);
    }
}

/// The sequence never ends by itself: whatever was pulled before and
/// whatever the listener reports next, one more pull gives the outcome of
/// that report alone, which is a suspension where the listener was not
/// ready, the accepted connection, or the failure.
pub proof fn lemma_never_ends<S, A, E>(history: Seq<Accepted<S, A, E>>, next: Accepted<S, A, E>)
    ensures
        pulled(history.push(next)).last() == item_of(next),
        item_of(next) != Poll::<Option<Result<S, E>>>::Ready(None),
        match item_of(next) {
            Poll::Pending => next == Poll::<Result<(S, A), E>>::Pending,
            Poll::Ready(Some(Ok(stream))) => next matches Poll::Ready(Ok((accepted, _)))
                && accepted == stream,
            Poll::Ready(Some(Err(failure))) => next == Poll::<Result<(S, A), E>>::Ready(
                Err(failure),
            ),
            Poll::Ready(None) => false,
        },
{
}

/// A failed accept gives the consumer that very failure as the next
/// element and does not close the sequence: a connection accepted
/// afterwards is yielded as usual, whatever came before.
pub proof fn lemma_failure_is_passed_on<S, A, E>(
    before: Seq<Accepted<S, A, E>>,
    failure: E,
    stream: S,
    addr: A,
)
    ensures
        item_of(Poll::<Result<(S, A), E>>::Ready(Err(failure))) == Poll::Ready(
            Some(Err::<S, E>(failure)),
        ),
        yielded(before.push(Poll::Ready(Err(failure)))) == yielded(before).push(Err(failure)),
        yielded(before.push(Poll::Ready(Err(failure))).push(Poll::Ready(Ok((stream, addr)))))
            == yielded(before).push(Err(failure)).push(Ok(stream)),
{
    let failed = before.push(Poll::Ready(Err(failure)));
    let resumed = failed.push(Poll::Ready(Ok((stream, addr))));
    assert(failed.drop_last() =~= before);
    assert(resumed.drop_last() =~= failed);
}

/// Where the listener is not ready `times` times before its accept
/// completes, exactly the first `times` pulls suspend, nothing is yielded
/// during them, and the pull after them yields the one element of the
/// completed accept.
pub proof fn lemma_suspends_until_accepted<S, A, E>(times: nat, result: Result<(S, A), E>)
    ensures
        delayed(times, result).len() == times + 1,
        forall|i: int|
            0 <= i < times ==> #[trigger] pulled(delayed(times, result))[i] == Poll::<
                Option<Result<S, E>>,
            >::Pending,
        pulled(delayed(times, result))[times as int] == Poll::Ready(Some(element_of(result))),
        suspensions(delayed(times, result)) == times,
        yielded(delayed(times, result).take(times as int)) == Seq::<Result<S, E>>::empty(),
        yielded(delayed(times, result)) == seq![element_of(result)],
{
    let script = delayed(times, result);
    let waiting = script.drop_last();
    lemma_all_suspend(waiting);
    assert(script.take(times as int) =~= waiting);
    assert(yielded(script) =~= seq![element_of(result)]);
}

/// Over a script whose every entry is "not ready", every pull suspends and
/// nothing is yielded.
proof fn lemma_all_suspend<S, A, E>(script: Seq<Accepted<S, A, E>>)
    requires
        forall|i: int| 0 <= i < script.len() ==> script[i] == Poll::<Result<(S, A), E>>::Pending,
    ensures
        suspensions(script) == script.len(),
        yielded(script) == Seq::<Result<S, E>>::empty(),
    decreases script.len(),
{
    if script.len() > 0 {
        lemma_all_suspend(script.drop_last());
    }
}

} // verus!
