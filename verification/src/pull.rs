use std::task::Poll;
use vstd::prelude::*;

verus! {

/// `std::task::Poll`, declared so that verified code can build and match
/// its two variants, `Ready(T)` and `Pending`. Verus reads the variants
/// from std's own definition; nothing is assumed about them.
#[verifier::external_type_specification]
#[verifier::reject_recursive_types(T)]
pub struct ExPoll<T>(Poll<T>);

/// What one attempt to accept reports: not ready yet (`Pending`), or
/// completed (`Ready`) with a connection and its peer address or with a
/// failure.
pub type Accepted<S, A, E> = Poll<Result<(S, A), E>>;

/// What one pull of the sequence gives its consumer: a suspension
/// (`Pending`), the next element (`Ready(Some(_))`), or the end of the
/// sequence (`Ready(None)`).
pub type Pulled<S, E> = Poll<Option<Result<S, E>>>;

/// The element that stands for a completed accept: the connection without
/// its peer address, or the failure as it is.
pub open spec fn element_of<S, A, E>(completed: Result<(S, A), E>) -> Result<S, E> {
    match completed {
        Ok((stream, _)) => Ok(stream),
        Err(failure) => Err(failure),
    }
}

/// The outcome of a pull during which the listener's accept reported
/// `accepted`: a suspension while the listener is not ready, else the
/// element of the completed accept.
pub open spec fn item_of<S, A, E>(accepted: Accepted<S, A, E>) -> Pulled<S, E> {
    match accepted {
        Poll::Pending => Poll::Pending,
        Poll::Ready(completed) => Poll::Ready(Some(element_of(completed))),
    }
}

/// Decides what a pull yields, given what the listener's accept reported.
///
/// A connection is yielded without its peer address and a failure is
/// yielded unchanged, each as one element; "not ready" suspends the pull.
/// No report makes the pull end the sequence.
pub fn next_item<S, A, E>(accepted: Accepted<S, A, E>) -> (item: Pulled<S, E>)
    ensures
        item == item_of(accepted),
        item != Poll::<Option<Result<S, E>>>::Ready(None),
{
    match accepted {
        Poll::Pending => Poll::Pending,
        Poll::Ready(Ok((stream, _))) => Poll::Ready(Some(Ok(stream))),
        Poll::Ready(Err(failure)) => Poll::Ready(Some(Err(failure))),
    }
}

} // verus!
