use vstd::prelude::*;

verus! {

/// Stream of listeners
#[derive(Debug)]
#[must_use]
pub struct TokioIncoming<T> {
    inner: T,
}

impl<T> View for TokioIncoming<T> {
    type V = T;

    /// The wrapper is modelled by the one listener it owns: it holds no
    /// other state.
    closed spec fn view(&self) -> T {
        self.inner
    }
}

impl<T> TokioIncoming<T> {
    /// Takes ownership of `listener` and stores it unchanged.
    pub fn new(listener: T) -> (incoming: Self)
        ensures
            incoming@ == listener,
    {
        Self { inner: listener }
    }

    /// The wrapped listener, for the caller to run its accept operation or
    /// read its native descriptor. Whatever is read through this reference
    /// is read from the listener that was wrapped.
    pub fn get_ref(&self) -> (listener: &T)
        ensures
            *listener == self@,
    {
        &self.inner
    }
}

} // verus!
