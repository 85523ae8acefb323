//! Looking at the next event of a coroutine.
use vstd::prelude::*;
use std::marker::PhantomData;
use crate::coroutine::{Continuation, Coroutine, Resume};

verus! {

/// The next event of a coroutine.
pub enum ObserveResult<I, O, R, K> {
    /// An output, and the rest of the coroutine.
    Output { output: O, next: Coroutine<I, O, R, K> },
    /// The completion value.
    Finished { value: R },
}

/// The state of a coroutine made by [`observe`].
pub struct Observing<K>(pub K);

/// The coroutine that completes with the next event of `co`.
pub open spec fn observe_spec<I, O, R, K>(co: Coroutine<I, O, R, K>) -> Coroutine<
    I,
    O,
    ObserveResult<I, O, R, K>,
    Observing<K>,
> {
    match co {
        Coroutine::Done(value) => Coroutine::Done(ObserveResult::Finished { value }),
        Coroutine::Yield(output, next) => Coroutine::Done(
            ObserveResult::Output { output, next: *next },
        ),
        Coroutine::Await(k, _) => Coroutine::Await(Observing(k), PhantomData),
    }
}

impl<I, O, R, K: Continuation<I, O, R>> Continuation<
    I,
    O,
    ObserveResult<I, O, R, K>,
> for Observing<K> {
    open spec fn next(self, input: I) -> Coroutine<I, O, ObserveResult<I, O, R, K>, Self> {
        observe_spec(self.0.next(input))
    }
}

impl<I, O, R, K: Resume<I, O, R>> Resume<I, O, ObserveResult<I, O, R, K>> for Observing<K> {
    fn resume(self, input: I) -> (c: Coroutine<I, O, ObserveResult<I, O, R, K>, Self>) {
        observe(self.0.resume(input))
    }
}

/// Reports whether the next event of `co` is an output or its completion,
/// without producing the output: the result completes with the event. Inputs
/// that `co` asks for on the way are asked for.
pub fn observe<I, O, R, K>(co: Coroutine<I, O, R, K>) -> (c: Coroutine<
    I,
    O,
    ObserveResult<I, O, R, K>,
    Observing<K>,
>)
    ensures
        c == observe_spec(co),
{
    match co {
        Coroutine::Done(value) => Coroutine::Done(ObserveResult::Finished { value }),
        Coroutine::Yield(output, next) => Coroutine::Done(
            ObserveResult::Output { output, next: *next },
        ),
        Coroutine::Await(k, _) => Coroutine::Await(Observing(k), PhantomData),
    }
}

} // verus!
