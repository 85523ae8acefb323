//! Chaining in method form.
use vstd::prelude::*;
use crate::coroutine::{bind, bind_spec, Bind, Continuation, Coroutine};
use crate::function::ApplyOnce;

verus! {

impl<I, O, R, K> Coroutine<I, O, R, K> {
    /// Chains coroutines: [`bind`] as a method.
    pub fn and_then<B, F, K2>(self, f: F) -> (c: Coroutine<I, O, B, Bind<K, F, K2, R>>) where
        K: Continuation<I, O, R>,
        F: ApplyOnce<R, Coroutine<I, O, B, K2>>,
        K2: Continuation<I, O, B>,

        ensures
            c == bind_spec(self, f),
    {
        bind(self, f)
    }
}

} // verus!
