//! Chaining coroutines that complete with an `Option`.
use vstd::prelude::*;
use crate::coroutine::{bind, bind_spec, Bind, Continuation, Coroutine, Never};
use crate::function::{ApplyOnce, Function};

verus! {

/// The function that maps `Some(a)` to `f` of `a`, and `None` to the
/// coroutine completed with `None`.
pub struct OrNone<F>(pub F);

impl<I, O, A, B, K, F> Function<Option<A>, Coroutine<I, O, Option<B>, K>> for OrNone<F> where
    F: Function<A, Coroutine<I, O, Option<B>, K>>,
 {
    open spec fn image(&self, arg: Option<A>) -> Coroutine<I, O, Option<B>, K> {
        match arg {
            Some(a) => self.0.image(a),
            None => Coroutine::Done(None),
        }
    }
}

impl<I, O, A, B, K, F> ApplyOnce<Option<A>, Coroutine<I, O, Option<B>, K>> for OrNone<F> where
    F: ApplyOnce<A, Coroutine<I, O, Option<B>, K>>,
 {
    fn apply_once(self, arg: Option<A>) -> (out: Coroutine<I, O, Option<B>, K>) {
        match arg {
            Some(a) => self.0.apply_once(a),
            None => Coroutine::Done(None),
        }
    }
}

/// Goes on with `f` if `co` completes with `Some`; completes with `None` at
/// once, without calling `f`, if `co` does.
pub fn bind_some<I, O, A, B, K1, K2, F>(co: Coroutine<I, O, Option<A>, K1>, f: F) -> (c: Coroutine<
    I,
    O,
    Option<B>,
    Bind<K1, OrNone<F>, K2, Option<A>>,
>) where
    K1: Continuation<I, O, Option<A>>,
    F: ApplyOnce<A, Coroutine<I, O, Option<B>, K2>>,
    K2: Continuation<I, O, Option<B>>,

    ensures
        c == bind_spec(co, OrNone(f)),
{
    bind(co, OrNone(f))
}

/// The function that maps `a` to the coroutine completed with `Some` of `f`
/// of `a`.
pub struct ReturningSome<F>(pub F);

impl<I, O, A, B, F: Function<A, B>> Function<
    A,
    Coroutine<I, O, Option<B>, Never>,
> for ReturningSome<F> {
    open spec fn image(&self, arg: A) -> Coroutine<I, O, Option<B>, Never> {
        Coroutine::Done(Some(self.0.image(arg)))
    }
}

impl<I, O, A, B, F: ApplyOnce<A, B>> ApplyOnce<
    A,
    Coroutine<I, O, Option<B>, Never>,
> for ReturningSome<F> {
    fn apply_once(self, arg: A) -> (out: Coroutine<I, O, Option<B>, Never>) {
        Coroutine::Done(Some(self.0.apply_once(arg)))
    }
}

/// Applies `f` to the value inside, if `co` completes with `Some`.
pub fn map_some<I, O, A, B, K, F>(co: Coroutine<I, O, Option<A>, K>, f: F) -> (c: Coroutine<
    I,
    O,
    Option<B>,
    Bind<K, OrNone<ReturningSome<F>>, Never, Option<A>>,
>) where K: Continuation<I, O, Option<A>>, F: ApplyOnce<A, B>
    ensures
        c == bind_spec(co, OrNone(ReturningSome(f))),
{
    bind_some(co, ReturningSome(f))
}

} // verus!
