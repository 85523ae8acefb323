//! Sequencing without a layer of state for what has completed.
//!
//! [`bind`](crate::coroutine::bind) gives its result a state type of its own,
//! so what the bound function returns is wrapped to fit, and a coroutine that
//! binds itself again in its last step grows a layer of state with every
//! round. [`chain`] is `bind` for states that can hold a bind in themselves:
//! the coroutine that the function returns is the rest as it is, and
//! resuming it costs the same after any number of rounds.
use vstd::prelude::*;
use std::marker::PhantomData;
use crate::coroutine::{Continuation, Coroutine, Resume, Trace};
use crate::function::{ApplyOnce, Function};
use crate::coroutine::bind_spec;
use crate::laws::{lemma_bind_run, lemma_run_consumed};

verus! {

/// A kind of suspended state that can hold, as one of its states, a state of
/// kind `K1` together with the function that is to go on, with a value of
/// type `A`, once that state has run to completion.
pub trait Deferring<A, K1, F>: Sized {
    /// The state that holds `state` and `f`.
    spec fn deferred(state: K1, f: F) -> Self;
}

/// A kind of suspended state that can be made from a state and a function
/// to go on with.
pub trait Defer<A, K1, F>: Deferring<A, K1, F> {
    /// Makes the state that holds `state` and `f`.
    fn defer(state: K1, f: F) -> (k: Self)
        ensures
            k == Self::deferred(state, f),
    ;
}

/// The coroutine that runs `m` and then, with its value `a`, goes on as the
/// coroutine that `f` maps `a` to. The outputs of `m` come first.
pub open spec fn chain_spec<I, O, A, B, K1, F, K>(m: Coroutine<I, O, A, K1>, f: F) -> Coroutine<
    I,
    O,
    B,
    K,
> where F: Function<A, Coroutine<I, O, B, K>>, K: Deferring<A, K1, F>
    decreases m,
{
    match m {
        Coroutine::Await(state, _) => Coroutine::Await(K::deferred(state, f), PhantomData),
        Coroutine::Yield(o, next) => Coroutine::Yield(o, Box::new(chain_spec(*next, f))),
        Coroutine::Done(a) => f.image(a),
    }
}

/// Sequences `m` and `f`, as [`bind`](crate::coroutine::bind) does, into a
/// coroutine with states of the kind that `f` returns. A suspended `m` is not
/// resumed: its state and `f` are put into one state of that kind. Once `m`
/// has completed, the coroutine that `f` returns is the result as it is.
pub fn chain<I, O, A, B, K1, F, K>(
    m: Coroutine<I, O, A, K1>,
    f: F,
) -> (c: Coroutine<I, O, B, K>) where
    F: ApplyOnce<A, Coroutine<I, O, B, K>>,
    K: Defer<A, K1, F>,

    ensures
        c == chain_spec::<I, O, A, B, K1, F, K>(m, f),
    decreases m,
{
    match m {
        Coroutine::Await(state, _) => Coroutine::Await(K::defer(state, f), PhantomData),
        Coroutine::Yield(o, next) => Coroutine::Yield(o, Box::new(chain(*next, f))),
        Coroutine::Done(a) => f.apply_once(a),
    }
}

/// Whether the states of kind `K` keep what they hold: a state made of
/// `state` and `f`, resumed with an input, goes on as `state` resumed with
/// that input and chained to `f`.
pub open spec fn defers<I, O, A, B, K1, F, K>() -> bool where
    K1: Continuation<I, O, A>,
    F: Function<A, Coroutine<I, O, B, K>>,
    K: Deferring<A, K1, F> + Continuation<I, O, B>,
 {
    forall|state: K1, f: F, input: I| #[trigger]
        K::deferred(state, f).next(input) == chain_spec::<I, O, A, B, K1, F, K>(
            state.next(input),
            f,
        )
}

/// What `chain` means for a driver, which is what `bind` means: `m` runs
/// first; if the inputs take it to completion, the coroutine that `f` maps its
/// value to runs on the inputs that are left, and its outputs follow those of
/// `m`.
pub proof fn lemma_chain_run<I, O, A, B, K1, F, K>(
    m: Coroutine<I, O, A, K1>,
    f: F,
    inputs: Seq<I>,
) where
    K1: Continuation<I, O, A>,
    F: Function<A, Coroutine<I, O, B, K>>,
    K: Deferring<A, K1, F> + Continuation<I, O, B>,

    requires
        defers::<I, O, A, B, K1, F, K>(),
    ensures
        chain_spec::<I, O, A, B, K1, F, K>(m, f).run(inputs) == match m.run(inputs).result {
            Some(a) => m.run(inputs).followed_by(
                f.image(a).run(inputs.skip(m.run(inputs).consumed as int)),
            ),
            None => m.run(inputs).unfinished(),
        },
    decreases inputs.len(), m,
{
    let first = m.run(inputs);
    match m {
        Coroutine::Done(a) => {
            assert(inputs.skip(0) =~= inputs);
            let rest = f.image(a).run(inputs);
            assert(first.followed_by(rest).outputs =~= rest.outputs);
        },
        Coroutine::Yield(o, next) => {
            lemma_chain_run::<I, O, A, B, K1, F, K>(*next, f, inputs);
            let head = next.run(inputs);
            match head.result {
                Some(a) => {
                    let rest = f.image(a).run(inputs.skip(head.consumed as int));
                    assert(first.followed_by(rest).outputs =~= seq![o] + head.followed_by(
                        rest,
                    ).outputs);
                },
                None => {},
            }
        },
        Coroutine::Await(state, _) => {
            if inputs.len() > 0 {
                let tail = inputs.skip(1);
                assert(K::deferred(state, f).next(inputs[0]) == chain_spec::<I, O, A, B, K1, F, K>(
                    state.next(inputs[0]),
                    f,
                ));
                lemma_chain_run::<I, O, A, B, K1, F, K>(state.next(inputs[0]), f, tail);
                lemma_run_consumed(state.next(inputs[0]), tail);
                let head = state.next(inputs[0]).run(tail);
                assert(tail.skip(head.consumed as int) =~= inputs.skip(head.consumed as int + 1));
            }
        },
    }
}

/// For a driver, `chain` is `bind`: with the same inputs both produce the
/// same outputs, take the same number of inputs and complete with the same
/// value.
pub proof fn lemma_chain_is_bind<I, O, A, B, K1, F, K>(
    m: Coroutine<I, O, A, K1>,
    f: F,
    inputs: Seq<I>,
) where
    K1: Continuation<I, O, A>,
    F: Function<A, Coroutine<I, O, B, K>>,
    K: Deferring<A, K1, F> + Continuation<I, O, B>,

    requires
        defers::<I, O, A, B, K1, F, K>(),
    ensures
        chain_spec::<I, O, A, B, K1, F, K>(m, f).run(inputs) == bind_spec::<I, O, A, B, K1, F, K>(
            m,
            f,
        ).run(inputs),
{
    lemma_chain_run::<I, O, A, B, K1, F, K>(m, f, inputs);
    lemma_bind_run::<I, O, A, B, K1, F, K>(m, f, inputs);
}

/// The state of a coroutine that goes round: it holds the state of the
/// round that is running, and the function that, given the value of a round,
/// completes or starts the next round.
pub struct Looping<K1, F, A>(pub K1, pub F, pub PhantomData<A>);

impl<K1, F, A> Deferring<A, K1, F> for Looping<K1, F, A> {
    open spec fn deferred(state: K1, f: F) -> Self {
        Looping(state, f, PhantomData)
    }
}

impl<K1, F, A> Defer<A, K1, F> for Looping<K1, F, A> {
    fn defer(state: K1, f: F) -> (k: Self) {
        Looping(state, f, PhantomData)
    }
}

impl<I, O, A, B, K1, F> Continuation<I, O, B> for Looping<K1, F, A> where
    K1: Continuation<I, O, A>,
    F: Function<A, Coroutine<I, O, B, Looping<K1, F, A>>>,
 {
    open spec fn next(self, input: I) -> Coroutine<I, O, B, Self> {
        chain_spec(self.0.next(input), self.1)
    }
}

impl<I, O, A, B, K1, F> Resume<I, O, B> for Looping<K1, F, A> where
    K1: Resume<I, O, A>,
    F: ApplyOnce<A, Coroutine<I, O, B, Looping<K1, F, A>>>,
 {
    fn resume(self, input: I) -> (c: Coroutine<I, O, B, Self>) {
        chain(self.0.resume(input), self.1)
    }
}

/// The states that go round keep what they hold.
pub proof fn lemma_looping_defers<I, O, A, B, K1, F>() where
    K1: Continuation<I, O, A>,
    F: Function<A, Coroutine<I, O, B, Looping<K1, F, A>>>,

    ensures
        defers::<I, O, A, B, K1, F, Looping<K1, F, A>>(),
{
}

} // verus!
