//! The monad laws of `bind`.
//!
//! Two coroutines are told apart only by driving them: the laws say that
//! both sides, driven with the same inputs, produce the same outputs, take
//! the same number of inputs and complete with the same value.
use vstd::prelude::*;
use crate::coroutine::{bind_second, bind_spec, Bind, Continuation, Coroutine, Trace};
use crate::function::Function;

verus! {

/// A coroutine that goes on after a `bind` behaves as it did before.
pub proof fn lemma_bind_second_run<I, O, A, B, K1, F, K2>(
    c: Coroutine<I, O, B, K2>,
    inputs: Seq<I>,
) where
    K1: Continuation<I, O, A>,
    F: Function<A, Coroutine<I, O, B, K2>>,
    K2: Continuation<I, O, B>,

    ensures
        bind_second::<I, O, B, K1, F, K2, A>(c).run(inputs) == c.run(inputs),
    decreases inputs.len(), c,
{
    match c {
        Coroutine::Done(_) => {},
        Coroutine::Yield(_, next) => {
            lemma_bind_second_run::<I, O, A, B, K1, F, K2>(*next, inputs);
        },
        Coroutine::Await(k, _) => {
            if inputs.len() > 0 {
                lemma_bind_second_run::<I, O, A, B, K1, F, K2>(
                    k.next(inputs[0]),
                    inputs.skip(1),
                );
            }
        },
    }
}

/// A run takes no more inputs than there are.
pub proof fn lemma_run_consumed<I, O, R, K: Continuation<I, O, R>>(
    c: Coroutine<I, O, R, K>,
    inputs: Seq<I>,
)
    ensures
        c.run(inputs).consumed <= inputs.len(),
    decreases inputs.len(), c,
{
    match c {
        Coroutine::Done(_) => {},
        Coroutine::Yield(_, next) => {
            lemma_run_consumed(*next, inputs);
        },
        Coroutine::Await(k, _) => {
            if inputs.len() > 0 {
                lemma_run_consumed(k.next(inputs[0]), inputs.skip(1));
            }
        },
    }
}

/// What `bind` means for a driver: `m` runs first; if the inputs take it to
/// completion, the coroutine that `f` maps its value to runs on the inputs
/// that are left, and its outputs follow those of `m`.
pub proof fn lemma_bind_run<I, O, A, B, K1, F, K2>(
    m: Coroutine<I, O, A, K1>,
    f: F,
    inputs: Seq<I>,
) where
    K1: Continuation<I, O, A>,
    F: Function<A, Coroutine<I, O, B, K2>>,
    K2: Continuation<I, O, B>,

    ensures
        bind_spec::<I, O, A, B, K1, F, K2>(m, f).run(inputs) == match m.run(inputs).result {
            Some(a) => m.run(inputs).followed_by(
                f.image(a).run(inputs.skip(m.run(inputs).consumed as int)),
            ),
            None => m.run(inputs).unfinished(),
        },
    decreases inputs.len(), m,
{
    let first = m.run(inputs);
    let both = bind_spec::<I, O, A, B, K1, F, K2>(m, f).run(inputs);
    match m {
        Coroutine::Done(a) => {
            lemma_bind_second_run::<I, O, A, B, K1, F, K2>(f.image(a), inputs);
            assert(inputs.skip(0) =~= inputs);
            let rest = f.image(a).run(inputs);
            assert(first.followed_by(rest).outputs =~= rest.outputs);
        },
        Coroutine::Yield(o, next) => {
            lemma_bind_run::<I, O, A, B, K1, F, K2>(*next, f, inputs);
            let head = next.run(inputs);
            match head.result {
                Some(a) => {
                    let rest = f.image(a).run(inputs.skip(head.consumed as int));
                    assert(first.followed_by(
                        rest,
                    ).outputs =~= seq![o] + head.followed_by(rest).outputs);
                },
                None => {},
            }
        },
        Coroutine::Await(k, _) => {
            if inputs.len() > 0 {
                let tail = inputs.skip(1);
                lemma_bind_run::<I, O, A, B, K1, F, K2>(k.next(inputs[0]), f, tail);
                lemma_run_consumed(k.next(inputs[0]), tail);
                let head = k.next(inputs[0]).run(tail);
                assert(tail.skip(head.consumed as int) =~= inputs.skip(head.consumed as int + 1));
            }
        },
    }
}

/// Left identity: binding a completed coroutine to `f` is `f` applied to its
/// value.
pub proof fn lemma_left_identity<I, O, A, B, K1, F, K2>(a: A, f: F, inputs: Seq<I>) where
    K1: Continuation<I, O, A>,
    F: Function<A, Coroutine<I, O, B, K2>>,
    K2: Continuation<I, O, B>,

    ensures
        bind_spec::<I, O, A, B, K1, F, K2>(Coroutine::Done(a), f).run(inputs) == f.image(a).run(
            inputs,
        ),
{
    lemma_bind_second_run::<I, O, A, B, K1, F, K2>(f.image(a), inputs);
}

/// Right identity: binding a coroutine to the function that completes with
/// its argument changes nothing.
pub proof fn lemma_right_identity<I, O, A, K1, F, K2>(
    m: Coroutine<I, O, A, K1>,
    f: F,
    inputs: Seq<I>,
) where
    K1: Continuation<I, O, A>,
    F: Function<A, Coroutine<I, O, A, K2>>,
    K2: Continuation<I, O, A>,

    requires
        forall|a: A| #[trigger] f.image(a) == Coroutine::<I, O, A, K2>::Done(a),
    ensures
        bind_spec(m, f).run(inputs) == m.run(inputs),
    decreases inputs.len(), m,
{
    match m {
        Coroutine::Done(a) => {
            assert(f.image(a) == Coroutine::<I, O, A, K2>::Done(a));
        },
        Coroutine::Yield(_, next) => {
            lemma_right_identity(*next, f, inputs);
        },
        Coroutine::Await(k, _) => {
            if inputs.len() > 0 {
                lemma_right_identity(k.next(inputs[0]), f, inputs.skip(1));
            }
        },
    }
}

/// Binding to `g` a coroutine that goes on after a `bind` is binding to `g`
/// the coroutine as it was before.
pub proof fn lemma_bind_after_bind<I, O, A, B, C, K1, F, K2, G, K3>(
    c: Coroutine<I, O, B, K2>,
    g: G,
    inputs: Seq<I>,
) where
    K1: Continuation<I, O, A>,
    F: Function<A, Coroutine<I, O, B, K2>>,
    K2: Continuation<I, O, B>,
    G: Function<B, Coroutine<I, O, C, K3>>,
    K3: Continuation<I, O, C>,

    ensures
        bind_spec::<I, O, B, C, Bind<K1, F, K2, A>, G, K3>(
            bind_second::<I, O, B, K1, F, K2, A>(c),
            g,
        ).run(inputs) == bind_spec::<I, O, B, C, K2, G, K3>(c, g).run(inputs),
    decreases inputs.len(), c,
{
    match c {
        Coroutine::Done(b) => {
            lemma_bind_second_run::<I, O, B, C, Bind<K1, F, K2, A>, G, K3>(g.image(b), inputs);
            lemma_bind_second_run::<I, O, B, C, K2, G, K3>(g.image(b), inputs);
        },
        Coroutine::Yield(_, next) => {
            lemma_bind_after_bind::<I, O, A, B, C, K1, F, K2, G, K3>(*next, g, inputs);
        },
        Coroutine::Await(k, _) => {
            if inputs.len() > 0 {
                lemma_bind_after_bind::<I, O, A, B, C, K1, F, K2, G, K3>(
                    k.next(inputs[0]),
                    g,
                    inputs.skip(1),
                );
            }
        },
    }
}

/// Associativity: binding `m` to `f` and the result to `g` is binding `m` to
/// the function `h` that maps `x` to `f` of `x` bound to `g`.
pub proof fn lemma_associativity<I, O, A, B, C, K1, F, K2, G, K3, H>(
    m: Coroutine<I, O, A, K1>,
    f: F,
    g: G,
    h: H,
    inputs: Seq<I>,
) where
    K1: Continuation<I, O, A>,
    F: Function<A, Coroutine<I, O, B, K2>>,
    K2: Continuation<I, O, B>,
    G: Function<B, Coroutine<I, O, C, K3>>,
    K3: Continuation<I, O, C>,
    H: Function<A, Coroutine<I, O, C, Bind<K2, G, K3, B>>>,

    requires
        forall|x: A| #[trigger] h.image(x) == bind_spec::<I, O, B, C, K2, G, K3>(f.image(x), g),
    ensures
        bind_spec::<I, O, B, C, Bind<K1, F, K2, A>, G, K3>(
            bind_spec::<I, O, A, B, K1, F, K2>(m, f),
            g,
        ).run(inputs) == bind_spec::<I, O, A, C, K1, H, Bind<K2, G, K3, B>>(m, h).run(inputs),
    decreases inputs.len(), m,
{
    match m {
        Coroutine::Done(a) => {
            assert(h.image(a) == bind_spec::<I, O, B, C, K2, G, K3>(f.image(a), g));
            lemma_bind_after_bind::<I, O, A, B, C, K1, F, K2, G, K3>(f.image(a), g, inputs);
            lemma_bind_second_run::<I, O, A, C, K1, H, Bind<K2, G, K3, B>>(h.image(a), inputs);
        },
        Coroutine::Yield(_, next) => {
            lemma_associativity::<I, O, A, B, C, K1, F, K2, G, K3, H>(*next, f, g, h, inputs);
        },
        Coroutine::Await(k, _) => {
            if inputs.len() > 0 {
                lemma_associativity::<I, O, A, B, C, K1, F, K2, G, K3, H>(
                    k.next(inputs[0]),
                    f,
                    g,
                    h,
                    inputs.skip(1),
                );
            }
        },
    }
}

} // verus!
