//! Combinators built from the primitives.
use vstd::prelude::*;
use std::marker::PhantomData;
use crate::coroutine::{bind, bind_spec, Bind, Continuation, Coroutine, Never, Resume};
use crate::dispatch::UnicastSelect;
use crate::function::{Apply, ApplyOnce, Function};

verus! {

/// The state of [`receive`]: completes with the next input.
pub struct Receive;

impl<I, O> Continuation<I, O, I> for Receive {
    open spec fn next(self, input: I) -> Coroutine<I, O, I, Self> {
        Coroutine::Done(input)
    }
}

impl<I, O> Resume<I, O, I> for Receive {
    fn resume(self, input: I) -> (c: Coroutine<I, O, I, Self>) {
        Coroutine::Done(input)
    }
}

/// Suspends until an input arrives and completes with that input.
pub fn receive<I, O>() -> (c: Coroutine<I, O, I, Receive>)
    ensures
        c == Coroutine::<I, O, I, Receive>::Await(Receive, PhantomData),
{
    Coroutine::Await(Receive, PhantomData)
}

/// `co` after `input` has been delivered to it without going through a
/// driver: a completed coroutine stays as it is and the input is dropped; the
/// outputs that are ready stay in front; a suspended state is resumed with
/// the input.
pub open spec fn inject_spec<I, O, R, K: Continuation<I, O, R>>(
    input: I,
    co: Coroutine<I, O, R, K>,
) -> Coroutine<I, O, R, K>
    decreases co,
{
    match co {
        Coroutine::Done(r) => Coroutine::Done(r),
        Coroutine::Yield(output, next) => Coroutine::Yield(
            output,
            Box::new(inject_spec(input, *next)),
        ),
        Coroutine::Await(k, _) => k.next(input),
    }
}

/// Delivers `input` to `co` at once. It is the next input that `co` sees; if
/// `co` has completed, the input is dropped.
pub fn inject<I, O, R, K: Resume<I, O, R>>(input: I, co: Coroutine<I, O, R, K>) -> (c: Coroutine<
    I,
    O,
    R,
    K,
>)
    ensures
        c == inject_spec(input, co),
    decreases co,
{
    match co {
        Coroutine::Done(r) => Coroutine::Done(r),
        Coroutine::Yield(output, next) => Coroutine::Yield(
            output,
            Box::new(inject(input, *next)),
        ),
        Coroutine::Await(k, _) => k.resume(input),
    }
}

/// The function that maps `a` to the coroutine completed with `f` of `a`.
pub struct Returning<F>(pub F);

impl<I, O, A, B, F: Function<A, B>> Function<A, Coroutine<I, O, B, Never>> for Returning<F> {
    open spec fn image(&self, arg: A) -> Coroutine<I, O, B, Never> {
        Coroutine::Done(self.0.image(arg))
    }
}

impl<I, O, A, B, F: ApplyOnce<A, B>> ApplyOnce<A, Coroutine<I, O, B, Never>> for Returning<F> {
    fn apply_once(self, arg: A) -> (out: Coroutine<I, O, B, Never>) {
        Coroutine::Done(self.0.apply_once(arg))
    }
}

impl<I, O, A, B, F: Apply<A, B>> Apply<A, Coroutine<I, O, B, Never>> for Returning<F> {
    fn apply(&self, arg: A) -> (out: Coroutine<I, O, B, Never>) {
        Coroutine::Done(self.0.apply(arg))
    }
}

/// The state of a coroutine made by [`map`].
pub type Mapped<K, F, A> = Bind<K, Returning<F>, Never, A>;

/// `co` with `f` applied to its completion value.
pub open spec fn map_spec<I, O, A, B, K, F: Function<A, B>>(
    co: Coroutine<I, O, A, K>,
    f: F,
) -> Coroutine<I, O, B, Mapped<K, F, A>> {
    bind_spec(co, Returning(f))
}

/// Applies `f` to the value that `co` completes with. Inputs and outputs are
/// those of `co`.
pub fn map<I, O, A, B, K, F>(co: Coroutine<I, O, A, K>, f: F) -> (c: Coroutine<
    I,
    O,
    B,
    Mapped<K, F, A>,
>) where K: Continuation<I, O, A>, F: ApplyOnce<A, B>
    ensures
        c == map_spec(co, f),
{
    bind(co, Returning(f))
}

/// The function that pairs its argument with a value already there, which
/// comes first.
pub struct PairWith<A>(pub A);

impl<A, B> Function<B, (A, B)> for PairWith<A> {
    open spec fn image(&self, arg: B) -> (A, B) {
        (self.0, arg)
    }
}

impl<A, B> ApplyOnce<B, (A, B)> for PairWith<A> {
    fn apply_once(self, arg: B) -> (out: (A, B)) {
        (self.0, arg)
    }
}

/// The function that maps `a` to the coroutine that runs `second` and pairs
/// `a` with its value.
pub struct PairThen<I, O, B, K> {
    pub second: Coroutine<I, O, B, K>,
}

impl<I, O, A, B, K> Function<
    A,
    Coroutine<I, O, (A, B), Mapped<K, PairWith<A>, B>>,
> for PairThen<I, O, B, K> {
    open spec fn image(&self, arg: A) -> Coroutine<I, O, (A, B), Mapped<K, PairWith<A>, B>> {
        map_spec(self.second, PairWith(arg))
    }
}

impl<I, O, A, B, K: Continuation<I, O, B>> ApplyOnce<
    A,
    Coroutine<I, O, (A, B), Mapped<K, PairWith<A>, B>>,
> for PairThen<I, O, B, K> {
    fn apply_once(self, arg: A) -> (out: Coroutine<I, O, (A, B), Mapped<K, PairWith<A>, B>>) {
        map(self.second, PairWith(arg))
    }
}

/// The state of a coroutine made by [`tuple`].
pub type Tuple<I, O, R1, R2, K1, K2> = Bind<
    K1,
    PairThen<I, O, R2, K2>,
    Mapped<K2, PairWith<R1>, R2>,
    R1,
>;

/// `first`, then `second`, completing with both values.
pub open spec fn tuple_spec<I, O, R1, R2, K1, K2>(
    first: Coroutine<I, O, R1, K1>,
    second: Coroutine<I, O, R2, K2>,
) -> Coroutine<I, O, (R1, R2), Tuple<I, O, R1, R2, K1, K2>> {
    bind_spec(first, PairThen { second })
}

/// Runs `first` until it completes and `second` after it, and completes with
/// both values.
pub fn tuple<I, O, R1, R2, K1, K2>(
    first: Coroutine<I, O, R1, K1>,
    second: Coroutine<I, O, R2, K2>,
) -> (c: Coroutine<I, O, (R1, R2), Tuple<I, O, R1, R2, K1, K2>>) where
    K1: Continuation<I, O, R1>,
    K2: Continuation<I, O, R2>,

    ensures
        c == tuple_spec(first, second),
{
    bind(first, PairThen { second })
}

/// The function that maps a pair to its first part.
pub struct TakeFirst;

impl<A, B> Function<(A, B), A> for TakeFirst {
    open spec fn image(&self, arg: (A, B)) -> A {
        arg.0
    }
}

impl<A, B> ApplyOnce<(A, B), A> for TakeFirst {
    fn apply_once(self, arg: (A, B)) -> (out: A) {
        arg.0
    }
}

/// The function that maps a pair to its second part.
pub struct TakeSecond;

impl<A, B> Function<(A, B), B> for TakeSecond {
    open spec fn image(&self, arg: (A, B)) -> B {
        arg.1
    }
}

impl<A, B> ApplyOnce<(A, B), B> for TakeSecond {
    fn apply_once(self, arg: (A, B)) -> (out: B) {
        arg.1
    }
}

/// The function that maps everything to `()`.
pub struct Discard;

impl<A> Function<A, ()> for Discard {
    open spec fn image(&self, arg: A) -> () {
        ()
    }
}

impl<A> ApplyOnce<A, ()> for Discard {
    fn apply_once(self, arg: A) -> (out: ()) {
        ()
    }
}

/// Runs `first` until it completes and `second` after it, and completes with
/// the value of `second`.
pub fn right<I, O, A, B, K1, K2>(
    first: Coroutine<I, O, A, K1>,
    second: Coroutine<I, O, B, K2>,
) -> (c:
    Coroutine<I, O, B, Mapped<Tuple<I, O, A, B, K1, K2>, TakeSecond, (A, B)>>) where
    K1: Continuation<I, O, A>,
    K2: Continuation<I, O, B>,

    ensures
        c == map_spec(tuple_spec(first, second), TakeSecond),
{
    map(tuple(first, second), TakeSecond)
}

/// Runs `first` until it completes and `second` after it, and completes with
/// the value of `first`.
pub fn left<I, O, A, B, K1, K2>(
    first: Coroutine<I, O, A, K1>,
    second: Coroutine<I, O, B, K2>,
) -> (c:
    Coroutine<I, O, A, Mapped<Tuple<I, O, A, B, K1, K2>, TakeFirst, (A, B)>>) where
    K1: Continuation<I, O, A>,
    K2: Continuation<I, O, B>,

    ensures
        c == map_spec(tuple_spec(first, second), TakeFirst),
{
    map(tuple(first, second), TakeFirst)
}

/// Runs `co` for its inputs and outputs, and completes with `()`.
pub fn void<I, O, A, K: Continuation<I, O, A>>(co: Coroutine<I, O, A, K>) -> (c: Coroutine<
    I,
    O,
    (),
    Mapped<K, Discard, A>,
>)
    ensures
        c == map_spec(co, Discard),
{
    map(co, Discard)
}

/// The state of a coroutine made by [`observe`].
pub struct Observe<K>(pub K);

/// The coroutine that completes with the next event of `co`: its next output
/// with what follows it, or nothing with the completed `co`.
pub open spec fn observe_spec<I, O, R, K>(co: Coroutine<I, O, R, K>) -> Coroutine<
    I,
    O,
    (Option<O>, Coroutine<I, O, R, K>),
    Observe<K>,
> {
    match co {
        Coroutine::Done(r) => Coroutine::Done((None, Coroutine::Done(r))),
        Coroutine::Yield(output, next) => Coroutine::Done((Some(output), *next)),
        Coroutine::Await(k, _) => Coroutine::Await(Observe(k), PhantomData),
    }
}

impl<I, O, R, K: Continuation<I, O, R>> Continuation<
    I,
    O,
    (Option<O>, Coroutine<I, O, R, K>),
> for Observe<K> {
    open spec fn next(self, input: I) -> Coroutine<
        I,
        O,
        (Option<O>, Coroutine<I, O, R, K>),
        Self,
    > {
        observe_spec(self.0.next(input))
    }
}

impl<I, O, R, K: Resume<I, O, R>> Resume<I, O, (Option<O>, Coroutine<I, O, R, K>)> for Observe<K> {
    fn resume(self, input: I) -> (c: Coroutine<I, O, (Option<O>, Coroutine<I, O, R, K>), Self>) {
        observe(self.0.resume(input))
    }
}

/// Captures the next output of `co` in place of producing it: the result
/// completes with that output and the rest of `co`, or with no output and
/// the completed `co`. Inputs that `co` asks for on the way are asked for.
pub fn observe<I, O, R, K>(co: Coroutine<I, O, R, K>) -> (c: Coroutine<
    I,
    O,
    (Option<O>, Coroutine<I, O, R, K>),
    Observe<K>,
>)
    ensures
        c == observe_spec(co),
{
    match co {
        Coroutine::Done(r) => Coroutine::Done((None, Coroutine::Done(r))),
        Coroutine::Yield(output, next) => Coroutine::Done((Some(output), *next)),
        Coroutine::Await(k, _) => Coroutine::Await(Observe(k), PhantomData),
    }
}

/// The state of a coroutine made by [`receive_or_skip`].
pub struct Skip<K, F, IA> {
    pub state: K,
    pub selector: F,
    pub input: PhantomData<IA>,
}

/// `co` with its outputs tagged `Right`, and with `selector` in front of its
/// inputs.
pub open spec fn skip_spec<I, IA, IB, O, R, K, F>(
    co: Coroutine<IA, O, R, K>,
    selector: F,
) -> Coroutine<
    I,
    UnicastSelect<IB, O>,
    R,
    Skip<K, F, IA>,
>
    decreases co,
{
    match co {
        Coroutine::Done(r) => Coroutine::Done(r),
        Coroutine::Yield(output, next) => Coroutine::Yield(
            UnicastSelect::Right(output),
            Box::new(skip_spec(*next, selector)),
        ),
        Coroutine::Await(state, _) => Coroutine::Await(
            Skip { state, selector, input: PhantomData },
            PhantomData,
        ),
    }
}

impl<I, IA, IB, O, R, K, F> Continuation<I, UnicastSelect<IB, O>, R> for Skip<K, F, IA> where
    K: Continuation<IA, O, R>,
    F: Function<I, UnicastSelect<IA, IB>>,
 {
    /// An input that the selector takes resumes the coroutine. Any other is
    /// produced again as an output tagged `Left`, and the coroutine stays
    /// suspended.
    open spec fn next(self, input: I) -> Coroutine<I, UnicastSelect<IB, O>, R, Self> {
        match self.selector.image(input) {
            UnicastSelect::Left(a) => skip_spec(self.state.next(a), self.selector),
            UnicastSelect::Right(b) => Coroutine::Yield(
                UnicastSelect::Left(b),
                Box::new(Coroutine::Await(self, PhantomData)),
            ),
        }
    }
}

impl<I, IA, IB, O, R, K, F> Resume<I, UnicastSelect<IB, O>, R> for Skip<K, F, IA> where
    K: Resume<IA, O, R>,
    F: Apply<I, UnicastSelect<IA, IB>>,
 {
    fn resume(self, input: I) -> (c: Coroutine<I, UnicastSelect<IB, O>, R, Self>) {
        match self.selector.apply(input) {
            UnicastSelect::Left(a) => {
                let Skip { state, selector, input: _ } = self;
                receive_or_skip(state.resume(a), selector)
            },
            UnicastSelect::Right(b) => Coroutine::Yield(
                UnicastSelect::Left(b),
                Box::new(Coroutine::Await(self, PhantomData)),
            ),
        }
    }
}

/// Puts `sel` in front of the inputs of `co`: an input that `sel` maps to
/// `Left` goes to `co`; one that it maps to `Right` is skipped, and produced
/// as an output tagged `Left` for someone else to deal with. The outputs of
/// `co` are tagged `Right`.
pub fn receive_or_skip<I, IA, IB, O, R, K, F>(co: Coroutine<IA, O, R, K>, sel: F) -> (c: Coroutine<
    I,
    UnicastSelect<IB, O>,
    R,
    Skip<K, F, IA>,
>)
    ensures
        c == skip_spec::<I, IA, IB, O, R, K, F>(co, sel),
    decreases co,
{
    match co {
        Coroutine::Done(r) => Coroutine::Done(r),
        Coroutine::Yield(output, next) => Coroutine::Yield(
            UnicastSelect::Right(output),
            Box::new(receive_or_skip(*next, sel)),
        ),
        Coroutine::Await(state, _) => Coroutine::Await(
            Skip { state, selector: sel, input: PhantomData },
            PhantomData,
        ),
    }
}

/// The state of a coroutine made by [`recieve_until`]: it waits for an input
/// to classify, or the classification of one is suspended.
pub enum Until<F, K> {
    Waiting(F),
    Running(K, F),
}

/// The coroutine that goes on as the classification `run` of one input: it
/// completes when `run` completes with a value, and waits for the next input
/// when `run` completes with none.
pub open spec fn until_spec<I, O, R, F, K>(run: Coroutine<I, O, Option<R>, K>, f: F) -> Coroutine<
    I,
    O,
    R,
    Until<F, K>,
>
    decreases run,
{
    match run {
        Coroutine::Done(Some(v)) => Coroutine::Done(v),
        Coroutine::Done(None) => Coroutine::Await(Until::Waiting(f), PhantomData),
        Coroutine::Yield(output, next) => Coroutine::Yield(
            output,
            Box::new(until_spec(*next, f)),
        ),
        Coroutine::Await(k, _) => Coroutine::Await(Until::Running(k, f), PhantomData),
    }
}

impl<I, O, R, F, K> Continuation<I, O, R> for Until<F, K> where
    F: Function<I, Coroutine<I, O, Option<R>, K>>,
    K: Continuation<I, O, Option<R>>,
 {
    open spec fn next(self, input: I) -> Coroutine<I, O, R, Self> {
        match self {
            Until::Waiting(f) => until_spec(f.image(input), f),
            Until::Running(k, f) => until_spec(k.next(input), f),
        }
    }
}

fn until<I, O, R, F, K>(run: Coroutine<I, O, Option<R>, K>, f: F) -> (c: Coroutine<
    I,
    O,
    R,
    Until<F, K>,
>)
    ensures
        c == until_spec(run, f),
    decreases run,
{
    match run {
        Coroutine::Done(Some(v)) => Coroutine::Done(v),
        Coroutine::Done(None) => Coroutine::Await(Until::Waiting(f), PhantomData),
        Coroutine::Yield(output, next) => Coroutine::Yield(output, Box::new(until(*next, f))),
        Coroutine::Await(k, _) => Coroutine::Await(Until::Running(k, f), PhantomData),
    }
}

impl<I, O, R, F, K> Resume<I, O, R> for Until<F, K> where
    F: Apply<I, Coroutine<I, O, Option<R>, K>>,
    K: Resume<I, O, Option<R>>,
 {
    fn resume(self, input: I) -> (c: Coroutine<I, O, R, Self>) {
        match self {
            Until::Waiting(f) => {
                let run = f.apply(input);
                until(run, f)
            },
            Until::Running(k, f) => until(k.resume(input), f),
        }
    }
}

/// Receives inputs and hands each to `f` until `f` completes with a value,
/// and completes with that value. An input for which `f` completes with
/// `None` is dropped. What `f` produces on the way is produced.
pub fn recieve_until<I, O, R, F, K>(f: F) -> (c: Coroutine<I, O, R, Until<F, K>>) where
    F: Apply<I, Coroutine<I, O, Option<R>, K>>,

    ensures
        c == Coroutine::<I, O, R, Until<F, K>>::Await(Until::Waiting(f), PhantomData),
{
    Coroutine::Await(Until::Waiting(f), PhantomData)
}

/// The state of a coroutine made by [`intercept_input`]: the child waits for
/// an input, and either no outer input has come for it yet or the transform
/// of one is suspended.
pub enum Intercept<T, KT, KC, CI> {
    Waiting(T, KC, PhantomData<CI>),
    Transforming(T, KT, KC),
}

/// `co` with `transform` in front of its inputs.
pub open spec fn intercept_input_spec<I, O, R, CI, T, KT, KC>(
    co: Coroutine<CI, O, R, KC>,
    transform: T,
) -> Coroutine<I, O, R, Intercept<T, KT, KC, CI>>
    decreases co,
{
    match co {
        Coroutine::Done(r) => Coroutine::Done(r),
        Coroutine::Yield(output, next) => Coroutine::Yield(
            output,
            Box::new(intercept_input_spec(*next, transform)),
        ),
        Coroutine::Await(k, _) => Coroutine::Await(
            Intercept::Waiting(transform, k, PhantomData),
            PhantomData,
        ),
    }
}

/// The coroutine that goes on as the transform `run` of one outer input and
/// resumes the child `child` with the value that `run` completes with.
pub open spec fn transformed_spec<I, O, R, CI, T, KT, KC>(
    run: Coroutine<I, O, CI, KT>,
    transform: T,
    child: KC,
) -> Coroutine<I, O, R, Intercept<T, KT, KC, CI>> where KC: Continuation<CI, O, R>
    decreases run,
{
    match run {
        Coroutine::Done(input) => intercept_input_spec(child.next(input), transform),
        Coroutine::Yield(output, next) => Coroutine::Yield(
            output,
            Box::new(transformed_spec(*next, transform, child)),
        ),
        Coroutine::Await(k, _) => Coroutine::Await(
            Intercept::Transforming(transform, k, child),
            PhantomData,
        ),
    }
}

impl<I, O, R, CI, T, KT, KC> Continuation<I, O, R> for Intercept<T, KT, KC, CI> where
    T: Function<I, Coroutine<I, O, CI, KT>>,
    KT: Continuation<I, O, CI>,
    KC: Continuation<CI, O, R>,
 {
    open spec fn next(self, input: I) -> Coroutine<I, O, R, Self> {
        match self {
            Intercept::Waiting(transform, child, _) => transformed_spec(
                transform.image(input),
                transform,
                child,
            ),
            Intercept::Transforming(transform, k, child) => transformed_spec(
                k.next(input),
                transform,
                child,
            ),
        }
    }
}

fn transformed<I, O, R, CI, T, KT, KC>(
    run: Coroutine<I, O, CI, KT>,
    transform: T,
    child: KC,
) -> (c: Coroutine<I, O, R, Intercept<T, KT, KC, CI>>) where KC: Resume<CI, O, R>
    ensures
        c == transformed_spec(run, transform, child),
    decreases run,
{
    match run {
        Coroutine::Done(input) => intercept_input(child.resume(input), transform),
        Coroutine::Yield(output, next) => Coroutine::Yield(
            output,
            Box::new(transformed(*next, transform, child)),
        ),
        Coroutine::Await(k, _) => Coroutine::Await(
            Intercept::Transforming(transform, k, child),
            PhantomData,
        ),
    }
}

impl<I, O, R, CI, T, KT, KC> Resume<I, O, R> for Intercept<T, KT, KC, CI> where
    T: Apply<I, Coroutine<I, O, CI, KT>>,
    KT: Resume<I, O, CI>,
    KC: Resume<CI, O, R>,
 {
    fn resume(self, input: I) -> (c: Coroutine<I, O, R, Self>) {
        match self {
            Intercept::Waiting(transform, child, _) => {
                let run = transform.apply(input);
                transformed(run, transform, child)
            },
            Intercept::Transforming(transform, k, child) => transformed(
                k.resume(input),
                transform,
                child,
            ),
        }
    }
}

/// Changes the inputs of `co`: whenever `co` asks for an input, an outer
/// input is received and handed to `transform`, and `co` gets the value that
/// the coroutine returned by `transform` completes with. What that coroutine
/// produces or receives on the way happens in the outer alphabet. The outputs
/// of `co` pass through.
pub fn intercept_input<I, O, R, CI, T, KT, KC>(co: Coroutine<CI, O, R, KC>, transform: T) -> (c:
    Coroutine<I, O, R, Intercept<T, KT, KC, CI>>)
    ensures
        c == intercept_input_spec::<I, O, R, CI, T, KT, KC>(co, transform),
    decreases co,
{
    match co {
        Coroutine::Done(r) => Coroutine::Done(r),
        Coroutine::Yield(output, next) => Coroutine::Yield(
            output,
            Box::new(intercept_input(*next, transform)),
        ),
        Coroutine::Await(k, _) => Coroutine::Await(
            Intercept::Waiting(transform, k, PhantomData),
            PhantomData,
        ),
    }
}

/// The state of a coroutine made by [`map_input`].
pub type MapInput<K, F, IB> = Intercept<Returning<F>, Never, K, IB>;

/// Changes the inputs of `co`: each outer input goes through `map_fn` before
/// `co` gets it.
pub fn map_input<IA, IB, O, R, K, F>(co: Coroutine<IB, O, R, K>, map_fn: F) -> (c: Coroutine<
    IA,
    O,
    R,
    MapInput<K, F, IB>,
>) where F: Apply<IA, IB>
    ensures
        c == intercept_input_spec::<IA, O, R, IB, Returning<F>, Never, K>(co, Returning(map_fn)),
{
    intercept_input(co, Returning(map_fn))
}

} // verus!
