//! The coroutine type, its three primitive operations and the single-step
//! evaluator.
use vstd::prelude::*;
use std::marker::PhantomData;
use crate::function::{Function, ApplyOnce};

verus! {

/// A resumable computation that consumes inputs of type `I`, produces outputs
/// of type `O` and completes with a value of type `R`.
///
/// `K` is the type of the suspended state: the single-use function from the
/// next input to the rest of the computation. A coroutine is a finite run of
/// pending outputs that ends either in a completion value or in such a
/// suspended state.
pub enum Coroutine<I, O, R, K> {
    /// Suspended until an input arrives.
    Await(K, PhantomData<I>),
    /// An output is ready, followed by the rest of the computation.
    Yield(O, Box<Coroutine<I, O, R, K>>),
    /// Completed with a value.
    Done(R),
}

/// What a suspended state does with the next input: the meaning of the state
/// in specifications.
///
/// Every combinator of this crate has a state type of its own, which
/// implements this trait and [`Resume`]. A state machine written by hand does
/// the same for the type of its states, with `next` as its transition
/// function.
pub trait Continuation<I, O, R>: Sized {
    /// The coroutine that resuming with `input` gives.
    spec fn next(self, input: I) -> Coroutine<I, O, R, Self>;
}

/// A suspended state that can be resumed. Resuming consumes the state, so it
/// cannot be resumed twice.
pub trait Resume<I, O, R>: Continuation<I, O, R> {
    /// Resumes the state with `input`.
    fn resume(self, input: I) -> (c: Coroutine<I, O, R, Self>)
        ensures
            c == self.next(input),
    ;
}

impl<I, O, R, K> Coroutine<I, O, R, K> {
    /// The suspended state behind the pending outputs, if the coroutine has
    /// not completed.
    pub open spec fn awaited(self) -> Option<K>
        decreases self,
    {
        match self {
            Coroutine::Await(k, _) => Some(k),
            Coroutine::Yield(_, next) => next.awaited(),
            Coroutine::Done(_) => None,
        }
    }

    /// The completion value behind the pending outputs, if the coroutine has
    /// completed.
    pub open spec fn completed(self) -> Option<R>
        decreases self,
    {
        match self {
            Coroutine::Await(_, _) => None,
            Coroutine::Yield(_, next) => next.completed(),
            Coroutine::Done(r) => Some(r),
        }
    }

    /// The form of the coroutine, with what that form holds.
    pub open spec fn step(self) -> StepResult<I, O, R, K> {
        match self {
            Coroutine::Await(k, _) => StepResult::Next(k),
            Coroutine::Yield(output, next) => StepResult::Yield { output, next },
            Coroutine::Done(r) => StepResult::Done(r),
        }
    }

    /// The outputs that are ready, first to last.
    pub open spec fn pending(self) -> Seq<O>
        decreases self,
    {
        match self {
            Coroutine::Await(_, _) => Seq::empty(),
            Coroutine::Yield(o, next) => seq![o] + next.pending(),
            Coroutine::Done(_) => Seq::empty(),
        }
    }
}

/// `rest` behind the output `o`, where there is a `rest`.
pub open spec fn after_output<I, O, R, K>(o: O, rest: Option<Coroutine<I, O, R, K>>) -> Option<
    Coroutine<I, O, R, K>,
> {
    match rest {
        Some(c) => Some(Coroutine::Yield(o, Box::new(c))),
        None => None,
    }
}

/// What a driver sees of a coroutine that is fed a sequence of inputs.
pub struct Trace<O, R> {
    /// The outputs, in the order in which they were produced.
    pub outputs: Seq<O>,
    /// The completion value, if the coroutine completed.
    pub result: Option<R>,
    /// The number of inputs that the coroutine took.
    pub consumed: nat,
}

impl<O, R> Trace<O, R> {
    /// This trace followed by `rest`, the trace of what ran next.
    pub open spec fn followed_by<B>(self, rest: Trace<O, B>) -> Trace<O, B> {
        Trace {
            outputs: self.outputs + rest.outputs,
            result: rest.result,
            consumed: self.consumed + rest.consumed,
        }
    }

    /// This trace as that of a longer computation that it did not complete.
    pub open spec fn unfinished<B>(self) -> Trace<O, B> {
        Trace { outputs: self.outputs, result: None, consumed: self.consumed }
    }
}

impl<I, O, R, K: Continuation<I, O, R>> Coroutine<I, O, R, K> {
    /// Drives the coroutine with `inputs`: each output is collected, each
    /// suspended state is resumed with the next input, and the run ends when
    /// the coroutine completes or asks for an input that is not there.
    pub open spec fn run(self, inputs: Seq<I>) -> Trace<O, R>
        decreases inputs.len(), self,
    {
        match self {
            Coroutine::Done(r) => Trace { outputs: Seq::empty(), result: Some(r), consumed: 0 },
            Coroutine::Yield(o, next) => {
                let rest = next.run(inputs);
                Trace {
                    outputs: seq![o] + rest.outputs,
                    result: rest.result,
                    consumed: rest.consumed,
                }
            },
            Coroutine::Await(k, _) => if inputs.len() == 0 {
                Trace { outputs: Seq::empty(), result: None, consumed: 0 }
            } else {
                let rest = k.next(inputs[0]).run(inputs.skip(1));
                Trace {
                    outputs: rest.outputs,
                    result: rest.result,
                    consumed: rest.consumed + 1,
                }
            },
        }
    }
}

impl<I, O, R, K: Continuation<I, O, R>> Coroutine<I, O, R, K> {
    /// The state that the coroutine is in once `inputs` have been delivered
    /// and every output on the way has been taken: completed, or suspended
    /// with nothing ready.
    pub open spec fn feed(self, inputs: Seq<I>) -> Coroutine<I, O, R, K>
        decreases inputs.len(), self,
    {
        match self {
            Coroutine::Done(_) => self,
            Coroutine::Yield(_, next) => next.feed(inputs),
            Coroutine::Await(k, _) => if inputs.len() == 0 {
                self
            } else {
                k.next(inputs[0]).feed(inputs.skip(1))
            },
        }
    }
}

/// The suspended state of a coroutine that is never suspended. As a state in
/// its own right it swallows every input and stays suspended.
pub struct Never(());

impl<I, O, R> Continuation<I, O, R> for Never {
    open spec fn next(self, input: I) -> Coroutine<I, O, R, Self> {
        Coroutine::Await(self, PhantomData)
    }
}

impl<I, O, R> Resume<I, O, R> for Never {
    fn resume(self, input: I) -> (c: Coroutine<I, O, R, Self>) {
        Coroutine::Await(self, PhantomData)
    }
}

/// The state of a coroutine made by [`suspend`]: before the first input it
/// holds the function, afterwards the state of what the function returned.
pub enum Suspend<F, K> {
    Start(F),
    Then(K),
}

/// `c` with each suspended state `k` replaced by `Suspend::Then(k)`.
pub open spec fn suspend_then<I, O, R, F, K>(c: Coroutine<I, O, R, K>) -> Coroutine<
    I,
    O,
    R,
    Suspend<F, K>,
>
    decreases c,
{
    match c {
        Coroutine::Await(k, _) => Coroutine::Await(Suspend::Then(k), PhantomData),
        Coroutine::Yield(o, next) => Coroutine::Yield(o, Box::new(suspend_then(*next))),
        Coroutine::Done(r) => Coroutine::Done(r),
    }
}

impl<I, O, R, F, K> Continuation<I, O, R> for Suspend<F, K> where
    F: Function<I, Coroutine<I, O, R, K>>,
    K: Continuation<I, O, R>,
 {
    open spec fn next(self, input: I) -> Coroutine<I, O, R, Self> {
        match self {
            Suspend::Start(f) => suspend_then(f.image(input)),
            Suspend::Then(k) => suspend_then(k.next(input)),
        }
    }
}

fn into_suspend_then<I, O, R, F, K>(c: Coroutine<I, O, R, K>) -> (out: Coroutine<
    I,
    O,
    R,
    Suspend<F, K>,
>) where F: Function<I, Coroutine<I, O, R, K>>, K: Continuation<I, O, R>
    ensures
        out == suspend_then::<I, O, R, F, K>(c),
    decreases c,
{
    match c {
        Coroutine::Await(k, _) => Coroutine::Await(Suspend::Then(k), PhantomData),
        Coroutine::Yield(o, next) => Coroutine::Yield(o, Box::new(into_suspend_then(*next))),
        Coroutine::Done(r) => Coroutine::Done(r),
    }
}

impl<I, O, R, F, K> Resume<I, O, R> for Suspend<F, K> where
    F: ApplyOnce<I, Coroutine<I, O, R, K>>,
    K: Resume<I, O, R>,
 {
    fn resume(self, input: I) -> (c: Coroutine<I, O, R, Self>) {
        match self {
            Suspend::Start(f) => into_suspend_then(f.apply_once(input)),
            Suspend::Then(k) => into_suspend_then(k.resume(input)),
        }
    }
}

/// The state of a coroutine made by [`bind`]: while the first coroutine runs
/// it holds that coroutine's state and the function to call on its value,
/// afterwards the state of what the function returned.
pub enum Bind<K1, F, K2, A> {
    First(K1, F, PhantomData<A>),
    Second(K2),
}

/// `c` with each suspended state `k` replaced by `Bind::Second(k)`.
pub open spec fn bind_second<I, O, R, K1, F, K2, A>(c: Coroutine<I, O, R, K2>) -> Coroutine<
    I,
    O,
    R,
    Bind<K1, F, K2, A>,
>
    decreases c,
{
    match c {
        Coroutine::Await(k, _) => Coroutine::Await(Bind::Second(k), PhantomData),
        Coroutine::Yield(o, next) => Coroutine::Yield(o, Box::new(bind_second(*next))),
        Coroutine::Done(r) => Coroutine::Done(r),
    }
}

/// The coroutine that runs `m` and then, with its value `a`, what `f` maps
/// `a` to. The outputs of `m` come first.
pub open spec fn bind_spec<I, O, A, B, K1, F, K2>(m: Coroutine<I, O, A, K1>, f: F) -> Coroutine<
    I,
    O,
    B,
    Bind<K1, F, K2, A>,
> where F: Function<A, Coroutine<I, O, B, K2>>
    decreases m,
{
    match m {
        Coroutine::Await(k, _) => Coroutine::Await(Bind::First(k, f, PhantomData), PhantomData),
        Coroutine::Yield(o, next) => Coroutine::Yield(o, Box::new(bind_spec(*next, f))),
        Coroutine::Done(a) => bind_second(f.image(a)),
    }
}

impl<I, O, A, B, K1, F, K2> Continuation<I, O, B> for Bind<K1, F, K2, A> where
    K1: Continuation<I, O, A>,
    F: Function<A, Coroutine<I, O, B, K2>>,
    K2: Continuation<I, O, B>,
 {
    open spec fn next(self, input: I) -> Coroutine<I, O, B, Self> {
        match self {
            Bind::First(k, f, _) => bind_spec(k.next(input), f),
            Bind::Second(k) => bind_second(k.next(input)),
        }
    }
}

fn into_bind_second<I, O, A, B, K1, F, K2>(c: Coroutine<I, O, B, K2>) -> (out: Coroutine<
    I,
    O,
    B,
    Bind<K1, F, K2, A>,
>) where
    K1: Continuation<I, O, A>,
    F: Function<A, Coroutine<I, O, B, K2>>,
    K2: Continuation<I, O, B>,

    ensures
        out == bind_second::<I, O, B, K1, F, K2, A>(c),
    decreases c,
{
    match c {
        Coroutine::Await(k, _) => Coroutine::Await(Bind::Second(k), PhantomData),
        Coroutine::Yield(o, next) => Coroutine::Yield(o, Box::new(into_bind_second(*next))),
        Coroutine::Done(r) => Coroutine::Done(r),
    }
}

impl<I, O, A, B, K1, F, K2> Resume<I, O, B> for Bind<K1, F, K2, A> where
    K1: Resume<I, O, A>,
    F: ApplyOnce<A, Coroutine<I, O, B, K2>>,
    K2: Resume<I, O, B>,
 {
    fn resume(self, input: I) -> (c: Coroutine<I, O, B, Self>) {
        match self {
            Bind::First(k, f, _) => bind(k.resume(input), f),
            Bind::Second(k) => into_bind_second(k.resume(input)),
        }
    }
}

/// Lifts a value into a coroutine that has completed with it.
pub fn result<I, O, R, K>(r: R) -> (c: Coroutine<I, O, R, K>)
    ensures
        c == Coroutine::<I, O, R, K>::Done(r),
{
    Coroutine::Done(r)
}

/// Suspends until an input arrives, then goes on as the coroutine that `f`
/// maps the input to.
pub fn suspend<I, O, R, F, K>(f: F) -> (c: Coroutine<I, O, R, Suspend<F, K>>) where
    F: ApplyOnce<I, Coroutine<I, O, R, K>>,
    K: Continuation<I, O, R>,

    ensures
        c == Coroutine::<I, O, R, Suspend<F, K>>::Await(Suspend::Start(f), PhantomData),
{
    Coroutine::Await(Suspend::Start(f), PhantomData)
}

/// Produces the output `o` and completes.
pub fn send<I, O, K>(o: O) -> (c: Coroutine<I, O, (), K>)
    ensures
        c == Coroutine::<I, O, (), K>::Yield(o, Box::new(Coroutine::Done(()))),
{
    Coroutine::Yield(o, Box::new(Coroutine::Done(())))
}

/// Sequences `m` and `f`: runs `m` and, once it completes with a value `a`,
/// goes on as the coroutine that `f` maps `a` to.
///
/// A suspended `m` is not resumed here: the result is suspended too and holds
/// `f` for later, so nothing of a chain of binds is run when one is built.
/// Only the outputs that `m` has ready are walked.
///
/// Resuming the result hands the input down through the states of the binds
/// around the one that waits, so its depth is that of the type of the
/// coroutine, whatever the number of inputs taken before. What `f` returns
/// is wrapped to fit the state type of the result; the bind that adds no such
/// layer is [`chain`](crate::chain::chain).
pub fn bind<I, O, A, B, K1, F, K2>(m: Coroutine<I, O, A, K1>, f: F) -> (c: Coroutine<
    I,
    O,
    B,
    Bind<K1, F, K2, A>,
>) where
    K1: Continuation<I, O, A>,
    F: ApplyOnce<A, Coroutine<I, O, B, K2>>,
    K2: Continuation<I, O, B>,

    ensures
        c == bind_spec(m, f),
    decreases m,
{
    match m {
        Coroutine::Await(k, _) => Coroutine::Await(Bind::First(k, f, PhantomData), PhantomData),
        Coroutine::Yield(o, next) => Coroutine::Yield(o, Box::new(bind(*next, f))),
        Coroutine::Done(a) => into_bind_second(f.apply_once(a)),
    }
}

/// The outcome of evaluating a coroutine one step.
pub enum StepResult<I, O, R, K> {
    /// The completion value.
    Done(R),
    /// An output, and the rest of the coroutine.
    Yield { output: O, next: Box<Coroutine<I, O, R, K>> },
    /// The suspended state, awaiting the next input.
    Next(K),
}

/// Evaluates `routine` one step: reports which of its three forms it has and
/// hands over what that form holds.
pub fn run_step<I, O, R, K>(routine: Coroutine<I, O, R, K>) -> (step: StepResult<I, O, R, K>)
    ensures
        step == routine.step(),
{
    match routine {
        Coroutine::Await(k, _) => StepResult::Next(k),
        Coroutine::Yield(output, next) => StepResult::Yield { output, next },
        Coroutine::Done(r) => StepResult::Done(r),
    }
}

} // verus!
