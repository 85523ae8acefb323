//! Coroutines that may fail: a coroutine whose completion value is a
//! `Result`, with a `bind` that stops at the first error.
use vstd::prelude::*;
use crate::coroutine::{bind_spec, Bind, Continuation, Coroutine, Never, Resume, StepResult};
use crate::function::{Apply, ApplyOnce, Function};
use crate::functions::{map_spec, Mapped, Receive};
use crate::result::{
    result_nestable, subroutine_result, subroutine_result_spec, FallibleSubroutine,
};

verus! {

/// A coroutine that completes with a value or with a fatal error.
pub struct ResultCoroutine<I, O, R, E, K> {
    co: Coroutine<I, O, Result<R, E>, K>,
}

impl<I, O, R, E, K> ResultCoroutine<I, O, R, E, K> {
    /// The coroutine inside, which completes with a `Result`.
    pub closed spec fn coroutine(self) -> Coroutine<I, O, Result<R, E>, K> {
        self.co
    }

    /// The coroutine that may fail with `co` inside.
    pub closed spec fn lifted(co: Coroutine<I, O, Result<R, E>, K>) -> Self {
        ResultCoroutine { co }
    }

    /// A coroutine that may fail is the coroutine inside it, and nothing more.
    pub proof fn lemma_lifted(self, co: Coroutine<I, O, Result<R, E>, K>)
        ensures
            Self::lifted(co).coroutine() == co,
            Self::lifted(self.coroutine()) == self,
    {
    }
}

/// Lifts a value into a coroutine that has completed with it.
pub fn result<I, O, A, E, K>(a: A) -> (c: ResultCoroutine<I, O, A, E, K>)
    ensures
        c.coroutine() == Coroutine::<I, O, Result<A, E>, K>::Done(Ok(a)),
{
    ResultCoroutine { co: Coroutine::Done(Ok(a)) }
}

/// The coroutine that has failed with `e`. Whatever is bound to it is not
/// run.
pub fn err<I, O, A, E, K>(e: E) -> (c: ResultCoroutine<I, O, A, E, K>)
    ensures
        c.coroutine() == Coroutine::<I, O, Result<A, E>, K>::Done(Err(e)),
{
    ResultCoroutine { co: Coroutine::Done(Err(e)) }
}

/// Takes a coroutine that completes with a `Result` as one that may fail.
pub fn lift<I, O, R, E, K>(co: Coroutine<I, O, Result<R, E>, K>) -> (c: ResultCoroutine<
    I,
    O,
    R,
    E,
    K,
>)
    ensures
        c == ResultCoroutine::lifted(co),
        c.coroutine() == co,
{
    ResultCoroutine { co }
}

/// The coroutine inside, which completes with a `Result`.
pub fn to_coroutine<I, O, R, E, K>(co: ResultCoroutine<I, O, R, E, K>) -> (c: Coroutine<
    I,
    O,
    Result<R, E>,
    K,
>)
    ensures
        c == co.coroutine(),
{
    co.co
}

/// The function that maps `Ok(a)` to the coroutine inside `f` of `a`, and
/// `Err(e)` to the coroutine completed with `Err(e)`.
pub struct Binder<F>(pub F);

impl<I, O, A, B, E, K, F> Function<
    Result<A, E>,
    Coroutine<I, O, Result<B, E>, K>,
> for Binder<F> where F: Function<A, ResultCoroutine<I, O, B, E, K>> {
    open spec fn image(&self, arg: Result<A, E>) -> Coroutine<I, O, Result<B, E>, K> {
        match arg {
            Ok(a) => self.0.image(a).coroutine(),
            Err(e) => Coroutine::Done(Err(e)),
        }
    }
}

impl<I, O, A, B, E, K, F> ApplyOnce<
    Result<A, E>,
    Coroutine<I, O, Result<B, E>, K>,
> for Binder<F> where F: ApplyOnce<A, ResultCoroutine<I, O, B, E, K>> {
    fn apply_once(self, arg: Result<A, E>) -> (out: Coroutine<I, O, Result<B, E>, K>) {
        match arg {
            Ok(a) => self.0.apply_once(a).co,
            Err(e) => Coroutine::Done(Err(e)),
        }
    }
}

/// Sequences `result` and `binder`: goes on with `binder` once `result`
/// completes with a value. If `result` fails, so does the whole, with the
/// same error, and `binder` is never called.
pub fn bind<I, O, A, B, E, K1, K2, F>(result: ResultCoroutine<I, O, A, E, K1>, binder: F) -> (c:
    ResultCoroutine<I, O, B, E, Bind<K1, Binder<F>, K2, Result<A, E>>>) where
    K1: Continuation<I, O, Result<A, E>>,
    F: ApplyOnce<A, ResultCoroutine<I, O, B, E, K2>>,
    K2: Continuation<I, O, Result<B, E>>,

    ensures
        c.coroutine() == bind_spec(result.coroutine(), Binder(binder)),
{
    ResultCoroutine { co: crate::coroutine::bind(result.co, Binder(binder)) }
}

impl<I, O, A, E, K> ResultCoroutine<I, O, A, E, K> {
    /// Chains coroutines that may fail: [`bind`] as a method.
    pub fn and_then<B, F, K2>(self, f: F) -> (c: ResultCoroutine<
        I,
        O,
        B,
        E,
        Bind<K, Binder<F>, K2, Result<A, E>>,
    >) where
        K: Continuation<I, O, Result<A, E>>,
        F: ApplyOnce<A, ResultCoroutine<I, O, B, E, K2>>,
        K2: Continuation<I, O, Result<B, E>>,

        ensures
            c.coroutine() == bind_spec(self.coroutine(), Binder(f)),
    {
        bind(self, f)
    }
}

/// The function that maps `a` to `Ok(a)`.
pub struct WrapOk;

impl<A, E> Function<A, Result<A, E>> for WrapOk {
    open spec fn image(&self, arg: A) -> Result<A, E> {
        Ok(arg)
    }
}

impl<A, E> ApplyOnce<A, Result<A, E>> for WrapOk {
    fn apply_once(self, arg: A) -> (out: Result<A, E>) {
        Ok(arg)
    }
}

/// Produces the output `o` and completes without an error.
pub fn send<I, O, E>(o: O) -> (c: ResultCoroutine<I, O, (), E, Mapped<Never, WrapOk, ()>>)
    ensures
        c.coroutine() == map_spec::<I, O, (), Result<(), E>, Never, WrapOk>(
            Coroutine::Yield(o, Box::new(Coroutine::Done(()))),
            WrapOk,
        ),
{
    lift(crate::functions::map(crate::coroutine::send(o), WrapOk))
}

/// Suspends until an input arrives and completes with that input, without an
/// error.
pub fn receive<I, O, E>() -> (c: ResultCoroutine<I, O, I, E, Mapped<Receive, WrapOk, I>>)
    ensures
        c.coroutine() == map_spec::<I, O, I, Result<I, E>, Receive, WrapOk>(
            Coroutine::Await(Receive, std::marker::PhantomData),
            WrapOk,
        ),
{
    lift(crate::functions::map(crate::functions::receive(), WrapOk))
}

/// The function that maps `a` to the coroutine completed with `f` of `a`,
/// without an error.
pub struct ReturningOk<F>(pub F);

impl<I, O, A, B, E, F: Function<A, B>> Function<
    A,
    ResultCoroutine<I, O, B, E, Never>,
> for ReturningOk<F> {
    open spec fn image(&self, arg: A) -> ResultCoroutine<I, O, B, E, Never> {
        ResultCoroutine::lifted(Coroutine::Done(Ok(self.0.image(arg))))
    }
}

impl<I, O, A, B, E, F: ApplyOnce<A, B>> ApplyOnce<
    A,
    ResultCoroutine<I, O, B, E, Never>,
> for ReturningOk<F> {
    fn apply_once(self, arg: A) -> (out: ResultCoroutine<I, O, B, E, Never>) {
        ResultCoroutine { co: Coroutine::Done(Ok(self.0.apply_once(arg))) }
    }
}

/// Applies `f` to the value that `co` completes with, if it does not fail.
pub fn map<I, O, A, B, E, K, F>(co: ResultCoroutine<I, O, A, E, K>, f: F) -> (c: ResultCoroutine<
    I,
    O,
    B,
    E,
    Bind<K, Binder<ReturningOk<F>>, Never, Result<A, E>>,
>) where K: Continuation<I, O, Result<A, E>>, F: ApplyOnce<A, B>
    ensures
        c.coroutine() == bind_spec(co.coroutine(), Binder(ReturningOk(f))),
{
    bind(co, ReturningOk(f))
}

/// The function that applies `f` to an error and leaves a value as it is.
pub struct MappingErr<F>(pub F);

impl<R, E1, E2, F: Function<E1, E2>> Function<Result<R, E1>, Result<R, E2>> for MappingErr<F> {
    open spec fn image(&self, arg: Result<R, E1>) -> Result<R, E2> {
        match arg {
            Ok(r) => Ok(r),
            Err(e) => Err(self.0.image(e)),
        }
    }
}

impl<R, E1, E2, F: ApplyOnce<E1, E2>> ApplyOnce<Result<R, E1>, Result<R, E2>> for MappingErr<F> {
    fn apply_once(self, arg: Result<R, E1>) -> (out: Result<R, E2>) {
        match arg {
            Ok(r) => Ok(r),
            Err(e) => Err(self.0.apply_once(e)),
        }
    }
}

/// Applies `f` to the error that `co` fails with, if it fails.
pub fn map_err<I, O, R, E1, E2, K, F>(co: ResultCoroutine<I, O, R, E1, K>, f: F) -> (c:
    ResultCoroutine<I, O, R, E2, Mapped<K, MappingErr<F>, Result<R, E1>>>) where
    K: Continuation<I, O, Result<R, E1>>,
    F: ApplyOnce<E1, E2>,

    ensures
        c.coroutine() == map_spec(co.coroutine(), MappingErr(f)),
{
    lift(crate::functions::map(to_coroutine(co), MappingErr(f)))
}

/// Evaluates `co` one step, as
/// [`run_step`](crate::coroutine::run_step) does for the coroutine inside.
pub fn run_step<I, O, R, E, K>(co: ResultCoroutine<I, O, R, E, K>) -> (step: StepResult<
    I,
    O,
    Result<R, E>,
    K,
>)
    ensures
        step == co.coroutine().step(),
{
    crate::coroutine::run_step(to_coroutine(co))
}

/// The function that gives the coroutine inside what `f` returns.
pub struct Unlifted<F>(pub F);

impl<I, O, A, R, E, K, F> Function<A, Coroutine<I, O, Result<R, E>, K>> for Unlifted<F> where
    F: Function<A, ResultCoroutine<I, O, R, E, K>>,
 {
    open spec fn image(&self, arg: A) -> Coroutine<I, O, Result<R, E>, K> {
        self.0.image(arg).coroutine()
    }
}

impl<I, O, A, R, E, K, F> Apply<A, Coroutine<I, O, Result<R, E>, K>> for Unlifted<F> where
    F: Apply<A, ResultCoroutine<I, O, R, E, K>>,
 {
    fn apply(&self, arg: A) -> (out: Coroutine<I, O, Result<R, E>, K>) {
        self.0.apply(arg).co
    }
}

/// The function that maps a failure to its error, and a success to none.
pub struct ErrOf;

impl<E> Function<Result<(), E>, Option<E>> for ErrOf {
    open spec fn image(&self, arg: Result<(), E>) -> Option<E> {
        match arg {
            Ok(_) => None,
            Err(e) => Some(e),
        }
    }
}

impl<E> ApplyOnce<Result<(), E>, Option<E>> for ErrOf {
    fn apply_once(self, arg: Result<(), E>) -> (out: Option<E>) {
        match arg {
            Ok(_) => None,
            Err(e) => Some(e),
        }
    }
}

/// The function that gives the coroutine inside what `f` returns, completing
/// with the error if there is one.
pub struct Failing<F>(pub F);

impl<I, O, A, E, K, F> Function<
    A,
    Coroutine<I, O, Option<E>, Mapped<K, ErrOf, Result<(), E>>>,
> for Failing<F> where F: Function<A, ResultCoroutine<I, O, (), E, K>> {
    open spec fn image(&self, arg: A) -> Coroutine<
        I,
        O,
        Option<E>,
        Mapped<K, ErrOf, Result<(), E>>,
    > {
        map_spec(self.0.image(arg).coroutine(), ErrOf)
    }
}

impl<I, O, A, E, K, F> Apply<
    A,
    Coroutine<I, O, Option<E>, Mapped<K, ErrOf, Result<(), E>>>,
> for Failing<F> where
    F: Apply<A, ResultCoroutine<I, O, (), E, K>>,
    K: Continuation<I, O, Result<(), E>>,
 {
    fn apply(&self, arg: A) -> (out: Coroutine<
        I,
        O,
        Option<E>,
        Mapped<K, ErrOf, Result<(), E>>,
    >) {
        crate::functions::map(self.0.apply(arg).co, ErrOf)
    }
}

/// The state of a coroutine made by [`run_child`].
pub type RunChild<I, O, CI, CO, R, E, FI, FO, KI, KO, KC> = FallibleSubroutine<
    I,
    O,
    CI,
    CO,
    R,
    E,
    Unlifted<FI>,
    Failing<FO>,
    KI,
    Mapped<KO, ErrOf, Result<(), E>>,
    KC,
>;

/// Runs `child`, a coroutine with an alphabet of its own that may fail,
/// inside the host alphabet. Whenever the child asks for an input, the host
/// coroutine returned by `on_input` is run and the child gets its value.
/// Every output of the child is handed to `on_output`, and the host coroutine
/// that it returns is run before the child goes on. If the child or either
/// host coroutine fails, the whole fails with that error.
///
/// The child must not be fed forever without a host input: see
/// [`result_nestable`](crate::result::result_nestable).
pub fn run_child<I, O, CI, CO, R, E, FI, FO, KI, KO, KC>(
    on_input: FI,
    on_output: FO,
    child: ResultCoroutine<CI, CO, R, E, KC>,
) -> (c: ResultCoroutine<I, O, R, E, RunChild<I, O, CI, CO, R, E, FI, FO, KI, KO, KC>>) where
    FI: Apply<(), ResultCoroutine<I, O, CI, E, KI>>,
    FO: Apply<CO, ResultCoroutine<I, O, (), E, KO>>,
    KI: Resume<I, O, Result<CI, E>>,
    KO: Resume<I, O, Result<(), E>>,
    KC: Resume<CI, CO, Result<R, E>>,

    requires
        result_nestable::<
            I,
            O,
            CI,
            CO,
            R,
            E,
            Unlifted<FI>,
            Failing<FO>,
            KI,
            Mapped<KO, ErrOf, Result<(), E>>,
            KC,
        >(Unlifted(on_input), Failing(on_output), child.coroutine()),
    ensures
        c.coroutine() == subroutine_result_spec::<
            I,
            O,
            CI,
            CO,
            R,
            E,
            Unlifted<FI>,
            Failing<FO>,
            KI,
            Mapped<KO, ErrOf, Result<(), E>>,
            KC,
        >(Unlifted(on_input), Failing(on_output), child.coroutine()),
{
    lift(subroutine_result(Unlifted(on_input), Failing(on_output), child.co))
}

} // verus!
