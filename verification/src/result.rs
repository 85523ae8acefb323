//! Chaining coroutines that complete with a `Result`.
use vstd::prelude::*;
use std::marker::PhantomData;
use crate::coroutine::{
    after_output, bind, bind_spec, Bind, Continuation, Coroutine, Never, Resume,
};
use crate::function::{Apply, ApplyOnce, Function};

verus! {

/// The function that maps `Ok(a)` to `f` of `a`, and `Err(e)` to the
/// coroutine completed with `Err(e)`.
pub struct OnOk<F>(pub F);

impl<I, O, A, B, E, K, F> Function<Result<A, E>, Coroutine<I, O, Result<B, E>, K>> for OnOk<F> where
    F: Function<A, Coroutine<I, O, Result<B, E>, K>>,
 {
    open spec fn image(&self, arg: Result<A, E>) -> Coroutine<I, O, Result<B, E>, K> {
        match arg {
            Ok(a) => self.0.image(a),
            Err(e) => Coroutine::Done(Err(e)),
        }
    }
}

impl<I, O, A, B, E, K, F> ApplyOnce<
    Result<A, E>,
    Coroutine<I, O, Result<B, E>, K>,
> for OnOk<F> where F: ApplyOnce<A, Coroutine<I, O, Result<B, E>, K>> {
    fn apply_once(self, arg: Result<A, E>) -> (out: Coroutine<I, O, Result<B, E>, K>) {
        match arg {
            Ok(a) => self.0.apply_once(a),
            Err(e) => Coroutine::Done(Err(e)),
        }
    }
}

/// Goes on with `f` if `co` completes with `Ok`; completes with the error at
/// once, without calling `f`, if `co` completes with `Err`.
pub fn bind_ok<I, O, A, B, E, K1, K2, F>(co: Coroutine<I, O, Result<A, E>, K1>, f: F) -> (c:
    Coroutine<I, O, Result<B, E>, Bind<K1, OnOk<F>, K2, Result<A, E>>>) where
    K1: Continuation<I, O, Result<A, E>>,
    F: ApplyOnce<A, Coroutine<I, O, Result<B, E>, K2>>,
    K2: Continuation<I, O, Result<B, E>>,

    ensures
        c == bind_spec(co, OnOk(f)),
{
    bind(co, OnOk(f))
}

/// The function that maps `Err(e)` to `f` of `e`, and `Ok(a)` to the
/// coroutine completed with `Ok(a)`.
pub struct OnErr<F>(pub F);

impl<I, O, A, E1, E2, K, F> Function<
    Result<A, E1>,
    Coroutine<I, O, Result<A, E2>, K>,
> for OnErr<F> where F: Function<E1, Coroutine<I, O, Result<A, E2>, K>> {
    open spec fn image(&self, arg: Result<A, E1>) -> Coroutine<I, O, Result<A, E2>, K> {
        match arg {
            Ok(a) => Coroutine::Done(Ok(a)),
            Err(e) => self.0.image(e),
        }
    }
}

impl<I, O, A, E1, E2, K, F> ApplyOnce<
    Result<A, E1>,
    Coroutine<I, O, Result<A, E2>, K>,
> for OnErr<F> where F: ApplyOnce<E1, Coroutine<I, O, Result<A, E2>, K>> {
    fn apply_once(self, arg: Result<A, E1>) -> (out: Coroutine<I, O, Result<A, E2>, K>) {
        match arg {
            Ok(a) => Coroutine::Done(Ok(a)),
            Err(e) => self.0.apply_once(e),
        }
    }
}

/// Goes on with `f` if `co` completes with `Err`, so that an error can be
/// answered with outputs or mended; completes with the value at once if `co`
/// completes with `Ok`.
pub fn bind_err<I, O, A, E1, E2, K1, K2, F>(co: Coroutine<I, O, Result<A, E1>, K1>, f: F) -> (c:
    Coroutine<I, O, Result<A, E2>, Bind<K1, OnErr<F>, K2, Result<A, E1>>>) where
    K1: Continuation<I, O, Result<A, E1>>,
    F: ApplyOnce<E1, Coroutine<I, O, Result<A, E2>, K2>>,
    K2: Continuation<I, O, Result<A, E2>>,

    ensures
        c == bind_spec(co, OnErr(f)),
{
    bind(co, OnErr(f))
}

/// The function that maps `e` to the coroutine completed with `Err` of `f`
/// of `e`.
pub struct ReturningErr<F>(pub F);

impl<I, O, A, E1, E2, F: Function<E1, E2>> Function<
    E1,
    Coroutine<I, O, Result<A, E2>, Never>,
> for ReturningErr<F> {
    open spec fn image(&self, arg: E1) -> Coroutine<I, O, Result<A, E2>, Never> {
        Coroutine::Done(Err(self.0.image(arg)))
    }
}

impl<I, O, A, E1, E2, F: ApplyOnce<E1, E2>> ApplyOnce<
    E1,
    Coroutine<I, O, Result<A, E2>, Never>,
> for ReturningErr<F> {
    fn apply_once(self, arg: E1) -> (out: Coroutine<I, O, Result<A, E2>, Never>) {
        Coroutine::Done(Err(self.0.apply_once(arg)))
    }
}

/// Applies `f` to the error, if `co` completes with `Err`.
pub fn map_err<I, O, A, E1, E2, K, F>(co: Coroutine<I, O, Result<A, E1>, K>, f: F) -> (c: Coroutine<
    I,
    O,
    Result<A, E2>,
    Bind<K, OnErr<ReturningErr<F>>, Never, Result<A, E1>>,
>) where K: Continuation<I, O, Result<A, E1>>, F: ApplyOnce<E1, E2>
    ensures
        c == bind_spec(co, OnErr(ReturningErr(f))),
{
    bind_err(co, ReturningErr(f))
}

/// Whether the host coroutine `run`, which is to produce an input for a
/// child, does not complete with one before it has received an input.
pub open spec fn asks_first<I, O, A, E, K>(run: Coroutine<I, O, Result<A, E>, K>) -> bool {
    !(run.completed() matches Some(Ok(_)))
}

/// Where a suspended subroutine stands.
pub enum FallibleSubroutinePhase<KI, KO, KC, CI, CO, R, E> {
    /// The child waits for an input, and the host coroutine that is to
    /// produce it is suspended.
    Asking(KI, KC),
    /// The host coroutine that deals with an output of the child is
    /// suspended; the rest of the child follows.
    Telling(KO, Coroutine<CI, CO, Result<R, E>, KC>),
}

/// What a suspended subroutine holds.
pub struct FallibleSubroutineState<FI, FO, KI, KO, KC, CI, CO, R, E> {
    pub on_input: FI,
    pub on_output: FO,
    pub phase: FallibleSubroutinePhase<KI, KO, KC, CI, CO, R, E>,
}

/// The state of a coroutine made by [`subroutine_result`]. Whatever host
/// inputs arrive, the child is never fed forever without one.
#[verifier::reject_recursive_types(I)]
#[verifier::reject_recursive_types(O)]
#[verifier::reject_recursive_types(CI)]
#[verifier::reject_recursive_types(CO)]
#[verifier::reject_recursive_types(R)]
#[verifier::reject_recursive_types(E)]
#[verifier::reject_recursive_types(KI)]
#[verifier::reject_recursive_types(KO)]
#[verifier::reject_recursive_types(KC)]
pub struct FallibleSubroutine<I, O, CI, CO, R, E, FI, FO, KI, KO, KC> where
    FI: Function<(), Coroutine<I, O, Result<CI, E>, KI>>,
    FO: Function<CO, Coroutine<I, O, Option<E>, KO>>,
    KI: Continuation<I, O, Result<CI, E>>,
    KO: Continuation<I, O, Option<E>>,
    KC: Continuation<CI, CO, Result<R, E>>,
 {
    state: FallibleSubroutineState<FI, FO, KI, KO, KC, CI, CO, R, E>,
    types: PhantomData<(I, O)>,
}

/// The host coroutine `run`, which deals with an output of the child, and
/// after it the rest `rest` of the child, if an external event is reached
/// while the child is fed at most `fuel` inputs that cost no host input:
/// - what `run` produces is produced, and where it is suspended the
///   subroutine is;
/// - if `run` completes with an error, that error is the result;
/// - once `run` has completed without one, a completed child completes the
///   subroutine;
///   an output of the child is handed to `on_output`, whose coroutine is run
///   in the same way before the child goes on; and for a child that asks for
///   an input the coroutine of `on_input` is started.
pub open spec fn tell_result_fuel<I, O, CI, CO, R, E, FI, FO, KI, KO, KC>(
    fuel: nat,
    on_input: FI,
    on_output: FO,
    run: Coroutine<I, O, Option<E>, KO>,
    rest: Coroutine<CI, CO, Result<R, E>, KC>,
) -> Option<
    Coroutine<I, O, Result<R, E>, FallibleSubroutine<I, O, CI, CO, R, E, FI, FO, KI, KO, KC>>,
> where
    FI: Function<(), Coroutine<I, O, Result<CI, E>, KI>>,
    FO: Function<CO, Coroutine<I, O, Option<E>, KO>>,
    KI: Continuation<I, O, Result<CI, E>>,
    KO: Continuation<I, O, Option<E>>,
    KC: Continuation<CI, CO, Result<R, E>>,
    decreases fuel, rest, 1nat, run,
{
    match run {
        Coroutine::Yield(output, next) => after_output(
            output,
            tell_result_fuel(fuel, on_input, on_output, *next, rest),
        ),
        Coroutine::Await(k, _) => Some(
            Coroutine::Await(
                FallibleSubroutine::suspended(
                    FallibleSubroutineState {
                        on_input,
                        on_output,
                        phase: FallibleSubroutinePhase::Telling(k, rest),
                    },
                ),
                PhantomData,
            ),
        ),
        Coroutine::Done(Some(e)) => Some(Coroutine::Done(Err(e))),
        Coroutine::Done(None) => match rest {
            Coroutine::Done(r) => Some(Coroutine::Done(r)),
            Coroutine::Yield(output, next) => tell_result_fuel(
                fuel,
                on_input,
                on_output,
                on_output.image(output),
                *next,
            ),
            Coroutine::Await(child, _) => ask_result_fuel(
                fuel,
                on_input,
                on_output,
                on_input.image(()),
                child,
            ),
        },
    }
}

/// The host coroutine `run`, which is to produce an input for the suspended
/// child `child`, and after it the child resumed with that input: what `run`
/// produces is produced, and where it is suspended the subroutine is. An
/// error that `run` completes with is the result; an input that it completes
/// with takes one unit of fuel.
pub open spec fn ask_result_fuel<I, O, CI, CO, R, E, FI, FO, KI, KO, KC>(
    fuel: nat,
    on_input: FI,
    on_output: FO,
    run: Coroutine<I, O, Result<CI, E>, KI>,
    child: KC,
) -> Option<
    Coroutine<I, O, Result<R, E>, FallibleSubroutine<I, O, CI, CO, R, E, FI, FO, KI, KO, KC>>,
> where
    FI: Function<(), Coroutine<I, O, Result<CI, E>, KI>>,
    FO: Function<CO, Coroutine<I, O, Option<E>, KO>>,
    KI: Continuation<I, O, Result<CI, E>>,
    KO: Continuation<I, O, Option<E>>,
    KC: Continuation<CI, CO, Result<R, E>>,
    decreases fuel, Coroutine::<CI, CO, Result<R, E>, KC>::Await(child, PhantomData), 0nat, run,
{
    match run {
        Coroutine::Done(Err(e)) => Some(Coroutine::Done(Err(e))),
        Coroutine::Done(Ok(input)) => if fuel == 0 {
            None
        } else {
            tell_result_fuel(
                (fuel - 1) as nat,
                on_input,
                on_output,
                Coroutine::Done(None),
                child.next(input),
            )
        },
        Coroutine::Yield(output, next) => after_output(
            output,
            ask_result_fuel(fuel, on_input, on_output, *next, child),
        ),
        Coroutine::Await(k, _) => Some(
            Coroutine::Await(
                FallibleSubroutine::suspended(
                    FallibleSubroutineState {
                        on_input,
                        on_output,
                        phase: FallibleSubroutinePhase::Asking(k, child),
                    },
                ),
                PhantomData,
            ),
        ),
    }
}

/// Fuel beyond what is needed changes nothing.
pub proof fn lemma_tell_result_more_fuel<I, O, CI, CO, R, E, FI, FO, KI, KO, KC>(
    fuel: nat,
    more: nat,
    on_input: FI,
    on_output: FO,
    run: Coroutine<I, O, Option<E>, KO>,
    rest: Coroutine<CI, CO, Result<R, E>, KC>,
) where
    FI: Function<(), Coroutine<I, O, Result<CI, E>, KI>>,
    FO: Function<CO, Coroutine<I, O, Option<E>, KO>>,
    KI: Continuation<I, O, Result<CI, E>>,
    KO: Continuation<I, O, Option<E>>,
    KC: Continuation<CI, CO, Result<R, E>>,
    requires
        tell_result_fuel::<I, O, CI, CO, R, E, FI, FO, KI, KO, KC>(
            fuel,
            on_input,
            on_output,
            run,
            rest,
        ) is Some,
        fuel <= more,
    ensures
        tell_result_fuel::<
            I,
            O,
            CI,
            CO,
            R,
            E,
            FI,
            FO,
            KI,
            KO,
            KC,
        >(more, on_input, on_output, run, rest) == tell_result_fuel::<
            I,
            O,
            CI,
            CO,
            R,
            E,
            FI,
            FO,
            KI,
            KO,
            KC,
        >(
            fuel,
            on_input,
            on_output,
            run,
            rest,
        ),
    decreases fuel, rest, 1nat, run,
{
    match run {
        Coroutine::Yield(_, next) => {
            lemma_tell_result_more_fuel::<I, O, CI, CO, R, E, FI, FO, KI, KO, KC>(
                fuel,
                more,
                on_input,
                on_output,
                *next,
                rest,
            );
        },
        Coroutine::Await(_, _) => {},
        Coroutine::Done(Some(_)) => {},
        Coroutine::Done(None) => match rest {
            Coroutine::Done(_) => {},
            Coroutine::Yield(output, next) => {
                lemma_tell_result_more_fuel::<I, O, CI, CO, R, E, FI, FO, KI, KO, KC>(
                    fuel,
                    more,
                    on_input,
                    on_output,
                    on_output.image(output),
                    *next,
                );
            },
            Coroutine::Await(child, _) => {
                lemma_ask_result_more_fuel::<I, O, CI, CO, R, E, FI, FO, KI, KO, KC>(
                    fuel,
                    more,
                    on_input,
                    on_output,
                    on_input.image(()),
                    child,
                );
            },
        },
    }
}

/// Fuel beyond what is needed changes nothing.
pub proof fn lemma_ask_result_more_fuel<I, O, CI, CO, R, E, FI, FO, KI, KO, KC>(
    fuel: nat,
    more: nat,
    on_input: FI,
    on_output: FO,
    run: Coroutine<I, O, Result<CI, E>, KI>,
    child: KC,
) where
    FI: Function<(), Coroutine<I, O, Result<CI, E>, KI>>,
    FO: Function<CO, Coroutine<I, O, Option<E>, KO>>,
    KI: Continuation<I, O, Result<CI, E>>,
    KO: Continuation<I, O, Option<E>>,
    KC: Continuation<CI, CO, Result<R, E>>,
    requires
        ask_result_fuel::<I, O, CI, CO, R, E, FI, FO, KI, KO, KC>(
            fuel,
            on_input,
            on_output,
            run,
            child,
        ) is Some,
        fuel <= more,
    ensures
        ask_result_fuel::<
            I,
            O,
            CI,
            CO,
            R,
            E,
            FI,
            FO,
            KI,
            KO,
            KC,
        >(more, on_input, on_output, run, child) == ask_result_fuel::<
            I,
            O,
            CI,
            CO,
            R,
            E,
            FI,
            FO,
            KI,
            KO,
            KC,
        >(
            fuel,
            on_input,
            on_output,
            run,
            child,
        ),
    decreases fuel, Coroutine::<CI, CO, Result<R, E>, KC>::Await(child, PhantomData), 0nat, run,
{
    match run {
        Coroutine::Done(Err(_)) => {},
        Coroutine::Done(Ok(input)) => {
            lemma_tell_result_more_fuel::<I, O, CI, CO, R, E, FI, FO, KI, KO, KC>(
                (fuel - 1) as nat,
                (more - 1) as nat,
                on_input,
                on_output,
                Coroutine::Done(None),
                child.next(input),
            );
        },
        Coroutine::Yield(_, next) => {
            lemma_ask_result_more_fuel::<I, O, CI, CO, R, E, FI, FO, KI, KO, KC>(
                fuel,
                more,
                on_input,
                on_output,
                *next,
                child,
            );
        },
        Coroutine::Await(_, _) => {},
    }
}

/// Whether `child`, run inside the host alphabet, reaches an external event:
/// it is not fed forever without a host input.
pub open spec fn result_settles<I, O, CI, CO, R, E, FI, FO, KI, KO, KC>(
    on_input: FI,
    on_output: FO,
    child: Coroutine<CI, CO, Result<R, E>, KC>,
) -> bool where
    FI: Function<(), Coroutine<I, O, Result<CI, E>, KI>>,
    FO: Function<CO, Coroutine<I, O, Option<E>, KO>>,
    KI: Continuation<I, O, Result<CI, E>>,
    KO: Continuation<I, O, Option<E>>,
    KC: Continuation<CI, CO, Result<R, E>>,
 {
    exists|fuel: nat|
        (#[trigger] tell_result_fuel::<I, O, CI, CO, R, E, FI, FO, KI, KO, KC>(
            fuel,
            on_input,
            on_output,
            Coroutine::Done(None),
            child,
        ))
            is Some
}

/// `child` run inside the host alphabet: what [`tell_result_fuel`] finds with enough
/// fuel. It is left open for a child that is fed forever without a host
/// input.
pub open spec fn subroutine_result_spec<I, O, CI, CO, R, E, FI, FO, KI, KO, KC>(
    on_input: FI,
    on_output: FO,
    child: Coroutine<CI, CO, Result<R, E>, KC>,
) -> Coroutine<I, O, Result<R, E>, FallibleSubroutine<I, O, CI, CO, R, E, FI, FO, KI, KO, KC>> where
    FI: Function<(), Coroutine<I, O, Result<CI, E>, KI>>,
    FO: Function<CO, Coroutine<I, O, Option<E>, KO>>,
    KI: Continuation<I, O, Result<CI, E>>,
    KO: Continuation<I, O, Option<E>>,
    KC: Continuation<CI, CO, Result<R, E>>,
 {
    tell_result_fuel::<I, O, CI, CO, R, E, FI, FO, KI, KO, KC>(
        choose|fuel: nat|
            (#[trigger] tell_result_fuel::<I, O, CI, CO, R, E, FI, FO, KI, KO, KC>(
                fuel,
                on_input,
                on_output,
                Coroutine::Done(None),
                child,
            ))
                is Some,
        on_input,
        on_output,
        Coroutine::Done(None),
        child,
    ).unwrap()
}

/// The subroutine is what any sufficient amount of fuel gives.
pub proof fn lemma_subroutine_result_spec<I, O, CI, CO, R, E, FI, FO, KI, KO, KC>(
    fuel: nat,
    on_input: FI,
    on_output: FO,
    child: Coroutine<CI, CO, Result<R, E>, KC>,
) where
    FI: Function<(), Coroutine<I, O, Result<CI, E>, KI>>,
    FO: Function<CO, Coroutine<I, O, Option<E>, KO>>,
    KI: Continuation<I, O, Result<CI, E>>,
    KO: Continuation<I, O, Option<E>>,
    KC: Continuation<CI, CO, Result<R, E>>,
    requires
        tell_result_fuel::<I, O, CI, CO, R, E, FI, FO, KI, KO, KC>(
            fuel,
            on_input,
            on_output,
            Coroutine::Done(None),
            child,
        ) is Some,
    ensures
        result_settles::<I, O, CI, CO, R, E, FI, FO, KI, KO, KC>(
            on_input,
            on_output,
            child,
        ),
        Some(
            subroutine_result_spec::<
                I,
                O,
                CI,
                CO,
                R,
                E,
                FI,
                FO,
                KI,
                KO,
                KC,
            >(on_input, on_output, child),
        ) == tell_result_fuel::<I, O, CI, CO, R, E, FI, FO, KI, KO, KC>(
            fuel,
            on_input,
            on_output,
            Coroutine::Done(None),
            child,
        ),
{
    let enough = choose|fuel: nat|
        (#[trigger] tell_result_fuel::<I, O, CI, CO, R, E, FI, FO, KI, KO, KC>(
            fuel,
            on_input,
            on_output,
            Coroutine::Done(None),
            child,
        ))
            is Some;
    if enough <= fuel {
        lemma_tell_result_more_fuel::<I, O, CI, CO, R, E, FI, FO, KI, KO, KC>(
            enough,
            fuel,
            on_input,
            on_output,
            Coroutine::Done(None),
            child,
        );
    } else {
        lemma_tell_result_more_fuel::<I, O, CI, CO, R, E, FI, FO, KI, KO, KC>(
            fuel,
            enough,
            on_input,
            on_output,
            Coroutine::Done(None),
            child,
        );
    }
}

impl<FI, FO, KI, KO, KC, CI, CO, R, E> FallibleSubroutineState<FI, FO, KI, KO, KC, CI, CO, R, E> {
    /// The subroutine after `input` has arrived, if an external event is
    /// reached within `fuel`: the input resumes the host coroutine that is
    /// suspended.
    pub open spec fn step_fuel<I, O>(self, fuel: nat, input: I) -> Option<
    Coroutine<I, O, Result<R, E>, FallibleSubroutine<I, O, CI, CO, R, E, FI, FO, KI, KO, KC>>,
> where
    FI: Function<(), Coroutine<I, O, Result<CI, E>, KI>>,
    FO: Function<CO, Coroutine<I, O, Option<E>, KO>>,
    KI: Continuation<I, O, Result<CI, E>>,
    KO: Continuation<I, O, Option<E>>,
    KC: Continuation<CI, CO, Result<R, E>>,
 {
        match self.phase {
            FallibleSubroutinePhase::Asking(k, child) => ask_result_fuel::<
                I,
                O,
                CI,
                CO,
                R,
                E,
                FI,
                FO,
                KI,
                KO,
                KC,
            >(
                fuel,
                self.on_input,
                self.on_output,
                k.next(input),
                child,
            ),
            FallibleSubroutinePhase::Telling(k, rest) => tell_result_fuel::<
                I,
                O,
                CI,
                CO,
                R,
                E,
                FI,
                FO,
                KI,
                KO,
                KC,
            >(
                fuel,
                self.on_input,
                self.on_output,
                k.next(input),
                rest,
            ),
        }
    }

    /// Whether the subroutine reaches an external event after `input` has
    /// arrived.
    pub open spec fn step_settles<I, O>(self, input: I) -> bool where
    FI: Function<(), Coroutine<I, O, Result<CI, E>, KI>>,
    FO: Function<CO, Coroutine<I, O, Option<E>, KO>>,
    KI: Continuation<I, O, Result<CI, E>>,
    KO: Continuation<I, O, Option<E>>,
    KC: Continuation<CI, CO, Result<R, E>>,
 {
        exists|fuel: nat| (#[trigger] self.step_fuel::<I, O>(fuel, input)) is Some
    }

    /// The subroutine after `input` has arrived.
    pub open spec fn step<I, O>(self, input: I) -> Coroutine<
        I,
        O,
        Result<R, E>,
        FallibleSubroutine<I, O, CI, CO, R, E, FI, FO, KI, KO, KC>,
    > where
    FI: Function<(), Coroutine<I, O, Result<CI, E>, KI>>,
    FO: Function<CO, Coroutine<I, O, Option<E>, KO>>,
    KI: Continuation<I, O, Result<CI, E>>,
    KO: Continuation<I, O, Option<E>>,
    KC: Continuation<CI, CO, Result<R, E>>,
 {
        self.step_fuel::<I, O>(
            choose|fuel: nat| (#[trigger] self.step_fuel::<I, O>(fuel, input)) is Some,
            input,
        ).unwrap()
    }

    /// Whether, as the inputs `inputs` arrive one by one, the subroutine
    /// reaches an external event after each of them.
    pub open spec fn tame<I, O>(self, inputs: Seq<I>) -> bool where
    FI: Function<(), Coroutine<I, O, Result<CI, E>, KI>>,
    FO: Function<CO, Coroutine<I, O, Option<E>, KO>>,
    KI: Continuation<I, O, Result<CI, E>>,
    KO: Continuation<I, O, Option<E>>,
    KC: Continuation<CI, CO, Result<R, E>>,
        decreases inputs.len(),
    {
        inputs.len() > 0 ==> {
            &&& self.step_settles::<I, O>(inputs[0])
            &&& match self.step::<I, O>(inputs[0]).awaited() {
                Some(k) => k.state().tame::<I, O>(inputs.skip(1)),
                None => true,
            }
        }
    }

    /// The step is what any sufficient amount of fuel gives.
    pub proof fn lemma_step<I, O>(self, fuel: nat, input: I) where
    FI: Function<(), Coroutine<I, O, Result<CI, E>, KI>>,
    FO: Function<CO, Coroutine<I, O, Option<E>, KO>>,
    KI: Continuation<I, O, Result<CI, E>>,
    KO: Continuation<I, O, Option<E>>,
    KC: Continuation<CI, CO, Result<R, E>>,
        requires
            self.step_fuel::<I, O>(fuel, input) is Some,
        ensures
            self.step_settles::<I, O>(input),
            Some(self.step::<I, O>(input)) == self.step_fuel::<I, O>(fuel, input),
    {
        let enough = choose|fuel: nat| (#[trigger] self.step_fuel::<I, O>(fuel, input)) is Some;
        let (low, high) = if enough <= fuel {
            (enough, fuel)
        } else {
            (fuel, enough)
        };
        match self.phase {
            FallibleSubroutinePhase::Asking(k, child) => {
                lemma_ask_result_more_fuel::<I, O, CI, CO, R, E, FI, FO, KI, KO, KC>(
                    low,
                    high,
                    self.on_input,
                    self.on_output,
                    k.next(input),
                    child,
                );
            },
            FallibleSubroutinePhase::Telling(k, rest) => {
                lemma_tell_result_more_fuel::<I, O, CI, CO, R, E, FI, FO, KI, KO, KC>(
                    low,
                    high,
                    self.on_input,
                    self.on_output,
                    k.next(input),
                    rest,
                );
            },
        }
    }
}

impl<
    I,
    O,
    CI,
    CO,
    R,
    E,
    FI,
    FO,
    KI,
    KO,
    KC,
> FallibleSubroutine<I, O, CI, CO, R, E, FI, FO, KI, KO, KC> where
    FI: Function<(), Coroutine<I, O, Result<CI, E>, KI>>,
    FO: Function<CO, Coroutine<I, O, Option<E>, KO>>,
    KI: Continuation<I, O, Result<CI, E>>,
    KO: Continuation<I, O, Option<E>>,
    KC: Continuation<CI, CO, Result<R, E>>,
 {
    #[verifier::type_invariant]
    spec fn inv(self) -> bool {
        forall|inputs: Seq<I>| #[trigger] self.state.tame::<I, O>(inputs)
    }

    /// What the suspended subroutine holds.
    pub closed spec fn state(self) -> FallibleSubroutineState<FI, FO, KI, KO, KC, CI, CO, R, E> {
        self.state
    }

    /// The suspended subroutine that holds `state`.
    pub closed spec fn suspended(
        state: FallibleSubroutineState<FI, FO, KI, KO, KC, CI, CO, R, E>,
    ) -> Self {
        FallibleSubroutine { state, types: PhantomData }
    }

    /// A suspended subroutine is what it holds, and nothing more.
    pub proof fn lemma_state(self, state: FallibleSubroutineState<FI, FO, KI, KO, KC, CI, CO, R, E>)
        ensures
            Self::suspended(state).state() == state,
            Self::suspended(self.state()) == self,
    {
    }
}

/// Whether the state in which the subroutine `c` is suspended, if it is, is
/// tame along every sequence of inputs.
pub open spec fn result_stays_tame<
    I,
    O,
    CI,
    CO,
    R,
    E,
    FI,
    FO,
    KI,
    KO,
    KC,
>(c: Coroutine<
    I,
    O,
    Result<R, E>,
    FallibleSubroutine<I, O, CI, CO, R, E, FI, FO, KI, KO, KC>,
>) -> bool where
    FI: Function<(), Coroutine<I, O, Result<CI, E>, KI>>,
    FO: Function<CO, Coroutine<I, O, Option<E>, KO>>,
    KI: Continuation<I, O, Result<CI, E>>,
    KO: Continuation<I, O, Option<E>>,
    KC: Continuation<CI, CO, Result<R, E>>,
 {
    match c.awaited() {
        Some(k) => forall|inputs: Seq<I>| #[trigger] k.state().tame::<I, O>(inputs),
        None => true,
    }
}

/// Whether `child` can be run inside the host alphabet: now and after every
/// host input that may arrive later, it is not fed forever without a host
/// input. The coroutine of `on_input` may complete without having received
/// anything, but then the child has to get somewhere with what it is fed.
pub open spec fn result_nestable<I, O, CI, CO, R, E, FI, FO, KI, KO, KC>(
    on_input: FI,
    on_output: FO,
    child: Coroutine<CI, CO, Result<R, E>, KC>,
) -> bool where
    FI: Function<(), Coroutine<I, O, Result<CI, E>, KI>>,
    FO: Function<CO, Coroutine<I, O, Option<E>, KO>>,
    KI: Continuation<I, O, Result<CI, E>>,
    KO: Continuation<I, O, Option<E>>,
    KC: Continuation<CI, CO, Result<R, E>>,
 {
    &&& result_settles::<I, O, CI, CO, R, E, FI, FO, KI, KO, KC>(
        on_input,
        on_output,
        child,
    )
    &&& result_stays_tame(subroutine_result_spec::<I, O, CI, CO, R, E, FI, FO, KI, KO, KC>(
        on_input,
        on_output,
        child,
    ))
}

impl<
    I,
    O,
    CI,
    CO,
    R,
    E,
    FI,
    FO,
    KI,
    KO,
    KC,
> Continuation<I, O, Result<R, E>> for FallibleSubroutine<
    I,
    O,
    CI,
    CO,
    R,
    E,
    FI,
    FO,
    KI,
    KO,
    KC,
> where
    FI: Function<(), Coroutine<I, O, Result<CI, E>, KI>>,
    FO: Function<CO, Coroutine<I, O, Option<E>, KO>>,
    KI: Continuation<I, O, Result<CI, E>>,
    KO: Continuation<I, O, Option<E>>,
    KC: Continuation<CI, CO, Result<R, E>>,
 {
    /// The input resumes the host coroutine that is suspended.
    open spec fn next(self, input: I) -> Coroutine<I, O, Result<R, E>, Self> {
        self.state().step::<I, O>(input)
    }
}

/// A suspended subroutine holds the functions it was made with.
pub proof fn lemma_tell_result_keeps_functions<I, O, CI, CO, R, E, FI, FO, KI, KO, KC>(
    fuel: nat,
    on_input: FI,
    on_output: FO,
    run: Coroutine<I, O, Option<E>, KO>,
    rest: Coroutine<CI, CO, Result<R, E>, KC>,
) where
    FI: Function<(), Coroutine<I, O, Result<CI, E>, KI>>,
    FO: Function<CO, Coroutine<I, O, Option<E>, KO>>,
    KI: Continuation<I, O, Result<CI, E>>,
    KO: Continuation<I, O, Option<E>>,
    KC: Continuation<CI, CO, Result<R, E>>,
    ensures
        tell_result_fuel::<I, O, CI, CO, R, E, FI, FO, KI, KO, KC>(
            fuel,
            on_input,
            on_output,
            run,
            rest,
        ) matches Some(c) ==> (
        c.awaited() matches Some(k) ==> k.state().on_input == on_input && k.state().on_output
            == on_output),
    decreases fuel, rest, 1nat, run,
{
    match run {
        Coroutine::Yield(_, next) => {
            lemma_tell_result_keeps_functions::<I, O, CI, CO, R, E, FI, FO, KI, KO, KC>(
                fuel,
                on_input,
                on_output,
                *next,
                rest,
            );
        },
        Coroutine::Await(k, _) => {
            let state = FallibleSubroutineState {
                on_input,
                on_output,
                phase: FallibleSubroutinePhase::Telling(k, rest),
            };
            let s = FallibleSubroutine::<I, O, CI, CO, R, E, FI, FO, KI, KO, KC>::suspended(state);
            s.lemma_state(state);
            let c: Coroutine<
                I,
                O,
                Result<R, E>,
                FallibleSubroutine<I, O, CI, CO, R, E, FI, FO, KI, KO, KC>,
            > =
                Coroutine::Await(s, PhantomData);
            assert(c.awaited() == Some(s));
        },
        Coroutine::Done(Some(_)) => {},
        Coroutine::Done(None) => match rest {
            Coroutine::Done(_) => {},
            Coroutine::Yield(output, next) => {
                lemma_tell_result_keeps_functions::<I, O, CI, CO, R, E, FI, FO, KI, KO, KC>(
                    fuel,
                    on_input,
                    on_output,
                    on_output.image(output),
                    *next,
                );
            },
            Coroutine::Await(child, _) => {
                lemma_ask_result_keeps_functions::<I, O, CI, CO, R, E, FI, FO, KI, KO, KC>(
                    fuel,
                    on_input,
                    on_output,
                    on_input.image(()),
                    child,
                );
            },
        },
    }
}

/// A suspended subroutine holds the functions it was made with.
pub proof fn lemma_ask_result_keeps_functions<I, O, CI, CO, R, E, FI, FO, KI, KO, KC>(
    fuel: nat,
    on_input: FI,
    on_output: FO,
    run: Coroutine<I, O, Result<CI, E>, KI>,
    child: KC,
) where
    FI: Function<(), Coroutine<I, O, Result<CI, E>, KI>>,
    FO: Function<CO, Coroutine<I, O, Option<E>, KO>>,
    KI: Continuation<I, O, Result<CI, E>>,
    KO: Continuation<I, O, Option<E>>,
    KC: Continuation<CI, CO, Result<R, E>>,
    ensures
        ask_result_fuel::<I, O, CI, CO, R, E, FI, FO, KI, KO, KC>(
            fuel,
            on_input,
            on_output,
            run,
            child,
        ) matches Some(c) ==> (
        c.awaited() matches Some(k) ==> k.state().on_input == on_input && k.state().on_output
            == on_output),
    decreases fuel, Coroutine::<CI, CO, Result<R, E>, KC>::Await(child, PhantomData), 0nat, run,
{
    match run {
        Coroutine::Done(Err(_)) => {},
        Coroutine::Done(Ok(input)) => {
            if fuel > 0 {
                lemma_tell_result_keeps_functions::<I, O, CI, CO, R, E, FI, FO, KI, KO, KC>(
                    (fuel - 1) as nat,
                    on_input,
                    on_output,
                    Coroutine::Done(None),
                    child.next(input),
                );
            }
        },
        Coroutine::Yield(_, next) => {
            lemma_ask_result_keeps_functions::<I, O, CI, CO, R, E, FI, FO, KI, KO, KC>(
                fuel,
                on_input,
                on_output,
                *next,
                child,
            );
        },
        Coroutine::Await(k, _) => {
            let state = FallibleSubroutineState {
                on_input,
                on_output,
                phase: FallibleSubroutinePhase::Asking(k, child),
            };
            let s = FallibleSubroutine::<I, O, CI, CO, R, E, FI, FO, KI, KO, KC>::suspended(state);
            s.lemma_state(state);
            let c: Coroutine<
                I,
                O,
                Result<R, E>,
                FallibleSubroutine<I, O, CI, CO, R, E, FI, FO, KI, KO, KC>,
            > =
                Coroutine::Await(s, PhantomData);
            assert(c.awaited() == Some(s));
        },
    }
}

/// With an `on_input` whose coroutine asks for a host input before it
/// completes with a value, a host coroutine that is started needs no fuel.
pub proof fn lemma_patient_ask_result<I, O, CI, CO, R, E, FI, FO, KI, KO, KC>(
    on_input: FI,
    on_output: FO,
    run: Coroutine<I, O, Result<CI, E>, KI>,
    child: KC,
) where
    FI: Function<(), Coroutine<I, O, Result<CI, E>, KI>>,
    FO: Function<CO, Coroutine<I, O, Option<E>, KO>>,
    KI: Continuation<I, O, Result<CI, E>>,
    KO: Continuation<I, O, Option<E>>,
    KC: Continuation<CI, CO, Result<R, E>>,
    requires
        asks_first(run),
    ensures
        ask_result_fuel::<I, O, CI, CO, R, E, FI, FO, KI, KO, KC>(
            0,
            on_input,
            on_output,
            run,
            child,
        ) is Some,
    decreases run,
{
    match run {
        Coroutine::Yield(_, next) => {
            lemma_patient_ask_result::<I, O, CI, CO, R, E, FI, FO, KI, KO, KC>(
                on_input,
                on_output,
                *next,
                child,
            );
        },
        _ => {},
    }
}

/// With an `on_input` whose coroutine asks for a host input before it
/// completes with a value, running the child needs no fuel.
pub proof fn lemma_patient_tell_result<I, O, CI, CO, R, E, FI, FO, KI, KO, KC>(
    on_input: FI,
    on_output: FO,
    run: Coroutine<I, O, Option<E>, KO>,
    rest: Coroutine<CI, CO, Result<R, E>, KC>,
) where
    FI: Function<(), Coroutine<I, O, Result<CI, E>, KI>>,
    FO: Function<CO, Coroutine<I, O, Option<E>, KO>>,
    KI: Continuation<I, O, Result<CI, E>>,
    KO: Continuation<I, O, Option<E>>,
    KC: Continuation<CI, CO, Result<R, E>>,
    requires
        asks_first(on_input.image(())),
    ensures
        tell_result_fuel::<I, O, CI, CO, R, E, FI, FO, KI, KO, KC>(
            0,
            on_input,
            on_output,
            run,
            rest,
        ) is Some,
    decreases rest, run,
{
    match run {
        Coroutine::Yield(_, next) => {
            lemma_patient_tell_result::<I, O, CI, CO, R, E, FI, FO, KI, KO, KC>(
                on_input,
                on_output,
                *next,
                rest,
            );
        },
        Coroutine::Await(_, _) => {},
        Coroutine::Done(Some(_)) => {},
        Coroutine::Done(None) => match rest {
            Coroutine::Done(_) => {},
            Coroutine::Yield(output, next) => {
                lemma_patient_tell_result::<I, O, CI, CO, R, E, FI, FO, KI, KO, KC>(
                    on_input,
                    on_output,
                    on_output.image(output),
                    *next,
                );
            },
            Coroutine::Await(child, _) => {
                lemma_patient_ask_result::<I, O, CI, CO, R, E, FI, FO, KI, KO, KC>(
                    on_input,
                    on_output,
                    on_input.image(()),
                    child,
                );
            },
        },
    }
}

/// With an `on_input` whose coroutine asks for a host input before it
/// completes with a value, a host coroutine that goes on after an input needs at most one
/// unit of fuel: for the input that it may complete with.
pub proof fn lemma_patient_asked_result<I, O, CI, CO, R, E, FI, FO, KI, KO, KC>(
    on_input: FI,
    on_output: FO,
    run: Coroutine<I, O, Result<CI, E>, KI>,
    child: KC,
) where
    FI: Function<(), Coroutine<I, O, Result<CI, E>, KI>>,
    FO: Function<CO, Coroutine<I, O, Option<E>, KO>>,
    KI: Continuation<I, O, Result<CI, E>>,
    KO: Continuation<I, O, Option<E>>,
    KC: Continuation<CI, CO, Result<R, E>>,
    requires
        asks_first(on_input.image(())),
    ensures
        ask_result_fuel::<I, O, CI, CO, R, E, FI, FO, KI, KO, KC>(
            1,
            on_input,
            on_output,
            run,
            child,
        ) is Some,
    decreases run,
{
    match run {
        Coroutine::Done(Err(_)) => {},
        Coroutine::Done(Ok(input)) => {
            lemma_patient_tell_result::<I, O, CI, CO, R, E, FI, FO, KI, KO, KC>(
                on_input,
                on_output,
                Coroutine::Done(None),
                child.next(input),
            );
        },
        Coroutine::Yield(_, next) => {
            lemma_patient_asked_result::<I, O, CI, CO, R, E, FI, FO, KI, KO, KC>(
                on_input,
                on_output,
                *next,
                child,
            );
        },
        Coroutine::Await(_, _) => {},
    }
}

/// With an `on_input` whose coroutine asks for a host input before it
/// completes with a value, a suspended subroutine is tame.
pub proof fn lemma_patient_result_tame<
    I,
    O,
    CI,
    CO,
    R,
    E,
    FI,
    FO,
    KI,
    KO,
    KC,
>(state: FallibleSubroutineState<FI, FO, KI, KO, KC, CI, CO, R, E>, inputs: Seq<I>) where
    FI: Function<(), Coroutine<I, O, Result<CI, E>, KI>>,
    FO: Function<CO, Coroutine<I, O, Option<E>, KO>>,
    KI: Continuation<I, O, Result<CI, E>>,
    KO: Continuation<I, O, Option<E>>,
    KC: Continuation<CI, CO, Result<R, E>>,
    requires
        asks_first(state.on_input.image(())),
    ensures
        state.tame::<I, O>(inputs),
    decreases inputs.len(),
{
    if inputs.len() > 0 {
        let input = inputs[0];
        match state.phase {
            FallibleSubroutinePhase::Asking(k, child) => {
                lemma_patient_asked_result::<I, O, CI, CO, R, E, FI, FO, KI, KO, KC>(
                    state.on_input,
                    state.on_output,
                    k.next(input),
                    child,
                );
                lemma_ask_result_keeps_functions::<I, O, CI, CO, R, E, FI, FO, KI, KO, KC>(
                    1,
                    state.on_input,
                    state.on_output,
                    k.next(input),
                    child,
                );
            },
            FallibleSubroutinePhase::Telling(k, rest) => {
                lemma_patient_tell_result::<I, O, CI, CO, R, E, FI, FO, KI, KO, KC>(
                    state.on_input,
                    state.on_output,
                    k.next(input),
                    rest,
                );
                lemma_tell_result_more_fuel::<I, O, CI, CO, R, E, FI, FO, KI, KO, KC>(
                    0,
                    1,
                    state.on_input,
                    state.on_output,
                    k.next(input),
                    rest,
                );
                lemma_tell_result_keeps_functions::<I, O, CI, CO, R, E, FI, FO, KI, KO, KC>(
                    1,
                    state.on_input,
                    state.on_output,
                    k.next(input),
                    rest,
                );
            },
        }
        state.lemma_step::<I, O>(1, input);
        match state.step::<I, O>(input).awaited() {
            Some(k) => {
                lemma_patient_result_tame::<I, O, CI, CO, R, E, FI, FO, KI, KO, KC>(
                    k.state(),
                    inputs.skip(1),
                );
            },
            None => {},
        }
    }
}

/// Any child can be run with an `on_input` whose coroutine asks for a host
/// input before it completes with a value.
pub proof fn lemma_patient_result_nestable<I, O, CI, CO, R, E, FI, FO, KI, KO, KC>(
    on_input: FI,
    on_output: FO,
    child: Coroutine<CI, CO, Result<R, E>, KC>,
) where
    FI: Function<(), Coroutine<I, O, Result<CI, E>, KI>>,
    FO: Function<CO, Coroutine<I, O, Option<E>, KO>>,
    KI: Continuation<I, O, Result<CI, E>>,
    KO: Continuation<I, O, Option<E>>,
    KC: Continuation<CI, CO, Result<R, E>>,
    requires
        asks_first(on_input.image(())),
    ensures
        result_nestable::<I, O, CI, CO, R, E, FI, FO, KI, KO, KC>(
            on_input,
            on_output,
            child,
        ),
{
    lemma_patient_tell_result::<I, O, CI, CO, R, E, FI, FO, KI, KO, KC>(
        on_input,
        on_output,
        Coroutine::Done(None),
        child,
    );
    lemma_subroutine_result_spec::<I, O, CI, CO, R, E, FI, FO, KI, KO, KC>(
        0,
        on_input,
        on_output,
        child,
    );
    lemma_tell_result_keeps_functions::<I, O, CI, CO, R, E, FI, FO, KI, KO, KC>(
        0,
        on_input,
        on_output,
        Coroutine::Done(None),
        child,
    );
    let c = subroutine_result_spec::<I, O, CI, CO, R, E, FI, FO, KI, KO, KC>(
        on_input,
        on_output,
        child,
    );
    match c.awaited() {
        Some(k) => {
            assert forall|inputs: Seq<I>| #[trigger] k.state().tame::<I, O>(inputs) by {
                lemma_patient_result_tame::<I, O, CI, CO, R, E, FI, FO, KI, KO, KC>(
                    k.state(),
                    inputs,
                );
            }
        },
        None => {},
    }
}

fn park_result<I, O, CI, CO, R, E, FI, FO, KI, KO, KC>(
    on_input: FI,
    on_output: FO,
    phase: FallibleSubroutinePhase<KI, KO, KC, CI, CO, R, E>,
) -> (k: FallibleSubroutine<I, O, CI, CO, R, E, FI, FO, KI, KO, KC>) where
    FI: Function<(), Coroutine<I, O, Result<CI, E>, KI>>,
    FO: Function<CO, Coroutine<I, O, Option<E>, KO>>,
    KI: Continuation<I, O, Result<CI, E>>,
    KO: Continuation<I, O, Option<E>>,
    KC: Continuation<CI, CO, Result<R, E>>,
    requires
        forall|inputs: Seq<I>| #[trigger]
            (FallibleSubroutineState { on_input, on_output, phase }).tame::<I, O>(inputs),
    ensures
        k == FallibleSubroutine::<I, O, CI, CO, R, E, FI, FO, KI, KO, KC>::suspended(
            FallibleSubroutineState { on_input, on_output, phase },
        ),
{
    FallibleSubroutine {
        state: FallibleSubroutineState { on_input, on_output, phase },
        types: PhantomData,
    }
}

fn tell_result_within<I, O, CI, CO, R, E, FI, FO, KI, KO, KC>(
    on_input: FI,
    on_output: FO,
    run: Coroutine<I, O, Option<E>, KO>,
    rest: Coroutine<CI, CO, Result<R, E>, KC>,
    Ghost(fuel): Ghost<nat>,
) -> (c: Coroutine<
    I,
    O,
    Result<R, E>,
    FallibleSubroutine<I, O, CI, CO, R, E, FI, FO, KI, KO, KC>,
>) where
    FI: Apply<(), Coroutine<I, O, Result<CI, E>, KI>>,
    FO: Apply<CO, Coroutine<I, O, Option<E>, KO>>,
    KI: Resume<I, O, Result<CI, E>>,
    KO: Resume<I, O, Option<E>>,
    KC: Resume<CI, CO, Result<R, E>>,
    requires
        tell_result_fuel::<I, O, CI, CO, R, E, FI, FO, KI, KO, KC>(
            fuel,
            on_input,
            on_output,
            run,
            rest,
        ) matches Some(r) && result_stays_tame(r),
    ensures
        Some(c) == tell_result_fuel::<I, O, CI, CO, R, E, FI, FO, KI, KO, KC>(
            fuel,
            on_input,
            on_output,
            run,
            rest,
        ),
    decreases fuel, rest, 1nat, run,
{
    match run {
        Coroutine::Yield(output, next) => {
            let rest = tell_result_within(on_input, on_output, *next, rest, Ghost(fuel));
            Coroutine::Yield(output, Box::new(rest))
        },
        Coroutine::Await(k, _) => {
            proof {
                let state = FallibleSubroutineState {
                    on_input,
                    on_output,
                    phase: FallibleSubroutinePhase::Telling(k, rest),
                };
                let s = FallibleSubroutine::<
                    I,
                    O,
                    CI,
                    CO,
                    R,
                    E,
                    FI,
                    FO,
                    KI,
                    KO,
                    KC,
                >::suspended(state);
                let c: Coroutine<
                    I,
                    O,
                    Result<R, E>,
                    FallibleSubroutine<I, O, CI, CO, R, E, FI, FO, KI, KO, KC>,
                > =
                    Coroutine::Await(s, PhantomData);
                assert(c.awaited() == Some(s));
                assert(s.state() == state);
            }
            Coroutine::Await(
                park_result(on_input, on_output, FallibleSubroutinePhase::Telling(k, rest)),
                PhantomData,
            )
        },
        Coroutine::Done(Some(e)) => Coroutine::Done(Err(e)),
        Coroutine::Done(None) => match rest {
            Coroutine::Done(r) => Coroutine::Done(r),
            Coroutine::Yield(output, next) => {
                let run = on_output.apply(output);
                tell_result_within(on_input, on_output, run, *next, Ghost(fuel))
            },
            Coroutine::Await(child, _) => {
                let run = on_input.apply(());
                ask_result_within(on_input, on_output, run, child, Ghost(fuel))
            },
        },
    }
}

fn ask_result_within<I, O, CI, CO, R, E, FI, FO, KI, KO, KC>(
    on_input: FI,
    on_output: FO,
    run: Coroutine<I, O, Result<CI, E>, KI>,
    child: KC,
    Ghost(fuel): Ghost<nat>,
) -> (c: Coroutine<
    I,
    O,
    Result<R, E>,
    FallibleSubroutine<I, O, CI, CO, R, E, FI, FO, KI, KO, KC>,
>) where
    FI: Apply<(), Coroutine<I, O, Result<CI, E>, KI>>,
    FO: Apply<CO, Coroutine<I, O, Option<E>, KO>>,
    KI: Resume<I, O, Result<CI, E>>,
    KO: Resume<I, O, Option<E>>,
    KC: Resume<CI, CO, Result<R, E>>,
    requires
        ask_result_fuel::<I, O, CI, CO, R, E, FI, FO, KI, KO, KC>(
            fuel,
            on_input,
            on_output,
            run,
            child,
        ) matches Some(r) && result_stays_tame(r),
    ensures
        Some(c) == ask_result_fuel::<I, O, CI, CO, R, E, FI, FO, KI, KO, KC>(
            fuel,
            on_input,
            on_output,
            run,
            child,
        ),
    decreases fuel, Coroutine::<CI, CO, Result<R, E>, KC>::Await(child, PhantomData), 0nat, run,
{
    match run {
        Coroutine::Done(Err(e)) => Coroutine::Done(Err(e)),
        Coroutine::Done(Ok(input)) => tell_result_within(
            on_input,
            on_output,
            Coroutine::Done(None),
            child.resume(input),
            Ghost((fuel - 1) as nat),
        ),
        Coroutine::Yield(output, next) => {
            let rest = ask_result_within(on_input, on_output, *next, child, Ghost(fuel));
            Coroutine::Yield(output, Box::new(rest))
        },
        Coroutine::Await(k, _) => {
            proof {
                let state = FallibleSubroutineState {
                    on_input,
                    on_output,
                    phase: FallibleSubroutinePhase::Asking(k, child),
                };
                let s = FallibleSubroutine::<
                    I,
                    O,
                    CI,
                    CO,
                    R,
                    E,
                    FI,
                    FO,
                    KI,
                    KO,
                    KC,
                >::suspended(state);
                let c: Coroutine<
                    I,
                    O,
                    Result<R, E>,
                    FallibleSubroutine<I, O, CI, CO, R, E, FI, FO, KI, KO, KC>,
                > =
                    Coroutine::Await(s, PhantomData);
                assert(c.awaited() == Some(s));
                assert(s.state() == state);
            }
            Coroutine::Await(
                park_result(on_input, on_output, FallibleSubroutinePhase::Asking(k, child)),
                PhantomData,
            )
        },
    }
}

impl<
    I,
    O,
    CI,
    CO,
    R,
    E,
    FI,
    FO,
    KI,
    KO,
    KC,
> Resume<I, O, Result<R, E>> for FallibleSubroutine<I, O, CI, CO, R, E, FI, FO, KI, KO, KC> where
    FI: Apply<(), Coroutine<I, O, Result<CI, E>, KI>>,
    FO: Apply<CO, Coroutine<I, O, Option<E>, KO>>,
    KI: Resume<I, O, Result<CI, E>>,
    KO: Resume<I, O, Option<E>>,
    KC: Resume<CI, CO, Result<R, E>>,
 {
    fn resume(self, input: I) -> (c: Coroutine<I, O, Result<R, E>, Self>) {
        let ghost fuel = choose|fuel: nat|
            (#[trigger] self.state.step_fuel::<I, O>(fuel, input)) is Some;
        proof {
            use_type_invariant(&self);
            assert(self.state.tame::<I, O>(seq![input]));
            assert(result_stays_tame(self.next(input))) by {
                match self.next(input).awaited() {
                    Some(k) => {
                        assert forall|rest: Seq<I>| #[trigger]
                            k.state().tame::<I, O>(rest) by {
                            let all = seq![input] + rest;
                            assert(all.skip(1) =~= rest);
                            assert(self.state.tame::<I, O>(all));
                        }
                    },
                    None => {},
                }
            }
        }
        let FallibleSubroutine { state, types: _ } = self;
        let FallibleSubroutineState { on_input, on_output, phase } = state;
        match phase {
            FallibleSubroutinePhase::Asking(k, child) => ask_result_within(
                on_input,
                on_output,
                k.resume(input),
                child,
                Ghost(fuel),
            ),
            FallibleSubroutinePhase::Telling(k, rest) => tell_result_within(
                on_input,
                on_output,
                k.resume(input),
                rest,
                Ghost(fuel),
            ),
        }
    }
}

/// Runs `child`, a coroutine with an alphabet of its own, inside the host
/// alphabet, as [`subroutine`](crate::subroutine::subroutine) does, where the
/// child and the two host coroutines may fail. An error from the coroutine
/// of `on_input` or of `on_output` ends the whole computation with that
/// error, and nothing more of the child is run.
///
/// The child must not be fed forever without a host input: see
/// [`result_nestable`]. That holds of every child when the coroutine of
/// `on_input` waits for a host input before it completes with a value
/// ([`lemma_patient_result_nestable`]).
pub fn subroutine_result<I, O, CI, CO, R, E, FI, FO, KI, KO, KC>(
    on_input: FI,
    on_output: FO,
    child: Coroutine<CI, CO, Result<R, E>, KC>,
) -> (c:
    Coroutine<I, O, Result<R, E>, FallibleSubroutine<I, O, CI, CO, R, E, FI, FO, KI, KO, KC>>) where
    FI: Apply<(), Coroutine<I, O, Result<CI, E>, KI>>,
    FO: Apply<CO, Coroutine<I, O, Option<E>, KO>>,
    KI: Resume<I, O, Result<CI, E>>,
    KO: Resume<I, O, Option<E>>,
    KC: Resume<CI, CO, Result<R, E>>,
    requires
        result_nestable::<I, O, CI, CO, R, E, FI, FO, KI, KO, KC>(
            on_input,
            on_output,
            child,
        ),
    ensures
        c == subroutine_result_spec::<I, O, CI, CO, R, E, FI, FO, KI, KO, KC>(
            on_input,
            on_output,
            child,
        ),
{
    let ghost fuel = choose|fuel: nat|
        (#[trigger] tell_result_fuel::<I, O, CI, CO, R, E, FI, FO, KI, KO, KC>(
            fuel,
            on_input,
            on_output,
            Coroutine::Done(None),
            child,
        ))
            is Some;
    tell_result_within(on_input, on_output, Coroutine::Done(None), child, Ghost(fuel))
}

} // verus!
