//! Running a coroutine inside a host coroutine with another alphabet.
use vstd::prelude::*;
use std::marker::PhantomData;
use crate::coroutine::{after_output, Continuation, Coroutine, Never, Resume};
use crate::function::{Apply, Function};
use crate::functions::Receive;

verus! {

/// Where a suspended subroutine stands.
pub enum SubroutinePhase<KI, KO, KC, CI, CO, R> {
    /// The child waits for an input, and the host coroutine that is to
    /// produce it is suspended.
    Asking(KI, KC),
    /// The host coroutine that deals with an output of the child is
    /// suspended; the rest of the child follows.
    Telling(KO, Coroutine<CI, CO, R, KC>),
}

/// What a suspended subroutine holds.
pub struct SubroutineState<FI, FO, KI, KO, KC, CI, CO, R> {
    pub on_input: FI,
    pub on_output: FO,
    pub phase: SubroutinePhase<KI, KO, KC, CI, CO, R>,
}

/// The state of a coroutine made by [`subroutine`]. Whatever host inputs
/// arrive, the child is never fed forever without one.
#[verifier::reject_recursive_types(I)]
#[verifier::reject_recursive_types(O)]
#[verifier::reject_recursive_types(CI)]
#[verifier::reject_recursive_types(CO)]
#[verifier::reject_recursive_types(R)]
#[verifier::reject_recursive_types(KI)]
#[verifier::reject_recursive_types(KO)]
#[verifier::reject_recursive_types(KC)]
pub struct Subroutine<I, O, CI, CO, R, FI, FO, KI, KO, KC> where
    FI: Function<(), Coroutine<I, O, CI, KI>>,
    FO: Function<CO, Coroutine<I, O, (), KO>>,
    KI: Continuation<I, O, CI>,
    KO: Continuation<I, O, ()>,
    KC: Continuation<CI, CO, R>,
 {
    state: SubroutineState<FI, FO, KI, KO, KC, CI, CO, R>,
    types: PhantomData<(I, O)>,
}

/// The host coroutine `run`, which deals with an output of the child, and
/// after it the rest `rest` of the child, if an external event is reached
/// while the child is fed at most `fuel` inputs that cost no host input:
/// - what `run` produces is produced, and where it is suspended the
///   subroutine is;
/// - once `run` has completed, a completed child completes the subroutine;
///   an output of the child is handed to `on_output`, whose coroutine is run
///   in the same way before the child goes on; and for a child that asks for
///   an input the coroutine of `on_input` is started.
pub open spec fn tell_fuel<I, O, CI, CO, R, FI, FO, KI, KO, KC>(
    fuel: nat,
    on_input: FI,
    on_output: FO,
    run: Coroutine<I, O, (), KO>,
    rest: Coroutine<CI, CO, R, KC>,
) -> Option<
    Coroutine<I, O, R, Subroutine<I, O, CI, CO, R, FI, FO, KI, KO, KC>>,
> where
    FI: Function<(), Coroutine<I, O, CI, KI>>,
    FO: Function<CO, Coroutine<I, O, (), KO>>,
    KI: Continuation<I, O, CI>,
    KO: Continuation<I, O, ()>,
    KC: Continuation<CI, CO, R>,
    decreases fuel, rest, 1nat, run,
{
    match run {
        Coroutine::Yield(output, next) => after_output(
            output,
            tell_fuel(fuel, on_input, on_output, *next, rest),
        ),
        Coroutine::Await(k, _) => Some(
            Coroutine::Await(
                Subroutine::suspended(
                    SubroutineState {
                        on_input,
                        on_output,
                        phase: SubroutinePhase::Telling(k, rest),
                    },
                ),
                PhantomData,
            ),
        ),
        Coroutine::Done(_) => match rest {
            Coroutine::Done(r) => Some(Coroutine::Done(r)),
            Coroutine::Yield(output, next) => tell_fuel(
                fuel,
                on_input,
                on_output,
                on_output.image(output),
                *next,
            ),
            Coroutine::Await(child, _) => ask_fuel(
                fuel,
                on_input,
                on_output,
                on_input.image(()),
                child,
            ),
        },
    }
}

/// The host coroutine `run`, which is to produce an input for the suspended
/// child `child`, and after it the child resumed with that input: what `run`
/// produces is produced, and where it is suspended the subroutine is. An
/// input that `run` completes with takes one unit of fuel.
pub open spec fn ask_fuel<I, O, CI, CO, R, FI, FO, KI, KO, KC>(
    fuel: nat,
    on_input: FI,
    on_output: FO,
    run: Coroutine<I, O, CI, KI>,
    child: KC,
) -> Option<
    Coroutine<I, O, R, Subroutine<I, O, CI, CO, R, FI, FO, KI, KO, KC>>,
> where
    FI: Function<(), Coroutine<I, O, CI, KI>>,
    FO: Function<CO, Coroutine<I, O, (), KO>>,
    KI: Continuation<I, O, CI>,
    KO: Continuation<I, O, ()>,
    KC: Continuation<CI, CO, R>,
    decreases fuel, Coroutine::<CI, CO, R, KC>::Await(child, PhantomData), 0nat, run,
{
    match run {
        Coroutine::Done(input) => if fuel == 0 {
            None
        } else {
            tell_fuel(
                (fuel - 1) as nat,
                on_input,
                on_output,
                Coroutine::Done(()),
                child.next(input),
            )
        },
        Coroutine::Yield(output, next) => after_output(
            output,
            ask_fuel(fuel, on_input, on_output, *next, child),
        ),
        Coroutine::Await(k, _) => Some(
            Coroutine::Await(
                Subroutine::suspended(
                    SubroutineState {
                        on_input,
                        on_output,
                        phase: SubroutinePhase::Asking(k, child),
                    },
                ),
                PhantomData,
            ),
        ),
    }
}

/// Fuel beyond what is needed changes nothing.
pub proof fn lemma_tell_more_fuel<I, O, CI, CO, R, FI, FO, KI, KO, KC>(
    fuel: nat,
    more: nat,
    on_input: FI,
    on_output: FO,
    run: Coroutine<I, O, (), KO>,
    rest: Coroutine<CI, CO, R, KC>,
) where
    FI: Function<(), Coroutine<I, O, CI, KI>>,
    FO: Function<CO, Coroutine<I, O, (), KO>>,
    KI: Continuation<I, O, CI>,
    KO: Continuation<I, O, ()>,
    KC: Continuation<CI, CO, R>,
    requires
        tell_fuel::<I, O, CI, CO, R, FI, FO, KI, KO, KC>(
            fuel,
            on_input,
            on_output,
            run,
            rest,
        ) is Some,
        fuel <= more,
    ensures
        tell_fuel::<I, O, CI, CO, R, FI, FO, KI, KO, KC>(
            more,
            on_input,
            on_output,
            run,
            rest,
        ) == tell_fuel::<I, O, CI, CO, R, FI, FO, KI, KO, KC>(
            fuel,
            on_input,
            on_output,
            run,
            rest,
        ),
    decreases fuel, rest, 1nat, run,
{
    match run {
        Coroutine::Yield(_, next) => {
            lemma_tell_more_fuel::<I, O, CI, CO, R, FI, FO, KI, KO, KC>(
                fuel,
                more,
                on_input,
                on_output,
                *next,
                rest,
            );
        },
        Coroutine::Await(_, _) => {},
        Coroutine::Done(_) => match rest {
            Coroutine::Done(_) => {},
            Coroutine::Yield(output, next) => {
                lemma_tell_more_fuel::<I, O, CI, CO, R, FI, FO, KI, KO, KC>(
                    fuel,
                    more,
                    on_input,
                    on_output,
                    on_output.image(output),
                    *next,
                );
            },
            Coroutine::Await(child, _) => {
                lemma_ask_more_fuel::<I, O, CI, CO, R, FI, FO, KI, KO, KC>(
                    fuel,
                    more,
                    on_input,
                    on_output,
                    on_input.image(()),
                    child,
                );
            },
        },
    }
}

/// Fuel beyond what is needed changes nothing.
pub proof fn lemma_ask_more_fuel<I, O, CI, CO, R, FI, FO, KI, KO, KC>(
    fuel: nat,
    more: nat,
    on_input: FI,
    on_output: FO,
    run: Coroutine<I, O, CI, KI>,
    child: KC,
) where
    FI: Function<(), Coroutine<I, O, CI, KI>>,
    FO: Function<CO, Coroutine<I, O, (), KO>>,
    KI: Continuation<I, O, CI>,
    KO: Continuation<I, O, ()>,
    KC: Continuation<CI, CO, R>,
    requires
        ask_fuel::<I, O, CI, CO, R, FI, FO, KI, KO, KC>(
            fuel,
            on_input,
            on_output,
            run,
            child,
        ) is Some,
        fuel <= more,
    ensures
        ask_fuel::<I, O, CI, CO, R, FI, FO, KI, KO, KC>(
            more,
            on_input,
            on_output,
            run,
            child,
        ) == ask_fuel::<I, O, CI, CO, R, FI, FO, KI, KO, KC>(
            fuel,
            on_input,
            on_output,
            run,
            child,
        ),
    decreases fuel, Coroutine::<CI, CO, R, KC>::Await(child, PhantomData), 0nat, run,
{
    match run {
        Coroutine::Done(input) => {
            lemma_tell_more_fuel::<I, O, CI, CO, R, FI, FO, KI, KO, KC>(
                (fuel - 1) as nat,
                (more - 1) as nat,
                on_input,
                on_output,
                Coroutine::Done(()),
                child.next(input),
            );
        },
        Coroutine::Yield(_, next) => {
            lemma_ask_more_fuel::<I, O, CI, CO, R, FI, FO, KI, KO, KC>(
                fuel,
                more,
                on_input,
                on_output,
                *next,
                child,
            );
        },
        Coroutine::Await(_, _) => {},
    }
}

/// Whether `child`, run inside the host alphabet, reaches an external event:
/// it is not fed forever without a host input.
pub open spec fn settles<I, O, CI, CO, R, FI, FO, KI, KO, KC>(
    on_input: FI,
    on_output: FO,
    child: Coroutine<CI, CO, R, KC>,
) -> bool where
    FI: Function<(), Coroutine<I, O, CI, KI>>,
    FO: Function<CO, Coroutine<I, O, (), KO>>,
    KI: Continuation<I, O, CI>,
    KO: Continuation<I, O, ()>,
    KC: Continuation<CI, CO, R>,
 {
    exists|fuel: nat|
        (#[trigger] tell_fuel::<I, O, CI, CO, R, FI, FO, KI, KO, KC>(
            fuel,
            on_input,
            on_output,
            Coroutine::Done(()),
            child,
        ))
            is Some
}

/// `child` run inside the host alphabet: what [`tell_fuel`] finds with enough
/// fuel. It is left open for a child that is fed forever without a host
/// input.
pub open spec fn subroutine_spec<I, O, CI, CO, R, FI, FO, KI, KO, KC>(
    on_input: FI,
    on_output: FO,
    child: Coroutine<CI, CO, R, KC>,
) -> Coroutine<I, O, R, Subroutine<I, O, CI, CO, R, FI, FO, KI, KO, KC>> where
    FI: Function<(), Coroutine<I, O, CI, KI>>,
    FO: Function<CO, Coroutine<I, O, (), KO>>,
    KI: Continuation<I, O, CI>,
    KO: Continuation<I, O, ()>,
    KC: Continuation<CI, CO, R>,
 {
    tell_fuel::<I, O, CI, CO, R, FI, FO, KI, KO, KC>(
        choose|fuel: nat|
            (#[trigger] tell_fuel::<I, O, CI, CO, R, FI, FO, KI, KO, KC>(
                fuel,
                on_input,
                on_output,
                Coroutine::Done(()),
                child,
            ))
                is Some,
        on_input,
        on_output,
        Coroutine::Done(()),
        child,
    ).unwrap()
}

/// The subroutine is what any sufficient amount of fuel gives.
pub proof fn lemma_subroutine_spec<I, O, CI, CO, R, FI, FO, KI, KO, KC>(
    fuel: nat,
    on_input: FI,
    on_output: FO,
    child: Coroutine<CI, CO, R, KC>,
) where
    FI: Function<(), Coroutine<I, O, CI, KI>>,
    FO: Function<CO, Coroutine<I, O, (), KO>>,
    KI: Continuation<I, O, CI>,
    KO: Continuation<I, O, ()>,
    KC: Continuation<CI, CO, R>,
    requires
        tell_fuel::<I, O, CI, CO, R, FI, FO, KI, KO, KC>(
            fuel,
            on_input,
            on_output,
            Coroutine::Done(()),
            child,
        ) is Some,
    ensures
        settles::<I, O, CI, CO, R, FI, FO, KI, KO, KC>(
            on_input,
            on_output,
            child,
        ),
        Some(
            subroutine_spec::<I, O, CI, CO, R, FI, FO, KI, KO, KC>(on_input, on_output, child),
        ) == tell_fuel::<I, O, CI, CO, R, FI, FO, KI, KO, KC>(
            fuel,
            on_input,
            on_output,
            Coroutine::Done(()),
            child,
        ),
{
    let enough = choose|fuel: nat|
        (#[trigger] tell_fuel::<I, O, CI, CO, R, FI, FO, KI, KO, KC>(
            fuel,
            on_input,
            on_output,
            Coroutine::Done(()),
            child,
        ))
            is Some;
    if enough <= fuel {
        lemma_tell_more_fuel::<I, O, CI, CO, R, FI, FO, KI, KO, KC>(
            enough,
            fuel,
            on_input,
            on_output,
            Coroutine::Done(()),
            child,
        );
    } else {
        lemma_tell_more_fuel::<I, O, CI, CO, R, FI, FO, KI, KO, KC>(
            fuel,
            enough,
            on_input,
            on_output,
            Coroutine::Done(()),
            child,
        );
    }
}

impl<FI, FO, KI, KO, KC, CI, CO, R> SubroutineState<FI, FO, KI, KO, KC, CI, CO, R> {
    /// The subroutine after `input` has arrived, if an external event is
    /// reached within `fuel`: the input resumes the host coroutine that is
    /// suspended.
    pub open spec fn step_fuel<I, O>(self, fuel: nat, input: I) -> Option<
    Coroutine<I, O, R, Subroutine<I, O, CI, CO, R, FI, FO, KI, KO, KC>>,
> where
    FI: Function<(), Coroutine<I, O, CI, KI>>,
    FO: Function<CO, Coroutine<I, O, (), KO>>,
    KI: Continuation<I, O, CI>,
    KO: Continuation<I, O, ()>,
    KC: Continuation<CI, CO, R>,
 {
        match self.phase {
            SubroutinePhase::Asking(k, child) => ask_fuel::<I, O, CI, CO, R, FI, FO, KI, KO, KC>(
                fuel,
                self.on_input,
                self.on_output,
                k.next(input),
                child,
            ),
            SubroutinePhase::Telling(k, rest) => tell_fuel::<I, O, CI, CO, R, FI, FO, KI, KO, KC>(
                fuel,
                self.on_input,
                self.on_output,
                k.next(input),
                rest,
            ),
        }
    }

    /// Whether the subroutine reaches an external event after `input` has
    /// arrived.
    pub open spec fn step_settles<I, O>(self, input: I) -> bool where
    FI: Function<(), Coroutine<I, O, CI, KI>>,
    FO: Function<CO, Coroutine<I, O, (), KO>>,
    KI: Continuation<I, O, CI>,
    KO: Continuation<I, O, ()>,
    KC: Continuation<CI, CO, R>,
 {
        exists|fuel: nat| (#[trigger] self.step_fuel::<I, O>(fuel, input)) is Some
    }

    /// The subroutine after `input` has arrived.
    pub open spec fn step<I, O>(self, input: I) -> Coroutine<
        I,
        O,
        R,
        Subroutine<I, O, CI, CO, R, FI, FO, KI, KO, KC>,
    > where
    FI: Function<(), Coroutine<I, O, CI, KI>>,
    FO: Function<CO, Coroutine<I, O, (), KO>>,
    KI: Continuation<I, O, CI>,
    KO: Continuation<I, O, ()>,
    KC: Continuation<CI, CO, R>,
 {
        self.step_fuel::<I, O>(
            choose|fuel: nat| (#[trigger] self.step_fuel::<I, O>(fuel, input)) is Some,
            input,
        ).unwrap()
    }

    /// Whether, as the inputs `inputs` arrive one by one, the subroutine
    /// reaches an external event after each of them.
    pub open spec fn tame<I, O>(self, inputs: Seq<I>) -> bool where
    FI: Function<(), Coroutine<I, O, CI, KI>>,
    FO: Function<CO, Coroutine<I, O, (), KO>>,
    KI: Continuation<I, O, CI>,
    KO: Continuation<I, O, ()>,
    KC: Continuation<CI, CO, R>,
        decreases inputs.len(),
    {
        inputs.len() > 0 ==> {
            &&& self.step_settles::<I, O>(inputs[0])
            &&& match self.step::<I, O>(inputs[0]).awaited() {
                Some(k) => k.state().tame::<I, O>(inputs.skip(1)),
                None => true,
            }
        }
    }

    /// The step is what any sufficient amount of fuel gives.
    pub proof fn lemma_step<I, O>(self, fuel: nat, input: I) where
    FI: Function<(), Coroutine<I, O, CI, KI>>,
    FO: Function<CO, Coroutine<I, O, (), KO>>,
    KI: Continuation<I, O, CI>,
    KO: Continuation<I, O, ()>,
    KC: Continuation<CI, CO, R>,
        requires
            self.step_fuel::<I, O>(fuel, input) is Some,
        ensures
            self.step_settles::<I, O>(input),
            Some(self.step::<I, O>(input)) == self.step_fuel::<I, O>(fuel, input),
    {
        let enough = choose|fuel: nat| (#[trigger] self.step_fuel::<I, O>(fuel, input)) is Some;
        let (low, high) = if enough <= fuel {
            (enough, fuel)
        } else {
            (fuel, enough)
        };
        match self.phase {
            SubroutinePhase::Asking(k, child) => {
                lemma_ask_more_fuel::<I, O, CI, CO, R, FI, FO, KI, KO, KC>(
                    low,
                    high,
                    self.on_input,
                    self.on_output,
                    k.next(input),
                    child,
                );
            },
            SubroutinePhase::Telling(k, rest) => {
                lemma_tell_more_fuel::<I, O, CI, CO, R, FI, FO, KI, KO, KC>(
                    low,
                    high,
                    self.on_input,
                    self.on_output,
                    k.next(input),
                    rest,
                );
            },
        }
    }
}

impl<I, O, CI, CO, R, FI, FO, KI, KO, KC> Subroutine<I, O, CI, CO, R, FI, FO, KI, KO, KC> where
    FI: Function<(), Coroutine<I, O, CI, KI>>,
    FO: Function<CO, Coroutine<I, O, (), KO>>,
    KI: Continuation<I, O, CI>,
    KO: Continuation<I, O, ()>,
    KC: Continuation<CI, CO, R>,
 {
    #[verifier::type_invariant]
    spec fn inv(self) -> bool {
        forall|inputs: Seq<I>| #[trigger] self.state.tame::<I, O>(inputs)
    }

    /// What the suspended subroutine holds.
    pub closed spec fn state(self) -> SubroutineState<FI, FO, KI, KO, KC, CI, CO, R> {
        self.state
    }

    /// The suspended subroutine that holds `state`.
    pub closed spec fn suspended(state: SubroutineState<FI, FO, KI, KO, KC, CI, CO, R>) -> Self {
        Subroutine { state, types: PhantomData }
    }

    /// A suspended subroutine is what it holds, and nothing more.
    pub proof fn lemma_state(self, state: SubroutineState<FI, FO, KI, KO, KC, CI, CO, R>)
        ensures
            Self::suspended(state).state() == state,
            Self::suspended(self.state()) == self,
    {
    }
}

/// Whether the state in which the subroutine `c` is suspended, if it is, is
/// tame along every sequence of inputs.
pub open spec fn stays_tame<
    I,
    O,
    CI,
    CO,
    R,
    FI,
    FO,
    KI,
    KO,
    KC,
>(c: Coroutine<I, O, R, Subroutine<I, O, CI, CO, R, FI, FO, KI, KO, KC>>) -> bool where
    FI: Function<(), Coroutine<I, O, CI, KI>>,
    FO: Function<CO, Coroutine<I, O, (), KO>>,
    KI: Continuation<I, O, CI>,
    KO: Continuation<I, O, ()>,
    KC: Continuation<CI, CO, R>,
 {
    match c.awaited() {
        Some(k) => forall|inputs: Seq<I>| #[trigger] k.state().tame::<I, O>(inputs),
        None => true,
    }
}

/// Whether `child` can be run inside the host alphabet: now and after every
/// host input that may arrive later, it is not fed forever without a host
/// input. The coroutine of `on_input` may complete without having received
/// anything, but then the child has to get somewhere with what it is fed.
pub open spec fn nestable<I, O, CI, CO, R, FI, FO, KI, KO, KC>(
    on_input: FI,
    on_output: FO,
    child: Coroutine<CI, CO, R, KC>,
) -> bool where
    FI: Function<(), Coroutine<I, O, CI, KI>>,
    FO: Function<CO, Coroutine<I, O, (), KO>>,
    KI: Continuation<I, O, CI>,
    KO: Continuation<I, O, ()>,
    KC: Continuation<CI, CO, R>,
 {
    &&& settles::<I, O, CI, CO, R, FI, FO, KI, KO, KC>(
        on_input,
        on_output,
        child,
    )
    &&& stays_tame(subroutine_spec::<I, O, CI, CO, R, FI, FO, KI, KO, KC>(
        on_input,
        on_output,
        child,
    ))
}

impl<
    I,
    O,
    CI,
    CO,
    R,
    FI,
    FO,
    KI,
    KO,
    KC,
> Continuation<I, O, R> for Subroutine<I, O, CI, CO, R, FI, FO, KI, KO, KC> where
    FI: Function<(), Coroutine<I, O, CI, KI>>,
    FO: Function<CO, Coroutine<I, O, (), KO>>,
    KI: Continuation<I, O, CI>,
    KO: Continuation<I, O, ()>,
    KC: Continuation<CI, CO, R>,
 {
    /// The input resumes the host coroutine that is suspended.
    open spec fn next(self, input: I) -> Coroutine<I, O, R, Self> {
        self.state().step::<I, O>(input)
    }
}

/// A suspended subroutine holds the functions it was made with.
pub proof fn lemma_tell_keeps_functions<I, O, CI, CO, R, FI, FO, KI, KO, KC>(
    fuel: nat,
    on_input: FI,
    on_output: FO,
    run: Coroutine<I, O, (), KO>,
    rest: Coroutine<CI, CO, R, KC>,
) where
    FI: Function<(), Coroutine<I, O, CI, KI>>,
    FO: Function<CO, Coroutine<I, O, (), KO>>,
    KI: Continuation<I, O, CI>,
    KO: Continuation<I, O, ()>,
    KC: Continuation<CI, CO, R>,
    ensures
        tell_fuel::<I, O, CI, CO, R, FI, FO, KI, KO, KC>(
            fuel,
            on_input,
            on_output,
            run,
            rest,
        ) matches Some(c) ==> (
        c.awaited() matches Some(k) ==> k.state().on_input == on_input && k.state().on_output
            == on_output),
    decreases fuel, rest, 1nat, run,
{
    match run {
        Coroutine::Yield(_, next) => {
            lemma_tell_keeps_functions::<I, O, CI, CO, R, FI, FO, KI, KO, KC>(
                fuel,
                on_input,
                on_output,
                *next,
                rest,
            );
        },
        Coroutine::Await(k, _) => {
            let state = SubroutineState {
                on_input,
                on_output,
                phase: SubroutinePhase::Telling(k, rest),
            };
            let s = Subroutine::<I, O, CI, CO, R, FI, FO, KI, KO, KC>::suspended(state);
            s.lemma_state(state);
            let c: Coroutine<I, O, R, Subroutine<I, O, CI, CO, R, FI, FO, KI, KO, KC>> =
                Coroutine::Await(s, PhantomData);
            assert(c.awaited() == Some(s));
        },
        Coroutine::Done(_) => match rest {
            Coroutine::Done(_) => {},
            Coroutine::Yield(output, next) => {
                lemma_tell_keeps_functions::<I, O, CI, CO, R, FI, FO, KI, KO, KC>(
                    fuel,
                    on_input,
                    on_output,
                    on_output.image(output),
                    *next,
                );
            },
            Coroutine::Await(child, _) => {
                lemma_ask_keeps_functions::<I, O, CI, CO, R, FI, FO, KI, KO, KC>(
                    fuel,
                    on_input,
                    on_output,
                    on_input.image(()),
                    child,
                );
            },
        },
    }
}

/// A suspended subroutine holds the functions it was made with.
pub proof fn lemma_ask_keeps_functions<I, O, CI, CO, R, FI, FO, KI, KO, KC>(
    fuel: nat,
    on_input: FI,
    on_output: FO,
    run: Coroutine<I, O, CI, KI>,
    child: KC,
) where
    FI: Function<(), Coroutine<I, O, CI, KI>>,
    FO: Function<CO, Coroutine<I, O, (), KO>>,
    KI: Continuation<I, O, CI>,
    KO: Continuation<I, O, ()>,
    KC: Continuation<CI, CO, R>,
    ensures
        ask_fuel::<I, O, CI, CO, R, FI, FO, KI, KO, KC>(
            fuel,
            on_input,
            on_output,
            run,
            child,
        ) matches Some(c) ==> (
        c.awaited() matches Some(k) ==> k.state().on_input == on_input && k.state().on_output
            == on_output),
    decreases fuel, Coroutine::<CI, CO, R, KC>::Await(child, PhantomData), 0nat, run,
{
    match run {
        Coroutine::Done(input) => {
            if fuel > 0 {
                lemma_tell_keeps_functions::<I, O, CI, CO, R, FI, FO, KI, KO, KC>(
                    (fuel - 1) as nat,
                    on_input,
                    on_output,
                    Coroutine::Done(()),
                    child.next(input),
                );
            }
        },
        Coroutine::Yield(_, next) => {
            lemma_ask_keeps_functions::<I, O, CI, CO, R, FI, FO, KI, KO, KC>(
                fuel,
                on_input,
                on_output,
                *next,
                child,
            );
        },
        Coroutine::Await(k, _) => {
            let state = SubroutineState {
                on_input,
                on_output,
                phase: SubroutinePhase::Asking(k, child),
            };
            let s = Subroutine::<I, O, CI, CO, R, FI, FO, KI, KO, KC>::suspended(state);
            s.lemma_state(state);
            let c: Coroutine<I, O, R, Subroutine<I, O, CI, CO, R, FI, FO, KI, KO, KC>> =
                Coroutine::Await(s, PhantomData);
            assert(c.awaited() == Some(s));
        },
    }
}

/// With an `on_input` whose coroutine asks for a host input before it
/// completes, a host coroutine that is started needs no fuel.
pub proof fn lemma_patient_ask<I, O, CI, CO, R, FI, FO, KI, KO, KC>(
    on_input: FI,
    on_output: FO,
    run: Coroutine<I, O, CI, KI>,
    child: KC,
) where
    FI: Function<(), Coroutine<I, O, CI, KI>>,
    FO: Function<CO, Coroutine<I, O, (), KO>>,
    KI: Continuation<I, O, CI>,
    KO: Continuation<I, O, ()>,
    KC: Continuation<CI, CO, R>,
    requires
        run.awaited() is Some,
    ensures
        ask_fuel::<I, O, CI, CO, R, FI, FO, KI, KO, KC>(
            0,
            on_input,
            on_output,
            run,
            child,
        ) is Some,
    decreases run,
{
    match run {
        Coroutine::Yield(_, next) => {
            lemma_patient_ask::<I, O, CI, CO, R, FI, FO, KI, KO, KC>(
                on_input,
                on_output,
                *next,
                child,
            );
        },
        _ => {},
    }
}

/// With an `on_input` whose coroutine asks for a host input before it
/// completes, running the child needs no fuel.
pub proof fn lemma_patient_tell<I, O, CI, CO, R, FI, FO, KI, KO, KC>(
    on_input: FI,
    on_output: FO,
    run: Coroutine<I, O, (), KO>,
    rest: Coroutine<CI, CO, R, KC>,
) where
    FI: Function<(), Coroutine<I, O, CI, KI>>,
    FO: Function<CO, Coroutine<I, O, (), KO>>,
    KI: Continuation<I, O, CI>,
    KO: Continuation<I, O, ()>,
    KC: Continuation<CI, CO, R>,
    requires
        on_input.image(()).awaited() is Some,
    ensures
        tell_fuel::<I, O, CI, CO, R, FI, FO, KI, KO, KC>(
            0,
            on_input,
            on_output,
            run,
            rest,
        ) is Some,
    decreases rest, run,
{
    match run {
        Coroutine::Yield(_, next) => {
            lemma_patient_tell::<I, O, CI, CO, R, FI, FO, KI, KO, KC>(
                on_input,
                on_output,
                *next,
                rest,
            );
        },
        Coroutine::Await(_, _) => {},
        Coroutine::Done(_) => match rest {
            Coroutine::Done(_) => {},
            Coroutine::Yield(output, next) => {
                lemma_patient_tell::<I, O, CI, CO, R, FI, FO, KI, KO, KC>(
                    on_input,
                    on_output,
                    on_output.image(output),
                    *next,
                );
            },
            Coroutine::Await(child, _) => {
                lemma_patient_ask::<I, O, CI, CO, R, FI, FO, KI, KO, KC>(
                    on_input,
                    on_output,
                    on_input.image(()),
                    child,
                );
            },
        },
    }
}

/// With an `on_input` whose coroutine asks for a host input before it
/// completes, a host coroutine that goes on after an input needs at most one
/// unit of fuel: for the input that it may complete with.
pub proof fn lemma_patient_asked<I, O, CI, CO, R, FI, FO, KI, KO, KC>(
    on_input: FI,
    on_output: FO,
    run: Coroutine<I, O, CI, KI>,
    child: KC,
) where
    FI: Function<(), Coroutine<I, O, CI, KI>>,
    FO: Function<CO, Coroutine<I, O, (), KO>>,
    KI: Continuation<I, O, CI>,
    KO: Continuation<I, O, ()>,
    KC: Continuation<CI, CO, R>,
    requires
        on_input.image(()).awaited() is Some,
    ensures
        ask_fuel::<I, O, CI, CO, R, FI, FO, KI, KO, KC>(
            1,
            on_input,
            on_output,
            run,
            child,
        ) is Some,
    decreases run,
{
    match run {
        Coroutine::Done(input) => {
            lemma_patient_tell::<I, O, CI, CO, R, FI, FO, KI, KO, KC>(
                on_input,
                on_output,
                Coroutine::Done(()),
                child.next(input),
            );
        },
        Coroutine::Yield(_, next) => {
            lemma_patient_asked::<I, O, CI, CO, R, FI, FO, KI, KO, KC>(
                on_input,
                on_output,
                *next,
                child,
            );
        },
        Coroutine::Await(_, _) => {},
    }
}

/// With an `on_input` whose coroutine asks for a host input before it
/// completes, a suspended subroutine is tame.
pub proof fn lemma_patient_tame<
    I,
    O,
    CI,
    CO,
    R,
    FI,
    FO,
    KI,
    KO,
    KC,
>(state: SubroutineState<FI, FO, KI, KO, KC, CI, CO, R>, inputs: Seq<I>) where
    FI: Function<(), Coroutine<I, O, CI, KI>>,
    FO: Function<CO, Coroutine<I, O, (), KO>>,
    KI: Continuation<I, O, CI>,
    KO: Continuation<I, O, ()>,
    KC: Continuation<CI, CO, R>,
    requires
        state.on_input.image(()).awaited() is Some,
    ensures
        state.tame::<I, O>(inputs),
    decreases inputs.len(),
{
    if inputs.len() > 0 {
        let input = inputs[0];
        match state.phase {
            SubroutinePhase::Asking(k, child) => {
                lemma_patient_asked::<I, O, CI, CO, R, FI, FO, KI, KO, KC>(
                    state.on_input,
                    state.on_output,
                    k.next(input),
                    child,
                );
                lemma_ask_keeps_functions::<I, O, CI, CO, R, FI, FO, KI, KO, KC>(
                    1,
                    state.on_input,
                    state.on_output,
                    k.next(input),
                    child,
                );
            },
            SubroutinePhase::Telling(k, rest) => {
                lemma_patient_tell::<I, O, CI, CO, R, FI, FO, KI, KO, KC>(
                    state.on_input,
                    state.on_output,
                    k.next(input),
                    rest,
                );
                lemma_tell_more_fuel::<I, O, CI, CO, R, FI, FO, KI, KO, KC>(
                    0,
                    1,
                    state.on_input,
                    state.on_output,
                    k.next(input),
                    rest,
                );
                lemma_tell_keeps_functions::<I, O, CI, CO, R, FI, FO, KI, KO, KC>(
                    1,
                    state.on_input,
                    state.on_output,
                    k.next(input),
                    rest,
                );
            },
        }
        state.lemma_step::<I, O>(1, input);
        match state.step::<I, O>(input).awaited() {
            Some(k) => {
                lemma_patient_tame::<I, O, CI, CO, R, FI, FO, KI, KO, KC>(
                    k.state(),
                    inputs.skip(1),
                );
            },
            None => {},
        }
    }
}

/// Any child can be run with an `on_input` whose coroutine asks for a host
/// input before it completes.
pub proof fn lemma_patient_nestable<I, O, CI, CO, R, FI, FO, KI, KO, KC>(
    on_input: FI,
    on_output: FO,
    child: Coroutine<CI, CO, R, KC>,
) where
    FI: Function<(), Coroutine<I, O, CI, KI>>,
    FO: Function<CO, Coroutine<I, O, (), KO>>,
    KI: Continuation<I, O, CI>,
    KO: Continuation<I, O, ()>,
    KC: Continuation<CI, CO, R>,
    requires
        on_input.image(()).awaited() is Some,
    ensures
        nestable::<I, O, CI, CO, R, FI, FO, KI, KO, KC>(
            on_input,
            on_output,
            child,
        ),
{
    lemma_patient_tell::<I, O, CI, CO, R, FI, FO, KI, KO, KC>(
        on_input,
        on_output,
        Coroutine::Done(()),
        child,
    );
    lemma_subroutine_spec::<I, O, CI, CO, R, FI, FO, KI, KO, KC>(
        0,
        on_input,
        on_output,
        child,
    );
    lemma_tell_keeps_functions::<I, O, CI, CO, R, FI, FO, KI, KO, KC>(
        0,
        on_input,
        on_output,
        Coroutine::Done(()),
        child,
    );
    let c = subroutine_spec::<I, O, CI, CO, R, FI, FO, KI, KO, KC>(
        on_input,
        on_output,
        child,
    );
    match c.awaited() {
        Some(k) => {
            assert forall|inputs: Seq<I>| #[trigger] k.state().tame::<I, O>(inputs) by {
                lemma_patient_tame::<I, O, CI, CO, R, FI, FO, KI, KO, KC>(
                    k.state(),
                    inputs,
                );
            }
        },
        None => {},
    }
}

fn park<I, O, CI, CO, R, FI, FO, KI, KO, KC>(
    on_input: FI,
    on_output: FO,
    phase: SubroutinePhase<KI, KO, KC, CI, CO, R>,
) -> (k: Subroutine<I, O, CI, CO, R, FI, FO, KI, KO, KC>) where
    FI: Function<(), Coroutine<I, O, CI, KI>>,
    FO: Function<CO, Coroutine<I, O, (), KO>>,
    KI: Continuation<I, O, CI>,
    KO: Continuation<I, O, ()>,
    KC: Continuation<CI, CO, R>,
    requires
        forall|inputs: Seq<I>| #[trigger]
            (SubroutineState { on_input, on_output, phase }).tame::<I, O>(inputs),
    ensures
        k == Subroutine::<I, O, CI, CO, R, FI, FO, KI, KO, KC>::suspended(
            SubroutineState { on_input, on_output, phase },
        ),
{
    Subroutine { state: SubroutineState { on_input, on_output, phase }, types: PhantomData }
}

fn tell_within<I, O, CI, CO, R, FI, FO, KI, KO, KC>(
    on_input: FI,
    on_output: FO,
    run: Coroutine<I, O, (), KO>,
    rest: Coroutine<CI, CO, R, KC>,
    Ghost(fuel): Ghost<nat>,
) -> (c: Coroutine<I, O, R, Subroutine<I, O, CI, CO, R, FI, FO, KI, KO, KC>>) where
    FI: Apply<(), Coroutine<I, O, CI, KI>>,
    FO: Apply<CO, Coroutine<I, O, (), KO>>,
    KI: Resume<I, O, CI>,
    KO: Resume<I, O, ()>,
    KC: Resume<CI, CO, R>,
    requires
        tell_fuel::<I, O, CI, CO, R, FI, FO, KI, KO, KC>(
            fuel,
            on_input,
            on_output,
            run,
            rest,
        ) matches Some(r) && stays_tame(r),
    ensures
        Some(c) == tell_fuel::<I, O, CI, CO, R, FI, FO, KI, KO, KC>(
            fuel,
            on_input,
            on_output,
            run,
            rest,
        ),
    decreases fuel, rest, 1nat, run,
{
    match run {
        Coroutine::Yield(output, next) => {
            let rest = tell_within(on_input, on_output, *next, rest, Ghost(fuel));
            Coroutine::Yield(output, Box::new(rest))
        },
        Coroutine::Await(k, _) => {
            proof {
                let state = SubroutineState {
                    on_input,
                    on_output,
                    phase: SubroutinePhase::Telling(k, rest),
                };
                let s = Subroutine::<I, O, CI, CO, R, FI, FO, KI, KO, KC>::suspended(state);
                let c: Coroutine<I, O, R, Subroutine<I, O, CI, CO, R, FI, FO, KI, KO, KC>> =
                    Coroutine::Await(s, PhantomData);
                assert(c.awaited() == Some(s));
                assert(s.state() == state);
            }
            Coroutine::Await(
                park(on_input, on_output, SubroutinePhase::Telling(k, rest)),
                PhantomData,
            )
        },
        Coroutine::Done(_) => match rest {
            Coroutine::Done(r) => Coroutine::Done(r),
            Coroutine::Yield(output, next) => {
                let run = on_output.apply(output);
                tell_within(on_input, on_output, run, *next, Ghost(fuel))
            },
            Coroutine::Await(child, _) => {
                let run = on_input.apply(());
                ask_within(on_input, on_output, run, child, Ghost(fuel))
            },
        },
    }
}

fn ask_within<I, O, CI, CO, R, FI, FO, KI, KO, KC>(
    on_input: FI,
    on_output: FO,
    run: Coroutine<I, O, CI, KI>,
    child: KC,
    Ghost(fuel): Ghost<nat>,
) -> (c: Coroutine<I, O, R, Subroutine<I, O, CI, CO, R, FI, FO, KI, KO, KC>>) where
    FI: Apply<(), Coroutine<I, O, CI, KI>>,
    FO: Apply<CO, Coroutine<I, O, (), KO>>,
    KI: Resume<I, O, CI>,
    KO: Resume<I, O, ()>,
    KC: Resume<CI, CO, R>,
    requires
        ask_fuel::<I, O, CI, CO, R, FI, FO, KI, KO, KC>(
            fuel,
            on_input,
            on_output,
            run,
            child,
        ) matches Some(r) && stays_tame(r),
    ensures
        Some(c) == ask_fuel::<I, O, CI, CO, R, FI, FO, KI, KO, KC>(
            fuel,
            on_input,
            on_output,
            run,
            child,
        ),
    decreases fuel, Coroutine::<CI, CO, R, KC>::Await(child, PhantomData), 0nat, run,
{
    match run {
        Coroutine::Done(input) => tell_within(
            on_input,
            on_output,
            Coroutine::Done(()),
            child.resume(input),
            Ghost((fuel - 1) as nat),
        ),
        Coroutine::Yield(output, next) => {
            let rest = ask_within(on_input, on_output, *next, child, Ghost(fuel));
            Coroutine::Yield(output, Box::new(rest))
        },
        Coroutine::Await(k, _) => {
            proof {
                let state = SubroutineState {
                    on_input,
                    on_output,
                    phase: SubroutinePhase::Asking(k, child),
                };
                let s = Subroutine::<I, O, CI, CO, R, FI, FO, KI, KO, KC>::suspended(state);
                let c: Coroutine<I, O, R, Subroutine<I, O, CI, CO, R, FI, FO, KI, KO, KC>> =
                    Coroutine::Await(s, PhantomData);
                assert(c.awaited() == Some(s));
                assert(s.state() == state);
            }
            Coroutine::Await(
                park(on_input, on_output, SubroutinePhase::Asking(k, child)),
                PhantomData,
            )
        },
    }
}

impl<
    I,
    O,
    CI,
    CO,
    R,
    FI,
    FO,
    KI,
    KO,
    KC,
> Resume<I, O, R> for Subroutine<I, O, CI, CO, R, FI, FO, KI, KO, KC> where
    FI: Apply<(), Coroutine<I, O, CI, KI>>,
    FO: Apply<CO, Coroutine<I, O, (), KO>>,
    KI: Resume<I, O, CI>,
    KO: Resume<I, O, ()>,
    KC: Resume<CI, CO, R>,
 {
    fn resume(self, input: I) -> (c: Coroutine<I, O, R, Self>) {
        let ghost fuel = choose|fuel: nat|
            (#[trigger] self.state.step_fuel::<I, O>(fuel, input)) is Some;
        proof {
            use_type_invariant(&self);
            assert(self.state.tame::<I, O>(seq![input]));
            assert(stays_tame(self.next(input))) by {
                match self.next(input).awaited() {
                    Some(k) => {
                        assert forall|rest: Seq<I>| #[trigger]
                            k.state().tame::<I, O>(rest) by {
                            let all = seq![input] + rest;
                            assert(all.skip(1) =~= rest);
                            assert(self.state.tame::<I, O>(all));
                        }
                    },
                    None => {},
                }
            }
        }
        let Subroutine { state, types: _ } = self;
        let SubroutineState { on_input, on_output, phase } = state;
        match phase {
            SubroutinePhase::Asking(k, child) => ask_within(
                on_input,
                on_output,
                k.resume(input),
                child,
                Ghost(fuel),
            ),
            SubroutinePhase::Telling(k, rest) => tell_within(
                on_input,
                on_output,
                k.resume(input),
                rest,
                Ghost(fuel),
            ),
        }
    }
}

/// Runs `child`, a coroutine with an alphabet of its own, inside the host
/// alphabet. Whenever the child asks for an input, the host coroutine
/// returned by `on_input` is run and the child gets the value that it
/// completes with. Every output of the child is handed to `on_output`, and
/// the host coroutine that it returns is run before the child goes on. The
/// result completes with the value of the child.
///
/// The child must not be fed forever without a host input: see
/// [`nestable`]. That holds of every child when the coroutine of `on_input`
/// waits for a host input before it completes
/// ([`lemma_patient_nestable`]).
pub fn subroutine<I, O, CI, CO, R, FI, FO, KI, KO, KC>(
    on_input: FI,
    on_output: FO,
    child: Coroutine<CI, CO, R, KC>,
) -> (c:
    Coroutine<I, O, R, Subroutine<I, O, CI, CO, R, FI, FO, KI, KO, KC>>) where
    FI: Apply<(), Coroutine<I, O, CI, KI>>,
    FO: Apply<CO, Coroutine<I, O, (), KO>>,
    KI: Resume<I, O, CI>,
    KO: Resume<I, O, ()>,
    KC: Resume<CI, CO, R>,
    requires
        nestable::<I, O, CI, CO, R, FI, FO, KI, KO, KC>(
            on_input,
            on_output,
            child,
        ),
    ensures
        c == subroutine_spec::<I, O, CI, CO, R, FI, FO, KI, KO, KC>(
            on_input,
            on_output,
            child,
        ),
{
    let ghost fuel = choose|fuel: nat|
        (#[trigger] tell_fuel::<I, O, CI, CO, R, FI, FO, KI, KO, KC>(
            fuel,
            on_input,
            on_output,
            Coroutine::Done(()),
            child,
        ))
            is Some;
    tell_within(on_input, on_output, Coroutine::Done(()), child, Ghost(fuel))
}

/// The function that starts a coroutine which receives one input and
/// completes with it.
pub struct Receiving;

impl<I, O> Function<(), Coroutine<I, O, I, Receive>> for Receiving {
    open spec fn image(&self, arg: ()) -> Coroutine<I, O, I, Receive> {
        Coroutine::Await(Receive, PhantomData)
    }
}

impl<I, O> Apply<(), Coroutine<I, O, I, Receive>> for Receiving {
    fn apply(&self, arg: ()) -> (out: Coroutine<I, O, I, Receive>) {
        Coroutine::Await(Receive, PhantomData)
    }
}

/// The state of a coroutine made by [`intercept_output`].
pub type InterceptOutput<I, OA, OB, R, T, KT, K> = Subroutine<
    I,
    OB,
    I,
    OA,
    R,
    Receiving,
    T,
    Receive,
    KT,
    K,
>;

/// `co` with each output handed to `transform`.
pub open spec fn intercept_output_spec<I, OA, OB, R, T, KT, K>(
    co: Coroutine<I, OA, R, K>,
    transform: T,
) -> Coroutine<I, OB, R, InterceptOutput<I, OA, OB, R, T, KT, K>> where
    T: Function<OA, Coroutine<I, OB, (), KT>>,
    KT: Continuation<I, OB, ()>,
    K: Continuation<I, OA, R>,
 {
    subroutine_spec(Receiving, transform, co)
}

/// Changes the outputs of `co`: each is handed to `transform`, and the
/// coroutine that `transform` returns is run in its place. The inputs of `co`
/// pass through.
pub fn intercept_output<I, OA, OB, R, T, KT, K>(co: Coroutine<I, OA, R, K>, transform: T) -> (c:
    Coroutine<I, OB, R, InterceptOutput<I, OA, OB, R, T, KT, K>>) where
    T: Apply<OA, Coroutine<I, OB, (), KT>>,
    KT: Resume<I, OB, ()>,
    K: Resume<I, OA, R>,

    ensures
        c == intercept_output_spec::<I, OA, OB, R, T, KT, K>(co, transform),
{
    proof {
        assert((Coroutine::<I, OB, I, Receive>::Await(Receive, PhantomData)).awaited() is Some);
        lemma_patient_nestable::<I, OB, I, OA, R, Receiving, T, Receive, KT, K>(
            Receiving,
            transform,
            co,
        );
    }
    subroutine(Receiving, transform, co)
}

/// The function that maps `o` to the coroutine that produces `f` of `o` and
/// completes.
pub struct Sending<F>(pub F);

impl<I, OA, OB, F: Function<OA, OB>> Function<OA, Coroutine<I, OB, (), Never>> for Sending<F> {
    open spec fn image(&self, arg: OA) -> Coroutine<I, OB, (), Never> {
        Coroutine::Yield(self.0.image(arg), Box::new(Coroutine::Done(())))
    }
}

impl<I, OA, OB, F: Apply<OA, OB>> Apply<OA, Coroutine<I, OB, (), Never>> for Sending<F> {
    fn apply(&self, arg: OA) -> (out: Coroutine<I, OB, (), Never>) {
        Coroutine::Yield(self.0.apply(arg), Box::new(Coroutine::Done(())))
    }
}

/// The state of a coroutine made by [`map_output`].
pub type MapOutput<I, OA, OB, R, F, K> = InterceptOutput<I, OA, OB, R, Sending<F>, Never, K>;

/// `co` with `map_fn` applied to each output.
pub open spec fn map_output_spec<I, OA, OB, R, F, K>(
    co: Coroutine<I, OA, R, K>,
    map_fn: F,
) -> Coroutine<I, OB, R, MapOutput<I, OA, OB, R, F, K>> where
    F: Function<OA, OB>,
    K: Continuation<I, OA, R>,
 {
    intercept_output_spec(co, Sending(map_fn))
}

/// Changes the outputs of `co`: each goes through `map_fn` before it is
/// produced.
pub fn map_output<I, OA, OB, R, F, K>(co: Coroutine<I, OA, R, K>, map_fn: F) -> (c: Coroutine<
    I,
    OB,
    R,
    MapOutput<I, OA, OB, R, F, K>,
>) where F: Apply<OA, OB>, K: Resume<I, OA, R>
    ensures
        c == map_output_spec::<I, OA, OB, R, F, K>(co, map_fn),
{
    intercept_output(co, Sending(map_fn))
}

} // verus!
