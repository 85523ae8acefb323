//! Two coroutines that pass messages to each other, with every input and
//! output tagged by the caller.
use vstd::prelude::*;
use std::marker::PhantomData;
use crate::coroutine::{after_output, Continuation, Coroutine, Resume};
use crate::dispatch::UnicastSelect;
use crate::functions::{inject, inject_spec};

verus! {

/// The outcome of [`routed`]: the value of the side that completed first, and
/// what is left of the other side.
#[allow(inconsistent_fields)]
pub enum RoutedResult<IA, IB, O, RA, RB, KA, KB> {
    /// The first side completed.
    Left { value: RA, remain: Coroutine<IB, UnicastSelect<IA, O>, RB, KB> },
    /// The second side completed.
    Right { value: RB, remain: Coroutine<IA, UnicastSelect<IB, O>, RA, KA> },
}

/// What a suspended routing holds: the suspended states of the two sides.
pub struct RoutedState<KA, KB> {
    pub first: KA,
    pub second: KB,
}

/// The state of a routing that waits for an external input. Whatever inputs
/// arrive, the messages that the two sides then send each other come to an
/// end.
#[verifier::reject_recursive_types(IA)]
#[verifier::reject_recursive_types(IB)]
#[verifier::reject_recursive_types(O)]
#[verifier::reject_recursive_types(RA)]
#[verifier::reject_recursive_types(RB)]
pub struct Routed<IA, IB, O, RA, RB, KA, KB> where
    KA: Continuation<IA, UnicastSelect<IB, O>, RA>,
    KB: Continuation<IB, UnicastSelect<IA, O>, RB>,
 {
    state: RoutedState<KA, KB>,
    types: PhantomData<(IA, IB, O, RA, RB)>,
}

/// The routing of `first` and `second`, if it reaches an external event
/// within `fuel` deliveries of a message from one side to the other.
///
/// Each output of a side is tagged: `Left` is a message for the other side,
/// `Right` an external output. One round looks at the form of both sides:
/// - a side that has completed wins, the first side if both have; if the
///   other side has an external output ready, that one output is forwarded
///   before the outcome is reported, while a message that it has ready stays
///   with it;
/// - a message is delivered to the other side at once; external outputs are
///   forwarded, the first side's before the second's; then the routing goes
///   on;
/// - with both sides suspended the routing waits for an input.
pub open spec fn routed_fuel<IA, IB, O, RA, RB, KA, KB>(
    fuel: nat,
    first: Coroutine<IA, UnicastSelect<IB, O>, RA, KA>,
    second: Coroutine<IB, UnicastSelect<IA, O>, RB, KB>,
) -> Option<
    Coroutine<
        UnicastSelect<IA, IB>,
        O,
        RoutedResult<IA, IB, O, RA, RB, KA, KB>,
        Routed<IA, IB, O, RA, RB, KA, KB>,
    >,
> where
    KA: Continuation<IA, UnicastSelect<IB, O>, RA>,
    KB: Continuation<IB, UnicastSelect<IA, O>, RB>,

    decreases fuel, first, second,
{
    match first {
        Coroutine::Done(value) => match second {
            Coroutine::Yield(UnicastSelect::Right(o), next) => Some(
                Coroutine::Yield(
                    o,
                    Box::new(Coroutine::Done(RoutedResult::Left { value, remain: *next })),
                ),
            ),
            _ => Some(Coroutine::Done(RoutedResult::Left { value, remain: second })),
        },
        Coroutine::Yield(oa, na) => match second {
            Coroutine::Done(value) => match oa {
                UnicastSelect::Left(_) => Some(
                    Coroutine::Done(RoutedResult::Right { value, remain: first }),
                ),
                UnicastSelect::Right(o) => Some(
                    Coroutine::Yield(
                        o,
                        Box::new(Coroutine::Done(RoutedResult::Right { value, remain: *na })),
                    ),
                ),
            },
            Coroutine::Yield(ob, nb) => match (oa, ob) {
                (UnicastSelect::Left(ib), UnicastSelect::Left(ia)) => if fuel == 0 {
                    None
                } else {
                    routed_fuel(
                        (fuel - 1) as nat,
                        inject_spec(ia, *na),
                        inject_spec(ib, *nb),
                    )
                },
                (UnicastSelect::Left(ib), UnicastSelect::Right(o)) => if fuel == 0 {
                    None
                } else {
                    after_output(o, routed_fuel((fuel - 1) as nat, *na, inject_spec(ib, *nb)))
                },
                (UnicastSelect::Right(o), UnicastSelect::Left(ia)) => if fuel == 0 {
                    None
                } else {
                    after_output(o, routed_fuel((fuel - 1) as nat, inject_spec(ia, *na), *nb))
                },
                (UnicastSelect::Right(o1), UnicastSelect::Right(o2)) => after_output(
                    o1,
                    after_output(o2, routed_fuel(fuel, *na, *nb)),
                ),
            },
            Coroutine::Await(kb, _) => match oa {
                UnicastSelect::Left(ib) => if fuel == 0 {
                    None
                } else {
                    routed_fuel((fuel - 1) as nat, *na, kb.next(ib))
                },
                UnicastSelect::Right(o) => after_output(o, routed_fuel(fuel, *na, second)),
            },
        },
        Coroutine::Await(ka, _) => match second {
            Coroutine::Done(value) => Some(
                Coroutine::Done(RoutedResult::Right { value, remain: first }),
            ),
            Coroutine::Yield(ob, nb) => match ob {
                UnicastSelect::Left(ia) => if fuel == 0 {
                    None
                } else {
                    routed_fuel((fuel - 1) as nat, ka.next(ia), *nb)
                },
                UnicastSelect::Right(o) => after_output(o, routed_fuel(fuel, first, *nb)),
            },
            Coroutine::Await(kb, _) => Some(
                Coroutine::Await(
                    Routed::waiting(RoutedState { first: ka, second: kb }),
                    PhantomData,
                ),
            ),
        },
    }
}

/// Whether the messages that `first` and `second` send each other come to an
/// end: after finitely many of them the routing has completed or waits for
/// an input.
pub open spec fn routed_settles<IA, IB, O, RA, RB, KA, KB>(
    first: Coroutine<IA, UnicastSelect<IB, O>, RA, KA>,
    second: Coroutine<IB, UnicastSelect<IA, O>, RB, KB>,
) -> bool where
    KA: Continuation<IA, UnicastSelect<IB, O>, RA>,
    KB: Continuation<IB, UnicastSelect<IA, O>, RB>,
 {
    exists|fuel: nat| (#[trigger] routed_fuel(fuel, first, second)) is Some
}

/// A number of deliveries within which the routing of `first` and `second`
/// reaches an external event, if there is one.
pub open spec fn routed_enough_fuel<IA, IB, O, RA, RB, KA, KB>(
    first: Coroutine<IA, UnicastSelect<IB, O>, RA, KA>,
    second: Coroutine<IB, UnicastSelect<IA, O>, RB, KB>,
) -> nat where
    KA: Continuation<IA, UnicastSelect<IB, O>, RA>,
    KB: Continuation<IB, UnicastSelect<IA, O>, RB>,
 {
    choose|fuel: nat| (#[trigger] routed_fuel(fuel, first, second)) is Some
}

/// The routing of `first` and `second`: what [`routed_fuel`] finds with enough
/// fuel. It is left open for sides that talk to each other forever.
pub open spec fn routed_spec<IA, IB, O, RA, RB, KA, KB>(
    first: Coroutine<IA, UnicastSelect<IB, O>, RA, KA>,
    second: Coroutine<IB, UnicastSelect<IA, O>, RB, KB>,
) -> Coroutine<
    UnicastSelect<IA, IB>,
    O,
    RoutedResult<IA, IB, O, RA, RB, KA, KB>,
    Routed<IA, IB, O, RA, RB, KA, KB>,
> where
    KA: Continuation<IA, UnicastSelect<IB, O>, RA>,
    KB: Continuation<IB, UnicastSelect<IA, O>, RB>,
 {
    routed_fuel(routed_enough_fuel(first, second), first, second).unwrap()
}

/// Fuel beyond what is needed changes nothing: if the routing reaches an
/// external event within `fuel` deliveries, it reaches the same one within
/// any larger number.
pub proof fn lemma_routed_more_fuel<IA, IB, O, RA, RB, KA, KB>(
    fuel: nat,
    more: nat,
    first: Coroutine<IA, UnicastSelect<IB, O>, RA, KA>,
    second: Coroutine<IB, UnicastSelect<IA, O>, RB, KB>,
) where
    KA: Continuation<IA, UnicastSelect<IB, O>, RA>,
    KB: Continuation<IB, UnicastSelect<IA, O>, RB>,

    requires
        routed_fuel(fuel, first, second) is Some,
        fuel <= more,
    ensures
        routed_fuel(more, first, second) == routed_fuel(fuel, first, second),
    decreases fuel, first, second,
{
    let less = (fuel - 1) as nat;
    let fewer = (more - 1) as nat;
    match first {
        Coroutine::Done(_) => {},
        Coroutine::Yield(oa, na) => match second {
            Coroutine::Done(_) => {},
            Coroutine::Yield(ob, nb) => match (oa, ob) {
                (UnicastSelect::Left(ib), UnicastSelect::Left(ia)) => {
                    lemma_routed_more_fuel(less, fewer, inject_spec(ia, *na), inject_spec(ib, *nb));
                },
                (UnicastSelect::Left(ib), UnicastSelect::Right(_)) => {
                    lemma_routed_more_fuel(less, fewer, *na, inject_spec(ib, *nb));
                },
                (UnicastSelect::Right(_), UnicastSelect::Left(ia)) => {
                    lemma_routed_more_fuel(less, fewer, inject_spec(ia, *na), *nb);
                },
                (UnicastSelect::Right(_), UnicastSelect::Right(_)) => {
                    lemma_routed_more_fuel(fuel, more, *na, *nb);
                },
            },
            Coroutine::Await(kb, _) => match oa {
                UnicastSelect::Left(ib) => {
                    lemma_routed_more_fuel(less, fewer, *na, kb.next(ib));
                },
                UnicastSelect::Right(_) => {
                    lemma_routed_more_fuel(fuel, more, *na, second);
                },
            },
        },
        Coroutine::Await(ka, _) => match second {
            Coroutine::Yield(UnicastSelect::Left(ia), nb) => {
                lemma_routed_more_fuel(less, fewer, ka.next(ia), *nb);
            },
            Coroutine::Yield(UnicastSelect::Right(_), nb) => {
                lemma_routed_more_fuel(fuel, more, first, *nb);
            },
            _ => {},
        },
    }
}

/// The routing is what any sufficient amount of fuel gives: if it reaches an
/// external event within `fuel` deliveries, then it settles, and it is the
/// coroutine found.
pub proof fn lemma_routed_spec<IA, IB, O, RA, RB, KA, KB>(
    fuel: nat,
    first: Coroutine<IA, UnicastSelect<IB, O>, RA, KA>,
    second: Coroutine<IB, UnicastSelect<IA, O>, RB, KB>,
) where
    KA: Continuation<IA, UnicastSelect<IB, O>, RA>,
    KB: Continuation<IB, UnicastSelect<IA, O>, RB>,

    requires
        routed_fuel(fuel, first, second) is Some,
    ensures
        routed_settles(first, second),
        Some(routed_spec(first, second)) == routed_fuel(fuel, first, second),
{
    let enough = routed_enough_fuel(first, second);
    if enough <= fuel {
        lemma_routed_more_fuel(enough, fuel, first, second);
    } else {
        lemma_routed_more_fuel(fuel, enough, first, second);
    }
}

impl<KA, KB> RoutedState<KA, KB> {
    /// The two sides after `input` has gone to the side that its tag names:
    /// that side is resumed, the other stays suspended.
    pub open spec fn deliver<IA, IB, O, RA, RB>(self, input: UnicastSelect<IA, IB>) -> (
        Coroutine<IA, UnicastSelect<IB, O>, RA, KA>,
        Coroutine<IB, UnicastSelect<IA, O>, RB, KB>,
    ) where
        KA: Continuation<IA, UnicastSelect<IB, O>, RA>,
        KB: Continuation<IB, UnicastSelect<IA, O>, RB>,
     {
        match input {
            UnicastSelect::Left(ia) => (
                self.first.next(ia),
                Coroutine::Await(self.second, PhantomData),
            ),
            UnicastSelect::Right(ib) => (
                Coroutine::Await(self.first, PhantomData),
                self.second.next(ib),
            ),
        }
    }

    /// The routing after `input` has arrived.
    pub open spec fn step<IA, IB, O, RA, RB>(self, input: UnicastSelect<IA, IB>) -> Coroutine<
        UnicastSelect<IA, IB>,
        O,
        RoutedResult<IA, IB, O, RA, RB, KA, KB>,
        Routed<IA, IB, O, RA, RB, KA, KB>,
    > where
        KA: Continuation<IA, UnicastSelect<IB, O>, RA>,
        KB: Continuation<IB, UnicastSelect<IA, O>, RB>,
     {
        let sides = self.deliver::<IA, IB, O, RA, RB>(input);
        routed_spec(sides.0, sides.1)
    }

    /// Whether, as the inputs `inputs` arrive one by one, the messages that
    /// the two sides send each other after each of them come to an end.
    pub open spec fn tame<IA, IB, O, RA, RB>(self, inputs: Seq<UnicastSelect<IA, IB>>) -> bool where
        KA: Continuation<IA, UnicastSelect<IB, O>, RA>,
        KB: Continuation<IB, UnicastSelect<IA, O>, RB>,

        decreases inputs.len(),
    {
        inputs.len() > 0 ==> {
            let sides = self.deliver::<IA, IB, O, RA, RB>(inputs[0]);
            &&& routed_settles(sides.0, sides.1)
            &&& match self.step::<IA, IB, O, RA, RB>(inputs[0]).awaited() {
                Some(k) => k.state().tame::<IA, IB, O, RA, RB>(inputs.skip(1)),
                None => true,
            }
        }
    }
}

impl<IA, IB, O, RA, RB, KA, KB> Routed<IA, IB, O, RA, RB, KA, KB> where
    KA: Continuation<IA, UnicastSelect<IB, O>, RA>,
    KB: Continuation<IB, UnicastSelect<IA, O>, RB>,
 {
    #[verifier::type_invariant]
    spec fn inv(self) -> bool {
        forall|inputs: Seq<
            UnicastSelect<IA, IB>,
        >| #[trigger] self.state.tame::<IA, IB, O, RA, RB>(inputs)
    }

    /// What the waiting routing holds.
    pub closed spec fn state(self) -> RoutedState<KA, KB> {
        self.state
    }

    /// The waiting routing that holds `state`.
    pub closed spec fn waiting(state: RoutedState<KA, KB>) -> Self {
        Routed { state, types: PhantomData }
    }

    /// A waiting routing is what it holds, and nothing more.
    pub proof fn lemma_state(self, state: RoutedState<KA, KB>)
        ensures
            Self::waiting(state).state() == state,
            Self::waiting(self.state()) == self,
    {
    }
}

/// Whether the state in which the routing `c` waits, if it does, is tame
/// along every sequence of inputs.
pub open spec fn routed_stays_tame<IA, IB, O, RA, RB, KA, KB>(
    c: Coroutine<
        UnicastSelect<IA, IB>,
        O,
        RoutedResult<IA, IB, O, RA, RB, KA, KB>,
        Routed<IA, IB, O, RA, RB, KA, KB>,
    >,
) -> bool where
    KA: Continuation<IA, UnicastSelect<IB, O>, RA>,
    KB: Continuation<IB, UnicastSelect<IA, O>, RB>,
 {
    match c.awaited() {
        Some(k) => forall|inputs: Seq<UnicastSelect<IA, IB>>| #[trigger]
            k.state().tame::<IA, IB, O, RA, RB>(inputs),
        None => true,
    }
}

/// Whether `first` and `second` can be routed: the messages that they send
/// each other come to an end, now and after every input that may arrive
/// later.
pub open spec fn routable<IA, IB, O, RA, RB, KA, KB>(
    first: Coroutine<IA, UnicastSelect<IB, O>, RA, KA>,
    second: Coroutine<IB, UnicastSelect<IA, O>, RB, KB>,
) -> bool where
    KA: Continuation<IA, UnicastSelect<IB, O>, RA>,
    KB: Continuation<IB, UnicastSelect<IA, O>, RB>,
 {
    &&& routed_settles(first, second)
    &&& routed_stays_tame(routed_spec(first, second))
}

/// Whether `side` sends no message as the inputs `inputs` arrive one by one:
/// every output that it has ready, now and after each of them, is an
/// external output.
pub open spec fn quiet_along<I, M, O, R, K>(
    side: Coroutine<I, UnicastSelect<M, O>, R, K>,
    inputs: Seq<I>,
) -> bool where K: Continuation<I, UnicastSelect<M, O>, R>
    decreases inputs.len(), side,
{
    match side {
        Coroutine::Done(_) => true,
        Coroutine::Yield(output, next) => output is Right && quiet_along(*next, inputs),
        Coroutine::Await(k, _) => inputs.len() > 0 ==> quiet_along(
            k.next(inputs[0]),
            inputs.skip(1),
        ),
    }
}

/// Whether `side` never sends a message, whatever inputs arrive.
pub open spec fn quiet<I, M, O, R, K>(side: Coroutine<I, UnicastSelect<M, O>, R, K>) -> bool where
    K: Continuation<I, UnicastSelect<M, O>, R>,
 {
    forall|inputs: Seq<I>| #[trigger] quiet_along(side, inputs)
}

/// A quiet side is quiet in the state in which it is suspended.
pub proof fn lemma_quiet_when_suspended<I, M, O, R, K>(
    side: Coroutine<I, UnicastSelect<M, O>, R, K>,
    inputs: Seq<I>,
) where K: Continuation<I, UnicastSelect<M, O>, R>
    requires
        quiet_along(side, inputs),
    ensures
        side.awaited() matches Some(k) ==> quiet_along(
            Coroutine::<I, UnicastSelect<M, O>, R, K>::Await(k, PhantomData),
            inputs,
        ),
    decreases side,
{
    match side {
        Coroutine::Yield(_, next) => {
            lemma_quiet_when_suspended(*next, inputs);
        },
        _ => {},
    }
}

/// A quiet suspended side is quiet once it has been resumed.
pub proof fn lemma_quiet_when_resumed<I, M, O, R, K>(state: K, input: I) where
    K: Continuation<I, UnicastSelect<M, O>, R>,

    requires
        quiet(Coroutine::<I, UnicastSelect<M, O>, R, K>::Await(state, PhantomData)),
    ensures
        quiet(state.next(input)),
{
    assert forall|inputs: Seq<I>| #[trigger] quiet_along(state.next(input), inputs) by {
        let all = seq![input] + inputs;
        assert(all.skip(1) =~= inputs);
        assert(quiet_along(
            Coroutine::<I, UnicastSelect<M, O>, R, K>::Await(state, PhantomData),
            all,
        ));
    }
}

/// Sides whose ready outputs are all external settle without any delivery,
/// and where the routing then waits, it holds the states in which the two
/// sides are suspended.
pub proof fn lemma_quiet_sides_settle<IA, IB, O, RA, RB, KA, KB>(
    first: Coroutine<IA, UnicastSelect<IB, O>, RA, KA>,
    second: Coroutine<IB, UnicastSelect<IA, O>, RB, KB>,
) where
    KA: Continuation<IA, UnicastSelect<IB, O>, RA>,
    KB: Continuation<IB, UnicastSelect<IA, O>, RB>,
    requires
        quiet_along(first, Seq::empty()),
        quiet_along(second, Seq::empty()),
    ensures
        routed_fuel(0, first, second) matches Some(c) && (c.awaited() matches Some(k)
            ==> first.awaited() == Some(k.state().first) && second.awaited() == Some(
            k.state().second,
        )),
    decreases first, second,
{
    reveal_with_fuel(Coroutine::awaited, 3);
    match first {
        Coroutine::Done(_) => {},
        Coroutine::Yield(_, na) => match second {
            Coroutine::Done(_) => {},
            Coroutine::Yield(_, nb) => {
                lemma_quiet_sides_settle(*na, *nb);
            },
            Coroutine::Await(_, _) => {
                lemma_quiet_sides_settle(*na, second);
            },
        },
        Coroutine::Await(ka, _) => match second {
            Coroutine::Done(_) => {},
            Coroutine::Yield(_, nb) => {
                lemma_quiet_sides_settle(first, *nb);
            },
            Coroutine::Await(kb, _) => {
                let state = RoutedState { first: ka, second: kb };
                let k = Routed::<IA, IB, O, RA, RB, KA, KB>::waiting(state);
                k.lemma_state(state);
            },
        },
    }
}

/// A routing of quiet sides that waits for an input is tame.
pub proof fn lemma_quiet_sides_are_tame<IA, IB, O, RA, RB, KA, KB>(
    state: RoutedState<KA, KB>,
    inputs: Seq<UnicastSelect<IA, IB>>,
) where
    KA: Continuation<IA, UnicastSelect<IB, O>, RA>,
    KB: Continuation<IB, UnicastSelect<IA, O>, RB>,
    requires
        quiet(Coroutine::<IA, UnicastSelect<IB, O>, RA, KA>::Await(state.first, PhantomData)),
        quiet(Coroutine::<IB, UnicastSelect<IA, O>, RB, KB>::Await(state.second, PhantomData)),
    ensures
        state.tame::<IA, IB, O, RA, RB>(inputs),
    decreases inputs.len(), 0nat,
{
    if inputs.len() > 0 {
        let sides = state.deliver::<IA, IB, O, RA, RB>(inputs[0]);
        match inputs[0] {
            UnicastSelect::Left(ia) => {
                lemma_quiet_when_resumed(state.first, ia);
            },
            UnicastSelect::Right(ib) => {
                lemma_quiet_when_resumed(state.second, ib);
            },
        }
        lemma_quiet_sides_go_on(sides.0, sides.1, inputs.skip(1));
    }
}

/// Quiet sides settle, and the routing of them stays tame along `inputs`.
pub proof fn lemma_quiet_sides_go_on<IA, IB, O, RA, RB, KA, KB>(
    first: Coroutine<IA, UnicastSelect<IB, O>, RA, KA>,
    second: Coroutine<IB, UnicastSelect<IA, O>, RB, KB>,
    inputs: Seq<UnicastSelect<IA, IB>>,
) where
    KA: Continuation<IA, UnicastSelect<IB, O>, RA>,
    KB: Continuation<IB, UnicastSelect<IA, O>, RB>,
    requires
        quiet(first),
        quiet(second),
    ensures
        routed_settles(first, second),
        routed_spec(first, second).awaited() matches Some(k) ==> k.state().tame::<
            IA,
            IB,
            O,
            RA,
            RB,
        >(inputs),
    decreases inputs.len(), 1nat,
{
    assert(quiet_along(first, Seq::empty()));
    assert(quiet_along(second, Seq::empty()));
    lemma_quiet_sides_settle(first, second);
    lemma_routed_spec(0, first, second);
    match routed_spec(first, second).awaited() {
        Some(k) => {
            assert forall|rest: Seq<IA>| #[trigger]
                quiet_along(
                    Coroutine::<IA, UnicastSelect<IB, O>, RA, KA>::Await(
                        k.state().first,
                        PhantomData,
                    ),
                    rest,
                ) by {
                assert(quiet_along(first, rest));
                lemma_quiet_when_suspended(first, rest);
            }
            assert forall|rest: Seq<IB>| #[trigger]
                quiet_along(
                    Coroutine::<IB, UnicastSelect<IA, O>, RB, KB>::Await(
                        k.state().second,
                        PhantomData,
                    ),
                    rest,
                ) by {
                assert(quiet_along(second, rest));
                lemma_quiet_when_suspended(second, rest);
            }
            lemma_quiet_sides_are_tame::<IA, IB, O, RA, RB, KA, KB>(k.state(), inputs);
        },
        None => {},
    }
}

/// Two sides of which neither ever sends a message can be routed.
pub proof fn lemma_quiet_sides_are_routable<IA, IB, O, RA, RB, KA, KB>(
    first: Coroutine<IA, UnicastSelect<IB, O>, RA, KA>,
    second: Coroutine<IB, UnicastSelect<IA, O>, RB, KB>,
) where
    KA: Continuation<IA, UnicastSelect<IB, O>, RA>,
    KB: Continuation<IB, UnicastSelect<IA, O>, RB>,
    requires
        quiet(first),
        quiet(second),
    ensures
        routable(first, second),
{
    lemma_quiet_sides_go_on(first, second, Seq::empty());
    match routed_spec(first, second).awaited() {
        Some(k) => {
            assert forall|inputs: Seq<UnicastSelect<IA, IB>>| #[trigger]
                k.state().tame::<IA, IB, O, RA, RB>(inputs) by {
                lemma_quiet_sides_go_on(first, second, inputs);
            }
        },
        None => {},
    }
}

impl<IA, IB, O, RA, RB, KA, KB> Continuation<
    UnicastSelect<IA, IB>,
    O,
    RoutedResult<IA, IB, O, RA, RB, KA, KB>,
> for Routed<IA, IB, O, RA, RB, KA, KB> where
    KA: Continuation<IA, UnicastSelect<IB, O>, RA>,
    KB: Continuation<IB, UnicastSelect<IA, O>, RB>,
 {
    /// An input tagged `Left` resumes the first side and leaves the second as
    /// it is; one tagged `Right` resumes the second side and leaves the first
    /// as it is.
    open spec fn next(self, input: UnicastSelect<IA, IB>) -> Coroutine<
        UnicastSelect<IA, IB>,
        O,
        RoutedResult<IA, IB, O, RA, RB, KA, KB>,
        Self,
    > {
        self.state().step::<IA, IB, O, RA, RB>(input)
    }
}

fn park<IA, IB, O, RA, RB, KA, KB>(first: KA, second: KB) -> (k: Routed<
    IA,
    IB,
    O,
    RA,
    RB,
    KA,
    KB,
>) where
    KA: Continuation<IA, UnicastSelect<IB, O>, RA>,
    KB: Continuation<IB, UnicastSelect<IA, O>, RB>,

    requires
        forall|inputs: Seq<UnicastSelect<IA, IB>>| #[trigger]
            (RoutedState { first, second }).tame::<IA, IB, O, RA, RB>(inputs),
    ensures
        k == Routed::<IA, IB, O, RA, RB, KA, KB>::waiting(RoutedState { first, second }),
{
    Routed { state: RoutedState { first, second }, types: PhantomData }
}

fn routed_within<IA, IB, O, RA, RB, KA, KB>(
    first: Coroutine<IA, UnicastSelect<IB, O>, RA, KA>,
    second: Coroutine<IB, UnicastSelect<IA, O>, RB, KB>,
    Ghost(fuel): Ghost<nat>,
) -> (c: Coroutine<
    UnicastSelect<IA, IB>,
    O,
    RoutedResult<IA, IB, O, RA, RB, KA, KB>,
    Routed<IA, IB, O, RA, RB, KA, KB>,
>) where KA: Resume<IA, UnicastSelect<IB, O>, RA>, KB: Resume<IB, UnicastSelect<IA, O>, RB>
    requires
        routed_fuel(fuel, first, second) matches Some(r) && routed_stays_tame(r),
    ensures
        Some(c) == routed_fuel(fuel, first, second),
    decreases fuel, first, second,
{
    match first {
        Coroutine::Done(value) => match second {
            Coroutine::Yield(UnicastSelect::Right(o), next) => {
                let done = Coroutine::Done(RoutedResult::Left { value, remain: *next });
                Coroutine::Yield(o, Box::new(done))
            },
            second => Coroutine::Done(RoutedResult::Left { value, remain: second }),
        },
        Coroutine::Yield(oa, na) => match second {
            Coroutine::Done(value) => match oa {
                UnicastSelect::Left(i) => {
                    let remain = Coroutine::Yield(UnicastSelect::Left(i), na);
                    Coroutine::Done(RoutedResult::Right { value, remain })
                },
                UnicastSelect::Right(o) => {
                    let done = Coroutine::Done(RoutedResult::Right { value, remain: *na });
                    Coroutine::Yield(o, Box::new(done))
                },
            },
            Coroutine::Yield(ob, nb) => match oa {
                UnicastSelect::Left(ib) => match ob {
                    UnicastSelect::Left(ia) => routed_within(
                        inject(ia, *na),
                        inject(ib, *nb),
                        Ghost((fuel - 1) as nat),
                    ),
                    UnicastSelect::Right(o) => {
                        let rest = routed_within(*na, inject(ib, *nb), Ghost((fuel - 1) as nat));
                        Coroutine::Yield(o, Box::new(rest))
                    },
                },
                UnicastSelect::Right(o1) => match ob {
                    UnicastSelect::Left(ia) => {
                        let rest = routed_within(inject(ia, *na), *nb, Ghost((fuel - 1) as nat));
                        Coroutine::Yield(o1, Box::new(rest))
                    },
                    UnicastSelect::Right(o2) => {
                        proof {
                            let rest = routed_fuel(fuel, *na, *nb);
                            assert(after_output(o2, rest).unwrap().awaited()
                                == rest.unwrap().awaited());
                        }
                        let rest = routed_within(*na, *nb, Ghost(fuel));
                        Coroutine::Yield(o1, Box::new(Coroutine::Yield(o2, Box::new(rest))))
                    },
                },
            },
            Coroutine::Await(kb, pb) => match oa {
                UnicastSelect::Left(ib) => routed_within(
                    *na,
                    kb.resume(ib),
                    Ghost((fuel - 1) as nat),
                ),
                UnicastSelect::Right(o) => {
                    let rest = routed_within(*na, Coroutine::Await(kb, pb), Ghost(fuel));
                    Coroutine::Yield(o, Box::new(rest))
                },
            },
        },
        Coroutine::Await(ka, pa) => match second {
            Coroutine::Done(value) => Coroutine::Done(
                RoutedResult::Right { value, remain: Coroutine::Await(ka, pa) },
            ),
            Coroutine::Yield(ob, nb) => match ob {
                UnicastSelect::Left(ia) => routed_within(
                    ka.resume(ia),
                    *nb,
                    Ghost((fuel - 1) as nat),
                ),
                UnicastSelect::Right(o) => {
                    let rest = routed_within(Coroutine::Await(ka, pa), *nb, Ghost(fuel));
                    Coroutine::Yield(o, Box::new(rest))
                },
            },
            Coroutine::Await(kb, _) => {
                proof {
                    let state = RoutedState { first: ka, second: kb };
                    let k = Routed::<IA, IB, O, RA, RB, KA, KB>::waiting(state);
                    let c = Coroutine::<
                        UnicastSelect<IA, IB>,
                        O,
                        RoutedResult<IA, IB, O, RA, RB, KA, KB>,
                        Routed<IA, IB, O, RA, RB, KA, KB>,
                    >::Await(k, PhantomData);
                    assert(c.awaited() == Some(k));
                    assert(k.state() == state);
                }
                let k = park(ka, kb);
                Coroutine::Await(k, PhantomData)
            },
        },
    }
}

impl<IA, IB, O, RA, RB, KA, KB> Resume<
    UnicastSelect<IA, IB>,
    O,
    RoutedResult<IA, IB, O, RA, RB, KA, KB>,
> for Routed<IA, IB, O, RA, RB, KA, KB> where
    KA: Resume<IA, UnicastSelect<IB, O>, RA>,
    KB: Resume<IB, UnicastSelect<IA, O>, RB>,
 {
    fn resume(self, input: UnicastSelect<IA, IB>) -> (c: Coroutine<
        UnicastSelect<IA, IB>,
        O,
        RoutedResult<IA, IB, O, RA, RB, KA, KB>,
        Self,
    >) {
        proof {
            use_type_invariant(&self);
            assert(self.state.tame::<IA, IB, O, RA, RB>(seq![input]));
            assert(routed_stays_tame(self.next(input))) by {
                match self.next(input).awaited() {
                    Some(k) => {
                        assert forall|rest: Seq<UnicastSelect<IA, IB>>| #[trigger]
                            k.state().tame::<IA, IB, O, RA, RB>(rest) by {
                            let all = seq![input] + rest;
                            assert(all.skip(1) =~= rest);
                            assert(self.state.tame::<IA, IB, O, RA, RB>(all));
                        }
                    },
                    None => {},
                }
            }
        }
        let ghost sides = self.state.deliver::<IA, IB, O, RA, RB>(input);
        let ghost fuel = routed_enough_fuel(sides.0, sides.1);
        let Routed { state, types: _ } = self;
        let RoutedState { first, second } = state;
        match input {
            UnicastSelect::Left(ia) => routed_within(
                first.resume(ia),
                Coroutine::Await(second, PhantomData),
                Ghost(fuel),
            ),
            UnicastSelect::Right(ib) => routed_within(
                Coroutine::Await(first, PhantomData),
                second.resume(ib),
                Ghost(fuel),
            ),
        }
    }
}

/// Runs `first` and `second` so that they can pass messages to each other.
///
/// Each external input is tagged with the side it is for. Each output of a
/// side is tagged too: `Left` is a message for the other side, which is
/// delivered to it at once as its next input and never seen outside;
/// `Right` is an external output. The routing completes as soon as either
/// side does, with that side's value and what is left of the other side. An
/// external output that the other side has ready at that moment is produced
/// before the outcome; a message that it has ready stays with it.
///
/// The two sides must not talk to each other forever: see [`routable`].
pub fn routed<IA, IB, O, RA, RB, KA, KB>(
    first: Coroutine<IA, UnicastSelect<IB, O>, RA, KA>,
    second: Coroutine<IB, UnicastSelect<IA, O>, RB, KB>,
) -> (c: Coroutine<
    UnicastSelect<IA, IB>,
    O,
    RoutedResult<IA, IB, O, RA, RB, KA, KB>,
    Routed<IA, IB, O, RA, RB, KA, KB>,
>) where KA: Resume<IA, UnicastSelect<IB, O>, RA>, KB: Resume<IB, UnicastSelect<IA, O>, RB>
    requires
        routable(first, second),
    ensures
        c == routed_spec(first, second),
{
    let ghost fuel = routed_enough_fuel(first, second);
    routed_within(first, second, Ghost(fuel))
}

} // verus!
