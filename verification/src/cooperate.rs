//! Two coroutines that talk to each other while they share one external
//! alphabet.
use vstd::prelude::*;
use std::marker::PhantomData;
use crate::coroutine::{after_output, Continuation, Coroutine, Resume};
use crate::dispatch::UnicastSelect;
use crate::function::{Apply, Function};
use crate::functions::{inject, inject_spec};

verus! {

/// The outcome of [`cooperate`]: the value of the side that completed first,
/// and what is left of the other side.
#[allow(inconsistent_fields)]
pub enum CooperateResult<IA, IB, OA, OB, A, B, KA, KB> {
    /// The first side completed.
    Left { value: A, remaining: Coroutine<IB, OB, B, KB> },
    /// The second side completed.
    Right { value: B, remaining: Coroutine<IA, OA, A, KA> },
}

/// What a suspended cooperation holds: the three routing functions and the
/// suspended states of the two sides.
pub struct CooperateState<S, MA, MB, KA, KB> {
    pub selector: S,
    pub map_first: MA,
    pub map_second: MB,
    pub first: KA,
    pub second: KB,
}

/// The state of a cooperation in which both sides are suspended. Whatever
/// inputs arrive, the messages that the two sides then send each other come
/// to an end.
#[verifier::reject_recursive_types(I)]
#[verifier::reject_recursive_types(IA)]
#[verifier::reject_recursive_types(IB)]
#[verifier::reject_recursive_types(OA)]
#[verifier::reject_recursive_types(OB)]
#[verifier::reject_recursive_types(O)]
#[verifier::reject_recursive_types(A)]
#[verifier::reject_recursive_types(B)]
pub struct Cooperate<I, IA, IB, OA, OB, O, A, B, S, MA, MB, KA, KB> where
    S: Function<I, UnicastSelect<IA, IB>>,
    MA: Function<OA, UnicastSelect<IB, O>>,
    MB: Function<OB, UnicastSelect<IA, O>>,
    KA: Continuation<IA, OA, A>,
    KB: Continuation<IB, OB, B>,
 {
    state: CooperateState<S, MA, MB, KA, KB>,
    types: PhantomData<(I, IA, IB, OA, OB, O, A, B)>,
}

/// `outcome` after the one output that the other side had ready: behind the
/// output if it is an external output, and alone if it is a message, which
/// the side that has completed drops.
pub open spec fn after_drained<I, M, O, R, K>(
    output: UnicastSelect<M, O>,
    outcome: Coroutine<I, O, R, K>,
) -> Option<Coroutine<I, O, R, K>> {
    match output {
        UnicastSelect::Left(_) => Some(outcome),
        UnicastSelect::Right(o) => Some(Coroutine::Yield(o, Box::new(outcome))),
    }
}

/// The cooperation of `first` and `second`, if it reaches an external event
/// within `fuel` deliveries of a message from one side to the other.
///
/// One round looks at the form of both sides:
/// - a side that has completed wins, the first side if both have. If the
///   other side has an output ready, that one output is dealt with before the
///   outcome is reported: an external output is forwarded, and a message for
///   the side that has completed is delivered to it, which drops it. The
///   other side is returned as it is after that output;
/// - otherwise an output that is ready is classified by `map_first` or
///   `map_second`: a message for the other side is delivered to it at once and
///   never shown outside, an external output is forwarded, the first side's
///   before the second's; then the cooperation goes on;
/// - with both sides suspended the cooperation is suspended.
pub open spec fn cooperate_fuel<I, IA, IB, OA, OB, O, A, B, S, MA, MB, KA, KB>(
    fuel: nat,
    selector: S,
    map_first: MA,
    map_second: MB,
    first: Coroutine<IA, OA, A, KA>,
    second: Coroutine<IB, OB, B, KB>,
) -> Option<
    Coroutine<
        I,
        O,
        CooperateResult<IA, IB, OA, OB, A, B, KA, KB>,
        Cooperate<I, IA, IB, OA, OB, O, A, B, S, MA, MB, KA, KB>,
    >,
> where
    S: Function<I, UnicastSelect<IA, IB>>,
    MA: Function<OA, UnicastSelect<IB, O>>,
    MB: Function<OB, UnicastSelect<IA, O>>,
    KA: Continuation<IA, OA, A>,
    KB: Continuation<IB, OB, B>,

    decreases fuel, first, second,
{
    match first {
        Coroutine::Done(value) => match second {
            Coroutine::Yield(ob, nb) => after_drained(
                map_second.image(ob),
                Coroutine::Done(CooperateResult::Left { value, remaining: *nb }),
            ),
            _ => Some(Coroutine::Done(CooperateResult::Left { value, remaining: second })),
        },
        Coroutine::Yield(oa, na) => match second {
            Coroutine::Done(value) => after_drained(
                map_first.image(oa),
                Coroutine::Done(CooperateResult::Right { value, remaining: *na }),
            ),
            Coroutine::Yield(ob, nb) => match (map_first.image(oa), map_second.image(ob)) {
                (UnicastSelect::Left(ib), UnicastSelect::Left(ia)) => if fuel == 0 {
                    None
                } else {
                    cooperate_fuel(
                        (fuel - 1) as nat,
                        selector,
                        map_first,
                        map_second,
                        inject_spec(ia, *na),
                        inject_spec(ib, *nb),
                    )
                },
                (UnicastSelect::Left(ib), UnicastSelect::Right(o)) => if fuel == 0 {
                    None
                } else {
                    after_output(
                        o,
                        cooperate_fuel(
                            (fuel - 1) as nat,
                            selector,
                            map_first,
                            map_second,
                            *na,
                            inject_spec(ib, *nb),
                        ),
                    )
                },
                (UnicastSelect::Right(o), UnicastSelect::Left(ia)) => if fuel == 0 {
                    None
                } else {
                    after_output(
                        o,
                        cooperate_fuel(
                            (fuel - 1) as nat,
                            selector,
                            map_first,
                            map_second,
                            inject_spec(ia, *na),
                            *nb,
                        ),
                    )
                },
                (UnicastSelect::Right(o1), UnicastSelect::Right(o2)) => after_output(
                    o1,
                    after_output(
                        o2,
                        cooperate_fuel(fuel, selector, map_first, map_second, *na, *nb),
                    ),
                ),
            },
            Coroutine::Await(kb, _) => match map_first.image(oa) {
                UnicastSelect::Left(ib) => if fuel == 0 {
                    None
                } else {
                    cooperate_fuel(
                        (fuel - 1) as nat,
                        selector,
                        map_first,
                        map_second,
                        *na,
                        kb.next(ib),
                    )
                },
                UnicastSelect::Right(o) => after_output(
                    o,
                    cooperate_fuel(fuel, selector, map_first, map_second, *na, second),
                ),
            },
        },
        Coroutine::Await(ka, _) => match second {
            Coroutine::Done(value) => Some(
                Coroutine::Done(CooperateResult::Right { value, remaining: first }),
            ),
            Coroutine::Yield(ob, nb) => match map_second.image(ob) {
                UnicastSelect::Left(ia) => if fuel == 0 {
                    None
                } else {
                    cooperate_fuel(
                        (fuel - 1) as nat,
                        selector,
                        map_first,
                        map_second,
                        ka.next(ia),
                        *nb,
                    )
                },
                UnicastSelect::Right(o) => after_output(
                    o,
                    cooperate_fuel(fuel, selector, map_first, map_second, first, *nb),
                ),
            },
            Coroutine::Await(kb, _) => Some(
                Coroutine::Await(
                    Cooperate::suspended(
                        CooperateState { selector, map_first, map_second, first: ka, second: kb },
                    ),
                    PhantomData,
                ),
            ),
        },
    }
}

/// Whether the messages that `first` and `second` send each other come to an
/// end: after finitely many of them one side has completed, or both are
/// suspended.
pub open spec fn settles<I, IA, IB, OA, OB, O, A, B, S, MA, MB, KA, KB>(
    selector: S,
    map_first: MA,
    map_second: MB,
    first: Coroutine<IA, OA, A, KA>,
    second: Coroutine<IB, OB, B, KB>,
) -> bool where
    S: Function<I, UnicastSelect<IA, IB>>,
    MA: Function<OA, UnicastSelect<IB, O>>,
    MB: Function<OB, UnicastSelect<IA, O>>,
    KA: Continuation<IA, OA, A>,
    KB: Continuation<IB, OB, B>,
 {
    exists|fuel: nat|
        (#[trigger] cooperate_fuel::<I, IA, IB, OA, OB, O, A, B, S, MA, MB, KA, KB>(
            fuel,
            selector,
            map_first,
            map_second,
            first,
            second,
        )) is Some
}

/// A number of deliveries within which the cooperation of `first` and
/// `second` reaches an external event, if there is one.
pub open spec fn enough_fuel<I, IA, IB, OA, OB, O, A, B, S, MA, MB, KA, KB>(
    selector: S,
    map_first: MA,
    map_second: MB,
    first: Coroutine<IA, OA, A, KA>,
    second: Coroutine<IB, OB, B, KB>,
) -> nat where
    S: Function<I, UnicastSelect<IA, IB>>,
    MA: Function<OA, UnicastSelect<IB, O>>,
    MB: Function<OB, UnicastSelect<IA, O>>,
    KA: Continuation<IA, OA, A>,
    KB: Continuation<IB, OB, B>,
 {
    choose|fuel: nat|
        (#[trigger] cooperate_fuel::<I, IA, IB, OA, OB, O, A, B, S, MA, MB, KA, KB>(
            fuel,
            selector,
            map_first,
            map_second,
            first,
            second,
        )) is Some
}

/// The cooperation of `first` and `second`: what [`cooperate_fuel`] finds with
/// enough fuel. It is left open for sides that talk to each other forever.
pub open spec fn cooperate_spec<I, IA, IB, OA, OB, O, A, B, S, MA, MB, KA, KB>(
    selector: S,
    map_first: MA,
    map_second: MB,
    first: Coroutine<IA, OA, A, KA>,
    second: Coroutine<IB, OB, B, KB>,
) -> Coroutine<
    I,
    O,
    CooperateResult<IA, IB, OA, OB, A, B, KA, KB>,
    Cooperate<I, IA, IB, OA, OB, O, A, B, S, MA, MB, KA, KB>,
> where
    S: Function<I, UnicastSelect<IA, IB>>,
    MA: Function<OA, UnicastSelect<IB, O>>,
    MB: Function<OB, UnicastSelect<IA, O>>,
    KA: Continuation<IA, OA, A>,
    KB: Continuation<IB, OB, B>,
 {
    cooperate_fuel::<I, IA, IB, OA, OB, O, A, B, S, MA, MB, KA, KB>(
        enough_fuel::<I, IA, IB, OA, OB, O, A, B, S, MA, MB, KA, KB>(
            selector,
            map_first,
            map_second,
            first,
            second,
        ),
        selector,
        map_first,
        map_second,
        first,
        second,
    ).unwrap()
}

/// Fuel beyond what is needed changes nothing: if the cooperation reaches an
/// external event within `fuel` deliveries, it reaches the same one within
/// any larger number.
pub proof fn lemma_more_fuel<I, IA, IB, OA, OB, O, A, B, S, MA, MB, KA, KB>(
    fuel: nat,
    more: nat,
    selector: S,
    map_first: MA,
    map_second: MB,
    first: Coroutine<IA, OA, A, KA>,
    second: Coroutine<IB, OB, B, KB>,
) where
    S: Function<I, UnicastSelect<IA, IB>>,
    MA: Function<OA, UnicastSelect<IB, O>>,
    MB: Function<OB, UnicastSelect<IA, O>>,
    KA: Continuation<IA, OA, A>,
    KB: Continuation<IB, OB, B>,

    requires
        cooperate_fuel::<I, IA, IB, OA, OB, O, A, B, S, MA, MB, KA, KB>(
            fuel,
            selector,
            map_first,
            map_second,
            first,
            second,
        ) is Some,
        fuel <= more,
    ensures
        cooperate_fuel::<I, IA, IB, OA, OB, O, A, B, S, MA, MB, KA, KB>(
            more,
            selector,
            map_first,
            map_second,
            first,
            second,
        )
            == cooperate_fuel::<I, IA, IB, OA, OB, O, A, B, S, MA, MB, KA, KB>(
                fuel,
                selector,
                map_first,
                map_second,
                first,
                second,
            ),
    decreases fuel, first, second,
{
    let less = (fuel - 1) as nat;
    let fewer = (more - 1) as nat;
    match first {
        Coroutine::Done(_) => {},
        Coroutine::Yield(oa, na) => match second {
            Coroutine::Done(_) => {},
            Coroutine::Yield(ob, nb) => match (map_first.image(oa), map_second.image(ob)) {
                (UnicastSelect::Left(ib), UnicastSelect::Left(ia)) => {
                    lemma_more_fuel::<I, IA, IB, OA, OB, O, A, B, S, MA, MB, KA, KB>(
                less,
                fewer,
                selector,
                map_first,
                map_second,
                inject_spec(ia, *na),
                inject_spec(ib, *nb),
            );
                },
                (UnicastSelect::Left(ib), UnicastSelect::Right(_)) => {
                    lemma_more_fuel::<I, IA, IB, OA, OB, O, A, B, S, MA, MB, KA, KB>(
                less,
                fewer,
                selector,
                map_first,
                map_second,
                *na,
                inject_spec(ib, *nb),
            );
                },
                (UnicastSelect::Right(_), UnicastSelect::Left(ia)) => {
                    lemma_more_fuel::<I, IA, IB, OA, OB, O, A, B, S, MA, MB, KA, KB>(
                less,
                fewer,
                selector,
                map_first,
                map_second,
                inject_spec(ia, *na),
                *nb,
            );
                },
                (UnicastSelect::Right(_), UnicastSelect::Right(_)) => {
                    lemma_more_fuel::<I, IA, IB, OA, OB, O, A, B, S, MA, MB, KA, KB>(
                fuel,
                more,
                selector,
                map_first,
                map_second,
                *na,
                *nb,
            );
                },
            },
            Coroutine::Await(kb, _) => match map_first.image(oa) {
                UnicastSelect::Left(ib) => {
                    lemma_more_fuel::<I, IA, IB, OA, OB, O, A, B, S, MA, MB, KA, KB>(
                less,
                fewer,
                selector,
                map_first,
                map_second,
                *na,
                kb.next(ib),
            );
                },
                UnicastSelect::Right(_) => {
                    lemma_more_fuel::<I, IA, IB, OA, OB, O, A, B, S, MA, MB, KA, KB>(
                fuel,
                more,
                selector,
                map_first,
                map_second,
                *na,
                second,
            );
                },
            },
        },
        Coroutine::Await(ka, _) => match second {
            Coroutine::Done(_) => {},
            Coroutine::Yield(ob, nb) => match map_second.image(ob) {
                UnicastSelect::Left(ia) => {
                    lemma_more_fuel::<I, IA, IB, OA, OB, O, A, B, S, MA, MB, KA, KB>(
                less,
                fewer,
                selector,
                map_first,
                map_second,
                ka.next(ia),
                *nb,
            );
                },
                UnicastSelect::Right(_) => {
                    lemma_more_fuel::<I, IA, IB, OA, OB, O, A, B, S, MA, MB, KA, KB>(
                fuel,
                more,
                selector,
                map_first,
                map_second,
                first,
                *nb,
            );
                },
            },
            Coroutine::Await(_, _) => {},
        },
    }
}

/// The cooperation is what any sufficient amount of fuel gives: if it reaches
/// an external event within `fuel` deliveries, then it settles, and it is
/// the coroutine found.
pub proof fn lemma_cooperate_spec<I, IA, IB, OA, OB, O, A, B, S, MA, MB, KA, KB>(
    fuel: nat,
    selector: S,
    map_first: MA,
    map_second: MB,
    first: Coroutine<IA, OA, A, KA>,
    second: Coroutine<IB, OB, B, KB>,
) where
    S: Function<I, UnicastSelect<IA, IB>>,
    MA: Function<OA, UnicastSelect<IB, O>>,
    MB: Function<OB, UnicastSelect<IA, O>>,
    KA: Continuation<IA, OA, A>,
    KB: Continuation<IB, OB, B>,

    requires
        cooperate_fuel::<I, IA, IB, OA, OB, O, A, B, S, MA, MB, KA, KB>(
            fuel,
            selector,
            map_first,
            map_second,
            first,
            second,
        ) is Some,
    ensures
        settles::<I, IA, IB, OA, OB, O, A, B, S, MA, MB, KA, KB>(
            selector,
            map_first,
            map_second,
            first,
            second,
        ),
        Some(
            cooperate_spec::<I, IA, IB, OA, OB, O, A, B, S, MA, MB, KA, KB>(
                selector,
                map_first,
                map_second,
                first,
                second,
            ),
        )
            == cooperate_fuel::<I, IA, IB, OA, OB, O, A, B, S, MA, MB, KA, KB>(
                fuel,
                selector,
                map_first,
                map_second,
                first,
                second,
            ),
{
    let enough = enough_fuel::<I, IA, IB, OA, OB, O, A, B, S, MA, MB, KA, KB>(
        selector,
        map_first,
        map_second,
        first,
        second,
    );
    if enough <= fuel {
        lemma_more_fuel::<I, IA, IB, OA, OB, O, A, B, S, MA, MB, KA, KB>(
            enough,
            fuel,
            selector,
            map_first,
            map_second,
            first,
            second,
        );
    } else {
        lemma_more_fuel::<I, IA, IB, OA, OB, O, A, B, S, MA, MB, KA, KB>(
            fuel,
            enough,
            selector,
            map_first,
            map_second,
            first,
            second,
        );
    }
}

/// A message stays private: when the first side has an output ready that is
/// a message for the second, and the second is suspended, the cooperation is
/// that of the first side after the output and the second side resumed with
/// the message. Nothing is produced for it.
pub proof fn lemma_message_is_delivered<I, IA, IB, OA, OB, O, A, B, S, MA, MB, KA, KB>(
    selector: S,
    map_first: MA,
    map_second: MB,
    output: OA,
    message: IB,
    first: Coroutine<IA, OA, A, KA>,
    second: KB,
) where
    S: Function<I, UnicastSelect<IA, IB>>,
    MA: Function<OA, UnicastSelect<IB, O>>,
    MB: Function<OB, UnicastSelect<IA, O>>,
    KA: Continuation<IA, OA, A>,
    KB: Continuation<IB, OB, B>,

    requires
        map_first.image(output) == UnicastSelect::<IB, O>::Left(message),
        settles::<I, IA, IB, OA, OB, O, A, B, S, MA, MB, KA, KB>(
            selector,
            map_first,
            map_second,
            first,
            second.next(message),
        ),
    ensures
        settles::<I, IA, IB, OA, OB, O, A, B, S, MA, MB, KA, KB>(
            selector,
            map_first,
            map_second,
            Coroutine::Yield(output, Box::new(first)),
            Coroutine::Await(second, PhantomData),
        ),
        cooperate_spec::<I, IA, IB, OA, OB, O, A, B, S, MA, MB, KA, KB>(
            selector,
            map_first,
            map_second,
            Coroutine::Yield(output, Box::new(first)),
            Coroutine::Await(second, PhantomData),
        ) == cooperate_spec::<I, IA, IB, OA, OB, O, A, B, S, MA, MB, KA, KB>(
            selector,
            map_first,
            map_second,
            first,
            second.next(message),
        ),
{
    let fuel = enough_fuel::<I, IA, IB, OA, OB, O, A, B, S, MA, MB, KA, KB>(
        selector,
        map_first,
        map_second,
        first,
        second.next(message),
    );
    lemma_cooperate_spec::<I, IA, IB, OA, OB, O, A, B, S, MA, MB, KA, KB>(
        fuel,
        selector,
        map_first,
        map_second,
        first,
        second.next(message),
    );
    lemma_cooperate_spec::<I, IA, IB, OA, OB, O, A, B, S, MA, MB, KA, KB>(
        fuel + 1,
        selector,
        map_first,
        map_second,
        Coroutine::Yield(output, Box::new(first)),
        Coroutine::Await(second, PhantomData),
    );
}

/// An external output is forwarded: when the first side is suspended and the
/// second has an output ready that is an external output, the cooperation
/// produces that output and goes on with the second side after it.
pub proof fn lemma_output_is_forwarded<I, IA, IB, OA, OB, O, A, B, S, MA, MB, KA, KB>(
    selector: S,
    map_first: MA,
    map_second: MB,
    output: OB,
    external: O,
    first: KA,
    second: Coroutine<IB, OB, B, KB>,
) where
    S: Function<I, UnicastSelect<IA, IB>>,
    MA: Function<OA, UnicastSelect<IB, O>>,
    MB: Function<OB, UnicastSelect<IA, O>>,
    KA: Continuation<IA, OA, A>,
    KB: Continuation<IB, OB, B>,

    requires
        map_second.image(output) == UnicastSelect::<IA, O>::Right(external),
        settles::<I, IA, IB, OA, OB, O, A, B, S, MA, MB, KA, KB>(
            selector,
            map_first,
            map_second,
            Coroutine::Await(first, PhantomData),
            second,
        ),
    ensures
        settles::<I, IA, IB, OA, OB, O, A, B, S, MA, MB, KA, KB>(
            selector,
            map_first,
            map_second,
            Coroutine::Await(first, PhantomData),
            Coroutine::Yield(output, Box::new(second)),
        ),
        cooperate_spec::<I, IA, IB, OA, OB, O, A, B, S, MA, MB, KA, KB>(
            selector,
            map_first,
            map_second,
            Coroutine::Await(first, PhantomData),
            Coroutine::Yield(output, Box::new(second)),
        ) == Coroutine::Yield(
            external,
            Box::new(
                cooperate_spec::<I, IA, IB, OA, OB, O, A, B, S, MA, MB, KA, KB>(
                    selector,
                    map_first,
                    map_second,
                    Coroutine::Await(first, PhantomData),
                    second,
                ),
            ),
        ),
{
    let fuel = enough_fuel::<I, IA, IB, OA, OB, O, A, B, S, MA, MB, KA, KB>(
        selector,
        map_first,
        map_second,
        Coroutine::Await(first, PhantomData),
        second,
    );
    lemma_cooperate_spec::<I, IA, IB, OA, OB, O, A, B, S, MA, MB, KA, KB>(
        fuel,
        selector,
        map_first,
        map_second,
        Coroutine::Await(first, PhantomData),
        second,
    );
    lemma_cooperate_spec::<I, IA, IB, OA, OB, O, A, B, S, MA, MB, KA, KB>(
        fuel,
        selector,
        map_first,
        map_second,
        Coroutine::Await(first, PhantomData),
        Coroutine::Yield(output, Box::new(second)),
    );
}

/// A message stays private, the other way round: when the second side has an
/// output ready that is a message for the first, and the first is suspended,
/// the cooperation is that of the first side resumed with the message and
/// the second side after the output. Nothing is produced for it, and no
/// external input is asked for.
pub proof fn lemma_message_is_delivered_to_first<I, IA, IB, OA, OB, O, A, B, S, MA, MB, KA, KB>(
    selector: S,
    map_first: MA,
    map_second: MB,
    output: OB,
    message: IA,
    first: KA,
    second: Coroutine<IB, OB, B, KB>,
) where
    S: Function<I, UnicastSelect<IA, IB>>,
    MA: Function<OA, UnicastSelect<IB, O>>,
    MB: Function<OB, UnicastSelect<IA, O>>,
    KA: Continuation<IA, OA, A>,
    KB: Continuation<IB, OB, B>,
    requires
        map_second.image(output) == UnicastSelect::<IA, O>::Left(message),
        settles::<I, IA, IB, OA, OB, O, A, B, S, MA, MB, KA, KB>(
            selector,
            map_first,
            map_second,
            first.next(message),
            second,
        ),
    ensures
        settles::<I, IA, IB, OA, OB, O, A, B, S, MA, MB, KA, KB>(
            selector,
            map_first,
            map_second,
            Coroutine::Await(first, PhantomData),
            Coroutine::Yield(output, Box::new(second)),
        ),
        cooperate_spec::<I, IA, IB, OA, OB, O, A, B, S, MA, MB, KA, KB>(
            selector,
            map_first,
            map_second,
            Coroutine::Await(first, PhantomData),
            Coroutine::Yield(output, Box::new(second)),
        ) == cooperate_spec::<I, IA, IB, OA, OB, O, A, B, S, MA, MB, KA, KB>(
            selector,
            map_first,
            map_second,
            first.next(message),
            second,
        ),
{
    let fuel = enough_fuel::<I, IA, IB, OA, OB, O, A, B, S, MA, MB, KA, KB>(
        selector,
        map_first,
        map_second,
        first.next(message),
        second,
    );
    lemma_cooperate_spec::<I, IA, IB, OA, OB, O, A, B, S, MA, MB, KA, KB>(
        fuel,
        selector,
        map_first,
        map_second,
        first.next(message),
        second,
    );
    lemma_cooperate_spec::<I, IA, IB, OA, OB, O, A, B, S, MA, MB, KA, KB>(
        fuel + 1,
        selector,
        map_first,
        map_second,
        Coroutine::Await(first, PhantomData),
        Coroutine::Yield(output, Box::new(second)),
    );
}

/// An external output is forwarded, the other way round: when the first side
/// has an output ready that is an external output, and the second is
/// suspended, the cooperation produces that output and goes on with the
/// first side after it.
pub proof fn lemma_first_output_is_forwarded<I, IA, IB, OA, OB, O, A, B, S, MA, MB, KA, KB>(
    selector: S,
    map_first: MA,
    map_second: MB,
    output: OA,
    external: O,
    first: Coroutine<IA, OA, A, KA>,
    second: KB,
) where
    S: Function<I, UnicastSelect<IA, IB>>,
    MA: Function<OA, UnicastSelect<IB, O>>,
    MB: Function<OB, UnicastSelect<IA, O>>,
    KA: Continuation<IA, OA, A>,
    KB: Continuation<IB, OB, B>,
    requires
        map_first.image(output) == UnicastSelect::<IB, O>::Right(external),
        settles::<I, IA, IB, OA, OB, O, A, B, S, MA, MB, KA, KB>(
            selector,
            map_first,
            map_second,
            first,
            Coroutine::Await(second, PhantomData),
        ),
    ensures
        settles::<I, IA, IB, OA, OB, O, A, B, S, MA, MB, KA, KB>(
            selector,
            map_first,
            map_second,
            Coroutine::Yield(output, Box::new(first)),
            Coroutine::Await(second, PhantomData),
        ),
        cooperate_spec::<I, IA, IB, OA, OB, O, A, B, S, MA, MB, KA, KB>(
            selector,
            map_first,
            map_second,
            Coroutine::Yield(output, Box::new(first)),
            Coroutine::Await(second, PhantomData),
        ) == Coroutine::Yield(
            external,
            Box::new(
                cooperate_spec::<I, IA, IB, OA, OB, O, A, B, S, MA, MB, KA, KB>(
                    selector,
                    map_first,
                    map_second,
                    first,
                    Coroutine::Await(second, PhantomData),
                ),
            ),
        ),
{
    let fuel = enough_fuel::<I, IA, IB, OA, OB, O, A, B, S, MA, MB, KA, KB>(
        selector,
        map_first,
        map_second,
        first,
        Coroutine::Await(second, PhantomData),
    );
    lemma_cooperate_spec::<I, IA, IB, OA, OB, O, A, B, S, MA, MB, KA, KB>(
        fuel,
        selector,
        map_first,
        map_second,
        first,
        Coroutine::Await(second, PhantomData),
    );
    lemma_cooperate_spec::<I, IA, IB, OA, OB, O, A, B, S, MA, MB, KA, KB>(
        fuel,
        selector,
        map_first,
        map_second,
        Coroutine::Yield(output, Box::new(first)),
        Coroutine::Await(second, PhantomData),
    );
}

/// The handshake: the first side sends a message and waits; the second side,
/// which was waiting, answers the message with one external output and
/// completes. Then the two can cooperate, and what is seen outside is that
/// one output and nothing of the message: the cooperation produces the
/// output and completes with the value of the second side and the first
/// side still waiting, without asking for an input.
pub proof fn lemma_handshake<I, IA, IB, OA, OB, O, A, B, S, MA, MB, KA, KB>(
    selector: S,
    map_first: MA,
    map_second: MB,
    sent: OA,
    message: IB,
    answer: OB,
    external: O,
    value: B,
    first: KA,
    second: KB,
) where
    S: Function<I, UnicastSelect<IA, IB>>,
    MA: Function<OA, UnicastSelect<IB, O>>,
    MB: Function<OB, UnicastSelect<IA, O>>,
    KA: Continuation<IA, OA, A>,
    KB: Continuation<IB, OB, B>,
    requires
        map_first.image(sent) == UnicastSelect::<IB, O>::Left(message),
        second.next(message) == Coroutine::<IB, OB, B, KB>::Yield(
            answer,
            Box::new(Coroutine::Done(value)),
        ),
        map_second.image(answer) == UnicastSelect::<IA, O>::Right(external),
    ensures
        cooperative::<I, IA, IB, OA, OB, O, A, B, S, MA, MB, KA, KB>(
            selector,
            map_first,
            map_second,
            Coroutine::Yield(sent, Box::new(Coroutine::Await(first, PhantomData))),
            Coroutine::Await(second, PhantomData),
        ),
        cooperate_spec::<I, IA, IB, OA, OB, O, A, B, S, MA, MB, KA, KB>(
            selector,
            map_first,
            map_second,
            Coroutine::Yield(sent, Box::new(Coroutine::Await(first, PhantomData))),
            Coroutine::Await(second, PhantomData),
        ) == Coroutine::<
            I,
            O,
            CooperateResult<IA, IB, OA, OB, A, B, KA, KB>,
            Cooperate<I, IA, IB, OA, OB, O, A, B, S, MA, MB, KA, KB>,
        >::Yield(
            external,
            Box::new(
                Coroutine::Done(
                    CooperateResult::Right {
                        value,
                        remaining: Coroutine::Await(first, PhantomData),
                    },
                ),
            ),
        ),
        cooperate_spec::<I, IA, IB, OA, OB, O, A, B, S, MA, MB, KA, KB>(
            selector,
            map_first,
            map_second,
            Coroutine::Yield(sent, Box::new(Coroutine::Await(first, PhantomData))),
            Coroutine::Await(second, PhantomData),
        ).pending() == seq![external],
{
    reveal_with_fuel(cooperate_fuel, 4);
    reveal_with_fuel(Coroutine::awaited, 3);
    reveal_with_fuel(Coroutine::pending, 3);
    let c = cooperate_fuel::<I, IA, IB, OA, OB, O, A, B, S, MA, MB, KA, KB>(
        1,
        selector,
        map_first,
        map_second,
        Coroutine::Yield(sent, Box::new(Coroutine::Await(first, PhantomData))),
        Coroutine::Await(second, PhantomData),
    );
    assert(c is Some);
    lemma_cooperate_spec::<I, IA, IB, OA, OB, O, A, B, S, MA, MB, KA, KB>(
        1,
        selector,
        map_first,
        map_second,
        Coroutine::Yield(sent, Box::new(Coroutine::Await(first, PhantomData))),
        Coroutine::Await(second, PhantomData),
    );
    assert(c.unwrap().pending() =~= seq![external]);
}

impl<S, MA, MB, KA, KB> CooperateState<S, MA, MB, KA, KB> {
    /// The two sides after `input` has gone to the side that the selector
    /// names: that side is resumed, the other stays suspended.
    pub open spec fn deliver<I, IA, IB, OA, OB, A, B>(self, input: I) -> (
        Coroutine<IA, OA, A, KA>,
        Coroutine<IB, OB, B, KB>,
    ) where
        S: Function<I, UnicastSelect<IA, IB>>,
        KA: Continuation<IA, OA, A>,
        KB: Continuation<IB, OB, B>,
     {
        match self.selector.image(input) {
            UnicastSelect::Left(ia) => (
                self.first.next(ia),
                Coroutine::Await(self.second, PhantomData),
            ),
            UnicastSelect::Right(ib) => (
                Coroutine::Await(self.first, PhantomData),
                self.second.next(ib),
            ),
        }
    }

    /// The cooperation after `input` has arrived.
    pub open spec fn step<I, IA, IB, OA, OB, O, A, B>(self, input: I) -> Coroutine<
        I,
        O,
        CooperateResult<IA, IB, OA, OB, A, B, KA, KB>,
        Cooperate<I, IA, IB, OA, OB, O, A, B, S, MA, MB, KA, KB>,
    > where
        S: Function<I, UnicastSelect<IA, IB>>,
        MA: Function<OA, UnicastSelect<IB, O>>,
        MB: Function<OB, UnicastSelect<IA, O>>,
        KA: Continuation<IA, OA, A>,
        KB: Continuation<IB, OB, B>,
     {
        let sides = self.deliver::<I, IA, IB, OA, OB, A, B>(input);
        cooperate_spec(self.selector, self.map_first, self.map_second, sides.0, sides.1)
    }

    /// Whether, as the inputs `inputs` arrive one by one, the messages that
    /// the two sides send each other after each of them come to an end.
    pub open spec fn tame<I, IA, IB, OA, OB, O, A, B>(self, inputs: Seq<I>) -> bool where
        S: Function<I, UnicastSelect<IA, IB>>,
        MA: Function<OA, UnicastSelect<IB, O>>,
        MB: Function<OB, UnicastSelect<IA, O>>,
        KA: Continuation<IA, OA, A>,
        KB: Continuation<IB, OB, B>,

        decreases inputs.len(),
    {
        inputs.len() > 0 ==> {
            let sides = self.deliver::<I, IA, IB, OA, OB, A, B>(inputs[0]);
            &&& settles::<I, IA, IB, OA, OB, O, A, B, S, MA, MB, KA, KB>(
                self.selector,
                self.map_first,
                self.map_second,
                sides.0,
                sides.1,
            )
            &&& match self.step::<I, IA, IB, OA, OB, O, A, B>(inputs[0]).awaited() {
                Some(k) => k.state().tame::<I, IA, IB, OA, OB, O, A, B>(inputs.skip(1)),
                None => true,
            }
        }
    }
}

impl<I, IA, IB, OA, OB, O, A, B, S, MA, MB, KA, KB> Cooperate<
    I,
    IA,
    IB,
    OA,
    OB,
    O,
    A,
    B,
    S,
    MA,
    MB,
    KA,
    KB,
> where
    S: Function<I, UnicastSelect<IA, IB>>,
    MA: Function<OA, UnicastSelect<IB, O>>,
    MB: Function<OB, UnicastSelect<IA, O>>,
    KA: Continuation<IA, OA, A>,
    KB: Continuation<IB, OB, B>,
 {
    #[verifier::type_invariant]
    spec fn inv(self) -> bool {
        forall|inputs: Seq<I>| #[trigger] self.state.tame::<I, IA, IB, OA, OB, O, A, B>(inputs)
    }

    /// What the suspended cooperation holds.
    pub closed spec fn state(self) -> CooperateState<S, MA, MB, KA, KB> {
        self.state
    }

    /// The suspended cooperation that holds `state`.
    pub closed spec fn suspended(state: CooperateState<S, MA, MB, KA, KB>) -> Self {
        Cooperate { state, types: PhantomData }
    }

    /// A suspended cooperation is what it holds, and nothing more.
    pub proof fn lemma_state(self, state: CooperateState<S, MA, MB, KA, KB>)
        ensures
            Self::suspended(state).state() == state,
            Self::suspended(self.state()) == self,
    {
    }
}

/// Whether `first` and `second` can cooperate: the messages that they send
/// each other come to an end, now and after every input that may arrive
/// later.
pub open spec fn cooperative<I, IA, IB, OA, OB, O, A, B, S, MA, MB, KA, KB>(
    selector: S,
    map_first: MA,
    map_second: MB,
    first: Coroutine<IA, OA, A, KA>,
    second: Coroutine<IB, OB, B, KB>,
) -> bool where
    S: Function<I, UnicastSelect<IA, IB>>,
    MA: Function<OA, UnicastSelect<IB, O>>,
    MB: Function<OB, UnicastSelect<IA, O>>,
    KA: Continuation<IA, OA, A>,
    KB: Continuation<IB, OB, B>,
 {
    &&& settles::<I, IA, IB, OA, OB, O, A, B, S, MA, MB, KA, KB>(
        selector,
        map_first,
        map_second,
        first,
        second,
    )
    &&& stays_tame(
        cooperate_spec::<I, IA, IB, OA, OB, O, A, B, S, MA, MB, KA, KB>(
            selector,
            map_first,
            map_second,
            first,
            second,
        ),
    )
}

/// Whether the state in which the cooperation `c` is suspended, if it is,
/// is tame along every sequence of inputs.
pub open spec fn stays_tame<I, IA, IB, OA, OB, O, A, B, S, MA, MB, KA, KB>(
    c: Coroutine<
        I,
        O,
        CooperateResult<IA, IB, OA, OB, A, B, KA, KB>,
        Cooperate<I, IA, IB, OA, OB, O, A, B, S, MA, MB, KA, KB>,
    >,
) -> bool where
    S: Function<I, UnicastSelect<IA, IB>>,
    MA: Function<OA, UnicastSelect<IB, O>>,
    MB: Function<OB, UnicastSelect<IA, O>>,
    KA: Continuation<IA, OA, A>,
    KB: Continuation<IB, OB, B>,
 {
    match c.awaited() {
        Some(k) => forall|inputs: Seq<I>| #[trigger]
            k.state().tame::<I, IA, IB, OA, OB, O, A, B>(inputs),
        None => true,
    }
}

/// Whether `f` classifies every output as an external output, never as a
/// message.
pub open spec fn never_messages<X, M, O, F: Function<X, UnicastSelect<M, O>>>(f: F) -> bool {
    forall|x: X| (#[trigger] f.image(x)) is Right
}

/// An outcome is not suspended, with or without an output in front of it.
proof fn lemma_drained_is_over<I, M, O, R, K>(output: UnicastSelect<M, O>, r: R)
    ensures
        after_drained::<I, M, O, R, K>(output, Coroutine::Done(r)).unwrap().awaited() is None,
{
    reveal_with_fuel(Coroutine::awaited, 3);
}

/// A suspended cooperation holds the functions it was made with.
pub proof fn lemma_functions_are_kept<I, IA, IB, OA, OB, O, A, B, S, MA, MB, KA, KB>(
    fuel: nat,
    selector: S,
    map_first: MA,
    map_second: MB,
    first: Coroutine<IA, OA, A, KA>,
    second: Coroutine<IB, OB, B, KB>,
) where
    S: Function<I, UnicastSelect<IA, IB>>,
    MA: Function<OA, UnicastSelect<IB, O>>,
    MB: Function<OB, UnicastSelect<IA, O>>,
    KA: Continuation<IA, OA, A>,
    KB: Continuation<IB, OB, B>,

    ensures
        cooperate_fuel::<I, IA, IB, OA, OB, O, A, B, S, MA, MB, KA, KB>(
            fuel,
            selector,
            map_first,
            map_second,
            first,
            second,
        ) matches Some(
            c,
        ) ==> (c.awaited() matches Some(k) ==> k.state().selector == selector
            && k.state().map_first == map_first && k.state().map_second == map_second),
    decreases fuel, first, second,
{
    let less = (fuel - 1) as nat;
    match first {
        Coroutine::Done(value) => match second {
            Coroutine::Yield(ob, nb) => {
                lemma_drained_is_over::<
                    I,
                    IA,
                    O,
                    CooperateResult<IA, IB, OA, OB, A, B, KA, KB>,
                    Cooperate<I, IA, IB, OA, OB, O, A, B, S, MA, MB, KA, KB>,
                >(map_second.image(ob), CooperateResult::Left { value, remaining: *nb });
            },
            _ => {},
        },
        Coroutine::Yield(oa, na) => match second {
            Coroutine::Done(value) => {
                lemma_drained_is_over::<
                    I,
                    IB,
                    O,
                    CooperateResult<IA, IB, OA, OB, A, B, KA, KB>,
                    Cooperate<I, IA, IB, OA, OB, O, A, B, S, MA, MB, KA, KB>,
                >(map_first.image(oa), CooperateResult::Right { value, remaining: *na });
            },
            Coroutine::Yield(ob, nb) => match (map_first.image(oa), map_second.image(ob)) {
                (UnicastSelect::Left(ib), UnicastSelect::Left(ia)) => {
                    if fuel > 0 {
                        lemma_functions_are_kept::<I, IA, IB, OA, OB, O, A, B, S, MA, MB, KA, KB>(
                            less,
                            selector,
                            map_first,
                            map_second,
                            inject_spec(ia, *na),
                            inject_spec(ib, *nb),
                        );
                    }
                },
                (UnicastSelect::Left(ib), UnicastSelect::Right(_)) => {
                    if fuel > 0 {
                        lemma_functions_are_kept::<I, IA, IB, OA, OB, O, A, B, S, MA, MB, KA, KB>(
                            less,
                            selector,
                            map_first,
                            map_second,
                            *na,
                            inject_spec(ib, *nb),
                        );
                    }
                },
                (UnicastSelect::Right(_), UnicastSelect::Left(ia)) => {
                    if fuel > 0 {
                        lemma_functions_are_kept::<I, IA, IB, OA, OB, O, A, B, S, MA, MB, KA, KB>(
                            less,
                            selector,
                            map_first,
                            map_second,
                            inject_spec(ia, *na),
                            *nb,
                        );
                    }
                },
                (UnicastSelect::Right(_), UnicastSelect::Right(o2)) => {
                    lemma_functions_are_kept::<I, IA, IB, OA, OB, O, A, B, S, MA, MB, KA, KB>(
                        fuel,
                        selector,
                        map_first,
                        map_second,
                        *na,
                        *nb,
                    );
                    let rest = cooperate_fuel::<I, IA, IB, OA, OB, O, A, B, S, MA, MB, KA, KB>(
                        fuel,
                        selector,
                        map_first,
                        map_second,
                        *na,
                        *nb,
                    );
                    if rest is Some {
                        assert(after_output(o2, rest).unwrap().awaited()
                            == rest.unwrap().awaited());
                    }
                },
            },
            Coroutine::Await(kb, _) => match map_first.image(oa) {
                UnicastSelect::Left(ib) => {
                    if fuel > 0 {
                        lemma_functions_are_kept::<I, IA, IB, OA, OB, O, A, B, S, MA, MB, KA, KB>(
                            less,
                            selector,
                            map_first,
                            map_second,
                            *na,
                            kb.next(ib),
                        );
                    }
                },
                UnicastSelect::Right(_) => {
                    lemma_functions_are_kept::<I, IA, IB, OA, OB, O, A, B, S, MA, MB, KA, KB>(
                        fuel,
                        selector,
                        map_first,
                        map_second,
                        *na,
                        second,
                    );
                },
            },
        },
        Coroutine::Await(ka, _) => match second {
            Coroutine::Done(_) => {},
            Coroutine::Yield(ob, nb) => match map_second.image(ob) {
                UnicastSelect::Left(ia) => {
                    if fuel > 0 {
                        lemma_functions_are_kept::<I, IA, IB, OA, OB, O, A, B, S, MA, MB, KA, KB>(
                            less,
                            selector,
                            map_first,
                            map_second,
                            ka.next(ia),
                            *nb,
                        );
                    }
                },
                UnicastSelect::Right(_) => {
                    lemma_functions_are_kept::<I, IA, IB, OA, OB, O, A, B, S, MA, MB, KA, KB>(
                        fuel,
                        selector,
                        map_first,
                        map_second,
                        first,
                        *nb,
                    );
                },
            },
            Coroutine::Await(kb, _) => {
                let state = CooperateState {
                    selector,
                    map_first,
                    map_second,
                    first: ka,
                    second: kb,
                };
                let k = Cooperate::<
                    I,
                    IA,
                    IB,
                    OA,
                    OB,
                    O,
                    A,
                    B,
                    S,
                    MA,
                    MB,
                    KA,
                    KB,
                >::suspended(state);
                k.lemma_state(state);
                let c = Coroutine::<
                    I,
                    O,
                    CooperateResult<IA, IB, OA, OB, A, B, KA, KB>,
                    Cooperate<I, IA, IB, OA, OB, O, A, B, S, MA, MB, KA, KB>,
                >::Await(k, PhantomData);
                assert(c.awaited() == Some(k));
            },
        },
    }
}

/// Sides that send no messages settle at once, without any delivery.
pub proof fn lemma_quiet_sides_settle<I, IA, IB, OA, OB, O, A, B, S, MA, MB, KA, KB>(
    selector: S,
    map_first: MA,
    map_second: MB,
    first: Coroutine<IA, OA, A, KA>,
    second: Coroutine<IB, OB, B, KB>,
) where
    S: Function<I, UnicastSelect<IA, IB>>,
    MA: Function<OA, UnicastSelect<IB, O>>,
    MB: Function<OB, UnicastSelect<IA, O>>,
    KA: Continuation<IA, OA, A>,
    KB: Continuation<IB, OB, B>,

    requires
        never_messages(map_first),
        never_messages(map_second),
    ensures
        cooperate_fuel::<I, IA, IB, OA, OB, O, A, B, S, MA, MB, KA, KB>(
            0,
            selector,
            map_first,
            map_second,
            first,
            second,
        ) is Some,
    decreases first, second,
{
    match first {
        Coroutine::Done(_) => {},
        Coroutine::Yield(oa, na) => match second {
            Coroutine::Done(_) => {},
            Coroutine::Yield(ob, nb) => {
                assert(map_first.image(oa) is Right);
                assert(map_second.image(ob) is Right);
                lemma_quiet_sides_settle::<
                    I,
                    IA,
                    IB,
                    OA,
                    OB,
                    O,
                    A,
                    B,
                    S,
                    MA,
                    MB,
                    KA,
                    KB,
                >(selector, map_first, map_second, *na, *nb);
            },
            Coroutine::Await(_, _) => {
                assert(map_first.image(oa) is Right);
                lemma_quiet_sides_settle::<
                    I,
                    IA,
                    IB,
                    OA,
                    OB,
                    O,
                    A,
                    B,
                    S,
                    MA,
                    MB,
                    KA,
                    KB,
                >(selector, map_first, map_second, *na, second);
            },
        },
        Coroutine::Await(_, _) => match second {
            Coroutine::Yield(ob, nb) => {
                assert(map_second.image(ob) is Right);
                lemma_quiet_sides_settle::<
                    I,
                    IA,
                    IB,
                    OA,
                    OB,
                    O,
                    A,
                    B,
                    S,
                    MA,
                    MB,
                    KA,
                    KB,
                >(selector, map_first, map_second, first, *nb);
            },
            _ => {},
        },
    }
}

/// Sides that send no messages stay tame, whatever the inputs.
pub proof fn lemma_quiet_sides_are_tame<I, IA, IB, OA, OB, O, A, B, S, MA, MB, KA, KB>(
    state: CooperateState<S, MA, MB, KA, KB>,
    inputs: Seq<I>,
) where
    S: Function<I, UnicastSelect<IA, IB>>,
    MA: Function<OA, UnicastSelect<IB, O>>,
    MB: Function<OB, UnicastSelect<IA, O>>,
    KA: Continuation<IA, OA, A>,
    KB: Continuation<IB, OB, B>,

    requires
        never_messages(state.map_first),
        never_messages(state.map_second),
    ensures
        state.tame::<I, IA, IB, OA, OB, O, A, B>(inputs),
    decreases inputs.len(),
{
    if inputs.len() > 0 {
        let sides = state.deliver::<I, IA, IB, OA, OB, A, B>(inputs[0]);
        lemma_quiet_sides_settle::<I, IA, IB, OA, OB, O, A, B, S, MA, MB, KA, KB>(
            state.selector,
            state.map_first,
            state.map_second,
            sides.0,
            sides.1,
        );
        lemma_cooperate_spec::<I, IA, IB, OA, OB, O, A, B, S, MA, MB, KA, KB>(
            0,
            state.selector,
            state.map_first,
            state.map_second,
            sides.0,
            sides.1,
        );
        lemma_functions_are_kept::<I, IA, IB, OA, OB, O, A, B, S, MA, MB, KA, KB>(
            0,
            state.selector,
            state.map_first,
            state.map_second,
            sides.0,
            sides.1,
        );
        match state.step::<I, IA, IB, OA, OB, O, A, B>(inputs[0]).awaited() {
            Some(k) => {
                lemma_quiet_sides_are_tame::<
                    I,
                    IA,
                    IB,
                    OA,
                    OB,
                    O,
                    A,
                    B,
                    S,
                    MA,
                    MB,
                    KA,
                    KB,
                >(k.state(), inputs.skip(1));
            },
            None => {},
        }
    }
}

/// Two sides of which neither ever sends a message can cooperate.
pub proof fn lemma_quiet_sides_cooperate<I, IA, IB, OA, OB, O, A, B, S, MA, MB, KA, KB>(
    selector: S,
    map_first: MA,
    map_second: MB,
    first: Coroutine<IA, OA, A, KA>,
    second: Coroutine<IB, OB, B, KB>,
) where
    S: Function<I, UnicastSelect<IA, IB>>,
    MA: Function<OA, UnicastSelect<IB, O>>,
    MB: Function<OB, UnicastSelect<IA, O>>,
    KA: Continuation<IA, OA, A>,
    KB: Continuation<IB, OB, B>,

    requires
        never_messages(map_first),
        never_messages(map_second),
    ensures
        cooperative::<I, IA, IB, OA, OB, O, A, B, S, MA, MB, KA, KB>(
            selector,
            map_first,
            map_second,
            first,
            second,
        ),
{
    lemma_quiet_sides_settle::<I, IA, IB, OA, OB, O, A, B, S, MA, MB, KA, KB>(
        selector,
        map_first,
        map_second,
        first,
        second,
    );
    lemma_cooperate_spec::<I, IA, IB, OA, OB, O, A, B, S, MA, MB, KA, KB>(
        0,
        selector,
        map_first,
        map_second,
        first,
        second,
    );
    lemma_functions_are_kept::<I, IA, IB, OA, OB, O, A, B, S, MA, MB, KA, KB>(
        0,
        selector,
        map_first,
        map_second,
        first,
        second,
    );
    let c = cooperate_spec::<I, IA, IB, OA, OB, O, A, B, S, MA, MB, KA, KB>(
        selector,
        map_first,
        map_second,
        first,
        second,
    );
    match c.awaited() {
        Some(k) => {
            assert forall|inputs: Seq<I>| #[trigger]
                k.state().tame::<I, IA, IB, OA, OB, O, A, B>(inputs) by {
                lemma_quiet_sides_are_tame::<
                    I,
                    IA,
                    IB,
                    OA,
                    OB,
                    O,
                    A,
                    B,
                    S,
                    MA,
                    MB,
                    KA,
                    KB,
                >(k.state(), inputs);
            }
        },
        None => {},
    }
}

impl<I, IA, IB, OA, OB, O, A, B, S, MA, MB, KA, KB> Continuation<
    I,
    O,
    CooperateResult<IA, IB, OA, OB, A, B, KA, KB>,
> for Cooperate<I, IA, IB, OA, OB, O, A, B, S, MA, MB, KA, KB> where
    S: Function<I, UnicastSelect<IA, IB>>,
    MA: Function<OA, UnicastSelect<IB, O>>,
    MB: Function<OB, UnicastSelect<IA, O>>,
    KA: Continuation<IA, OA, A>,
    KB: Continuation<IB, OB, B>,
 {
    /// The input resumes the side that the selector names; the other side
    /// stays as it is.
    open spec fn next(self, input: I) -> Coroutine<
        I,
        O,
        CooperateResult<IA, IB, OA, OB, A, B, KA, KB>,
        Self,
    > {
        self.state().step::<I, IA, IB, OA, OB, O, A, B>(input)
    }
}

fn cooperate_within<I, IA, IB, OA, OB, O, A, B, S, MA, MB, KA, KB>(
    selector: S,
    map_first: MA,
    map_second: MB,
    first: Coroutine<IA, OA, A, KA>,
    second: Coroutine<IB, OB, B, KB>,
    Ghost(fuel): Ghost<nat>,
) -> (c: Coroutine<
    I,
    O,
    CooperateResult<IA, IB, OA, OB, A, B, KA, KB>,
    Cooperate<I, IA, IB, OA, OB, O, A, B, S, MA, MB, KA, KB>,
>) where
    S: Apply<I, UnicastSelect<IA, IB>>,
    MA: Apply<OA, UnicastSelect<IB, O>>,
    MB: Apply<OB, UnicastSelect<IA, O>>,
    KA: Resume<IA, OA, A>,
    KB: Resume<IB, OB, B>,

    requires
        cooperate_fuel::<I, IA, IB, OA, OB, O, A, B, S, MA, MB, KA, KB>(
            fuel,
            selector,
            map_first,
            map_second,
            first,
            second,
        ) matches Some(r) && stays_tame(r),
    ensures
        Some(c) == cooperate_fuel::<I, IA, IB, OA, OB, O, A, B, S, MA, MB, KA, KB>(
            fuel,
            selector,
            map_first,
            map_second,
            first,
            second,
        ),
    decreases fuel, first, second,
{
    match first {
        Coroutine::Done(value) => match second {
            Coroutine::Yield(ob, nb) => {
                let outcome = Coroutine::Done(CooperateResult::Left { value, remaining: *nb });
                match map_second.apply(ob) {
                    UnicastSelect::Left(_) => outcome,
                    UnicastSelect::Right(o) => Coroutine::Yield(o, Box::new(outcome)),
                }
            },
            second => Coroutine::Done(CooperateResult::Left { value, remaining: second }),
        },
        Coroutine::Yield(oa, na) => match second {
            Coroutine::Done(value) => {
                let outcome = Coroutine::Done(CooperateResult::Right { value, remaining: *na });
                match map_first.apply(oa) {
                    UnicastSelect::Left(_) => outcome,
                    UnicastSelect::Right(o) => Coroutine::Yield(o, Box::new(outcome)),
                }
            },
            Coroutine::Yield(ob, nb) => match map_first.apply(oa) {
                UnicastSelect::Left(ib) => match map_second.apply(ob) {
                    UnicastSelect::Left(ia) => cooperate_within(
                        selector,
                        map_first,
                        map_second,
                        inject(ia, *na),
                        inject(ib, *nb),
                        Ghost((fuel - 1) as nat),
                    ),
                    UnicastSelect::Right(o) => Coroutine::Yield(
                        o,
                        Box::new(
                            cooperate_within(
                                selector,
                                map_first,
                                map_second,
                                *na,
                                inject(ib, *nb),
                                Ghost((fuel - 1) as nat),
                            ),
                        ),
                    ),
                },
                UnicastSelect::Right(o1) => match map_second.apply(ob) {
                    UnicastSelect::Left(ia) => Coroutine::Yield(
                        o1,
                        Box::new(
                            cooperate_within(
                                selector,
                                map_first,
                                map_second,
                                inject(ia, *na),
                                *nb,
                                Ghost((fuel - 1) as nat),
                            ),
                        ),
                    ),
                    UnicastSelect::Right(o2) => {
                        proof {
                            let rest = cooperate_fuel::<
                                I,
                                IA,
                                IB,
                                OA,
                                OB,
                                O,
                                A,
                                B,
                                S,
                                MA,
                                MB,
                                KA,
                                KB,
                            >(
                                fuel,
                                selector,
                                map_first,
                                map_second,
                                *na,
                                *nb,
                            );
                            assert(after_output(o2, rest).unwrap().awaited()
                                == rest.unwrap().awaited());
                        }
                        let rest = cooperate_within(
                            selector,
                            map_first,
                            map_second,
                            *na,
                            *nb,
                            Ghost(fuel),
                        );
                        Coroutine::Yield(o1, Box::new(Coroutine::Yield(o2, Box::new(rest))))
                    },
                },
            },
            Coroutine::Await(kb, pb) => match map_first.apply(oa) {
                UnicastSelect::Left(ib) => cooperate_within(
                    selector,
                    map_first,
                    map_second,
                    *na,
                    kb.resume(ib),
                    Ghost((fuel - 1) as nat),
                ),
                UnicastSelect::Right(o) => Coroutine::Yield(
                    o,
                    Box::new(
                        cooperate_within(
                            selector,
                            map_first,
                            map_second,
                            *na,
                            Coroutine::Await(kb, pb),
                            Ghost(fuel),
                        ),
                    ),
                ),
            },
        },
        Coroutine::Await(ka, pa) => match second {
            Coroutine::Done(value) => Coroutine::Done(
                CooperateResult::Right { value, remaining: Coroutine::Await(ka, pa) },
            ),
            Coroutine::Yield(ob, nb) => match map_second.apply(ob) {
                UnicastSelect::Left(ia) => cooperate_within(
                    selector,
                    map_first,
                    map_second,
                    ka.resume(ia),
                    *nb,
                    Ghost((fuel - 1) as nat),
                ),
                UnicastSelect::Right(o) => Coroutine::Yield(
                    o,
                    Box::new(
                        cooperate_within(
                            selector,
                            map_first,
                            map_second,
                            Coroutine::Await(ka, pa),
                            *nb,
                            Ghost(fuel),
                        ),
                    ),
                ),
            },
            Coroutine::Await(kb, _) => {
                let state = CooperateState {
                    selector,
                    map_first,
                    map_second,
                    first: ka,
                    second: kb,
                };
                proof {
                    let k = Cooperate::<I, IA, IB, OA, OB, O, A, B, S, MA, MB, KA, KB>::suspended(
                        state,
                    );
                    let c = Coroutine::<
                        I,
                        O,
                        CooperateResult<IA, IB, OA, OB, A, B, KA, KB>,
                        Cooperate<I, IA, IB, OA, OB, O, A, B, S, MA, MB, KA, KB>,
                    >::Await(k, PhantomData);
                    assert(c.awaited() == Some(k));
                    assert(stays_tame(c));
                    assert(k.state() == state);
                }
                Coroutine::Await(Cooperate { state, types: PhantomData }, PhantomData)
            },
        },
    }
}

impl<I, IA, IB, OA, OB, O, A, B, S, MA, MB, KA, KB> Resume<
    I,
    O,
    CooperateResult<IA, IB, OA, OB, A, B, KA, KB>,
> for Cooperate<I, IA, IB, OA, OB, O, A, B, S, MA, MB, KA, KB> where
    S: Apply<I, UnicastSelect<IA, IB>>,
    MA: Apply<OA, UnicastSelect<IB, O>>,
    MB: Apply<OB, UnicastSelect<IA, O>>,
    KA: Resume<IA, OA, A>,
    KB: Resume<IB, OB, B>,
 {
    fn resume(self, input: I) -> (c: Coroutine<
        I,
        O,
        CooperateResult<IA, IB, OA, OB, A, B, KA, KB>,
        Self,
    >) {
        proof {
            use_type_invariant(&self);
            assert(self.state.tame::<I, IA, IB, OA, OB, O, A, B>(seq![input]));
            assert(stays_tame(self.next(input))) by {
                match self.next(input).awaited() {
                    Some(k) => {
                        assert forall|rest: Seq<I>| #[trigger]
                            k.state().tame::<I, IA, IB, OA, OB, O, A, B>(rest) by {
                            let all = seq![input] + rest;
                            assert(all.skip(1) =~= rest);
                            assert(self.state.tame::<I, IA, IB, OA, OB, O, A, B>(all));
                        }
                    },
                    None => {},
                }
            }
        }
        let ghost sides = self.state.deliver::<I, IA, IB, OA, OB, A, B>(input);
        let ghost fuel = enough_fuel::<I, IA, IB, OA, OB, O, A, B, S, MA, MB, KA, KB>(
            self.state.selector,
            self.state.map_first,
            self.state.map_second,
            sides.0,
            sides.1,
        );
        let Cooperate { state, types: _ } = self;
        let CooperateState { selector, map_first, map_second, first, second } = state;
        match selector.apply(input) {
            UnicastSelect::Left(ia) => cooperate_within(
                selector,
                map_first,
                map_second,
                first.resume(ia),
                Coroutine::Await(second, PhantomData),
                Ghost(fuel),
            ),
            UnicastSelect::Right(ib) => cooperate_within(
                selector,
                map_first,
                map_second,
                Coroutine::Await(first, PhantomData),
                second.resume(ib),
                Ghost(fuel),
            ),
        }
    }
}

/// Runs `first` and `second` so that they can hold a private conversation.
///
/// Each external input goes to the side that `selector` names. Each output of
/// the first side is, by `map_first`, either a message for the second side or
/// an external output, and likewise for the second side with `map_second`. A
/// message is delivered to the other side at once, as its next input, and is
/// never seen outside. The cooperation completes as soon as either side
/// does, with that side's value and what is left of the other side. An
/// output that the other side has ready at that moment is dealt with first:
/// an external output is produced before the outcome, and a message for the
/// side that has completed is dropped, as a message delivered to a completed
/// coroutine is (to tell the two apart the output has to be classified, and
/// that uses it up).
///
/// The two sides must not talk to each other forever: see [`cooperative`].
pub fn cooperate<I, IA, IB, OA, OB, O, A, B, S, MA, MB, KA, KB>(
    selector: S,
    map_first: MA,
    map_second: MB,
    first: Coroutine<IA, OA, A, KA>,
    second: Coroutine<IB, OB, B, KB>,
) -> (c: Coroutine<
    I,
    O,
    CooperateResult<IA, IB, OA, OB, A, B, KA, KB>,
    Cooperate<I, IA, IB, OA, OB, O, A, B, S, MA, MB, KA, KB>,
>) where
    S: Apply<I, UnicastSelect<IA, IB>>,
    MA: Apply<OA, UnicastSelect<IB, O>>,
    MB: Apply<OB, UnicastSelect<IA, O>>,
    KA: Resume<IA, OA, A>,
    KB: Resume<IB, OB, B>,

    requires
        cooperative::<I, IA, IB, OA, OB, O, A, B, S, MA, MB, KA, KB>(
            selector,
            map_first,
            map_second,
            first,
            second,
        ),
    ensures
        c == cooperate_spec::<I, IA, IB, OA, OB, O, A, B, S, MA, MB, KA, KB>(
            selector,
            map_first,
            map_second,
            first,
            second,
        ),
{
    let ghost fuel = enough_fuel::<I, IA, IB, OA, OB, O, A, B, S, MA, MB, KA, KB>(
        selector,
        map_first,
        map_second,
        first,
        second,
    );
    cooperate_within(selector, map_first, map_second, first, second, Ghost(fuel))
}

} // verus!
