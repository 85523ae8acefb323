//! Races that go on until both sides have completed.
use vstd::prelude::*;
use std::marker::PhantomData;
use crate::coroutine::{bind, bind_spec, Bind, Continuation, Coroutine, Never, Resume};
use crate::dispatch::{
    broadcast, dispatch_spec, unicast, Dispatch, DispatchResult, Duplicating, Exclusive, Split,
    UnicastSelect,
};
use crate::function::{Apply, ApplyOnce, Function};
use crate::functions::{map_spec, Mapped, PairWith, Until};
use crate::subroutine::{
    lemma_patient_nestable, map_output, map_output_spec, subroutine, subroutine_spec, MapOutput,
    Subroutine,
};

verus! {

/// The state of a coroutine that goes on as one of two coroutines with
/// different states.
pub enum Either<KL, KR> {
    Left(KL),
    Right(KR),
}

/// `c` with each suspended state `k` replaced by `Either::Left(k)`.
pub open spec fn either_left<I, O, R, KL, KR>(c: Coroutine<I, O, R, KL>) -> Coroutine<
    I,
    O,
    R,
    Either<KL, KR>,
>
    decreases c,
{
    match c {
        Coroutine::Await(k, _) => Coroutine::Await(Either::Left(k), PhantomData),
        Coroutine::Yield(o, next) => Coroutine::Yield(o, Box::new(either_left(*next))),
        Coroutine::Done(r) => Coroutine::Done(r),
    }
}

/// `c` with each suspended state `k` replaced by `Either::Right(k)`.
pub open spec fn either_right<I, O, R, KL, KR>(c: Coroutine<I, O, R, KR>) -> Coroutine<
    I,
    O,
    R,
    Either<KL, KR>,
>
    decreases c,
{
    match c {
        Coroutine::Await(k, _) => Coroutine::Await(Either::Right(k), PhantomData),
        Coroutine::Yield(o, next) => Coroutine::Yield(o, Box::new(either_right(*next))),
        Coroutine::Done(r) => Coroutine::Done(r),
    }
}

impl<I, O, R, KL, KR> Continuation<I, O, R> for Either<KL, KR> where
    KL: Continuation<I, O, R>,
    KR: Continuation<I, O, R>,
 {
    open spec fn next(self, input: I) -> Coroutine<I, O, R, Self> {
        match self {
            Either::Left(k) => either_left(k.next(input)),
            Either::Right(k) => either_right(k.next(input)),
        }
    }
}

fn into_left<I, O, R, KL, KR>(
    c: Coroutine<I, O, R, KL>,
) -> (out: Coroutine<I, O, R, Either<KL, KR>>)
    ensures
        out == either_left::<I, O, R, KL, KR>(c),
    decreases c,
{
    match c {
        Coroutine::Await(k, _) => Coroutine::Await(Either::Left(k), PhantomData),
        Coroutine::Yield(o, next) => Coroutine::Yield(o, Box::new(into_left(*next))),
        Coroutine::Done(r) => Coroutine::Done(r),
    }
}

fn into_right<I, O, R, KL, KR>(c: Coroutine<I, O, R, KR>) -> (out: Coroutine<
    I,
    O,
    R,
    Either<KL, KR>,
>)
    ensures
        out == either_right::<I, O, R, KL, KR>(c),
    decreases c,
{
    match c {
        Coroutine::Await(k, _) => Coroutine::Await(Either::Right(k), PhantomData),
        Coroutine::Yield(o, next) => Coroutine::Yield(o, Box::new(into_right(*next))),
        Coroutine::Done(r) => Coroutine::Done(r),
    }
}

impl<I, O, R, KL, KR> Resume<I, O, R> for Either<KL, KR> where
    KL: Resume<I, O, R>,
    KR: Resume<I, O, R>,
 {
    fn resume(self, input: I) -> (c: Coroutine<I, O, R, Self>) {
        match self {
            Either::Left(k) => into_left(k.resume(input)),
            Either::Right(k) => into_right(k.resume(input)),
        }
    }
}

/// The function that forgets which side an output came from.
pub struct Merging;

impl<O> Function<UnicastSelect<O, O>, O> for Merging {
    open spec fn image(&self, arg: UnicastSelect<O, O>) -> O {
        match arg {
            UnicastSelect::Left(o) => o,
            UnicastSelect::Right(o) => o,
        }
    }
}

impl<O> Apply<UnicastSelect<O, O>, O> for Merging {
    fn apply(&self, arg: UnicastSelect<O, O>) -> (out: O) {
        match arg {
            UnicastSelect::Left(o) => o,
            UnicastSelect::Right(o) => o,
        }
    }
}

/// The function that pairs its argument with a value already there, which
/// comes second.
pub struct PairBefore<B>(pub B);

impl<A, B> Function<A, (A, B)> for PairBefore<B> {
    open spec fn image(&self, arg: A) -> (A, B) {
        (arg, self.0)
    }
}

impl<A, B> ApplyOnce<A, (A, B)> for PairBefore<B> {
    fn apply_once(self, arg: A) -> (out: (A, B)) {
        (arg, self.0)
    }
}

/// The state of the side that a broadcast race has left over, run to its
/// end.
pub type BroadcastRest<A, B, KA, KB> = Either<
    Mapped<KB, PairWith<A>, B>,
    Mapped<KA, PairBefore<B>, A>,
>;

/// The function that maps the outcome of a broadcast race to the coroutine
/// that runs the side left over to its end and completes with both values.
pub struct FinishBroadcast;

impl<I, O, A, B, KA, KB> Function<
    DispatchResult<I, I, O, O, A, B, KA, KB>,
    Coroutine<I, O, (A, B), BroadcastRest<A, B, KA, KB>>,
> for FinishBroadcast {
    open spec fn image(&self, arg: DispatchResult<I, I, O, O, A, B, KA, KB>) -> Coroutine<
        I,
        O,
        (A, B),
        BroadcastRest<A, B, KA, KB>,
    > {
        match arg {
            DispatchResult::Left { value, remaining } => either_left(
                map_spec(remaining, PairWith(value)),
            ),
            DispatchResult::Right { value, remaining } => either_right(
                map_spec(remaining, PairBefore(value)),
            ),
        }
    }
}

impl<I, O, A, B, KA, KB> ApplyOnce<
    DispatchResult<I, I, O, O, A, B, KA, KB>,
    Coroutine<I, O, (A, B), BroadcastRest<A, B, KA, KB>>,
> for FinishBroadcast where KA: Continuation<I, O, A>, KB: Continuation<I, O, B> {
    fn apply_once(self, arg: DispatchResult<I, I, O, O, A, B, KA, KB>) -> (out: Coroutine<
        I,
        O,
        (A, B),
        BroadcastRest<A, B, KA, KB>,
    >) {
        match arg {
            DispatchResult::Left { value, remaining } => into_left(
                crate::functions::map(remaining, PairWith(value)),
            ),
            DispatchResult::Right { value, remaining } => into_right(
                crate::functions::map(remaining, PairBefore(value)),
            ),
        }
    }
}

/// The state of a coroutine made by [`broadcast_until_finished`].
pub type BroadcastUntilFinished<I, O, A, B, KA, KB> = Bind<
    MapOutput<
        I,
        UnicastSelect<O, O>,
        O,
        DispatchResult<I, I, O, O, A, B, KA, KB>,
        Merging,
        Dispatch<Duplicating, KA, KB>,
    >,
    FinishBroadcast,
    BroadcastRest<A, B, KA, KB>,
    DispatchResult<I, I, O, O, A, B, KA, KB>,
>;

/// The broadcast race of `first` and `second` with the outputs of both sides
/// merged, and after it the side left over, run to its end.
pub open spec fn broadcast_until_finished_spec<I, O, A, B, KA, KB>(
    first: Coroutine<I, O, A, KA>,
    second: Coroutine<I, O, B, KB>,
) -> Coroutine<I, O, (A, B), BroadcastUntilFinished<I, O, A, B, KA, KB>> where
    I: Split<I, I>,
    KA: Continuation<I, O, A>,
    KB: Continuation<I, O, B>,
 {
    bind_spec(
        map_output_spec(
            dispatch_spec::<I, I, I, O, O, A, B, Duplicating, KA, KB>(Duplicating, first, second),
            Merging,
        ),
        FinishBroadcast,
    )
}

/// Sends every input to both coroutines and produces the outputs of both,
/// until both have completed; completes with both values. Once one side has
/// completed, the other goes on alone with all the inputs.
pub fn broadcast_until_finished<I, O, A, B, KA, KB>(
    first: Coroutine<I, O, A, KA>,
    second: Coroutine<I, O, B, KB>,
) -> (c: Coroutine<I, O, (A, B), BroadcastUntilFinished<I, O, A, B, KA, KB>>) where
    I: Split<I, I>,
    KA: Resume<I, O, A>,
    KB: Resume<I, O, B>,

    ensures
        c == broadcast_until_finished_spec(first, second),
{
    let race = map_output(broadcast(first, second), Merging);
    bind(race, FinishBroadcast)
}

/// The function that takes an input for the second side and drops one for
/// the first.
pub struct IsRight;

impl<IA, IB, O> Function<
    UnicastSelect<IA, IB>,
    Coroutine<UnicastSelect<IA, IB>, O, Option<IB>, Never>,
> for IsRight {
    open spec fn image(&self, arg: UnicastSelect<IA, IB>) -> Coroutine<
        UnicastSelect<IA, IB>,
        O,
        Option<IB>,
        Never,
    > {
        match arg {
            UnicastSelect::Left(_) => Coroutine::Done(None),
            UnicastSelect::Right(b) => Coroutine::Done(Some(b)),
        }
    }
}

impl<IA, IB, O> Apply<
    UnicastSelect<IA, IB>,
    Coroutine<UnicastSelect<IA, IB>, O, Option<IB>, Never>,
> for IsRight {
    fn apply(&self, arg: UnicastSelect<IA, IB>) -> (out: Coroutine<
        UnicastSelect<IA, IB>,
        O,
        Option<IB>,
        Never,
    >) {
        match arg {
            UnicastSelect::Left(_) => Coroutine::Done(None),
            UnicastSelect::Right(b) => Coroutine::Done(Some(b)),
        }
    }
}

/// The function that takes an input for the first side and drops one for
/// the second.
pub struct IsLeft;

impl<IA, IB, O> Function<
    UnicastSelect<IA, IB>,
    Coroutine<UnicastSelect<IA, IB>, O, Option<IA>, Never>,
> for IsLeft {
    open spec fn image(&self, arg: UnicastSelect<IA, IB>) -> Coroutine<
        UnicastSelect<IA, IB>,
        O,
        Option<IA>,
        Never,
    > {
        match arg {
            UnicastSelect::Left(a) => Coroutine::Done(Some(a)),
            UnicastSelect::Right(_) => Coroutine::Done(None),
        }
    }
}

impl<IA, IB, O> Apply<
    UnicastSelect<IA, IB>,
    Coroutine<UnicastSelect<IA, IB>, O, Option<IA>, Never>,
> for IsLeft {
    fn apply(&self, arg: UnicastSelect<IA, IB>) -> (out: Coroutine<
        UnicastSelect<IA, IB>,
        O,
        Option<IA>,
        Never,
    >) {
        match arg {
            UnicastSelect::Left(a) => Coroutine::Done(Some(a)),
            UnicastSelect::Right(_) => Coroutine::Done(None),
        }
    }
}

/// The function that starts a coroutine which receives inputs until one is
/// for the second side, and completes with it.
pub struct AwaitRight;

impl<IA, IB, O> Function<
    (),
    Coroutine<UnicastSelect<IA, IB>, O, IB, Until<IsRight, Never>>,
> for AwaitRight {
    open spec fn image(&self, arg: ()) -> Coroutine<
        UnicastSelect<IA, IB>,
        O,
        IB,
        Until<IsRight, Never>,
    > {
        Coroutine::Await(Until::Waiting(IsRight), PhantomData)
    }
}

impl<IA, IB, O> Apply<
    (),
    Coroutine<UnicastSelect<IA, IB>, O, IB, Until<IsRight, Never>>,
> for AwaitRight {
    fn apply(&self, arg: ()) -> (out: Coroutine<
        UnicastSelect<IA, IB>,
        O,
        IB,
        Until<IsRight, Never>,
    >) {
        Coroutine::Await(Until::Waiting(IsRight), PhantomData)
    }
}

/// The function that starts a coroutine which receives inputs until one is
/// for the first side, and completes with it.
pub struct AwaitLeft;

impl<IA, IB, O> Function<
    (),
    Coroutine<UnicastSelect<IA, IB>, O, IA, Until<IsLeft, Never>>,
> for AwaitLeft {
    open spec fn image(&self, arg: ()) -> Coroutine<
        UnicastSelect<IA, IB>,
        O,
        IA,
        Until<IsLeft, Never>,
    > {
        Coroutine::Await(Until::Waiting(IsLeft), PhantomData)
    }
}

impl<IA, IB, O> Apply<
    (),
    Coroutine<UnicastSelect<IA, IB>, O, IA, Until<IsLeft, Never>>,
> for AwaitLeft {
    fn apply(&self, arg: ()) -> (out: Coroutine<
        UnicastSelect<IA, IB>,
        O,
        IA,
        Until<IsLeft, Never>,
    >) {
        Coroutine::Await(Until::Waiting(IsLeft), PhantomData)
    }
}

/// The function that maps `o` to the coroutine that produces `o` and
/// completes.
pub struct Emit;

impl<I, O> Function<O, Coroutine<I, O, (), Never>> for Emit {
    open spec fn image(&self, arg: O) -> Coroutine<I, O, (), Never> {
        Coroutine::Yield(arg, Box::new(Coroutine::Done(())))
    }
}

impl<I, O> Apply<O, Coroutine<I, O, (), Never>> for Emit {
    fn apply(&self, arg: O) -> (out: Coroutine<I, O, (), Never>) {
        Coroutine::Yield(arg, Box::new(Coroutine::Done(())))
    }
}

/// The state of the second side, left over by a unicast race and run on the
/// inputs that are for it.
pub type RightAlone<IA, IB, O, B, KB> = Subroutine<
    UnicastSelect<IA, IB>,
    O,
    IB,
    O,
    B,
    AwaitRight,
    Emit,
    Until<IsRight, Never>,
    Never,
    KB,
>;

/// The state of the first side, left over by a unicast race and run on the
/// inputs that are for it.
pub type LeftAlone<IA, IB, O, A, KA> = Subroutine<
    UnicastSelect<IA, IB>,
    O,
    IA,
    O,
    A,
    AwaitLeft,
    Emit,
    Until<IsLeft, Never>,
    Never,
    KA,
>;

/// The state of the side that a unicast race has left over, run to its end.
pub type UnicastRest<IA, IB, O, A, B, KA, KB> = Either<
    Mapped<RightAlone<IA, IB, O, B, KB>, PairWith<A>, B>,
    Mapped<LeftAlone<IA, IB, O, A, KA>, PairBefore<B>, A>,
>;

/// The function that maps the outcome of a unicast race to the coroutine
/// that runs the side left over to its end, on the inputs that are for it,
/// and completes with both values. Inputs for the side that has completed
/// are dropped.
pub struct FinishUnicast;

impl<IA, IB, O, A, B, KA, KB> Function<
    DispatchResult<IA, IB, O, O, A, B, KA, KB>,
    Coroutine<UnicastSelect<IA, IB>, O, (A, B), UnicastRest<IA, IB, O, A, B, KA, KB>>,
> for FinishUnicast where KA: Continuation<IA, O, A>, KB: Continuation<IB, O, B> {
    open spec fn image(&self, arg: DispatchResult<IA, IB, O, O, A, B, KA, KB>) -> Coroutine<
        UnicastSelect<IA, IB>,
        O,
        (A, B),
        UnicastRest<IA, IB, O, A, B, KA, KB>,
    > {
        match arg {
            DispatchResult::Left { value, remaining } => either_left(
                map_spec(
                    subroutine_spec::<
                        UnicastSelect<IA, IB>,
                        O,
                        IB,
                        O,
                        B,
                        AwaitRight,
                        Emit,
                        Until<IsRight, Never>,
                        Never,
                        KB,
                    >(AwaitRight, Emit, remaining),
                    PairWith(value),
                ),
            ),
            DispatchResult::Right { value, remaining } => either_right(
                map_spec(
                    subroutine_spec::<
                        UnicastSelect<IA, IB>,
                        O,
                        IA,
                        O,
                        A,
                        AwaitLeft,
                        Emit,
                        Until<IsLeft, Never>,
                        Never,
                        KA,
                    >(AwaitLeft, Emit, remaining),
                    PairBefore(value),
                ),
            ),
        }
    }
}

impl<IA, IB, O, A, B, KA, KB> ApplyOnce<
    DispatchResult<IA, IB, O, O, A, B, KA, KB>,
    Coroutine<UnicastSelect<IA, IB>, O, (A, B), UnicastRest<IA, IB, O, A, B, KA, KB>>,
> for FinishUnicast where KA: Resume<IA, O, A>, KB: Resume<IB, O, B> {
    fn apply_once(self, arg: DispatchResult<IA, IB, O, O, A, B, KA, KB>) -> (out: Coroutine<
        UnicastSelect<IA, IB>,
        O,
        (A, B),
        UnicastRest<IA, IB, O, A, B, KA, KB>,
    >) {
        match arg {
            DispatchResult::Left { value, remaining } => {
                proof {
                    assert((Coroutine::<
                        UnicastSelect<IA, IB>,
                        O,
                        IB,
                        Until<IsRight, Never>,
                    >::Await(Until::Waiting(IsRight), PhantomData)).awaited() is Some);
                    lemma_patient_nestable::<
                        UnicastSelect<IA, IB>,
                        O,
                        IB,
                        O,
                        B,
                        AwaitRight,
                        Emit,
                        Until<IsRight, Never>,
                        Never,
                        KB,
                    >(AwaitRight, Emit, remaining);
                }
                let rest: Coroutine<UnicastSelect<IA, IB>, O, B, RightAlone<IA, IB, O, B, KB>> =
                    subroutine(AwaitRight, Emit, remaining);
                into_left(crate::functions::map(rest, PairWith(value)))
            },
            DispatchResult::Right { value, remaining } => {
                proof {
                    assert((Coroutine::<
                        UnicastSelect<IA, IB>,
                        O,
                        IA,
                        Until<IsLeft, Never>,
                    >::Await(Until::Waiting(IsLeft), PhantomData)).awaited() is Some);
                    lemma_patient_nestable::<
                        UnicastSelect<IA, IB>,
                        O,
                        IA,
                        O,
                        A,
                        AwaitLeft,
                        Emit,
                        Until<IsLeft, Never>,
                        Never,
                        KA,
                    >(AwaitLeft, Emit, remaining);
                }
                let rest: Coroutine<UnicastSelect<IA, IB>, O, A, LeftAlone<IA, IB, O, A, KA>> =
                    subroutine(AwaitLeft, Emit, remaining);
                into_right(crate::functions::map(rest, PairBefore(value)))
            },
        }
    }
}

/// The state of a coroutine made by [`unicast_until_finished`].
pub type UnicastUntilFinished<IA, IB, O, A, B, KA, KB> = Bind<
    MapOutput<
        UnicastSelect<IA, IB>,
        UnicastSelect<O, O>,
        O,
        DispatchResult<IA, IB, O, O, A, B, KA, KB>,
        Merging,
        Dispatch<Exclusive, KA, KB>,
    >,
    FinishUnicast,
    UnicastRest<IA, IB, O, A, B, KA, KB>,
    DispatchResult<IA, IB, O, O, A, B, KA, KB>,
>;

/// The unicast race of `first` and `second` with the outputs of both sides
/// merged, and after it the side left over, run to its end.
pub open spec fn unicast_until_finished_spec<IA, IB, O, A, B, KA, KB>(
    first: Coroutine<IA, O, A, KA>,
    second: Coroutine<IB, O, B, KB>,
) -> Coroutine<
    UnicastSelect<IA, IB>,
    O,
    (A, B),
    UnicastUntilFinished<IA, IB, O, A, B, KA, KB>,
> where KA: Continuation<IA, O, A>, KB: Continuation<IB, O, B> {
    bind_spec(
        map_output_spec(
            dispatch_spec::<UnicastSelect<IA, IB>, IA, IB, O, O, A, B, Exclusive, KA, KB>(
                Exclusive,
                first,
                second,
            ),
            Merging,
        ),
        FinishUnicast,
    )
}

/// Sends every input to the one side it is for and produces the outputs of
/// both sides, until both have completed; completes with both values.
///
/// Once one side has completed, the inputs that are for it are dropped. If
/// no input for the other side ever comes, the result never completes.
pub fn unicast_until_finished<IA, IB, O, A, B, KA, KB>(
    first: Coroutine<IA, O, A, KA>,
    second: Coroutine<IB, O, B, KB>,
) -> (c: Coroutine<
    UnicastSelect<IA, IB>,
    O,
    (A, B),
    UnicastUntilFinished<IA, IB, O, A, B, KA, KB>,
>) where KA: Resume<IA, O, A>, KB: Resume<IB, O, B>
    ensures
        c == unicast_until_finished_spec(first, second),
{
    let race = map_output(unicast(first, second), Merging);
    bind(race, FinishUnicast)
}

} // verus!
