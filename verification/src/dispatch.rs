//! Racing two coroutines under one external alphabet: `dispatch`, `unicast`
//! and `broadcast`.
//!
//! The two sides run interleaved in one deterministic order. Outputs that are
//! ready are forwarded before any input is asked for, the first side's before
//! the second's. The race ends as soon as either side completes; the winner's
//! value is returned with what is left of the other side.
use vstd::prelude::*;
use std::marker::PhantomData;
use crate::coroutine::{Continuation, Coroutine, Resume};
use crate::function::{Apply, Function};

verus! {

/// Where an input goes: to the first coroutine, to the second, or to both.
pub enum Select<A, B, C> {
    Left(A),
    Right(B),
    Both(C),
}

/// Where a value goes, or comes from: the first coroutine or the second,
/// never both.
pub enum UnicastSelect<A, B> {
    Left(A),
    Right(B),
}

/// A value that can be handed to both sides of a race: it splits into the
/// input of the first and the input of the second.
pub trait Split<A, B>: Sized {
    /// The two inputs that the value stands for.
    spec fn halves(self) -> (A, B);

    fn split(self) -> (parts: (A, B))
        ensures
            parts == self.halves(),
    ;
}

/// A value that can be copied goes to both sides as it is.
impl<T: Copy> Split<T, T> for T {
    open spec fn halves(self) -> (T, T) {
        (self, self)
    }

    fn split(self) -> (parts: (T, T)) {
        (self, self)
    }
}

/// The outcome of a race: the value of the side that completed first, and
/// what is left of the other side. The remainder is still live: the caller
/// drives it on, or gives the computation up by dropping it.
#[allow(inconsistent_fields)]
pub enum DispatchResult<IA, IB, OA, OB, A, B, KA, KB> {
    /// The first side completed.
    Left { value: A, remaining: Coroutine<IB, OB, B, KB> },
    /// The second side completed.
    Right { value: B, remaining: Coroutine<IA, OA, A, KA> },
}

/// The state of a race in which both sides are suspended.
pub struct Dispatch<S, KA, KB> {
    pub selector: S,
    pub first: KA,
    pub second: KB,
}

/// The race between `first` and `second`, with inputs routed by `selector`.
///
/// One round looks at the form of both sides:
/// - a side that has completed wins, the first side if both have; if the
///   other side has an output ready, that one output is forwarded before the
///   outcome is reported;
/// - otherwise every output that is ready is forwarded, the first side's
///   before the second's, and the race goes on with what follows them;
/// - with both sides suspended the race is suspended.
pub open spec fn dispatch_spec<I, IA, IB, OA, OB, A, B, S, KA, KB>(
    selector: S,
    first: Coroutine<IA, OA, A, KA>,
    second: Coroutine<IB, OB, B, KB>,
) -> Coroutine<
    I,
    UnicastSelect<OA, OB>,
    DispatchResult<IA, IB, OA, OB, A, B, KA, KB>,
    Dispatch<S, KA, KB>,
>
    decreases first, second,
{
    match first {
        Coroutine::Done(value) => match second {
            Coroutine::Done(_) | Coroutine::Await(_, _) => Coroutine::Done(
                DispatchResult::Left { value, remaining: second },
            ),
            Coroutine::Yield(output, next) => Coroutine::Yield(
                UnicastSelect::Right(output),
                Box::new(Coroutine::Done(DispatchResult::Left { value, remaining: *next })),
            ),
        },
        Coroutine::Yield(a, na) => match second {
            Coroutine::Done(value) => Coroutine::Yield(
                UnicastSelect::Left(a),
                Box::new(Coroutine::Done(DispatchResult::Right { value, remaining: *na })),
            ),
            Coroutine::Yield(b, nb) => Coroutine::Yield(
                UnicastSelect::Left(a),
                Box::new(
                    Coroutine::Yield(
                        UnicastSelect::Right(b),
                        Box::new(dispatch_spec(selector, *na, *nb)),
                    ),
                ),
            ),
            Coroutine::Await(_, _) => Coroutine::Yield(
                UnicastSelect::Left(a),
                Box::new(dispatch_spec(selector, *na, second)),
            ),
        },
        Coroutine::Await(ka, _) => match second {
            Coroutine::Done(value) => Coroutine::Done(
                DispatchResult::Right { value, remaining: first },
            ),
            Coroutine::Yield(b, nb) => Coroutine::Yield(
                UnicastSelect::Right(b),
                Box::new(dispatch_spec(selector, first, *nb)),
            ),
            Coroutine::Await(kb, _) => Coroutine::Await(
                Dispatch { selector, first: ka, second: kb },
                PhantomData,
            ),
        },
    }
}

impl<I, IA, IB, OA, OB, A, B, S, KA, KB> Continuation<
    I,
    UnicastSelect<OA, OB>,
    DispatchResult<IA, IB, OA, OB, A, B, KA, KB>,
> for Dispatch<S, KA, KB> where
    S: Function<I, Select<IA, IB, (IA, IB)>>,
    KA: Continuation<IA, OA, A>,
    KB: Continuation<IB, OB, B>,
 {
    /// An input for the first side resumes the first side and leaves the
    /// second as it is, one for the second side the reverse, and one for both
    /// resumes both.
    open spec fn next(self, input: I) -> Coroutine<
        I,
        UnicastSelect<OA, OB>,
        DispatchResult<IA, IB, OA, OB, A, B, KA, KB>,
        Self,
    > {
        match self.selector.image(input) {
            Select::Left(ia) => dispatch_spec(
                self.selector,
                self.first.next(ia),
                Coroutine::Await(self.second, PhantomData),
            ),
            Select::Right(ib) => dispatch_spec(
                self.selector,
                Coroutine::Await(self.first, PhantomData),
                self.second.next(ib),
            ),
            Select::Both((ia, ib)) => dispatch_spec(
                self.selector,
                self.first.next(ia),
                self.second.next(ib),
            ),
        }
    }
}

impl<I, IA, IB, OA, OB, A, B, S, KA, KB> Resume<
    I,
    UnicastSelect<OA, OB>,
    DispatchResult<IA, IB, OA, OB, A, B, KA, KB>,
> for Dispatch<S, KA, KB> where
    S: Apply<I, Select<IA, IB, (IA, IB)>>,
    KA: Resume<IA, OA, A>,
    KB: Resume<IB, OB, B>,
 {
    fn resume(self, input: I) -> (c: Coroutine<
        I,
        UnicastSelect<OA, OB>,
        DispatchResult<IA, IB, OA, OB, A, B, KA, KB>,
        Self,
    >) {
        let Dispatch { selector, first, second } = self;
        match selector.apply(input) {
            Select::Left(ia) => dispatch_with(
                selector,
                first.resume(ia),
                Coroutine::Await(second, PhantomData),
            ),
            Select::Right(ib) => dispatch_with(
                selector,
                Coroutine::Await(first, PhantomData),
                second.resume(ib),
            ),
            Select::Both((ia, ib)) => dispatch_with(
                selector,
                first.resume(ia),
                second.resume(ib),
            ),
        }
    }
}

/// Runs `first` and `second` interleaved and completes as soon as either
/// does. Each external input goes where `selector` sends it.
pub fn dispatch_with<I, IA, IB, OA, OB, A, B, S, KA, KB>(
    selector: S,
    first: Coroutine<IA, OA, A, KA>,
    second: Coroutine<IB, OB, B, KB>,
) -> (c: Coroutine<
    I,
    UnicastSelect<OA, OB>,
    DispatchResult<IA, IB, OA, OB, A, B, KA, KB>,
    Dispatch<S, KA, KB>,
>)
    ensures
        c == dispatch_spec::<I, IA, IB, OA, OB, A, B, S, KA, KB>(selector, first, second),
    decreases first, second,
{
    match first {
        Coroutine::Done(value) => match second {
            Coroutine::Done(b) => Coroutine::Done(
                DispatchResult::Left { value, remaining: Coroutine::Done(b) },
            ),
            Coroutine::Yield(output, next) => Coroutine::Yield(
                UnicastSelect::Right(output),
                Box::new(Coroutine::Done(DispatchResult::Left { value, remaining: *next })),
            ),
            Coroutine::Await(kb, pb) => Coroutine::Done(
                DispatchResult::Left { value, remaining: Coroutine::Await(kb, pb) },
            ),
        },
        Coroutine::Yield(a, na) => match second {
            Coroutine::Done(value) => Coroutine::Yield(
                UnicastSelect::Left(a),
                Box::new(Coroutine::Done(DispatchResult::Right { value, remaining: *na })),
            ),
            Coroutine::Yield(b, nb) => Coroutine::Yield(
                UnicastSelect::Left(a),
                Box::new(
                    Coroutine::Yield(
                        UnicastSelect::Right(b),
                        Box::new(dispatch_with(selector, *na, *nb)),
                    ),
                ),
            ),
            Coroutine::Await(kb, pb) => Coroutine::Yield(
                UnicastSelect::Left(a),
                Box::new(dispatch_with(selector, *na, Coroutine::Await(kb, pb))),
            ),
        },
        Coroutine::Await(ka, pa) => match second {
            Coroutine::Done(value) => Coroutine::Done(
                DispatchResult::Right { value, remaining: Coroutine::Await(ka, pa) },
            ),
            Coroutine::Yield(b, nb) => Coroutine::Yield(
                UnicastSelect::Right(b),
                Box::new(dispatch_with(selector, Coroutine::Await(ka, pa), *nb)),
            ),
            Coroutine::Await(kb, _) => Coroutine::Await(
                Dispatch { selector, first: ka, second: kb },
                PhantomData,
            ),
        },
    }
}

/// The selector of [`dispatch`]: the input says where it goes, and one for
/// both sides is split.
pub struct Splitting;

impl<IA, IB, IAB: Split<IA, IB>> Function<
    Select<IA, IB, IAB>,
    Select<IA, IB, (IA, IB)>,
> for Splitting {
    open spec fn image(&self, arg: Select<IA, IB, IAB>) -> Select<IA, IB, (IA, IB)> {
        match arg {
            Select::Left(ia) => Select::Left(ia),
            Select::Right(ib) => Select::Right(ib),
            Select::Both(iab) => Select::Both(iab.halves()),
        }
    }
}

impl<IA, IB, IAB: Split<IA, IB>> Apply<
    Select<IA, IB, IAB>,
    Select<IA, IB, (IA, IB)>,
> for Splitting {
    fn apply(&self, arg: Select<IA, IB, IAB>) -> (out: Select<IA, IB, (IA, IB)>) {
        match arg {
            Select::Left(ia) => Select::Left(ia),
            Select::Right(ib) => Select::Right(ib),
            Select::Both(iab) => Select::Both(iab.split()),
        }
    }
}

/// The selector of [`unicast`]: the input says to which one side it goes.
pub struct Exclusive;

impl<IA, IB> Function<UnicastSelect<IA, IB>, Select<IA, IB, (IA, IB)>> for Exclusive {
    open spec fn image(&self, arg: UnicastSelect<IA, IB>) -> Select<IA, IB, (IA, IB)> {
        match arg {
            UnicastSelect::Left(ia) => Select::Left(ia),
            UnicastSelect::Right(ib) => Select::Right(ib),
        }
    }
}

impl<IA, IB> Apply<UnicastSelect<IA, IB>, Select<IA, IB, (IA, IB)>> for Exclusive {
    fn apply(&self, arg: UnicastSelect<IA, IB>) -> (out: Select<IA, IB, (IA, IB)>) {
        match arg {
            UnicastSelect::Left(ia) => Select::Left(ia),
            UnicastSelect::Right(ib) => Select::Right(ib),
        }
    }
}

/// The selector of [`broadcast`]: every input goes to both sides.
pub struct Duplicating;

impl<I: Split<I, I>> Function<I, Select<I, I, (I, I)>> for Duplicating {
    open spec fn image(&self, arg: I) -> Select<I, I, (I, I)> {
        Select::Both(arg.halves())
    }
}

impl<I: Split<I, I>> Apply<I, Select<I, I, (I, I)>> for Duplicating {
    fn apply(&self, arg: I) -> (out: Select<I, I, (I, I)>) {
        Select::Both(arg.split())
    }
}

/// Runs two coroutines interleaved under one alphabet and completes as soon
/// as either does. Each input says whether it is for the first coroutine, the
/// second or both.
pub fn dispatch<IA, IB, IAB, OA, OB, A, B, KA, KB>(
    first: Coroutine<IA, OA, A, KA>,
    second: Coroutine<IB, OB, B, KB>,
) -> (c: Coroutine<
    Select<IA, IB, IAB>,
    UnicastSelect<OA, OB>,
    DispatchResult<IA, IB, OA, OB, A, B, KA, KB>,
    Dispatch<Splitting, KA, KB>,
>) where IAB: Split<IA, IB>
    ensures
        c == dispatch_spec::<Select<IA, IB, IAB>, IA, IB, OA, OB, A, B, Splitting, KA, KB>(
            Splitting,
            first,
            second,
        ),
{
    dispatch_with(Splitting, first, second)
}

/// As [`dispatch`], with every input sent to both coroutines.
///
/// The input type says how it splits in two. Inputs of a type that cannot
/// say so are broadcast with [`dispatch_with`] and a selector that sends each
/// to both sides, for example by cloning it.
pub fn broadcast<I, OA, OB, A, B, KA, KB>(
    first: Coroutine<I, OA, A, KA>,
    second: Coroutine<I, OB, B, KB>,
) -> (c: Coroutine<
    I,
    UnicastSelect<OA, OB>,
    DispatchResult<I, I, OA, OB, A, B, KA, KB>,
    Dispatch<Duplicating, KA, KB>,
>) where I: Split<I, I>
    ensures
        c == dispatch_spec::<I, I, I, OA, OB, A, B, Duplicating, KA, KB>(
            Duplicating,
            first,
            second,
        ),
{
    dispatch_with(Duplicating, first, second)
}

/// As [`dispatch`], with every input sent to exactly one of the coroutines,
/// so that no input is ever duplicated.
pub fn unicast<IA, IB, OA, OB, A, B, KA, KB>(
    first: Coroutine<IA, OA, A, KA>,
    second: Coroutine<IB, OB, B, KB>,
) -> (c: Coroutine<
    UnicastSelect<IA, IB>,
    UnicastSelect<OA, OB>,
    DispatchResult<IA, IB, OA, OB, A, B, KA, KB>,
    Dispatch<Exclusive, KA, KB>,
>)
    ensures
        c == dispatch_spec::<UnicastSelect<IA, IB>, IA, IB, OA, OB, A, B, Exclusive, KA, KB>(
            Exclusive,
            first,
            second,
        ),
{
    dispatch_with(Exclusive, first, second)
}

/// The tie-break of the race: when both sides have completed, the first side
/// is the winner, and the second side is returned as it is.
pub proof fn lemma_tie_break<I, IA, IB, OA, OB, A, B, S, KA, KB>(selector: S, a: A, b: B)
    ensures
        dispatch_spec::<I, IA, IB, OA, OB, A, B, S, KA, KB>(
            selector,
            Coroutine::Done(a),
            Coroutine::Done(b),
        ) == Coroutine::<
            I,
            UnicastSelect<OA, OB>,
            DispatchResult<IA, IB, OA, OB, A, B, KA, KB>,
            Dispatch<S, KA, KB>,
        >::Done(DispatchResult::Left { value: a, remaining: Coroutine::Done(b) }),
{
}

/// Outputs are never held back, and never reordered: an output that the
/// first side has ready is the first thing that the race produces; one that
/// the second side has ready comes right after it, or first if the first
/// side has none.
pub proof fn lemma_eager_drain<I, IA, IB, OA, OB, A, B, S, KA, KB>(
    selector: S,
    first: Coroutine<IA, OA, A, KA>,
    second: Coroutine<IB, OB, B, KB>,
)
    ensures
        first matches Coroutine::Yield(o, _) ==> dispatch_spec::<
            I,
            IA,
            IB,
            OA,
            OB,
            A,
            B,
            S,
            KA,
            KB,
        >(selector, first, second).pending().first() == UnicastSelect::<OA, OB>::Left(o),
        !(first is Yield) ==> (second matches Coroutine::Yield(o, _) ==> dispatch_spec::<
            I,
            IA,
            IB,
            OA,
            OB,
            A,
            B,
            S,
            KA,
            KB,
        >(selector, first, second).pending().first() == UnicastSelect::<OA, OB>::Right(o)),
        first is Yield && !(second is Done) ==> (second matches Coroutine::Yield(o, _)
            ==> dispatch_spec::<I, IA, IB, OA, OB, A, B, S, KA, KB>(
            selector,
            first,
            second,
        ).pending()[1] == UnicastSelect::<OA, OB>::Right(o)),
{
    let c = dispatch_spec::<I, IA, IB, OA, OB, A, B, S, KA, KB>(selector, first, second);
    if c is Yield {
        assert(c.pending().first() == c->Yield_0);
        let rest = *c->Yield_1;
        if first is Yield && second is Yield {
            assert(rest.pending().first() == rest->Yield_0);
            assert(c.pending()[1] == rest.pending()[0]);
        }
    }
}

/// The inputs `lefts`, each tagged for the first side.
pub open spec fn tag_left<IA, IB>(lefts: Seq<IA>) -> Seq<UnicastSelect<IA, IB>> {
    Seq::new(lefts.len(), |j: int| UnicastSelect::Left(lefts[j]))
}

/// The inputs `rights`, each tagged for the second side.
pub open spec fn tag_right<IA, IB>(rights: Seq<IB>) -> Seq<UnicastSelect<IA, IB>> {
    Seq::new(rights.len(), |j: int| UnicastSelect::Right(rights[j]))
}

/// Exclusivity of `unicast`: inputs tagged for the first side advance the
/// first side only. After any number of them the first side is where the
/// same inputs would have brought it on its own, and the second side is in
/// the suspended state it started in.
pub proof fn lemma_unicast_left<IA, IB, OA, OB, A, B, KA, KB>(
    first: Coroutine<IA, OA, A, KA>,
    second: KB,
    lefts: Seq<IA>,
) where KA: Continuation<IA, OA, A>, KB: Continuation<IB, OB, B>
    ensures
        !(first.feed(lefts) is Yield),
        first.feed(lefts) matches Coroutine::Done(value) ==> dispatch_spec::<
            UnicastSelect<IA, IB>,
            IA,
            IB,
            OA,
            OB,
            A,
            B,
            Exclusive,
            KA,
            KB,
        >(Exclusive, first, Coroutine::Await(second, PhantomData)).feed(tag_left(lefts))
            == Coroutine::<
            UnicastSelect<IA, IB>,
            UnicastSelect<OA, OB>,
            DispatchResult<IA, IB, OA, OB, A, B, KA, KB>,
            Dispatch<Exclusive, KA, KB>,
        >::Done(
            DispatchResult::Left { value, remaining: Coroutine::Await(second, PhantomData) },
        ),
        first.feed(lefts) matches Coroutine::Await(ka, _) ==> dispatch_spec::<
            UnicastSelect<IA, IB>,
            IA,
            IB,
            OA,
            OB,
            A,
            B,
            Exclusive,
            KA,
            KB,
        >(Exclusive, first, Coroutine::Await(second, PhantomData)).feed(tag_left(lefts))
            == Coroutine::<
            UnicastSelect<IA, IB>,
            UnicastSelect<OA, OB>,
            DispatchResult<IA, IB, OA, OB, A, B, KA, KB>,
            Dispatch<Exclusive, KA, KB>,
        >::Await((Dispatch { selector: Exclusive, first: ka, second }), PhantomData),
    decreases lefts.len(), first,
{
    match first {
        Coroutine::Done(_) => {},
        Coroutine::Yield(_, next) => {
            lemma_unicast_left::<IA, IB, OA, OB, A, B, KA, KB>(*next, second, lefts);
        },
        Coroutine::Await(ka, _) => {
            if lefts.len() > 0 {
                assert(tag_left::<IA, IB>(lefts).skip(1) =~= tag_left::<IA, IB>(lefts.skip(1)));
                lemma_unicast_left::<IA, IB, OA, OB, A, B, KA, KB>(
                    ka.next(lefts[0]),
                    second,
                    lefts.skip(1),
                );
            }
        },
    }
}

/// Exclusivity of `unicast`, for the second side: inputs tagged for it
/// advance the second side only.
pub proof fn lemma_unicast_right<IA, IB, OA, OB, A, B, KA, KB>(
    first: KA,
    second: Coroutine<IB, OB, B, KB>,
    rights: Seq<IB>,
) where KA: Continuation<IA, OA, A>, KB: Continuation<IB, OB, B>
    ensures
        !(second.feed(rights) is Yield),
        second.feed(rights) matches Coroutine::Done(value) ==> dispatch_spec::<
            UnicastSelect<IA, IB>,
            IA,
            IB,
            OA,
            OB,
            A,
            B,
            Exclusive,
            KA,
            KB,
        >(Exclusive, Coroutine::Await(first, PhantomData), second).feed(tag_right(rights))
            == Coroutine::<
            UnicastSelect<IA, IB>,
            UnicastSelect<OA, OB>,
            DispatchResult<IA, IB, OA, OB, A, B, KA, KB>,
            Dispatch<Exclusive, KA, KB>,
        >::Done(
            DispatchResult::Right { value, remaining: Coroutine::Await(first, PhantomData) },
        ),
        second.feed(rights) matches Coroutine::Await(kb, _) ==> dispatch_spec::<
            UnicastSelect<IA, IB>,
            IA,
            IB,
            OA,
            OB,
            A,
            B,
            Exclusive,
            KA,
            KB,
        >(Exclusive, Coroutine::Await(first, PhantomData), second).feed(tag_right(rights))
            == Coroutine::<
            UnicastSelect<IA, IB>,
            UnicastSelect<OA, OB>,
            DispatchResult<IA, IB, OA, OB, A, B, KA, KB>,
            Dispatch<Exclusive, KA, KB>,
        >::Await((Dispatch { selector: Exclusive, first, second: kb }), PhantomData),
    decreases rights.len(), second,
{
    match second {
        Coroutine::Done(_) => {},
        Coroutine::Yield(_, next) => {
            lemma_unicast_right::<IA, IB, OA, OB, A, B, KA, KB>(first, *next, rights);
        },
        Coroutine::Await(kb, _) => {
            if rights.len() > 0 {
                assert(tag_right::<IA, IB>(rights).skip(1) =~= tag_right::<IA, IB>(
                    rights.skip(1),
                ));
                lemma_unicast_right::<IA, IB, OA, OB, A, B, KA, KB>(
                    first,
                    kb.next(rights[0]),
                    rights.skip(1),
                );
            }
        },
    }
}

} // verus!
