//! A driver that feeds a coroutine from an iterator.
//!
//! Nothing more than [`run_step`](crate::coroutine::run_step) is needed to
//! drive a coroutine; this driver covers the common case.
use vstd::prelude::*;
use vstd::std_specs::iter::IteratorSpec;
use std::marker::PhantomData;
use crate::coroutine::{Continuation, Coroutine, Resume};

verus! {

/// Where [`run_until_output`] stopped.
#[allow(inconsistent_fields)]
pub enum IteratorExecutorResult<It, Input, Output, Result, K> {
    /// The coroutine completed.
    Completed { result: Result, remaining: It },
    /// The coroutine produced an output.
    Output { output: Output, co: Coroutine<Input, Output, Result, K>, remaining: It },
    /// The inputs ran out: the suspended state is handed back, to be resumed
    /// when there is more input.
    Exhausted { co: K },
}

impl<It, Input, Output, Result, K> IteratorExecutorResult<It, Input, Output, Result, K> {
    /// The coroutine as it was when the driver stopped.
    pub open spec fn stopped(self) -> Coroutine<Input, Output, Result, K> {
        match self {
            IteratorExecutorResult::Completed { result, .. } => Coroutine::Done(result),
            IteratorExecutorResult::Output { output, co, .. } => Coroutine::Yield(
                output,
                Box::new(co),
            ),
            IteratorExecutorResult::Exhausted { co } => Coroutine::Await(co, PhantomData),
        }
    }

    /// The iterator that is handed back, if one is.
    pub open spec fn unused(self) -> Option<It> {
        match self {
            IteratorExecutorResult::Completed { remaining, .. } => Some(remaining),
            IteratorExecutorResult::Output { remaining, .. } => Some(remaining),
            IteratorExecutorResult::Exhausted { .. } => None,
        }
    }
}

/// Where a driver that feeds `routine` from `inputs` stops, and how many
/// inputs it has fed by then. It stops at the first output, at completion, or
/// when the coroutine asks for an input and none is left.
pub open spec fn stop_spec<I, O, R, K: Continuation<I, O, R>>(
    routine: Coroutine<I, O, R, K>,
    inputs: Seq<I>,
) -> (Coroutine<I, O, R, K>, nat)
    decreases inputs.len(),
{
    match routine {
        Coroutine::Await(k, _) => if inputs.len() == 0 {
            (routine, 0)
        } else {
            let rest = stop_spec(k.next(inputs[0]), inputs.skip(1));
            (rest.0, rest.1 + 1)
        },
        _ => (routine, 0),
    }
}

/// Runs `routine` with the inputs that `events` gives, up to its first
/// output or its completion. The iterator is handed back with the inputs
/// that were not used. If the inputs run out first, the suspended state is
/// handed back.
pub fn run_until_output<Iter, Input, Output, Result, K>(
    routine: Coroutine<Input, Output, Result, K>,
    events: Iter,
) -> (out: IteratorExecutorResult<Iter, Input, Output, Result, K>) where
    Iter: Iterator<Item = Input>,
    K: Resume<Input, Output, Result>,

    requires
        events.obeys_prophetic_iter_laws(),
        events.decrease() is Some,
    ensures
        out.stopped() == stop_spec(routine, events.remaining()).0,
        out.unused() matches Some(rest) ==> rest.obeys_prophetic_iter_laws()
            && rest.decrease() is Some && rest.remaining() == events.remaining().skip(
            stop_spec(routine, events.remaining()).1 as int,
        ),
        out is Exhausted ==> stop_spec(routine, events.remaining()).1 == events.remaining().len(),
{
    let ghost all = events.remaining();
    let ghost goal = stop_spec(routine, all);
    let ghost mut fed: nat = 0;
    let mut current = routine;
    let mut rest = events;
    loop
        invariant
            all == events.remaining(),
            goal == stop_spec(routine, all),
            rest.obeys_prophetic_iter_laws(),
            rest.decrease() is Some,
            fed <= all.len(),
            rest.remaining() == all.skip(fed as int),
            goal == (
                stop_spec(current, rest.remaining()).0,
                stop_spec(current, rest.remaining()).1 + fed,
            ),
        decreases rest.decrease()->0,
    {
        match current {
            Coroutine::Done(result) => {
                return IteratorExecutorResult::Completed { result, remaining: rest };
            },
            Coroutine::Yield(output, next) => {
                return IteratorExecutorResult::Output { output, co: *next, remaining: rest };
            },
            Coroutine::Await(k, _) => {
                let ghost before = rest.remaining();
                match rest.next() {
                    Some(event) => {
                        proof {
                            assert(rest.remaining() =~= before.skip(1));
                            assert(before.skip(1) =~= all.skip(fed as int + 1));
                            fed = fed + 1;
                        }
                        current = k.resume(event);
                    },
                    None => {
                        return IteratorExecutorResult::Exhausted { co: k };
                    },
                }
            },
        }
    }
}

} // verus!
