//! A coroutine and its inputs as a source of outputs.
use vstd::prelude::*;
use vstd::std_specs::iter::IteratorSpec;
use std::marker::PhantomData;
use crate::coroutine::{Continuation, Coroutine, Resume};
use crate::executor::{run_until_output, stop_spec, IteratorExecutorResult};

verus! {

/// A coroutine together with the iterator that its inputs come from. Each
/// call of [`CoroutineIterator::next`] drives the coroutine to its next
/// output.
#[verifier::reject_recursive_types(I)]
pub struct CoroutineIterator<It, I, O, R, K> where It: Iterator<Item = I> {
    co: Option<Coroutine<I, O, R, K>>,
    result: Option<R>,
    inputs: Option<It>,
}

impl<It, I, O, R, K> CoroutineIterator<It, I, O, R, K> where It: Iterator<Item = I> {
    /// The coroutine, while it has not completed.
    pub closed spec fn co(self) -> Option<Coroutine<I, O, R, K>> {
        self.co
    }

    /// The completion value, once the coroutine has completed.
    pub closed spec fn result(self) -> Option<R> {
        self.result
    }

    /// The iterator of the inputs, until it has run out.
    pub closed spec fn inputs(self) -> Option<It> {
        self.inputs
    }

    /// Either the coroutine is still there or its completion value is, and
    /// the iterator of the inputs is one that comes to an end.
    pub open spec fn wf(self) -> bool {
        &&& self.co() is Some <==> self.result() is None
        &&& self.inputs() matches Some(it) ==> it.obeys_prophetic_iter_laws()
            && it.decrease() is Some
    }

    /// Whether this is the iterator, and `out` the output returned, after a
    /// step in which the coroutine stopped as `stop`: at an output, which is
    /// returned and the rest kept; at its completion, whose value is kept; or
    /// suspended with the inputs used up.
    pub open spec fn stepped(self, stop: Coroutine<I, O, R, K>, out: Option<O>) -> bool {
        match stop {
            Coroutine::Done(r) => {
                &&& out is None
                &&& self.co() is None
                &&& self.result() == Some(r)
                &&& self.inputs() is Some
            },
            Coroutine::Yield(o, rest) => {
                &&& out == Some(o)
                &&& self.co() == Some(*rest)
                &&& self.result() is None
                &&& self.inputs() is Some
            },
            Coroutine::Await(_, _) => {
                &&& out is None
                &&& self.co() == Some(stop)
                &&& self.result() is None
                &&& self.inputs() is None
            },
        }
    }

    /// Drives the coroutine to its next output and returns it. Returns `None`
    /// when the coroutine completes, when the inputs run out, and ever after.
    pub fn next(&mut self) -> (out: Option<O>) where K: Resume<I, O, R>
        requires
            old(self).wf(),
        ensures
            final(self).wf(),
            old(self).co() is None || old(self).inputs() is None ==> out is None
                && *final(self) == *old(self),
            old(self).co() is Some && old(self).inputs() is Some ==> final(self).stepped(
                stop_spec(old(self).co()->0, old(self).inputs()->0.remaining()).0,
                out,
            ),
            old(self).co() is Some && old(self).inputs() is Some && final(self).inputs() is Some
                ==> final(self).inputs()->0.remaining() == old(self).inputs()->0.remaining().skip(
                stop_spec(old(self).co()->0, old(self).inputs()->0.remaining()).1 as int,
            ),
    {
        let co = self.co.take();
        let it = self.inputs.take();
        match co {
            Some(co) => match it {
                Some(it) => match run_until_output(co, it) {
                    IteratorExecutorResult::Completed { result, remaining } => {
                        self.inputs = Some(remaining);
                        self.result = Some(result);
                        None
                    },
                    IteratorExecutorResult::Output { output, co, remaining } => {
                        self.inputs = Some(remaining);
                        self.co = Some(co);
                        Some(output)
                    },
                    IteratorExecutorResult::Exhausted { co } => {
                        self.co = Some(Coroutine::Await(co, PhantomData));
                        None
                    },
                },
                None => {
                    self.co = Some(co);
                    None
                },
            },
            None => {
                self.inputs = it;
                None
            },
        }
    }

    /// Takes the iterator apart: the completion value, or the coroutine if it
    /// has not completed, and what is left of the inputs.
    pub fn finish(self) -> (out: (Result<R, Coroutine<I, O, R, K>>, Option<It>))
        requires
            self.wf(),
        ensures
            out.0 == match self.result() {
                Some(r) => Result::<R, Coroutine<I, O, R, K>>::Ok(r),
                None => Err(self.co()->0),
            },
            out.1 == self.inputs(),
    {
        match self.result {
            Some(result) => (Ok(result), self.inputs),
            None => match self.co {
                Some(co) => (Err(co), self.inputs),
                None => vstd::pervasive::unreached(),
            },
        }
    }
}

/// Pairs a coroutine with the iterator that its inputs come from.
pub fn as_iterator<I, O, R, K, It>(co: Coroutine<I, O, R, K>, inputs: It) -> (out:
    CoroutineIterator<It, I, O, R, K>) where It: Iterator<Item = I>
    requires
        inputs.obeys_prophetic_iter_laws(),
        inputs.decrease() is Some,
    ensures
        out.wf(),
        out.co() == Some(co),
        out.result() is None,
        out.inputs() == Some(inputs),
{
    CoroutineIterator { co: Some(co), result: None, inputs: Some(inputs) }
}

} // verus!
