//! Function objects with a mathematical meaning.
//!
//! The combinators of this crate store the functions they are given inside
//! suspended coroutines and call them later. To say what such a coroutine
//! will do, a stored function needs a meaning in specifications: the value
//! [`Function::image`] that it maps each argument to. Closures get that
//! meaning by being wrapped in a [`Closure`].
use vstd::prelude::*;

verus! {

/// The meaning of a function object: the value it maps each argument to.
pub trait Function<A, B>: Sized {
    /// The value that a call on `arg` returns.
    spec fn image(&self, arg: A) -> B;
}

/// A function object that can be called once, by value.
pub trait ApplyOnce<A, B>: Function<A, B> {
    /// Calls the function on `arg`.
    fn apply_once(self, arg: A) -> (out: B)
        ensures
            out == self.image(arg),
    ;
}

/// A function object that can be called any number of times.
pub trait Apply<A, B>: Function<A, B> {
    /// Calls the function on `arg`.
    fn apply(&self, arg: A) -> (out: B)
        ensures
            out == self.image(arg),
    ;
}

/// Whether `f` accepts every argument.
pub open spec fn total<A, B, F: FnOnce(A) -> B>(f: F) -> bool {
    forall|a: A| call_requires(f, (a,))
}

/// Whether the postcondition of `f` admits at most one result for each
/// argument.
pub open spec fn single_valued<A, B, F: FnOnce(A) -> B>(f: F) -> bool {
    forall|a: A, b1: B, b2: B|
        call_ensures(f, (a,), b1) && call_ensures(f, (a,), b2) ==> b1 == b2
}

/// A closure, or a function item, as a function object: it accepts every
/// argument and returns what its model maps the argument to.
///
/// Verus unfolds an impl only where it knows the bounds on the impl's type
/// parameters, and of a concrete closure type it does not know that it is
/// `FnOnce`. So in verified code what holds of a wrapped closure comes from
/// lemmas that are stated for every `F`, such as
/// [`Closure::lemma_image`]; a named type that implements [`Function`] has
/// no such limit.
#[verifier::reject_recursive_types(A)]
#[verifier::reject_recursive_types(B)]
pub struct Closure<F: FnOnce(A) -> B, A, B> {
    f: F,
    model: Ghost<spec_fn(A) -> B>,
}

impl<F: FnOnce(A) -> B, A, B> Closure<F, A, B> {
    #[verifier::type_invariant]
    spec fn inv(self) -> bool {
        &&& total(self.f)
        &&& forall|a: A, b: B| call_ensures(self.f, (a,), b) ==> b == (self.model@)(a)
    }

    /// The closure.
    pub closed spec fn function(self) -> F {
        self.f
    }

    /// The mathematical function that the closure computes.
    pub closed spec fn model(self) -> spec_fn(A) -> B {
        self.model@
    }

    /// Wraps a closure whose postcondition admits one result for each
    /// argument. The model is that result.
    pub fn new(f: F) -> (c: Self)
        requires
            total(f),
            single_valued(f),
        ensures
            c.function() == f,
            forall|a: A, b: B| call_ensures(f, (a,), b) ==> b == (c.model())(a),
    {
        Closure { f, model: Ghost(|a: A| choose|b: B| call_ensures(f, (a,), b)) }
    }

    /// Wraps a closure that computes the function `model`.
    pub fn with_model(f: F, Ghost(model): Ghost<spec_fn(A) -> B>) -> (c: Self)
        requires
            total(f),
            forall|a: A, b: B| call_ensures(f, (a,), b) ==> b == model(a),
        ensures
            c.function() == f,
            c.model() == model,
    {
        Closure { f, model: Ghost(model) }
    }
}

impl<F: FnOnce(A) -> B, A, B> Closure<F, A, B> {
    /// The image of an argument is what the model maps it to.
    pub proof fn lemma_image(self, arg: A)
        ensures
            self.image(arg) == (self.model())(arg),
    {
    }
}

impl<F: Fn(A) -> B, A, B> Closure<F, A, B> {
    /// Wraps a closure that is to be called more than once. As
    /// [`Closure::new`], which takes a closure that is called once only.
    pub fn reusable(f: F) -> (c: Self)
        requires
            total(f),
            single_valued(f),
        ensures
            c.function() == f,
            forall|a: A, b: B| call_ensures(f, (a,), b) ==> b == (c.model())(a),
    {
        Closure::new(f)
    }
}

impl<F: FnOnce(A) -> B, A, B> Function<A, B> for Closure<F, A, B> {
    open spec fn image(&self, arg: A) -> B {
        (self.model())(arg)
    }
}

impl<F: FnOnce(A) -> B, A, B> ApplyOnce<A, B> for Closure<F, A, B> {
    fn apply_once(self, arg: A) -> (out: B) {
        proof {
            use_type_invariant(&self);
        }
        (self.f)(arg)
    }
}

impl<F: Fn(A) -> B, A, B> Apply<A, B> for Closure<F, A, B> {
    fn apply(&self, arg: A) -> (out: B) {
        proof {
            use_type_invariant(self);
        }
        (self.f)(arg)
    }
}

} // verus!
