//! Resumable, input/output-driven state machines and their composition.
//!
//! A [`Coroutine`] consumes a stream of inputs, produces a stream of outputs
//! and eventually completes with a value. It does nothing by itself: a driver
//! steps it with [`run_step`], feeds it inputs and takes its outputs. The
//! combinators compose two coroutines into one, deterministically and in one
//! thread: [`dispatch`], [`unicast`] and [`broadcast`] race them under one
//! alphabet, [`cooperate`] and [`routed`] also let them talk to each other.
//!
//! Every combinator states what it builds as a specification function, and a
//! suspended state says what it will do with the next input
//! ([`Continuation::next`]), so that the behaviour of a composed coroutine on
//! any sequence of inputs follows from its contract
//! ([`Coroutine::run`]). The module [`laws`] proves the monad laws of
//! [`bind`] that way.
//!
//! [`bind`] gives its result a state type of its own. [`chain`] sequences
//! coroutines whose states can hold a bind in themselves, such as boxed
//! closures or the rounds of a loop, and adds no layer of state for what has
//! completed: a coroutine that binds itself again in its last step runs any
//! number of rounds at the same depth of calls.
pub mod chain;
pub mod compat;
pub mod cooperate;
pub mod coroutine;
pub mod dispatch;
pub mod executor;
pub mod failable;
pub mod function;
pub mod functions;
pub mod iterator;
pub mod laws;
pub mod observe;
pub mod option;
pub mod result;
pub mod routed;
pub mod subroutine;
pub mod until_finished;

pub use chain::{chain, Defer, Deferring, Looping};
pub use cooperate::{cooperate, Cooperate, CooperateResult, CooperateState};
pub use coroutine::{
    bind, result, run_step, send, suspend, Bind, Continuation, Coroutine, Never, Resume,
    StepResult, Suspend, Trace,
};
pub use dispatch::{
    broadcast, dispatch, dispatch_with, unicast, Dispatch, DispatchResult, Select, Split,
    UnicastSelect,
};
pub use function::{Apply, ApplyOnce, Closure, Function};
pub use functions::{
    inject, intercept_input, left, map_input, observe, receive, receive_or_skip,
    recieve_until, right, tuple, void, Discard, Intercept, MapInput, Mapped, Observe, PairThen,
    PairWith, Receive, Returning, Skip, TakeFirst, TakeSecond, Tuple, Until,
};
pub use option::{bind_some, map_some};
pub use result::{bind_err, bind_ok, map_err, subroutine_result};
pub use routed::{routed, Routed, RoutedResult, RoutedState};
pub use subroutine::{
    intercept_output, map_output, subroutine, InterceptOutput, MapOutput, Receiving, Sending,
    Subroutine, SubroutinePhase, SubroutineState,
};
pub use until_finished::{broadcast_until_finished, unicast_until_finished, Either};
