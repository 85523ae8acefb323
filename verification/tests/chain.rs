use bicoro::{
    chain, receive, result, run_step, send, ApplyOnce, Closure, Continuation, Coroutine, Defer,
    Deferring, Function, Looping, Never, Receive, Resume, StepResult,
};
use std::marker::PhantomData;

fn drive<I, O, R, K: Resume<I, O, R>>(
    co: Coroutine<I, O, R, K>,
    inputs: Vec<I>,
) -> (Vec<O>, Option<R>, usize) {
    let mut co = co;
    let mut outputs = Vec::new();
    let mut used = 0;
    let mut inputs = inputs.into_iter();
    loop {
        match run_step(co) {
            StepResult::Done(r) => return (outputs, Some(r), used),
            StepResult::Yield { output, next } => {
                outputs.push(output);
                co = *next;
            }
            StepResult::Next(k) => match inputs.next() {
                Some(input) => {
                    used += 1;
                    co = k.resume(input);
                }
                None => return (outputs, None, used),
            },
        }
    }
}

/// A suspended state of any kind, behind a box.
struct Boxed<I, O, R>(Box<dyn FnOnce(I) -> Coroutine<I, O, R, Boxed<I, O, R>>>);

impl<I, O, R> Continuation<I, O, R> for Boxed<I, O, R> {
    fn next(self, input: I) -> Coroutine<I, O, R, Self> {
        (self.0)(input)
    }
}

impl<I, O, R> Resume<I, O, R> for Boxed<I, O, R> {
    fn resume(self, input: I) -> Coroutine<I, O, R, Self> {
        (self.0)(input)
    }
}

impl<I, O, A, B, K1, F> Deferring<A, K1, F> for Boxed<I, O, B>
where
    I: 'static,
    O: 'static,
    A: 'static,
    B: 'static,
    K1: Resume<I, O, A> + 'static,
    F: ApplyOnce<A, Coroutine<I, O, B, Boxed<I, O, B>>> + 'static,
{
    fn deferred(state: K1, f: F) -> Self {
        Boxed(Box::new(move |input| chain(state.resume(input), f)))
    }
}

impl<I, O, A, B, K1, F> Defer<A, K1, F> for Boxed<I, O, B>
where
    I: 'static,
    O: 'static,
    A: 'static,
    B: 'static,
    K1: Resume<I, O, A> + 'static,
    F: ApplyOnce<A, Coroutine<I, O, B, Boxed<I, O, B>>> + 'static,
{
    fn defer(state: K1, f: F) -> Self {
        <Self as Deferring<A, K1, F>>::deferred(state, f)
    }
}

type Stages = Coroutine<u32, u32, (), Boxed<u32, u32, ()>>;

/// `n` stages, each of which receives an input and emits it, bound one after
/// the other.
fn stages(n: u32) -> Stages {
    let received: Coroutine<u32, u32, u32, Receive> = receive();
    chain(
        received,
        Closure::new(move |i: u32| -> Stages {
            let sent: Coroutine<u32, u32, (), Never> = send(i);
            chain(
                sent,
                Closure::new(move |()| -> Stages {
                    if n == 1 {
                        result(())
                    } else {
                        stages(n - 1)
                    }
                }),
            )
        }),
    )
}

#[test]
fn chained_stages_run_in_order() {
    assert_eq!(drive(stages(3), vec![7, 8]), (vec![7, 8], None, 2));
    assert_eq!(drive(stages(3), vec![7, 8, 9, 10]), (vec![7, 8, 9], Some(()), 3));
}

#[test]
fn twenty_thousand_chained_stages_do_not_exhaust_the_stack() {
    const N: u32 = 20_000;
    let inputs: Vec<u32> = (1..=N).collect();
    let (outputs, value, used) = drive(stages(N), inputs.clone());
    assert_eq!(outputs, inputs);
    assert_eq!(value, Some(()));
    assert_eq!(used, N as usize);
}

/// Echoes the value of a round and goes round again, `self.0` times; then
/// completes with the value of the round.
struct Countdown(u32);

type Rounds = Coroutine<u32, u32, u32, Looping<Receive, Countdown, u32>>;

impl Function<u32, Rounds> for Countdown {
    fn image(&self, arg: u32) -> Rounds {
        if self.0 == 0 {
            Coroutine::Done(arg)
        } else {
            Coroutine::Yield(
                arg,
                Box::new(Coroutine::Await(
                    Looping(Receive, Countdown(self.0 - 1), PhantomData),
                    PhantomData,
                )),
            )
        }
    }
}

impl ApplyOnce<u32, Rounds> for Countdown {
    fn apply_once(self, arg: u32) -> Rounds {
        self.image(arg)
    }
}

#[test]
fn looping_goes_round_until_the_function_completes() {
    let rounds: Rounds = chain(receive::<u32, u32>(), Countdown(3));
    assert_eq!(drive(rounds, vec![1, 2, 3, 4, 5]), (vec![1, 2, 3], Some(4), 4));
}

#[test]
fn looping_with_no_rounds_left_completes_at_once() {
    let rounds: Rounds = chain(result::<u32, u32, u32, Receive>(9), Countdown(0));
    assert_eq!(drive(rounds, vec![1]), (vec![], Some(9), 0));
}
