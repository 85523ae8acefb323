use bicoro::iterator::as_iterator;
use bicoro::{run_step, Continuation, Coroutine, Resume, StepResult};
use std::marker::PhantomData;

#[derive(Debug, PartialEq, Clone, Copy)]
enum Input {
    Coin,
    Push,
}

#[derive(Debug, PartialEq)]
enum Output {
    Unlocked,
    NoChange,
    Locked,
}

#[derive(Debug, PartialEq)]
enum State {
    Locked,
    Unlocked,
}

#[derive(Debug, PartialEq)]
enum Nothing {}

impl Continuation<Input, Output, Nothing> for State {
    fn next(self, input: Input) -> Coroutine<Input, Output, Nothing, State> {
        let (output, state) = match (self, input) {
            (State::Locked, Input::Coin) => (Output::Unlocked, State::Unlocked),
            (State::Locked, Input::Push) => (Output::NoChange, State::Locked),
            (State::Unlocked, Input::Coin) => (Output::NoChange, State::Unlocked),
            (State::Unlocked, Input::Push) => (Output::Locked, State::Locked),
        };
        Coroutine::Yield(output, Box::new(Coroutine::Await(state, PhantomData)))
    }
}

impl Resume<Input, Output, Nothing> for State {
    fn resume(self, input: Input) -> Coroutine<Input, Output, Nothing, State> {
        self.next(input)
    }
}

fn create() -> Coroutine<Input, Output, Nothing, State> {
    Coroutine::Await(State::Locked, PhantomData)
}

#[test]
fn turnstile_scenario() {
    let inputs = vec![Input::Coin, Input::Push, Input::Push, Input::Coin, Input::Coin];
    let mut it = as_iterator(create(), inputs.into_iter());
    let mut outputs = Vec::new();
    while let Some(output) = it.next() {
        outputs.push(output);
    }
    assert_eq!(
        outputs,
        vec![
            Output::Unlocked,
            Output::Locked,
            Output::NoChange,
            Output::Unlocked,
            Output::NoChange,
        ]
    );
    let (end, rest) = it.finish();
    assert!(rest.is_none());
    match end {
        Ok(_) => panic!("a turnstile never completes"),
        Err(co) => match run_step(co) {
            StepResult::Next(state) => assert_eq!(state, State::Unlocked),
            _ => panic!("the turnstile waits for the next input"),
        },
    }
}

#[test]
fn iterator_stops_at_completion_and_keeps_the_rest() {
    let co = bicoro::bind(
        bicoro::receive::<i32, i32>(),
        bicoro::Closure::new(|a: i32| bicoro::send::<i32, i32, bicoro::Never>(a * 10)),
    );
    let mut it = as_iterator(co, vec![4, 5, 6].into_iter());
    assert_eq!(it.next(), Some(40));
    assert_eq!(it.next(), None);
    assert_eq!(it.next(), None);
    let (end, rest) = it.finish();
    assert!(matches!(end, Ok(())));
    assert_eq!(rest.unwrap().collect::<Vec<i32>>(), vec![5, 6]);
}

#[test]
fn iterator_exhausted_hands_the_coroutine_back() {
    let mut it = as_iterator(bicoro::receive::<i32, i32>(), Vec::new().into_iter());
    assert_eq!(it.next(), None);
    assert_eq!(it.next(), None);
    let (end, rest) = it.finish();
    assert!(rest.is_none());
    match end {
        Err(co) => assert!(matches!(run_step(co), StepResult::Next(_))),
        Ok(_) => panic!("nothing was received"),
    }
}
