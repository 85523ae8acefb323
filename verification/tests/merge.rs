use bicoro::{
    bind, broadcast, broadcast_until_finished, dispatch, dispatch_with, receive, result,
    run_step, send, unicast, unicast_until_finished, Closure, Coroutine, DispatchResult, Never,
    Resume, Select, StepResult, UnicastSelect,
};

fn drive<I, O, R, K: Resume<I, O, R>>(
    co: Coroutine<I, O, R, K>,
    inputs: Vec<I>,
) -> (Vec<O>, Option<R>, usize) {
    let mut co = co;
    let mut outputs = Vec::new();
    let mut used = 0;
    let mut inputs = inputs.into_iter();
    loop {
        match run_step(co) {
            StepResult::Done(r) => return (outputs, Some(r), used),
            StepResult::Yield { output, next } => {
                outputs.push(output);
                co = *next;
            }
            StepResult::Next(k) => match inputs.next() {
                Some(input) => {
                    used += 1;
                    co = k.resume(input);
                }
                None => return (outputs, None, used),
            },
        }
    }
}

fn tag<A, B>(o: UnicastSelect<A, B>) -> (char, Option<A>, Option<B>) {
    match o {
        UnicastSelect::Left(a) => ('L', Some(a), None),
        UnicastSelect::Right(b) => ('R', None, Some(b)),
    }
}

/// Receives `n` inputs, echoes each plus `offset`, completes with their sum.
fn summing(n: u32, offset: i32) -> Coroutine<i32, i32, i32, impl Resume<i32, i32, i32>> {
    struct Summing {
        left: u32,
        offset: i32,
        sum: i32,
    }
    impl bicoro::Continuation<i32, i32, i32> for Summing {
        fn next(self, input: i32) -> Coroutine<i32, i32, i32, Self> {
            let sum = self.sum + input;
            let rest = if self.left == 1 {
                Coroutine::Done(sum)
            } else {
                Coroutine::Await(
                    Summing { left: self.left - 1, offset: self.offset, sum },
                    std::marker::PhantomData,
                )
            };
            Coroutine::Yield(input + self.offset, Box::new(rest))
        }
    }
    impl Resume<i32, i32, i32> for Summing {
        fn resume(self, input: i32) -> Coroutine<i32, i32, i32, Self> {
            bicoro::Continuation::next(self, input)
        }
    }
    if n == 0 {
        Coroutine::Done(0)
    } else {
        Coroutine::Await(Summing { left: n, offset, sum: 0 }, std::marker::PhantomData)
    }
}

#[test]
fn race_tie_break_favours_the_left() {
    for _ in 0..3 {
        let first: Coroutine<i32, i32, &str, Never> = result("left");
        let second: Coroutine<i32, i32, &str, Never> = result("right");
        let race = dispatch::<i32, i32, i32, _, _, _, _, _, _>(first, second);
        match run_step(race) {
            StepResult::Done(DispatchResult::Left { value, remaining }) => {
                assert_eq!(value, "left");
                assert!(matches!(run_step(remaining), StepResult::Done("right")));
            }
            _ => panic!("the first operand wins a tie"),
        }
    }
}

#[test]
fn eager_drain_before_any_input() {
    let first: Coroutine<i32, i32, (), Never> = send(1);
    let second = receive::<i32, i32>();
    let race = dispatch::<i32, i32, i32, _, _, _, _, _, _>(first, second);
    match run_step(race) {
        StepResult::Yield { output, next } => {
            assert!(matches!(output, UnicastSelect::Left(1)));
            match run_step(*next) {
                StepResult::Done(DispatchResult::Left { value: (), remaining }) => {
                    assert!(matches!(run_step(remaining), StepResult::Next(_)));
                }
                _ => panic!("the first side has completed"),
            }
        }
        _ => panic!("the output is reported before any input is asked for"),
    }
}

#[test]
fn loser_output_is_drained_before_the_outcome() {
    let first: Coroutine<i32, i32, i32, Never> = result(7);
    let second = bind(
        send::<i32, i32, Never>(5),
        Closure::new(|()| receive::<i32, i32>()),
    );
    let race = dispatch::<i32, i32, i32, _, _, _, _, _, _>(first, second);
    let (outputs, value, used) = drive(race, vec![]);
    assert_eq!(used, 0);
    assert_eq!(outputs.into_iter().map(tag).collect::<Vec<_>>(), vec![('R', None, Some(5))]);
    match value {
        Some(DispatchResult::Left { value, remaining }) => {
            assert_eq!(value, 7);
            assert_eq!(drive(remaining, vec![9]), (vec![], Some(9), 1));
        }
        _ => panic!("the first side wins"),
    }
}

#[test]
fn outputs_of_one_round_go_left_then_right() {
    let race = dispatch::<i32, i32, i32, _, _, _, _, _, _>(summing(2, 100), summing(2, 200));
    let (outputs, value, used) = drive(race, vec![Select::Both(1), Select::Both(2)]);
    assert_eq!(used, 2);
    assert_eq!(
        outputs.into_iter().map(tag).collect::<Vec<_>>(),
        vec![
            ('L', Some(101), None),
            ('R', None, Some(201)),
            ('L', Some(102), None),
            ('R', None, Some(202)),
        ]
    );
    match value {
        Some(DispatchResult::Left { value, remaining }) => {
            assert_eq!(value, 3);
            assert!(matches!(run_step(remaining), StepResult::Done(3)));
        }
        _ => panic!("both complete in the same round: the first wins"),
    }
}

#[test]
fn dispatch_routes_left_right_and_both() {
    let race = dispatch::<i32, i32, i32, _, _, _, _, _, _>(summing(3, 100), summing(2, 200));
    let (outputs, value, used) = drive(
        race,
        vec![Select::Left(1), Select::Right(2), Select::Both(3), Select::Left(4)],
    );
    assert_eq!(used, 3);
    assert_eq!(
        outputs.into_iter().map(tag).collect::<Vec<_>>(),
        vec![
            ('L', Some(101), None),
            ('R', None, Some(202)),
            ('L', Some(103), None),
            ('R', None, Some(203)),
        ]
    );
    match value {
        Some(DispatchResult::Right { value, remaining }) => {
            assert_eq!(value, 5);
            assert_eq!(drive(remaining, vec![10]), (vec![110], Some(14), 1));
        }
        _ => panic!("the second side completes first"),
    }
}

#[test]
fn unicast_left_inputs_leave_the_right_side_alone() {
    let race = unicast(summing(3, 100), summing(2, 200));
    let (outputs, value, used) = drive(
        race,
        vec![UnicastSelect::Left(1), UnicastSelect::Left(2), UnicastSelect::Left(3)],
    );
    assert_eq!(used, 3);
    assert_eq!(
        outputs.into_iter().map(tag).collect::<Vec<_>>(),
        vec![('L', Some(101), None), ('L', Some(102), None), ('L', Some(103), None)]
    );
    match value {
        Some(DispatchResult::Left { value, remaining }) => {
            assert_eq!(value, 6);
            let alone = drive(summing(2, 200), vec![5, 6]);
            assert_eq!(drive(remaining, vec![5, 6]), alone);
            assert_eq!(alone, (vec![205, 206], Some(11), 2));
        }
        _ => panic!("only the first side advanced"),
    }
}

#[test]
fn broadcast_feeds_both_sides() {
    let race = broadcast(summing(2, 100), summing(3, 200));
    let (outputs, value, used) = drive(race, vec![1, 2, 3]);
    assert_eq!(used, 2);
    assert_eq!(
        outputs.into_iter().map(tag).collect::<Vec<_>>(),
        vec![
            ('L', Some(101), None),
            ('R', None, Some(201)),
            ('L', Some(102), None),
            ('R', None, Some(202)),
        ]
    );
    match value {
        Some(DispatchResult::Left { value, remaining }) => {
            assert_eq!(value, 3);
            assert_eq!(drive(remaining, vec![3]), (vec![203], Some(6), 1));
        }
        _ => panic!("the first side completes first"),
    }
}

#[test]
fn broadcast_until_finished_pairs_both_values() {
    let both = broadcast_until_finished(summing(1, 100), summing(3, 200));
    let (outputs, value, used) = drive(both, vec![1, 2, 3, 4]);
    assert_eq!(outputs, vec![101, 201, 202, 203]);
    assert_eq!(value, Some((1, 6)));
    assert_eq!(used, 3);
}

#[test]
fn broadcast_until_finished_when_the_right_wins() {
    let both = broadcast_until_finished(summing(2, 100), summing(1, 200));
    assert_eq!(drive(both, vec![1, 2]), (vec![101, 201, 102], Some((3, 1)), 2));
}

#[test]
fn unicast_until_finished_drops_inputs_for_the_winner() {
    let both = unicast_until_finished(summing(1, 100), summing(2, 200));
    let (outputs, value, used) = drive(
        both,
        vec![
            UnicastSelect::Left(1),
            UnicastSelect::Left(50),
            UnicastSelect::Right(2),
            UnicastSelect::Left(60),
            UnicastSelect::Right(3),
            UnicastSelect::Right(70),
        ],
    );
    assert_eq!(outputs, vec![101, 202, 203]);
    assert_eq!(value, Some((1, 5)));
    assert_eq!(used, 5);
}

#[test]
fn unicast_until_finished_stalls_without_admissible_input() {
    let both = unicast_until_finished(summing(1, 100), summing(1, 200));
    let (outputs, value, used) = drive(
        both,
        vec![UnicastSelect::Right(2), UnicastSelect::Right(3), UnicastSelect::Right(4)],
    );
    assert_eq!(outputs, vec![202]);
    assert_eq!(value, None);
    assert_eq!(used, 3);
}

#[test]
fn an_input_that_is_cloned_goes_to_both_sides() {
    let first = bind(
        receive::<String, usize>(),
        Closure::new(|s: String| send::<String, usize, Never>(s.len())),
    );
    let second = bind(
        receive::<String, String>(),
        Closure::new(|s: String| send::<String, String, Never>(s + "!")),
    );
    let race = dispatch_with(
        Closure::reusable(|s: String| Select::Both((s.clone(), s))),
        first,
        second,
    );
    let (outputs, value, used) = drive(race, vec!["both".to_string()]);
    assert_eq!(used, 1);
    let shown: Vec<String> = outputs
        .into_iter()
        .map(|o| match o {
            UnicastSelect::Left(n) => format!("left {}", n),
            UnicastSelect::Right(s) => format!("right {}", s),
        })
        .collect();
    assert_eq!(shown, vec!["left 4", "right both!"]);
    assert!(matches!(value, Some(DispatchResult::Left { value: (), .. })));
}
