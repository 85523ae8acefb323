use bicoro::{
    bind, cooperate, receive, result, routed, run_step, send, Closure, CooperateResult,
    Coroutine, Never, Resume, RoutedResult, StepResult, UnicastSelect,
};

fn drive<I, O, R, K: Resume<I, O, R>>(
    co: Coroutine<I, O, R, K>,
    inputs: Vec<I>,
) -> (Vec<O>, Option<R>, usize) {
    let mut co = co;
    let mut outputs = Vec::new();
    let mut used = 0;
    let mut inputs = inputs.into_iter();
    loop {
        match run_step(co) {
            StepResult::Done(r) => return (outputs, Some(r), used),
            StepResult::Yield { output, next } => {
                outputs.push(output);
                co = *next;
            }
            StepResult::Next(k) => match inputs.next() {
                Some(input) => {
                    used += 1;
                    co = k.resume(input);
                }
                None => return (outputs, None, used),
            },
        }
    }
}

fn to_second(o: i32) -> UnicastSelect<i32, String> {
    UnicastSelect::Left(o)
}

fn to_outside(o: i32) -> UnicastSelect<i32, String> {
    UnicastSelect::Right(format!("out {}", o))
}

fn for_first(i: i32) -> UnicastSelect<i32, i32> {
    UnicastSelect::Left(i)
}

#[test]
fn cooperate_handshake_shows_one_output() {
    let first = bind(
        send::<i32, i32, Never>(5),
        Closure::new(|()| receive::<i32, i32>()),
    );
    let second = bind(
        receive::<i32, i32>(),
        Closure::new(|x: i32| send::<i32, i32, Never>(x * 2)),
    );
    let both = cooperate(
        Closure::reusable(for_first),
        Closure::reusable(to_second),
        Closure::reusable(to_outside),
        first,
        second,
    );
    let (outputs, value, used) = drive(both, vec![]);
    assert_eq!(outputs, vec!["out 10".to_string()]);
    assert_eq!(used, 0);
    match value {
        Some(CooperateResult::Right { value: (), remaining }) => {
            assert_eq!(drive(remaining, vec![3]), (vec![], Some(3), 1));
        }
        _ => panic!("the second side completes after its output"),
    }
}

#[test]
fn cooperate_drains_the_output_of_the_loser() {
    let first: Coroutine<i32, i32, i32, Never> = result(1);
    let second: Coroutine<i32, i32, (), Never> = send(9);
    let both = cooperate(
        Closure::reusable(for_first),
        Closure::reusable(to_second),
        Closure::reusable(to_outside),
        first,
        second,
    );
    match run_step(both) {
        StepResult::Yield { output, next } => {
            assert_eq!(output, "out 9");
            match run_step(*next) {
                StepResult::Done(CooperateResult::Left { value, remaining }) => {
                    assert_eq!(value, 1);
                    assert!(matches!(run_step(remaining), StepResult::Done(())));
                }
                _ => panic!("the first side wins once the output is forwarded"),
            }
        }
        _ => panic!("the output that is ready comes before the outcome"),
    }
}

#[test]
fn cooperate_drains_one_output_only() {
    let first: Coroutine<i32, i32, &str, Never> = result("done");
    let second = bind(
        send::<i32, i32, Never>(1),
        Closure::new(|()| {
            bind(
                send::<i32, i32, Never>(2),
                Closure::new(|()| result::<i32, i32, i32, Never>(3)),
            )
        }),
    );
    let both = cooperate(
        Closure::reusable(for_first),
        Closure::reusable(to_second),
        Closure::reusable(to_outside),
        first,
        second,
    );
    let (outputs, value, _) = drive(both, vec![]);
    assert_eq!(outputs, vec!["out 1".to_string()]);
    match value {
        Some(CooperateResult::Left { value, remaining }) => {
            assert_eq!(value, "done");
            assert_eq!(drive(remaining, vec![]), (vec![2], Some(3), 0));
        }
        _ => panic!("the first side has completed"),
    }
}

#[test]
fn cooperate_drops_a_message_for_the_winner() {
    let first = bind(
        send::<i32, i32, Never>(4),
        Closure::new(|()| result::<i32, i32, &str, Never>("left over")),
    );
    let second: Coroutine<i32, i32, i32, Never> = result(8);
    let both = cooperate(
        Closure::reusable(for_first),
        Closure::reusable(to_second),
        Closure::reusable(to_outside),
        first,
        second,
    );
    let (outputs, value, _) = drive(both, vec![]);
    assert!(outputs.is_empty());
    match value {
        Some(CooperateResult::Right { value, remaining }) => {
            assert_eq!(value, 8);
            assert_eq!(drive(remaining, vec![]), (vec![], Some("left over"), 0));
        }
        _ => panic!("the second side has completed"),
    }
}

#[test]
fn cooperate_routes_external_inputs() {
    let first = bind(
        receive::<i32, i32>(),
        Closure::new(|x: i32| send::<i32, i32, Never>(x + 1)),
    );
    let second = bind(
        receive::<i32, i32>(),
        Closure::new(|x: i32| {
            bind(
                send::<i32, i32, Never>(x * 2),
                Closure::new(|()| receive::<i32, i32>()),
            )
        }),
    );
    let both = cooperate(
        Closure::reusable(for_first),
        Closure::reusable(to_second),
        Closure::reusable(to_outside),
        first,
        second,
    );
    let (outputs, value, used) = drive(both, vec![20]);
    assert_eq!(outputs, vec!["out 42".to_string()]);
    assert_eq!(used, 1);
    match value {
        Some(CooperateResult::Left { value: (), remaining }) => {
            assert_eq!(drive(remaining, vec![1]), (vec![], Some(1), 1));
        }
        _ => panic!("the first side completes once its message is delivered"),
    }
}

#[test]
fn routed_handshake_shows_one_output() {
    let first = bind(
        send::<i32, UnicastSelect<i32, String>, Never>(UnicastSelect::Left(5)),
        Closure::new(|()| receive::<i32, UnicastSelect<i32, String>>()),
    );
    let second = bind(
        receive::<i32, UnicastSelect<i32, String>>(),
        Closure::new(|x: i32| {
            send::<i32, UnicastSelect<i32, String>, Never>(UnicastSelect::Right(format!(
                "got {}",
                x
            )))
        }),
    );
    let both = routed(first, second);
    let (outputs, value, used) = drive(both, vec![]);
    assert_eq!(outputs, vec!["got 5".to_string()]);
    assert_eq!(used, 0);
    match value {
        Some(RoutedResult::Right { value: (), remain }) => {
            assert!(matches!(run_step(remain), StepResult::Next(_)));
        }
        _ => panic!("the second side completes after its output"),
    }
}

#[test]
fn routed_goes_on_after_forwarding_for_a_suspended_first() {
    let first = receive::<i32, UnicastSelect<i32, i32>>();
    let second: Coroutine<i32, UnicastSelect<i32, i32>, (), Never> = send(UnicastSelect::Right(7));
    match run_step(routed(first, second)) {
        StepResult::Yield { output, next } => {
            assert_eq!(output, 7);
            match run_step(*next) {
                StepResult::Done(RoutedResult::Right { value: (), remain }) => {
                    assert!(matches!(run_step(remain), StepResult::Next(_)));
                }
                _ => panic!("after the output the routing goes on and asks for no input"),
            }
        }
        _ => panic!("the output that is ready is forwarded first"),
    }
}

#[test]
fn routed_forwards_every_output_of_the_second_before_it_waits() {
    let first = receive::<i32, UnicastSelect<i32, String>>();
    let second = bind(
        send::<i32, UnicastSelect<i32, String>, Never>(UnicastSelect::Right("x".to_string())),
        Closure::new(|()| {
            bind(
                send::<i32, UnicastSelect<i32, String>, Never>(UnicastSelect::Right(
                    "y".to_string(),
                )),
                Closure::new(|()| receive::<i32, UnicastSelect<i32, String>>()),
            )
        }),
    );
    let (outputs, value, used) = drive(routed(first, second), vec![]);
    assert_eq!(outputs, vec!["x".to_string(), "y".to_string()]);
    assert!(value.is_none());
    assert_eq!(used, 0);
}

#[test]
fn routed_delivers_tagged_inputs() {
    let first = bind(
        receive::<i32, UnicastSelect<i32, String>>(),
        Closure::new(|x: i32| {
            send::<i32, UnicastSelect<i32, String>, Never>(UnicastSelect::Left(x + 1))
        }),
    );
    let second = bind(
        receive::<i32, UnicastSelect<i32, String>>(),
        Closure::new(|x: i32| {
            bind(
                send::<i32, UnicastSelect<i32, String>, Never>(UnicastSelect::Right(
                    x.to_string(),
                )),
                Closure::new(|()| receive::<i32, UnicastSelect<i32, String>>()),
            )
        }),
    );
    let both = routed(first, second);
    let (outputs, value, used) = drive(both, vec![UnicastSelect::Left(1)]);
    assert_eq!(outputs, vec!["2".to_string()]);
    assert_eq!(used, 1);
    assert!(matches!(value, Some(RoutedResult::Left { value: (), .. })));
}

#[test]
fn routed_forwards_one_output_of_the_loser() {
    let first: Coroutine<i32, UnicastSelect<i32, String>, i32, Never> = result(1);
    let second = bind(
        send::<i32, UnicastSelect<i32, String>, Never>(UnicastSelect::Right("a".to_string())),
        Closure::new(|()| {
            send::<i32, UnicastSelect<i32, String>, Never>(UnicastSelect::Right("b".to_string()))
        }),
    );
    let (outputs, value, _) = drive(routed(first, second), vec![]);
    assert_eq!(outputs, vec!["a".to_string()]);
    match value {
        Some(RoutedResult::Left { value, remain }) => {
            assert_eq!(value, 1);
            match run_step(remain) {
                StepResult::Yield { output, .. } => {
                    assert!(matches!(output, UnicastSelect::Right(s) if s == "b"))
                }
                _ => panic!("the second output stays with the second side"),
            }
        }
        _ => panic!("the first side has completed"),
    }
}
