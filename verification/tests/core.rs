use bicoro::{
    bind, inject, left, observe, receive, result, right, run_step, send, suspend, tuple, void,
    Closure, Coroutine, Never, Resume, StepResult,
};

fn drive<I, O, R, K: Resume<I, O, R>>(
    co: Coroutine<I, O, R, K>,
    inputs: Vec<I>,
) -> (Vec<O>, Option<R>, usize) {
    let mut co = co;
    let mut outputs = Vec::new();
    let mut used = 0;
    let mut inputs = inputs.into_iter();
    loop {
        match run_step(co) {
            StepResult::Done(r) => return (outputs, Some(r), used),
            StepResult::Yield { output, next } => {
                outputs.push(output);
                co = *next;
            }
            StepResult::Next(k) => match inputs.next() {
                Some(input) => {
                    used += 1;
                    co = k.resume(input);
                }
                None => return (outputs, None, used),
            },
        }
    }
}

fn echo_twice(a: i32) -> Coroutine<i32, i32, i32, impl Resume<i32, i32, i32>> {
    bind(
        send::<i32, i32, Never>(a),
        Closure::new(|()| {
            bind(
                receive::<i32, i32>(),
                Closure::new(|b: i32| result::<i32, i32, i32, Never>(b * 2)),
            )
        }),
    )
}

#[test]
fn result_is_completed() {
    let co: Coroutine<(), (), i32, Never> = result(1);
    assert!(matches!(run_step(co), StepResult::Done(1)));
}

#[test]
fn receive_awaits_then_yields_the_input() {
    let co: Coroutine<i32, (), i32, _> = receive();
    match run_step(co) {
        StepResult::Next(k) => {
            let next: Coroutine<i32, (), i32, _> = k.resume(5);
            assert!(matches!(run_step(next), StepResult::Done(5)));
        }
        _ => panic!("receive is suspended"),
    }
}

#[test]
fn send_is_one_output_then_done() {
    let co: Coroutine<(), &str, (), Never> = send("hello");
    match run_step(co) {
        StepResult::Yield { output, next } => {
            assert_eq!(output, "hello");
            assert!(matches!(run_step(*next), StepResult::Done(())));
        }
        _ => panic!("send has an output ready"),
    }
}

#[test]
fn suspend_calls_the_function_on_the_input() {
    let co = suspend(Closure::new(|input: i32| {
        result::<i32, (), String, Never>(input.to_string())
    }));
    let (outputs, value, used) = drive(co, vec![42, 43]);
    assert!(outputs.is_empty());
    assert_eq!(value, Some("42".to_string()));
    assert_eq!(used, 1);
}

#[test]
fn bind_adds_two_inputs() {
    let co = bind(
        receive::<i32, ()>(),
        Closure::new(|a: i32| {
            bind(
                receive::<i32, ()>(),
                Closure::new(move |b: i32| result::<i32, (), i32, Never>(a + b)),
            )
        }),
    );
    let (outputs, value, used) = drive(co, vec![3, 4, 5]);
    assert!(outputs.is_empty());
    assert_eq!(value, Some(7));
    assert_eq!(used, 2);
}

#[test]
fn bind_keeps_outputs_in_order() {
    let co = bind(
        send::<(), i32, Never>(1),
        Closure::new(|()| bind(send::<(), i32, Never>(2), Closure::new(|()| send::<(), i32, Never>(3)))),
    );
    let (outputs, value, _) = drive(co, vec![]);
    assert_eq!(outputs, vec![1, 2, 3]);
    assert_eq!(value, Some(()));
}

#[test]
fn left_identity_on_values() {
    for a in [0, 1, -5] {
        let lhs = bind(result::<i32, i32, i32, Never>(a), Closure::new(echo_twice));
        let rhs = echo_twice(a);
        let inputs = vec![10, 20];
        assert_eq!(drive(lhs, inputs.clone()), drive(rhs, inputs));
    }
}

#[test]
fn right_identity_on_values() {
    let lhs = bind(echo_twice(3), Closure::new(|x: i32| result::<i32, i32, i32, Never>(x)));
    let rhs = echo_twice(3);
    assert_eq!(drive(lhs, vec![8]), (vec![3], Some(16), 1));
    assert_eq!(drive(rhs, vec![8]), (vec![3], Some(16), 1));
}

#[test]
fn associativity_on_values() {
    fn g(x: i32) -> Coroutine<i32, i32, i32, impl Resume<i32, i32, i32>> {
        bind(
            send::<i32, i32, Never>(x + 1),
            Closure::new(|()| result::<i32, i32, i32, Never>(-1)),
        )
    }
    for inputs in [vec![], vec![5], vec![5, 6]] {
        let lhs = bind(bind(echo_twice(1), Closure::new(echo_twice)), Closure::new(g));
        let rhs = bind(
            echo_twice(1),
            Closure::new(|x: i32| bind(echo_twice(x), Closure::new(g))),
        );
        assert_eq!(drive(lhs, inputs.clone()), drive(rhs, inputs));
    }
    let lhs = bind(bind(echo_twice(1), Closure::new(echo_twice)), Closure::new(g));
    assert_eq!(drive(lhs, vec![5, 6]), (vec![1, 10, 13], Some(-1), 2));
}

#[test]
fn map_changes_the_value_only() {
    let co = bicoro::functions::map(receive::<i32, ()>(), Closure::new(|a: i32| a.to_string()));
    assert_eq!(drive(co, vec![12]), (vec![], Some("12".to_string()), 1));
}

#[test]
fn tuple_left_right_void() {
    let both = tuple(echo_twice(1), echo_twice(2));
    assert_eq!(drive(both, vec![10, 20]), (vec![1, 2], Some((20, 40)), 2));
    let first = left(echo_twice(1), echo_twice(2));
    assert_eq!(drive(first, vec![10, 20]), (vec![1, 2], Some(20), 2));
    let second = right(echo_twice(1), echo_twice(2));
    assert_eq!(drive(second, vec![10, 20]), (vec![1, 2], Some(40), 2));
    let none = void(echo_twice(1));
    assert_eq!(drive(none, vec![10]), (vec![1], Some(()), 1));
}

#[test]
fn inject_delivers_after_pending_outputs() {
    let co = inject(10, echo_twice(1));
    assert_eq!(drive(co, vec![]), (vec![1], Some(20), 0));
}

#[test]
fn inject_into_completed_drops_the_input() {
    let co = inject(10, result::<i32, i32, i32, Never>(5));
    assert_eq!(drive(co, vec![]), (vec![], Some(5), 0));
}

#[test]
fn inject_into_awaiting_resumes() {
    let co = inject(10, receive::<i32, ()>());
    assert_eq!(drive(co, vec![]), (vec![], Some(10), 0));
}

#[test]
fn observe_captures_the_next_output() {
    let (outputs, value, _) = drive(observe(echo_twice(1)), vec![]);
    assert!(outputs.is_empty());
    let (seen, rest) = value.unwrap();
    assert_eq!(seen, Some(1));
    assert_eq!(drive(rest, vec![4]), (vec![], Some(8), 1));
}

#[test]
fn observe_of_completed_sees_nothing() {
    let (_, value, _) = drive(observe(result::<(), i32, i32, Never>(9)), vec![]);
    let (seen, rest) = value.unwrap();
    assert_eq!(seen, None);
    assert!(matches!(run_step(rest), StepResult::Done(9)));
}

#[test]
fn observe_waits_for_input_first() {
    let co = observe(bind(
        receive::<i32, i32>(),
        Closure::new(|a: i32| send::<i32, i32, Never>(a + 1)),
    ));
    let (outputs, value, used) = drive(co, vec![1]);
    assert!(outputs.is_empty());
    assert_eq!(used, 1);
    assert_eq!(value.unwrap().0, Some(2));
}

fn stage() -> Coroutine<u32, u32, (), impl Resume<u32, u32, ()>> {
    bind(
        receive::<u32, u32>(),
        Closure::new(|i: u32| send::<u32, u32, Never>(i)),
    )
}

/// What `make` makes, bound to what it makes a second time.
fn twice<K, F>(make: F) -> Coroutine<u32, u32, (), impl Resume<u32, u32, ()>>
where
    F: Fn() -> Coroutine<u32, u32, (), K> + Copy,
    K: Resume<u32, u32, ()>,
{
    bind(make(), Closure::new(move |()| make()))
}

fn stages_2() -> Coroutine<u32, u32, (), impl Resume<u32, u32, ()>> {
    twice(stage)
}

fn stages_4() -> Coroutine<u32, u32, (), impl Resume<u32, u32, ()>> {
    twice(stages_2)
}

fn stages_8() -> Coroutine<u32, u32, (), impl Resume<u32, u32, ()>> {
    twice(stages_4)
}

fn stages_16() -> Coroutine<u32, u32, (), impl Resume<u32, u32, ()>> {
    twice(stages_8)
}

fn stages_32() -> Coroutine<u32, u32, (), impl Resume<u32, u32, ()>> {
    twice(stages_16)
}

fn stages_64() -> Coroutine<u32, u32, (), impl Resume<u32, u32, ()>> {
    twice(stages_32)
}

fn stages_128() -> Coroutine<u32, u32, (), impl Resume<u32, u32, ()>> {
    twice(stages_64)
}

fn stages_256() -> Coroutine<u32, u32, (), impl Resume<u32, u32, ()>> {
    twice(stages_128)
}

#[test]
fn a_chain_of_binds_runs_its_stages_in_order() {
    assert_eq!(drive(stages_4(), vec![7, 8, 9]), (vec![7, 8, 9], None, 3));
    assert_eq!(drive(stages_4(), vec![7, 8, 9, 10, 11]), (vec![7, 8, 9, 10], Some(()), 4));
}

#[test]
fn a_chain_of_256_bound_stages_runs_to_completion() {
    let inputs: Vec<u32> = (1..=256).collect();
    let (outputs, value, used) = drive(stages_256(), inputs.clone());
    assert_eq!(outputs, inputs);
    assert_eq!(value, Some(()));
    assert_eq!(used, 256);
}
