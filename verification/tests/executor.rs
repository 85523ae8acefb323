use bicoro::executor::{run_until_output, IteratorExecutorResult};
use bicoro::{receive, result, send, Closure, Coroutine, Never, Receive};

#[test]
fn not_enough_input_data() {
    let test: Coroutine<i32, (), i32, Receive> = receive();
    let inputs = vec![];

    let exec = run_until_output(test, inputs.into_iter());

    assert!(matches!(exec, IteratorExecutorResult::Exhausted { .. }));
}

#[test]
fn instantly_completes() {
    let test: Coroutine<(), (), i32, Never> = result(1);
    let inputs = vec![];

    let exec = run_until_output(test, inputs.into_iter());

    assert!(matches!(
        exec,
        IteratorExecutorResult::Completed { result: 1, .. }
    ));
}

#[test]
fn send_writes_to_vec() {
    let test: Coroutine<(), i32, (), Never> = send(1);
    let inputs = vec![];

    let exec = run_until_output(test, inputs.into_iter());

    assert!(matches!(
        exec,
        IteratorExecutorResult::Output { output: 1, .. }
    ));
}

#[test]
fn send_writes_multiple_to_vec() {
    let test = send::<(), i32, Never>(1).and_then(Closure::new(|()| send::<(), i32, Never>(2)));
    let inputs = vec![];

    let exec = run_until_output(test, inputs.into_iter());

    assert!(matches!(
        exec,
        IteratorExecutorResult::Output { output: 1, .. }
    ));
}

#[test]
fn output_hands_back_the_rest() {
    let test = send::<(), i32, Never>(1).and_then(Closure::new(|()| send::<(), i32, Never>(2)));
    let exec = run_until_output(test, vec![(), ()].into_iter());
    match exec {
        IteratorExecutorResult::Output { output, co, remaining } => {
            assert_eq!(output, 1);
            assert_eq!(remaining.count(), 2);
            let exec = run_until_output(co, Vec::<()>::new().into_iter());
            assert!(matches!(
                exec,
                IteratorExecutorResult::Output { output: 2, .. }
            ));
        }
        _ => panic!("an output was ready"),
    }
}

#[test]
fn inputs_are_used_only_as_asked_for() {
    let test: Coroutine<i32, (), i32, Receive> = receive();
    let exec = run_until_output(test, vec![7, 8, 9].into_iter());
    match exec {
        IteratorExecutorResult::Completed { result, remaining } => {
            assert_eq!(result, 7);
            assert_eq!(remaining.collect::<Vec<i32>>(), vec![8, 9]);
        }
        _ => panic!("the coroutine completes with its first input"),
    }
}
