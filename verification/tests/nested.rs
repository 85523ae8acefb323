use bicoro::failable;
use bicoro::option::{bind_some, map_some};
use bicoro::result::{bind_err, bind_ok, map_err, subroutine_result};
use bicoro::{
    bind, intercept_input, intercept_output, map_input, map_output, receive, receive_or_skip,
    recieve_until, result, run_step, send, subroutine, Closure, Coroutine, Never, Resume,
    StepResult, UnicastSelect,
};

fn drive<I, O, R, K: Resume<I, O, R>>(
    co: Coroutine<I, O, R, K>,
    inputs: Vec<I>,
) -> (Vec<O>, Option<R>, usize) {
    let mut co = co;
    let mut outputs = Vec::new();
    let mut used = 0;
    let mut inputs = inputs.into_iter();
    loop {
        match run_step(co) {
            StepResult::Done(r) => return (outputs, Some(r), used),
            StepResult::Yield { output, next } => {
                outputs.push(output);
                co = *next;
            }
            StepResult::Next(k) => match inputs.next() {
                Some(input) => {
                    used += 1;
                    co = k.resume(input);
                }
                None => return (outputs, None, used),
            },
        }
    }
}

/// Reads a value, echoes it, completes with 0.
fn child() -> Coroutine<i64, i64, u8, impl Resume<i64, i64, u8>> {
    bind(
        receive::<i64, i64>(),
        Closure::new(|a: i64| {
            bind(
                send::<i64, i64, Never>(a),
                Closure::new(|()| result::<i64, i64, u8, Never>(0)),
            )
        }),
    )
}

#[test]
fn subroutine_converts_both_alphabets() {
    let on_input = Closure::reusable(|()| {
        bind(
            receive::<i32, String>(),
            Closure::new(|a: i32| {
                bicoro::functions::map(
                    receive::<i32, String>(),
                    Closure::new(move |b: i32| a as i64 + b as i64),
                )
            }),
        )
    });
    let on_output = Closure::reusable(|o: i64| send::<i32, String, Never>(o.to_string()));
    let parent = subroutine(on_input, on_output, child());
    assert_eq!(drive(parent, vec![3, 4, 5]), (vec!["7".to_string()], Some(0), 2));
}

#[test]
fn intercept_input_transforms_each_input() {
    let co = intercept_input(
        child(),
        Closure::reusable(|a: i32| result::<i32, i64, i64, Never>(a as i64 * 100)),
    );
    assert_eq!(drive(co, vec![2, 3]), (vec![200], Some(0), 1));
}

#[test]
fn map_input_and_map_output() {
    let co = map_input(child(), Closure::reusable(|a: &str| a.len() as i64));
    assert_eq!(drive(co, vec!["four"]), (vec![4], Some(0), 1));
    let co = map_output(child(), Closure::reusable(|o: i64| format!("<{}>", o)));
    assert_eq!(drive(co, vec![8]), (vec!["<8>".to_string()], Some(0), 1));
}

#[test]
fn intercept_output_may_emit_several() {
    let co = intercept_output(
        child(),
        Closure::reusable(|o: i64| {
            bind(
                send::<i64, i64, Never>(o),
                Closure::new(move |()| send::<i64, i64, Never>(-o)),
            )
        }),
    );
    assert_eq!(drive(co, vec![8]), (vec![8, -8], Some(0), 1));
}

#[test]
fn recieve_until_drops_until_some() {
    let co = recieve_until(Closure::reusable(|i: i32| {
        result::<i32, (), Option<i32>, Never>(if i > 10 { Some(i * 2) } else { None })
    }));
    assert_eq!(drive(co, vec![1, 5, 11, 12]), (vec![], Some(22), 3));
}

#[test]
fn twenty_thousand_rounds_of_recieve_until_do_not_grow_the_stack() {
    const N: u32 = 20_000;
    let co = recieve_until(Closure::reusable(|i: u32| {
        bind(
            send::<u32, u32, Never>(i),
            Closure::new(move |()| {
                result::<u32, u32, Option<u32>, Never>(if i == N { Some(i) } else { None })
            }),
        )
    }));
    let inputs: Vec<u32> = (1..=N).collect();
    let (outputs, value, used) = drive(co, inputs.clone());
    assert_eq!(outputs, inputs);
    assert_eq!(value, Some(N));
    assert_eq!(used, N as usize);
}

#[test]
fn receive_or_skip_reemits_what_it_skips() {
    let co = receive_or_skip(
        child(),
        Closure::reusable(|i: i32| {
            if i % 2 == 0 {
                UnicastSelect::Left(i as i64)
            } else {
                UnicastSelect::Right(i.to_string())
            }
        }),
    );
    let (outputs, value, used) = drive(co, vec![1, 3, 4, 6]);
    let shown: Vec<String> = outputs
        .into_iter()
        .map(|o| match o {
            UnicastSelect::Left(s) => format!("skipped {}", s),
            UnicastSelect::Right(o) => format!("output {}", o),
        })
        .collect();
    assert_eq!(shown, vec!["skipped 1", "skipped 3", "output 4"]);
    assert_eq!(value, Some(0));
    assert_eq!(used, 3);
}

#[test]
fn bind_some_and_map_some_short_circuit() {
    let some = bind_some(
        result::<(), (), Option<i32>, Never>(Some(2)),
        Closure::new(|a: i32| result::<(), (), Option<i32>, Never>(Some(a + 1))),
    );
    assert_eq!(drive(some, vec![]).1, Some(Some(3)));
    let none = bind_some(
        result::<(), i32, Option<i32>, Never>(None),
        Closure::new(|a: i32| {
            bicoro::functions::map(send::<(), i32, Never>(a), Closure::new(|()| Some(0)))
        }),
    );
    assert_eq!(drive(none, vec![]), (vec![], Some(None), 0));
    let mapped = map_some(
        result::<(), (), Option<i32>, Never>(Some(2)),
        Closure::new(|a: i32| a * 10),
    );
    assert_eq!(drive(mapped, vec![]).1, Some(Some(20)));
}

#[test]
fn bind_ok_bind_err_map_err() {
    let ok = bind_ok(
        result::<(), (), Result<i32, String>, Never>(Ok(1)),
        Closure::new(|a: i32| result::<(), (), Result<i32, String>, Never>(Ok(a + 1))),
    );
    assert_eq!(drive(ok, vec![]).1, Some(Ok(2)));
    let failed = bind_ok(
        result::<(), i32, Result<i32, String>, Never>(Err("no".to_string())),
        Closure::new(|a: i32| {
            bicoro::functions::map(send::<(), i32, Never>(a), Closure::new(|()| Ok(0)))
        }),
    );
    assert_eq!(drive(failed, vec![]), (vec![], Some(Err("no".to_string())), 0));
    let mended = bind_err(
        result::<(), String, Result<i32, String>, Never>(Err("no".to_string())),
        Closure::new(|e: String| {
            bicoro::functions::map(
                send::<(), String, Never>(e),
                Closure::new(|()| Ok::<i32, u8>(-1)),
            )
        }),
    );
    assert_eq!(drive(mended, vec![]), (vec!["no".to_string()], Some(Ok(-1)), 0));
    let kept = bind_err(
        result::<(), (), Result<i32, String>, Never>(Ok(4)),
        Closure::new(|_: String| result::<(), (), Result<i32, u8>, Never>(Err(1))),
    );
    assert_eq!(drive(kept, vec![]).1, Some(Ok(4)));
    let mapped = map_err(
        result::<(), (), Result<i32, String>, Never>(Err("four".to_string())),
        Closure::new(|e: String| e.len()),
    );
    assert_eq!(drive(mapped, vec![]).1, Some(Err(4)));
}

fn fallible_child() -> Coroutine<i64, i64, Result<u8, String>, impl Resume<i64, i64, Result<u8, String>>>
{
    bind(
        receive::<i64, i64>(),
        Closure::new(|a: i64| {
            bind(
                send::<i64, i64, Never>(a),
                Closure::new(move |()| {
                    result::<i64, i64, Result<u8, String>, Never>(if a < 0 {
                        Err("negative".to_string())
                    } else {
                        Ok(0)
                    })
                }),
            )
        }),
    )
}

#[test]
fn subroutine_result_passes_values_through() {
    let on_input = Closure::reusable(|()| {
        bicoro::functions::map(
            receive::<i32, String>(),
            Closure::new(|a: i32| Ok::<i64, String>(a as i64)),
        )
    });
    let on_output = Closure::reusable(|o: i64| {
        bicoro::functions::map(
            send::<i32, String, Never>(o.to_string()),
            Closure::new(|()| None::<String>),
        )
    });
    let co = subroutine_result(on_input, on_output, fallible_child());
    assert_eq!(drive(co, vec![3]), (vec!["3".to_string()], Some(Ok(0)), 1));
}

#[test]
fn subroutine_result_stops_at_an_input_error() {
    let on_input = Closure::reusable(|()| {
        bicoro::functions::map(
            receive::<i32, String>(),
            Closure::new(|a: i32| if a > 0 { Ok(a as i64) } else { Err("bad input".to_string()) }),
        )
    });
    let on_output = Closure::reusable(|o: i64| {
        bicoro::functions::map(
            send::<i32, String, Never>(o.to_string()),
            Closure::new(|()| None::<String>),
        )
    });
    let co = subroutine_result(on_input, on_output, fallible_child());
    assert_eq!(drive(co, vec![0, 1]), (vec![], Some(Err("bad input".to_string())), 1));
}

#[test]
fn subroutine_result_stops_at_an_output_error() {
    let on_input = Closure::reusable(|()| {
        bicoro::functions::map(
            receive::<i32, String>(),
            Closure::new(|a: i32| Ok::<i64, String>(a as i64)),
        )
    });
    let on_output = Closure::reusable(|o: i64| {
        result::<i32, String, Option<String>, Never>(Some(format!("cannot show {}", o)))
    });
    let co = subroutine_result(on_input, on_output, fallible_child());
    assert_eq!(drive(co, vec![3]), (vec![], Some(Err("cannot show 3".to_string())), 1));
}

#[test]
fn failable_bind_short_circuits() {
    let ok = failable::bind(
        failable::receive::<i32, i32, String>(),
        Closure::new(|a: i32| failable::result::<i32, i32, i32, String, Never>(a + 1)),
    );
    assert_eq!(drive(failable::to_coroutine(ok), vec![1]), (vec![], Some(Ok(2)), 1));
    let failed = failable::bind(
        failable::err::<i32, i32, i32, String, Never>("stop".to_string()),
        Closure::new(|a: i32| failable::send::<i32, i32, String>(a)),
    );
    assert_eq!(
        drive(failable::to_coroutine(failed), vec![1]),
        (vec![], Some(Err("stop".to_string())), 0)
    );
}

#[test]
fn failable_send_map_and_map_err() {
    let co = failable::send::<(), i32, String>(3)
        .and_then(Closure::new(|()| failable::result::<(), i32, i32, String, Never>(4)));
    let co = failable::map(co, Closure::new(|a: i32| a * 2));
    assert!(matches!(
        failable::run_step(co),
        StepResult::Yield { output: 3, .. }
    ));
    let co = failable::map_err(
        failable::err::<(), (), i32, String, Never>("four".to_string()),
        Closure::new(|e: String| e.len()),
    );
    assert_eq!(drive(failable::to_coroutine(co), vec![]).1, Some(Err(4)));
    let co = failable::lift(result::<(), (), Result<i32, String>, Never>(Ok(1)));
    assert!(matches!(failable::run_step(co), StepResult::Done(Ok(1))));
}

#[test]
fn failable_run_child() {
    let on_input = Closure::reusable(|()| {
        failable::map(
            failable::receive::<i32, String, String>(),
            Closure::new(|a: i32| a as i64),
        )
    });
    let on_output = Closure::reusable(|o: i64| failable::send::<i32, String, String>(o.to_string()));
    let co = failable::run_child(on_input, on_output, failable::lift(fallible_child()));
    assert_eq!(
        drive(failable::to_coroutine(co), vec![-3]),
        (vec!["-3".to_string()], Some(Err("negative".to_string())), 1)
    );
}

#[test]
fn subroutine_feeds_a_child_without_host_input() {
    let on_input = Closure::reusable(|()| result::<i32, String, i64, Never>(5));
    let on_output = Closure::reusable(|o: i64| send::<i32, String, Never>(o.to_string()));
    let parent = subroutine(on_input, on_output, child());
    assert_eq!(drive(parent, vec![1]), (vec!["5".to_string()], Some(0), 0));
}

#[test]
fn subroutine_result_feeds_a_child_without_host_input() {
    let on_input = Closure::reusable(|()| result::<i32, String, Result<i64, String>, Never>(Ok(-2)));
    let on_output = Closure::reusable(|o: i64| {
        bicoro::functions::map(
            send::<i32, String, Never>(o.to_string()),
            Closure::new(|()| None::<String>),
        )
    });
    let co = subroutine_result(on_input, on_output, fallible_child());
    assert_eq!(
        drive(co, vec![]),
        (vec!["-2".to_string()], Some(Err("negative".to_string())), 0)
    );
}
