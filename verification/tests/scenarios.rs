use slurp::dispatcher::Dispatcher;
use slurp::loader::{items_of, parse_document};
use slurp::outcome::{process_batch, BatchOutcome, FailureReason, Reply};
use slurp::request::{Request, Target};
use slurp::run::{plan_run, RunPlan};
use slurp::statement::build_insert_stmt;
use slurp::tally::{aggregate, RunResult};

fn target() -> Target {
    Target {
        endpoint: String::from("http://localhost:8000/sql"),
        ns: String::from("test"),
        db: String::from("main"),
        table: String::from("t"),
    }
}

fn numbers(count: usize) -> String {
    let items: Vec<String> = (0..count).map(|i| i.to_string()).collect();
    format!("[{}]", items.join(","))
}

/// Runs every batch of `text` through a dispatcher with `limit` workers that
/// take turns, and returns the outcomes by batch index with the result.
fn run(
    text: &str,
    size: usize,
    limit: usize,
    dry_run: bool,
    endpoint: &dyn Fn(&Request) -> Reply,
) -> (Vec<BatchOutcome>, RunResult) {
    let document = parse_document(text).unwrap();
    let items = items_of(&document).unwrap();
    let batches = match plan_run(items, size) {
        RunPlan::NothingToDo => return (Vec::new(), RunResult::new()),
        RunPlan::Dispatch(batches) => batches,
    };
    let mut dispatcher = Dispatcher::new(batches.len(), limit);
    let mut outcomes: Vec<Option<BatchOutcome>> = Vec::new();
    for _ in 0..batches.len() {
        outcomes.push(None);
    }
    let mut running: Vec<usize> = Vec::new();
    while !dispatcher.is_finished() {
        while let Some(index) = dispatcher.start_next() {
            running.push(index);
        }
        assert!(running.len() <= limit);
        let index = running.pop().unwrap();
        let outcome = process_batch(&target(), batches[index], dry_run, |request: Request| {
            endpoint(&request)
        });
        assert!(dispatcher.complete(index, &outcome));
        outcomes[index] = Some(outcome);
    }
    let outcomes: Vec<BatchOutcome> = outcomes.into_iter().map(|o| o.unwrap()).collect();
    (outcomes, dispatcher.result())
}

#[test]
fn three_items_in_batches_of_two() {
    let document = parse_document("[{\"a\":1},{\"a\":2},{\"a\":3}]").unwrap();
    let items = items_of(&document).unwrap();
    let batches = match plan_run(items, 2) {
        RunPlan::Dispatch(batches) => batches,
        RunPlan::NothingToDo => panic!("three items are work to do"),
    };
    assert_eq!(batches.len(), 2);
    assert_eq!(batches[0], &items[0..2]);
    assert_eq!(batches[1], &items[2..3]);
    assert_eq!(
        build_insert_stmt("t", batches[0]),
        Ok(String::from("INSERT INTO t [{\"a\":1},{\"a\":2}] RETURN NONE;"))
    );
    assert_eq!(
        build_insert_stmt("t", batches[1]),
        Ok(String::from("INSERT INTO t [{\"a\":3}] RETURN NONE;"))
    );
}

#[test]
fn empty_input_dispatches_nothing() {
    let (outcomes, result) = run("[]", 2, 4, false, &|_request: &Request| -> Reply {
        panic!("nothing is submitted for an empty input")
    });
    assert!(outcomes.is_empty());
    assert_eq!(result, RunResult { batches_ok: 0, batches_failed: 0 });
    assert_eq!(result.exit_code(), 0);
}

#[test]
fn endpoint_that_always_fails() {
    let (outcomes, result) = run(&numbers(7), 2, 3, false, &|_request: &Request| {
        Reply::Response { status: 500, body: String::from("internal error") }
    });
    assert_eq!(outcomes.len(), 4);
    for outcome in &outcomes {
        assert_eq!(
            *outcome,
            BatchOutcome::Failure(FailureReason::Rejected {
                status: 500,
                body: String::from("internal error"),
            })
        );
    }
    assert_eq!(result, RunResult { batches_ok: 0, batches_failed: 4 });
    assert_eq!(result.exit_code(), 1);
}

#[test]
fn endpoint_that_always_accepts() {
    let (outcomes, result) = run(&numbers(7), 2, 3, false, &|_request: &Request| {
        Reply::Response { status: 200, body: String::from("[]") }
    });
    assert_eq!(
        outcomes,
        vec![
            BatchOutcome::Success(2),
            BatchOutcome::Success(2),
            BatchOutcome::Success(2),
            BatchOutcome::Success(1),
        ]
    );
    assert_eq!(result, RunResult { batches_ok: 4, batches_failed: 0 });
    assert_eq!(result.exit_code(), 0);
}

#[test]
fn endpoint_that_is_never_reached() {
    let (outcomes, result) = run(&numbers(5), 5, 1, false, &|_request: &Request| {
        Reply::Unreachable(String::from("connection refused"))
    });
    assert_eq!(
        outcomes,
        vec![BatchOutcome::Failure(FailureReason::Transport(String::from("connection refused")))]
    );
    assert_eq!(result, RunResult { batches_ok: 0, batches_failed: 1 });
    assert_eq!(result.exit_code(), 1);
}

#[test]
fn dry_run_submits_nothing_and_succeeds() {
    let (outcomes, result) = run(&numbers(10), 3, 2, true, &|_request: &Request| -> Reply {
        panic!("a dry run submits nothing")
    });
    assert_eq!(
        outcomes,
        vec![
            BatchOutcome::Success(3),
            BatchOutcome::Success(3),
            BatchOutcome::Success(3),
            BatchOutcome::Success(1),
        ]
    );
    assert_eq!(result, RunResult { batches_ok: 4, batches_failed: 0 });
    assert_eq!(result.exit_code(), 0);
}

#[test]
fn partial_failure_fails_the_run() {
    let (outcomes, result) = run(&numbers(6), 2, 2, false, &|request: &Request| {
        if request.body == "INSERT INTO t [2,3] RETURN NONE;" {
            Reply::Response { status: 400, body: String::from("parse error") }
        } else {
            Reply::Response { status: 200, body: String::new() }
        }
    });
    assert_eq!(
        outcomes,
        vec![
            BatchOutcome::Success(2),
            BatchOutcome::Failure(FailureReason::Rejected {
                status: 400,
                body: String::from("parse error"),
            }),
            BatchOutcome::Success(2),
        ]
    );
    assert_eq!(result, RunResult { batches_ok: 2, batches_failed: 1 });
    assert_eq!(result.exit_code(), 1);
}

#[test]
fn failure_of_one_batch_leaves_the_others_as_they_were() {
    let healthy = |_request: &Request| Reply::Response { status: 200, body: String::new() };
    let (undisturbed, _) = run(&numbers(9), 2, 3, false, &healthy);
    for k in 0..undisturbed.len() {
        let body = format!("INSERT INTO t [{}] RETURN NONE;", batch_text(k, 2, 9));
        let (disturbed, result) = run(&numbers(9), 2, 3, false, &|request: &Request| {
            if request.body == body {
                Reply::Unreachable(String::from("reset by peer"))
            } else {
                Reply::Response { status: 200, body: String::new() }
            }
        });
        assert_eq!(disturbed.len(), undisturbed.len());
        for i in 0..undisturbed.len() {
            if i == k {
                assert_eq!(
                    disturbed[i],
                    BatchOutcome::Failure(FailureReason::Transport(String::from("reset by peer")))
                );
            } else {
                assert_eq!(disturbed[i], undisturbed[i]);
            }
        }
        assert_eq!(result, RunResult { batches_ok: undisturbed.len() - 1, batches_failed: 1 });
    }
}

fn batch_text(index: usize, size: usize, len: usize) -> String {
    let end = std::cmp::min((index + 1) * size, len);
    let items: Vec<String> = (index * size..end).map(|i| i.to_string()).collect();
    items.join(",")
}

#[test]
fn result_is_the_tally_of_the_outcomes() {
    let (outcomes, result) = run(&numbers(11), 3, 2, false, &|request: &Request| {
        if request.body.contains("[3,") {
            Reply::Unreachable(String::from("timed out"))
        } else {
            Reply::Response { status: 201, body: String::new() }
        }
    });
    assert_eq!(aggregate(&outcomes), result);
    assert_eq!(result, RunResult { batches_ok: 3, batches_failed: 1 });
}

#[test]
fn result_does_not_depend_on_the_budget() {
    let endpoint = |request: &Request| {
        if request.body.len() % 2 == 0 {
            Reply::Response { status: 200, body: String::new() }
        } else {
            Reply::Response { status: 429, body: String::from("slow down") }
        }
    };
    let (expected_outcomes, expected) = run(&numbers(25), 4, 1, false, &endpoint);
    for limit in 2..9 {
        let (outcomes, result) = run(&numbers(25), 4, limit, false, &endpoint);
        assert_eq!(outcomes, expected_outcomes);
        assert_eq!(result, expected);
    }
}
