use slurp::outcome::{BatchOutcome, FailureReason};
use slurp::tally::{aggregate, RunResult, EXIT_FAILED, EXIT_OK, EXIT_USAGE};

fn ok(count: usize) -> BatchOutcome {
    BatchOutcome::Success(count)
}

fn failed(text: &str) -> BatchOutcome {
    BatchOutcome::Failure(FailureReason::Transport(String::from(text)))
}

#[test]
fn tally_of_nothing_is_zero() {
    assert_eq!(RunResult::new(), RunResult { batches_ok: 0, batches_failed: 0 });
    assert_eq!(aggregate(&[]), RunResult { batches_ok: 0, batches_failed: 0 });
}

#[test]
fn successes_and_failures_are_counted_apart() {
    let outcomes = vec![ok(2), failed("a"), ok(1), ok(2), failed("b")];
    assert_eq!(aggregate(&outcomes), RunResult { batches_ok: 3, batches_failed: 2 });
}

#[test]
fn counts_add_up_to_the_number_of_outcomes() {
    let outcomes = vec![ok(2), failed("a"), ok(1), failed("b"), failed("c"), ok(9), ok(0)];
    let result = aggregate(&outcomes);
    assert_eq!(result.batches_ok + result.batches_failed, outcomes.len());
}

#[test]
fn every_kind_of_failure_counts_as_one() {
    let outcomes = vec![
        BatchOutcome::Failure(FailureReason::Build(String::from("x"))),
        BatchOutcome::Failure(FailureReason::Transport(String::from("y"))),
        BatchOutcome::Failure(FailureReason::Rejected { status: 500, body: String::from("z") }),
    ];
    assert_eq!(aggregate(&outcomes), RunResult { batches_ok: 0, batches_failed: 3 });
}

#[test]
fn record_counts_one_outcome() {
    let mut result = RunResult::new();
    result.record(&ok(5));
    assert_eq!(result, RunResult { batches_ok: 1, batches_failed: 0 });
    result.record(&failed("x"));
    assert_eq!(result, RunResult { batches_ok: 1, batches_failed: 1 });
    result.record(&ok(0));
    assert_eq!(result, RunResult { batches_ok: 2, batches_failed: 1 });
}

#[test]
fn tally_does_not_depend_on_order() {
    let expected = RunResult { batches_ok: 2, batches_failed: 1 };
    assert_eq!(aggregate(&[ok(1), ok(2), failed("x")]), expected);
    assert_eq!(aggregate(&[ok(1), failed("x"), ok(2)]), expected);
    assert_eq!(aggregate(&[ok(2), ok(1), failed("x")]), expected);
    assert_eq!(aggregate(&[ok(2), failed("x"), ok(1)]), expected);
    assert_eq!(aggregate(&[failed("x"), ok(1), ok(2)]), expected);
    assert_eq!(aggregate(&[failed("x"), ok(2), ok(1)]), expected);
}

#[test]
fn merge_adds_both_counts() {
    let a = RunResult { batches_ok: 3, batches_failed: 1 };
    let b = RunResult { batches_ok: 4, batches_failed: 5 };
    assert_eq!(a.merge(b), RunResult { batches_ok: 7, batches_failed: 6 });
}

#[test]
fn merge_is_commutative_and_associative() {
    let a = RunResult { batches_ok: 3, batches_failed: 1 };
    let b = RunResult { batches_ok: 4, batches_failed: 5 };
    let c = RunResult { batches_ok: 0, batches_failed: 2 };
    assert_eq!(a.merge(b), b.merge(a));
    assert_eq!(a.merge(b).merge(c), a.merge(b.merge(c)));
    assert_eq!(a.merge(RunResult::new()), a);
}

#[test]
fn split_counting_gives_the_tally_of_the_whole() {
    let outcomes = vec![ok(2), failed("a"), ok(1), ok(2), failed("b"), ok(7)];
    let whole = aggregate(&outcomes);
    for cut in 0..=outcomes.len() {
        let (left, right) = outcomes.split_at(cut);
        assert_eq!(aggregate(left).merge(aggregate(right)), whole);
    }
}

#[test]
fn exit_code_is_zero_without_failure() {
    assert_eq!(RunResult { batches_ok: 0, batches_failed: 0 }.exit_code(), 0);
    assert_eq!(RunResult { batches_ok: 12, batches_failed: 0 }.exit_code(), 0);
}

#[test]
fn exit_code_is_one_with_any_failure() {
    assert_eq!(RunResult { batches_ok: 0, batches_failed: 1 }.exit_code(), 1);
    assert_eq!(RunResult { batches_ok: 99, batches_failed: 1 }.exit_code(), 1);
    assert_eq!(RunResult { batches_ok: 0, batches_failed: usize::MAX }.exit_code(), 1);
}

#[test]
fn exit_codes_are_fixed() {
    assert_eq!(EXIT_OK, 0);
    assert_eq!(EXIT_FAILED, 1);
    assert_eq!(EXIT_USAGE, 2);
}
