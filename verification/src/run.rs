//! A run as a whole: what holds of the outcomes of all its batches.
//!
//! The outcome of a batch depends on three things of its own: whether its
//! statement could be built, the number of its items, and what the endpoint
//! answered, if it was asked. The laws of this module follow from that: no
//! batch can change the outcome of another.

use crate::batch::{batch_views, batches_of, lemma_batch_count_is_ceiling, partition};
use crate::outcome::{batch_outcome, planned, success_status, OutcomeView, ReplyView};
use crate::tally::{
    lemma_tally_all_failed, lemma_tally_all_succeeded, lemma_tally_total, tally_of, Tally,
    EXIT_FAILED, EXIT_OK,
};
use vstd::prelude::*;

verus! {

/// What there is to do for an input.
#[derive(Debug, PartialEq, Eq)]
pub enum RunPlan<'a, T> {
    /// The input holds no item: the run is over, successfully, before any
    /// batch is made.
    NothingToDo,
    /// The input holds items: these are its batches, at least one.
    Dispatch(Vec<&'a [T]>),
}

/// Decides what there is to do for `items` at `size` items a batch.
pub fn plan_run<'a, T>(items: &'a [T], size: usize) -> (plan: RunPlan<'a, T>)
    requires
        size >= 1,
    ensures
        match plan {
            RunPlan::NothingToDo => items@.len() == 0,
            RunPlan::Dispatch(batches) => {
                &&& items@.len() > 0
                &&& batches.len() >= 1
                &&& batch_views(batches@) == batches_of(items@, size as nat)
                &&& batch_views(batches@).flatten() == items@
            },
        },
{
    if items.len() == 0 {
        RunPlan::NothingToDo
    } else {
        let batches = partition(items, size);
        proof {
            lemma_batch_count_is_ceiling(items@.len(), size as nat);
        }
        RunPlan::Dispatch(batches)
    }
}

/// What decides the outcome of one batch.
pub struct BatchCase {
    /// The statement of the batch, or why none could be built.
    pub built: Result<Seq<char>, Seq<char>>,
    /// The number of items of the batch.
    pub count: nat,
    /// What the endpoint answers when this batch is submitted.
    pub reply: ReplyView,
}

/// The outcomes of the batches of a run, by batch index.
pub open spec fn run_outcomes(cases: Seq<BatchCase>, dry_run: bool) -> Seq<OutcomeView> {
    Seq::new(
        cases.len(),
        |i: int| batch_outcome(cases[i].built, cases[i].count, dry_run, cases[i].reply),
    )
}

/// The result of a run.
pub open spec fn run_tally(cases: Seq<BatchCase>, dry_run: bool) -> Tally {
    tally_of(run_outcomes(cases, dry_run))
}

/// Every batch ends in exactly one outcome, so the counts of a run add up to
/// the number of its batches.
pub proof fn lemma_one_outcome_each(cases: Seq<BatchCase>, dry_run: bool)
    ensures
        run_outcomes(cases, dry_run).len() == cases.len(),
        run_tally(cases, dry_run).total() == cases.len(),
{
    lemma_tally_total(run_outcomes(cases, dry_run));
}

/// Outcome isolation: whatever happens to batch `k` (another input, another
/// reply, a failure of any kind), every other batch keeps the outcome that it
/// would have had.
pub proof fn lemma_outcome_isolation(
    cases: Seq<BatchCase>,
    dry_run: bool,
    k: int,
    disturbed: BatchCase,
)
    requires
        0 <= k < cases.len(),
    ensures
        forall|i: int|
            0 <= i < cases.len() && i != k ==> #[trigger] run_outcomes(
                cases.update(k, disturbed),
                dry_run,
            )[i] == run_outcomes(cases, dry_run)[i],
        run_outcomes(cases.update(k, disturbed), dry_run).remove(k) == run_outcomes(
            cases,
            dry_run,
        ).remove(k),
{
    assert(run_outcomes(cases.update(k, disturbed), dry_run).remove(k) =~= run_outcomes(
        cases,
        dry_run,
    ).remove(k));
}

/// In a dry run nothing is ever submitted, whatever the batch.
pub proof fn lemma_dry_run_submits_nothing(built: Result<Seq<char>, Seq<char>>, count: nat)
    ensures
        planned(built, count, true) is Done,
{
}

/// In a dry run every batch whose statement can be built is a success, with
/// the number of its items, whatever the endpoint would have answered.
pub proof fn lemma_dry_run_succeeds(cases: Seq<BatchCase>)
    requires
        forall|i: int| 0 <= i < cases.len() ==> (#[trigger] cases[i]).built is Ok,
    ensures
        forall|i: int|
            0 <= i < cases.len() ==> #[trigger] run_outcomes(cases, true)[i]
                == OutcomeView::Success(cases[i].count),
        run_tally(cases, true) == (Tally { ok: cases.len(), failed: 0 }),
        run_tally(cases, true).exit_status() == EXIT_OK,
{
    let outcomes = run_outcomes(cases, true);
    assert forall|i: int| 0 <= i < outcomes.len() implies (#[trigger] outcomes[i]) is Success by {
        assert(cases[i].built is Ok);
    }
    lemma_tally_all_succeeded(outcomes);
}

/// Where the endpoint accepts every statement, every batch succeeds and the
/// run ends with exit code 0.
pub proof fn lemma_all_accepted(cases: Seq<BatchCase>, dry_run: bool)
    requires
        forall|i: int| 0 <= i < cases.len() ==> (#[trigger] cases[i]).built is Ok,
        forall|i: int|
            0 <= i < cases.len() ==> ((#[trigger] cases[i]).reply matches ReplyView::Response {
                status,
                ..
            } && success_status(status)),
    ensures
        run_tally(cases, dry_run) == (Tally { ok: cases.len(), failed: 0 }),
        run_tally(cases, dry_run).exit_status() == EXIT_OK,
{
    let outcomes = run_outcomes(cases, dry_run);
    assert forall|i: int| 0 <= i < outcomes.len() implies (#[trigger] outcomes[i]) is Success by {
        assert(cases[i].built is Ok);
    }
    lemma_tally_all_succeeded(outcomes);
}

/// Where the endpoint rejects every statement, or is never reached, every
/// batch of a run that is no dry run fails, and a run with at least one batch
/// ends with exit code 1.
pub proof fn lemma_all_rejected(cases: Seq<BatchCase>)
    requires
        forall|i: int|
            0 <= i < cases.len() ==> ((#[trigger] cases[i]).reply matches ReplyView::Response {
                status,
                ..
            } ==> !success_status(status)),
    ensures
        run_tally(cases, false) == (Tally { ok: 0, failed: cases.len() }),
        cases.len() > 0 ==> run_tally(cases, false).exit_status() == EXIT_FAILED,
{
    let outcomes = run_outcomes(cases, false);
    assert forall|i: int| 0 <= i < outcomes.len() implies (#[trigger] outcomes[i]) is Failure by {
        let case = cases[i];
        assert(case.reply matches ReplyView::Response { status, .. } ==> !success_status(status));
    }
    lemma_tally_all_failed(outcomes);
}

} // verus!
