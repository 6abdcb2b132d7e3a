//! The outcome of one batch: what is done with it, and how a reply is read.
//!
//! A batch goes through build, submit and classify, in this order. Building
//! and classifying are decided here; submitting is the caller's part, who
//! hands the endpoint's reply back as a [`Reply`].

use crate::json::json_array_text;
use crate::request::{build_request, insert_request, Request, Target};
use crate::statement::{build_insert_stmt, insert_statement, BuildError};
use serde_json::Value;
use vstd::prelude::*;

verus! {

/// Why a batch failed.
#[derive(Debug, PartialEq, Eq)]
pub enum FailureReason {
    /// No statement could be built; holds the encoder's description.
    Build(String),
    /// The endpoint was not reached; holds the transport's description.
    Transport(String),
    /// The endpoint answered with a status outside the success range.
    Rejected { status: u16, body: String },
}

/// The result of one batch. Every batch ends in exactly one.
#[derive(Debug, PartialEq, Eq)]
pub enum BatchOutcome {
    /// The batch was accepted; holds the number of its items.
    Success(usize),
    /// The batch failed, for the reason given.
    Failure(FailureReason),
}

/// What came back from submitting one statement.
#[derive(Debug, PartialEq, Eq)]
pub enum Reply {
    /// No response arrived: connection refused, timeout, name not resolved.
    Unreachable(String),
    /// The endpoint responded with this status code and body.
    Response { status: u16, body: String },
}

/// What is to be done with a batch once its statement was attempted.
#[derive(Debug, PartialEq, Eq)]
pub enum BatchStep {
    /// The batch is finished without any submission.
    Done(BatchOutcome),
    /// The statement is to be submitted, and the reply classified.
    Submit(String),
}

/// A failure reason as a mathematical value.
pub enum ReasonView {
    Build(Seq<char>),
    Transport(Seq<char>),
    Rejected { status: u16, body: Seq<char> },
}

/// An outcome as a mathematical value.
pub enum OutcomeView {
    Success(nat),
    Failure(ReasonView),
}

/// A reply as a mathematical value.
pub enum ReplyView {
    Unreachable(Seq<char>),
    Response { status: u16, body: Seq<char> },
}

/// A step as a mathematical value.
pub enum StepView {
    Done(OutcomeView),
    Submit(Seq<char>),
}

impl View for FailureReason {
    type V = ReasonView;

    open spec fn view(&self) -> ReasonView {
        match *self {
            FailureReason::Build(message) => ReasonView::Build(message@),
            FailureReason::Transport(message) => ReasonView::Transport(message@),
            FailureReason::Rejected { status, body } => ReasonView::Rejected {
                status,
                body: body@,
            },
        }
    }
}

impl View for BatchOutcome {
    type V = OutcomeView;

    open spec fn view(&self) -> OutcomeView {
        match *self {
            BatchOutcome::Success(count) => OutcomeView::Success(count as nat),
            BatchOutcome::Failure(reason) => OutcomeView::Failure(reason@),
        }
    }
}

impl View for Reply {
    type V = ReplyView;

    open spec fn view(&self) -> ReplyView {
        match *self {
            Reply::Unreachable(message) => ReplyView::Unreachable(message@),
            Reply::Response { status, body } => ReplyView::Response { status, body: body@ },
        }
    }
}

impl View for BatchStep {
    type V = StepView;

    open spec fn view(&self) -> StepView {
        match *self {
            BatchStep::Done(outcome) => StepView::Done(outcome@),
            BatchStep::Submit(statement) => StepView::Submit(statement@),
        }
    }
}

/// The result of building a statement, as plain text: the statement, or the
/// description of what went wrong.
pub open spec fn built_view(built: Result<String, BuildError>) -> Result<Seq<char>, Seq<char>> {
    match built {
        Ok(statement) => Ok(statement@),
        Err(e) => Err(e@),
    }
}

/// Whether `status` lies in the success range of HTTP, 200 to 299.
pub open spec fn success_status(status: u16) -> bool {
    200 <= status < 300
}

/// The step that follows the attempt to build a statement for a batch of
/// `count` items. A build failure ends the batch; a dry run ends it as a
/// success without submission; otherwise the statement is to be submitted.
pub open spec fn planned(built: Result<Seq<char>, Seq<char>>, count: nat, dry_run: bool) -> StepView {
    match built {
        Err(message) => StepView::Done(OutcomeView::Failure(ReasonView::Build(message))),
        Ok(statement) => if dry_run {
            StepView::Done(OutcomeView::Success(count))
        } else {
            StepView::Submit(statement)
        },
    }
}

/// The outcome of a submitted batch of `count` items to which `reply` came back.
pub open spec fn classified(count: nat, reply: ReplyView) -> OutcomeView {
    match reply {
        ReplyView::Unreachable(message) => OutcomeView::Failure(ReasonView::Transport(message)),
        ReplyView::Response { status, body } => if success_status(status) {
            OutcomeView::Success(count)
        } else {
            OutcomeView::Failure(ReasonView::Rejected { status, body })
        },
    }
}

/// The outcome of a batch from start to end. `reply` is what the endpoint
/// would answer; it counts only where the batch is submitted.
pub open spec fn batch_outcome(
    built: Result<Seq<char>, Seq<char>>,
    count: nat,
    dry_run: bool,
    reply: ReplyView,
) -> OutcomeView {
    match planned(built, count, dry_run) {
        StepView::Done(outcome) => outcome,
        StepView::Submit(_) => classified(count, reply),
    }
}

/// Whether `status` is an HTTP success status.
pub fn is_success(status: u16) -> (success: bool)
    ensures
        success == success_status(status),
{
    200 <= status && status < 300
}

/// Decides what follows the attempt to build the statement of a batch of
/// `count` items.
pub fn plan_batch(built: Result<String, BuildError>, count: usize, dry_run: bool) -> (step:
    BatchStep)
    ensures
        step@ == planned(built_view(built), count as nat, dry_run),
{
    match built {
        Err(e) => BatchStep::Done(BatchOutcome::Failure(FailureReason::Build(e.message))),
        Ok(statement) => {
            if dry_run {
                BatchStep::Done(BatchOutcome::Success(count))
            } else {
                BatchStep::Submit(statement)
            }
        },
    }
}

/// Builds the statement of `batch` for `table` and decides what follows.
pub fn prepare_batch(table: &str, batch: &[Value], dry_run: bool) -> (step: BatchStep)
    ensures
        match json_array_text(batch@) {
            Some(rows) => step@ == planned(
                Ok(insert_statement(table@, rows)),
                batch@.len(),
                dry_run,
            ),
            None => step@ matches StepView::Done(OutcomeView::Failure(ReasonView::Build(_))),
        },
{
    let built = build_insert_stmt(table, batch);
    plan_batch(built, batch.len(), dry_run)
}

/// Reads the reply to a submitted batch of `count` items.
pub fn classify(count: usize, reply: Reply) -> (outcome: BatchOutcome)
    ensures
        outcome@ == classified(count as nat, reply@),
{
    match reply {
        Reply::Unreachable(message) => BatchOutcome::Failure(FailureReason::Transport(message)),
        Reply::Response { status, body } => {
            if is_success(status) {
                BatchOutcome::Success(count)
            } else {
                BatchOutcome::Failure(FailureReason::Rejected { status, body })
            }
        },
    }
}

/// Takes one batch from start to end: builds its statement, hands the
/// request that carries it to `submit` unless the build failed or the run is a
/// dry run, and classifies what `submit` brought back. `submit` is called at
/// most once, and never in a dry run.
pub fn process_batch<F: FnOnce(Request) -> Reply>(
    target: &Target,
    batch: &[Value],
    dry_run: bool,
    submit: F,
) -> (outcome: BatchOutcome)
    requires
        forall|request: Request| call_requires(submit, (request,)),
    ensures
        match json_array_text(batch@) {
            None => outcome@ matches OutcomeView::Failure(ReasonView::Build(_)),
            Some(rows) => if dry_run {
                outcome@ == OutcomeView::Success(batch@.len())
            } else {
                exists|request: Request, reply: Reply|
                    request@ == insert_request(
                        target.endpoint@,
                        target.ns@,
                        target.db@,
                        insert_statement(target.table@, rows),
                    ) && call_ensures(submit, (request,), reply) && outcome@ == classified(
                        batch@.len(),
                        reply@,
                    )
            },
        },
{
    match prepare_batch(target.table.as_str(), batch, dry_run) {
        BatchStep::Done(outcome) => outcome,
        BatchStep::Submit(statement) => {
            let request = build_request(
                target.endpoint.as_str(),
                target.ns.as_str(),
                target.db.as_str(),
                statement,
            );
            let ghost sent = request;
            let reply = submit(request);
            let ghost got = reply;
            let outcome = classify(batch.len(), reply);
            proof {
                assert(call_ensures(submit, (sent,), got));
            }
            outcome
        },
    }
}

} // verus!
