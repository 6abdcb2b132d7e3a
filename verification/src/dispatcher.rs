//! Scheduling under a concurrency budget: which batch starts next, and when.
//!
//! A [`Dispatcher`] knows the state of every batch of a run. A worker that is
//! free asks it for the next batch; the dispatcher hands out the pending
//! batches in index order, and none while as many batches are in flight as the
//! concurrency budget allows. A worker that is done reports the outcome, which
//! settles that batch and no other. Failures stop nothing: every batch is
//! started, and every started batch is settled exactly once.

use crate::outcome::{BatchOutcome, OutcomeView};
use crate::tally::{tally_of, RunResult, Tally};
use vstd::prelude::*;

verus! {

/// The state of one batch within a run.
#[derive(Debug, Clone, Copy, PartialEq, Eq)]
pub enum SlotState {
    /// Not started yet.
    Pending,
    /// Handed to a worker, outcome not reported yet.
    Running,
    /// Settled with a success.
    Succeeded,
    /// Settled with a failure.
    Failed,
}

/// The number of slots that are in `state`.
pub open spec fn count_of(slots: Seq<SlotState>, state: SlotState) -> nat
    decreases slots.len(),
{
    if slots.len() == 0 {
        0
    } else {
        count_of(slots.drop_last(), state) + if slots.last() == state {
            1nat
        } else {
            0nat
        }
    }
}

/// The state in which `outcome` leaves its batch.
pub open spec fn settled(outcome: OutcomeView) -> SlotState {
    match outcome {
        OutcomeView::Success(_) => SlotState::Succeeded,
        OutcomeView::Failure(_) => SlotState::Failed,
    }
}

/// A dispatcher as a mathematical value: the budget and the state of each
/// batch, by index.
pub struct DispatchView {
    pub limit: nat,
    pub slots: Seq<SlotState>,
}

impl DispatchView {
    /// The state in which a run of `total` batches begins: all are pending.
    pub open spec fn init(total: nat, limit: nat) -> DispatchView {
        DispatchView { limit, slots: Seq::new(total, |j: int| SlotState::Pending) }
    }

    /// The number of batches of the run.
    pub open spec fn total(self) -> nat {
        self.slots.len()
    }

    /// The number of batches that are with a worker.
    pub open spec fn in_flight(self) -> nat {
        count_of(self.slots, SlotState::Running)
    }

    /// The counts of the batches settled so far.
    pub open spec fn tally(self) -> Tally {
        Tally {
            ok: count_of(self.slots, SlotState::Succeeded),
            failed: count_of(self.slots, SlotState::Failed),
        }
    }

    /// This state with batch `index` moved to `state`, and no other change.
    pub open spec fn with_slot(self, index: int, state: SlotState) -> DispatchView {
        DispatchView { limit: self.limit, slots: self.slots.update(index, state) }
    }

    /// Whether batch `index` is the pending batch of least index.
    pub open spec fn next_pending(self, index: int) -> bool {
        &&& 0 <= index < self.slots.len()
        &&& self.slots[index] is Pending
        &&& forall|j: int| 0 <= j < index ==> !(#[trigger] self.slots[j] is Pending)
    }

    /// Whether some batch is still pending.
    pub open spec fn has_pending(self) -> bool {
        exists|j: int| 0 <= j < self.slots.len() && #[trigger] self.slots[j] is Pending
    }

    /// Whether every batch is settled.
    pub open spec fn finished(self) -> bool {
        forall|j: int|
            0 <= j < self.slots.len() ==> (#[trigger] self.slots[j] is Succeeded
                || self.slots[j] is Failed)
    }

    /// Whether `next` is this state after a worker took batch `index`: that is
    /// the pending batch of least index, and the budget allowed one more.
    pub open spec fn starts(self, index: int, next: DispatchView) -> bool {
        &&& self.in_flight() < self.limit
        &&& self.next_pending(index)
        &&& next == self.with_slot(index, SlotState::Running)
    }

    /// Whether `next` is this state after a worker reported `outcome` for
    /// batch `index`, which was in flight.
    pub open spec fn settles(self, index: int, outcome: OutcomeView, next: DispatchView) -> bool {
        &&& 0 <= index < self.slots.len()
        &&& self.slots[index] is Running
        &&& next == self.with_slot(index, settled(outcome))
    }

    /// Whether `next` follows this state by one step: one batch is started, or
    /// one is settled.
    pub open spec fn step(self, next: DispatchView) -> bool {
        ||| exists|index: int| #[trigger] self.starts(index, next)
        ||| exists|index: int, outcome: OutcomeView| #[trigger] self.settles(index, outcome, next)
    }

    /// What holds of a dispatcher in every state that it can reach: the budget
    /// is at least one, no more batches are in flight than the budget allows,
    /// and batches are started in index order.
    pub open spec fn inv(self) -> bool {
        &&& self.limit >= 1
        &&& self.in_flight() <= self.limit
        &&& forall|i: int, j: int|
            0 <= i < j < self.slots.len() && #[trigger] self.slots[i] is Pending
                ==> #[trigger] self.slots[j] is Pending
    }
}

/// The bookkeeping of a run's batches under a fixed concurrency budget.
#[derive(Debug)]
pub struct Dispatcher {
    limit: usize,
    slots: Vec<SlotState>,
    next: usize,
    in_flight: usize,
    result: RunResult,
}

impl View for Dispatcher {
    type V = DispatchView;

    closed spec fn view(&self) -> DispatchView {
        DispatchView { limit: self.limit as nat, slots: self.slots@ }
    }
}

proof fn lemma_count_push(slots: Seq<SlotState>, added: SlotState, state: SlotState)
    ensures
        count_of(slots.push(added), state) == count_of(slots, state) + if added == state {
            1nat
        } else {
            0nat
        },
{
    assert(slots.push(added).drop_last() =~= slots);
}

proof fn lemma_count_update(slots: Seq<SlotState>, i: int, changed: SlotState, state: SlotState)
    requires
        0 <= i < slots.len(),
    ensures
        count_of(slots.update(i, changed), state) + (if slots[i] == state {
            1nat
        } else {
            0nat
        }) == count_of(slots, state) + (if changed == state {
            1nat
        } else {
            0nat
        }),
    decreases slots.len(),
{
    if i == slots.len() - 1 {
        assert(slots.update(i, changed).drop_last() =~= slots.drop_last());
    } else {
        lemma_count_update(slots.drop_last(), i, changed, state);
        assert(slots.update(i, changed).drop_last() =~= slots.drop_last().update(i, changed));
    }
}

proof fn lemma_count_none(slots: Seq<SlotState>, state: SlotState)
    ensures
        count_of(slots, state) == 0 <==> forall|j: int|
            0 <= j < slots.len() ==> #[trigger] slots[j] != state,
    decreases slots.len(),
{
    if slots.len() > 0 {
        let front = slots.drop_last();
        lemma_count_none(front, state);
        if count_of(slots, state) == 0 {
            assert forall|j: int| 0 <= j < slots.len() implies #[trigger] slots[j] != state by {
                if j < front.len() {
                    assert(front[j] == slots[j]);
                }
            }
        }
        if forall|j: int| 0 <= j < slots.len() ==> #[trigger] slots[j] != state {
            assert forall|j: int| 0 <= j < front.len() implies #[trigger] front[j] != state by {
                assert(front[j] == slots[j]);
            }
        }
    }
}

/// Every batch is in exactly one state: the four counts add up to the number
/// of batches.
pub proof fn lemma_slots_accounted(slots: Seq<SlotState>)
    ensures
        count_of(slots, SlotState::Pending) + count_of(slots, SlotState::Running) + count_of(
            slots,
            SlotState::Succeeded,
        ) + count_of(slots, SlotState::Failed) == slots.len(),
    decreases slots.len(),
{
    if slots.len() > 0 {
        lemma_slots_accounted(slots.drop_last());
    }
}

impl Dispatcher {
    /// Whether the bookkeeping is consistent with the state of the batches.
    pub closed spec fn wf(&self) -> bool {
        &&& self@.inv()
        &&& self.next <= self.slots.len()
        &&& forall|j: int|
            0 <= j < self.slots.len() ==> ((#[trigger] self.slots[j]) is Pending <==> j
                >= self.next)
        &&& self.in_flight == self@.in_flight()
        &&& self.result@ == self@.tally()
    }

    /// A consistent dispatcher is in a state that satisfies the invariant: in
    /// particular, no more batches are in flight than its budget allows.
    pub proof fn lemma_invariant(&self)
        requires
            self.wf(),
        ensures
            self@.inv(),
            self@.in_flight() <= self@.limit,
    {
    }

    /// A dispatcher for `total` batches, all pending, of which at most `limit`
    /// may be in flight at once.
    pub fn new(total: usize, limit: usize) -> (dispatcher: Dispatcher)
        requires
            limit >= 1,
        ensures
            dispatcher.wf(),
            dispatcher@.limit == limit,
            dispatcher@ == DispatchView::init(total as nat, limit as nat),
            dispatcher@.in_flight() == 0,
            dispatcher@.tally() == Tally::empty(),
    {
        let mut slots: Vec<SlotState> = Vec::new();
        let mut i: usize = 0;
        while i < total
            invariant
                i <= total,
                slots@ == Seq::new(i as nat, |j: int| SlotState::Pending),
                count_of(slots@, SlotState::Running) == 0,
                count_of(slots@, SlotState::Succeeded) == 0,
                count_of(slots@, SlotState::Failed) == 0,
            decreases total - i,
        {
            proof {
                lemma_count_push(slots@, SlotState::Pending, SlotState::Running);
                lemma_count_push(slots@, SlotState::Pending, SlotState::Succeeded);
                lemma_count_push(slots@, SlotState::Pending, SlotState::Failed);
            }
            slots.push(SlotState::Pending);
            i = i + 1;
        }
        Dispatcher { limit, slots, next: 0, in_flight: 0, result: RunResult::new() }
    }

    /// The number of batches of the run.
    pub fn total(&self) -> (total: usize)
        ensures
            total == self@.total(),
    {
        self.slots.len()
    }

    /// The concurrency budget.
    pub fn limit(&self) -> (limit: usize)
        ensures
            limit == self@.limit,
    {
        self.limit
    }

    /// The number of batches that are with a worker. It never exceeds the
    /// budget.
    pub fn in_flight(&self) -> (in_flight: usize)
        requires
            self.wf(),
        ensures
            in_flight == self@.in_flight(),
            in_flight <= self@.limit,
    {
        self.in_flight
    }

    /// Starts the pending batch of least index, if there is one and the budget
    /// allows another batch in flight, and returns its index. Otherwise nothing
    /// changes.
    pub fn start_next(&mut self) -> (started: Option<usize>)
        requires
            old(self).wf(),
        ensures
            final(self).wf(),
            match started {
                Some(index) => {
                    &&& old(self)@.starts(index as int, final(self)@)
                    &&& final(self)@.in_flight() == old(self)@.in_flight() + 1
                    &&& final(self)@.tally() == old(self)@.tally()
                },
                None => {
                    &&& old(self)@.in_flight() == old(self)@.limit || !old(self)@.has_pending()
                    &&& final(self)@ == old(self)@
                },
            },
    {
        if self.in_flight < self.limit && self.next < self.slots.len() {
            let index = self.next;
            proof {
                lemma_count_update(self.slots@, index as int, SlotState::Running, SlotState::Running);
                lemma_count_update(
                    self.slots@,
                    index as int,
                    SlotState::Running,
                    SlotState::Succeeded,
                );
                lemma_count_update(self.slots@, index as int, SlotState::Running, SlotState::Failed);
            }
            self.slots.set(index, SlotState::Running);
            self.next = self.next + 1;
            self.in_flight = self.in_flight + 1;
            Some(index)
        } else {
            None
        }
    }

    /// Settles batch `index` with `outcome`, if that batch is in flight, and
    /// says whether it did. No other batch is touched, and a batch that is not
    /// in flight (never started, or settled already) keeps its state.
    pub fn complete(&mut self, index: usize, outcome: &BatchOutcome) -> (recorded: bool)
        requires
            old(self).wf(),
        ensures
            final(self).wf(),
            recorded <==> (index < old(self)@.total() && old(self)@.slots[index as int] is Running),
            recorded ==> old(self)@.settles(index as int, outcome@, final(self)@),
            recorded ==> final(self)@.in_flight() == old(self)@.in_flight() - 1,
            recorded ==> final(self)@.tally() == old(self)@.tally().record(outcome@),
            !recorded ==> final(self)@ == old(self)@,
    {
        if index >= self.slots.len() {
            return false;
        }
        match self.slots[index] {
            SlotState::Running => {},
            _ => {
                return false;
            },
        }
        let state = match outcome {
            BatchOutcome::Success(_) => SlotState::Succeeded,
            BatchOutcome::Failure(_) => SlotState::Failed,
        };
        proof {
            lemma_slots_accounted(self.slots@);
            lemma_count_update(self.slots@, index as int, state, SlotState::Running);
            lemma_count_update(self.slots@, index as int, state, SlotState::Succeeded);
            lemma_count_update(self.slots@, index as int, state, SlotState::Failed);
        }
        self.slots.set(index, state);
        self.in_flight = self.in_flight - 1;
        self.result.record(outcome);
        true
    }

    /// Whether every batch is settled.
    pub fn is_finished(&self) -> (finished: bool)
        requires
            self.wf(),
        ensures
            finished == self@.finished(),
    {
        let finished = self.next == self.slots.len() && self.in_flight == 0;
        proof {
            lemma_count_none(self.slots@, SlotState::Running);
        }
        finished
    }

    /// The counts of the batches settled so far. Once the run is finished,
    /// this is its result, and the two counts add up to the number of batches.
    pub fn result(&self) -> (result: RunResult)
        requires
            self.wf(),
        ensures
            result@ == self@.tally(),
            self@.finished() ==> result@.total() == self@.total(),
    {
        let result = self.result;
        proof {
            if self@.finished() {
                lemma_finished_tally(self@);
            }
        }
        result
    }
}

/// Once every batch is settled, each was counted once: successes and failures
/// add up to the number of batches.
pub proof fn lemma_finished_tally(state: DispatchView)
    requires
        state.finished(),
    ensures
        state.tally().total() == state.total(),
{
    lemma_slots_accounted(state.slots);
    lemma_count_none(state.slots, SlotState::Pending);
    lemma_count_none(state.slots, SlotState::Running);
}

/// The counts of a dispatcher are the tally of the outcomes that settled its
/// batches, in whatever order they were reported.
pub proof fn lemma_dispatch_tally(state: DispatchView, outcomes: Seq<OutcomeView>)
    requires
        state.slots.len() == outcomes.len(),
        forall|i: int| 0 <= i < outcomes.len() ==> #[trigger] state.slots[i] == settled(outcomes[i]),
    ensures
        state.finished(),
        state.tally() == tally_of(outcomes),
    decreases outcomes.len(),
{
    if outcomes.len() > 0 {
        let front = DispatchView { limit: state.limit, slots: state.slots.drop_last() };
        assert forall|i: int| 0 <= i < outcomes.drop_last().len() implies #[trigger] front.slots[i]
            == settled(outcomes.drop_last()[i]) by {
            assert(front.slots[i] == state.slots[i]);
        }
        lemma_dispatch_tally(front, outcomes.drop_last());
        assert(state.slots.last() == settled(outcomes.last()));
    }
}

/// A run: the states that a dispatcher for `total` batches with budget `limit`
/// goes through, from the first.
pub open spec fn is_run(trace: Seq<DispatchView>, total: nat, limit: nat) -> bool {
    &&& trace.len() >= 1
    &&& trace[0] == DispatchView::init(total, limit)
    &&& forall|t: int| 0 <= t < trace.len() - 1 ==> (#[trigger] trace[t]).step(trace[t + 1])
}

/// A run begins in a state that satisfies the invariant.
pub proof fn lemma_init_invariant(total: nat, limit: nat)
    requires
        limit >= 1,
    ensures
        DispatchView::init(total, limit).inv(),
        DispatchView::init(total, limit).in_flight() == 0,
        DispatchView::init(total, limit).tally() == Tally::empty(),
    decreases total,
{
    let slots = DispatchView::init(total, limit).slots;
    if total > 0 {
        lemma_init_invariant((total - 1) as nat, limit);
        assert(slots.drop_last() =~= DispatchView::init((total - 1) as nat, limit).slots);
    }
}

/// Every step keeps the invariant.
pub proof fn lemma_step_invariant(state: DispatchView, next: DispatchView)
    requires
        state.inv(),
        state.step(next),
    ensures
        next.inv(),
        next.total() == state.total(),
        next.limit == state.limit,
{
    if exists|index: int| #[trigger] state.starts(index, next) {
        let index = choose|index: int| #[trigger] state.starts(index, next);
        lemma_count_update(state.slots, index, SlotState::Running, SlotState::Running);
    } else {
        let (index, outcome) = choose|index: int, outcome: OutcomeView| #[trigger]
            state.settles(index, outcome, next);
        lemma_count_update(state.slots, index, settled(outcome), SlotState::Running);
    }
}

/// The concurrency bound: at no point of a run are more batches in flight
/// than the budget allows, whatever the budget and the number of batches.
pub proof fn lemma_concurrency_bound(trace: Seq<DispatchView>, total: nat, limit: nat, t: int)
    requires
        limit >= 1,
        is_run(trace, total, limit),
        0 <= t < trace.len(),
    ensures
        trace[t].inv(),
        trace[t].in_flight() <= limit,
        trace[t].total() == total,
        trace[t].limit == limit,
    decreases t,
{
    if t == 0 {
        lemma_init_invariant(total, limit);
    } else {
        lemma_concurrency_bound(trace, total, limit, t - 1);
        assert(trace[t - 1].step(trace[t - 1 + 1]));
        lemma_step_invariant(trace[t - 1], trace[t]);
    }
}

/// A run never gets stuck: as long as a batch is not settled, a batch can be
/// started or a batch in flight can be settled.
pub proof fn lemma_progress(state: DispatchView)
    requires
        state.inv(),
        !state.finished(),
    ensures
        exists|next: DispatchView| state.step(next),
{
    lemma_count_none(state.slots, SlotState::Running);
    if state.in_flight() > 0 {
        let index = choose|j: int| 0 <= j < state.slots.len() && state.slots[j] == SlotState::Running;
        let outcome = OutcomeView::Success(0);
        let next = state.with_slot(index, settled(outcome));
        assert(state.settles(index, outcome, next));
        assert(state.step(next));
    } else {
        let some = choose|j: int|
            0 <= j < state.slots.len() && !(#[trigger] state.slots[j] is Succeeded
                || state.slots[j] is Failed);
        assert(state.slots[some] != SlotState::Running);
        let index = lemma_first_pending(state.slots, some);
        let next = state.with_slot(index, SlotState::Running);
        assert(state.starts(index, next));
        assert(state.step(next));
    }
}

proof fn lemma_first_pending(slots: Seq<SlotState>, some: int) -> (first: int)
    requires
        0 <= some < slots.len(),
        slots[some] is Pending,
    ensures
        0 <= first <= some,
        slots[first] is Pending,
        forall|j: int| 0 <= j < first ==> !(#[trigger] slots[j] is Pending),
    decreases some,
{
    if exists|j: int| 0 <= j < some && #[trigger] slots[j] is Pending {
        let earlier = choose|j: int| 0 <= j < some && #[trigger] slots[j] is Pending;
        lemma_first_pending(slots, earlier)
    } else {
        some
    }
}

} // verus!
