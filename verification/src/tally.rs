//! Adding up the outcomes of a run.
//!
//! A run ends with two counts: the batches that succeeded and those that
//! failed. The counts are a fold over the outcomes that does not depend on the
//! order in which the outcomes arrive, nor on how they are split among the
//! workers that count them.

use crate::outcome::{BatchOutcome, OutcomeView};
use vstd::prelude::*;
use vstd::seq_lib::{to_multiset_build, to_multiset_contains, to_multiset_len, to_multiset_remove};

verus! {

/// Exit code of a run in which every batch succeeded, or the input was empty.
pub const EXIT_OK: i32 = 0;

/// Exit code of a run in which at least one batch failed.
pub const EXIT_FAILED: i32 = 1;

/// Exit code for a configuration that was refused before anything was loaded.
pub const EXIT_USAGE: i32 = 2;

/// The two counts of a run, as numbers without bound.
pub struct Tally {
    pub ok: nat,
    pub failed: nat,
}

impl Tally {
    /// The tally of no outcome at all.
    pub open spec fn empty() -> Tally {
        Tally { ok: 0, failed: 0 }
    }

    /// This tally with one more outcome counted.
    pub open spec fn record(self, outcome: OutcomeView) -> Tally {
        match outcome {
            OutcomeView::Success(_) => Tally { ok: self.ok + 1, failed: self.failed },
            OutcomeView::Failure(_) => Tally { ok: self.ok, failed: self.failed + 1 },
        }
    }

    /// The tally of what two tallies counted apart.
    pub open spec fn merge(self, other: Tally) -> Tally {
        Tally { ok: self.ok + other.ok, failed: self.failed + other.failed }
    }

    /// The number of outcomes counted.
    pub open spec fn total(self) -> nat {
        self.ok + self.failed
    }

    /// The exit code that the run ends with: one failed batch makes the whole
    /// run a failure, however many succeeded.
    pub open spec fn exit_status(self) -> int {
        if self.failed > 0 {
            EXIT_FAILED as int
        } else {
            EXIT_OK as int
        }
    }
}

/// The tally of `outcomes`, counted one by one from the first.
pub open spec fn tally_of(outcomes: Seq<OutcomeView>) -> Tally
    decreases outcomes.len(),
{
    if outcomes.len() == 0 {
        Tally::empty()
    } else {
        tally_of(outcomes.drop_last()).record(outcomes.last())
    }
}

/// The outcomes of a run as they are counted: each by its view.
pub open spec fn outcome_views(outcomes: Seq<BatchOutcome>) -> Seq<OutcomeView> {
    outcomes.map_values(|outcome: BatchOutcome| outcome@)
}

/// The final tally of a run.
#[derive(Debug, Clone, Copy, PartialEq, Eq)]
pub struct RunResult {
    pub batches_ok: usize,
    pub batches_failed: usize,
}

impl View for RunResult {
    type V = Tally;

    open spec fn view(&self) -> Tally {
        Tally { ok: self.batches_ok as nat, failed: self.batches_failed as nat }
    }
}

impl RunResult {
    /// The result of a run without batches.
    pub fn new() -> (result: RunResult)
        ensures
            result@ == Tally::empty(),
    {
        RunResult { batches_ok: 0, batches_failed: 0 }
    }

    /// Counts one more outcome.
    pub fn record(&mut self, outcome: &BatchOutcome)
        requires
            old(self)@.ok < usize::MAX,
            old(self)@.failed < usize::MAX,
        ensures
            final(self)@ == old(self)@.record(outcome@),
    {
        match outcome {
            BatchOutcome::Success(_) => {
                self.batches_ok = self.batches_ok + 1;
            },
            BatchOutcome::Failure(_) => {
                self.batches_failed = self.batches_failed + 1;
            },
        }
    }

    /// Adds up what two workers counted apart.
    pub fn merge(self, other: RunResult) -> (result: RunResult)
        requires
            self@.ok + other@.ok <= usize::MAX,
            self@.failed + other@.failed <= usize::MAX,
        ensures
            result@ == self@.merge(other@),
    {
        RunResult {
            batches_ok: self.batches_ok + other.batches_ok,
            batches_failed: self.batches_failed + other.batches_failed,
        }
    }

    /// The exit code of the process: `EXIT_OK` where no batch failed,
    /// `EXIT_FAILED` otherwise.
    pub fn exit_code(&self) -> (code: i32)
        ensures
            code == self@.exit_status(),
            code == EXIT_OK <==> self@.failed == 0,
    {
        if self.batches_failed > 0 {
            EXIT_FAILED
        } else {
            EXIT_OK
        }
    }
}

/// Counts the successes and the failures among `outcomes`.
pub fn aggregate(outcomes: &[BatchOutcome]) -> (result: RunResult)
    ensures
        result@ == tally_of(outcome_views(outcomes@)),
{
    let mut result = RunResult::new();
    let ghost views = outcome_views(outcomes@);
    let n = outcomes.len();
    let mut i: usize = 0;
    while i < n
        invariant
            n == outcomes@.len(),
            views == outcome_views(outcomes@),
            i <= n,
            result@ == tally_of(views.take(i as int)),
            result@.total() == i,
        decreases n - i,
    {
        proof {
            assert(views.take(i + 1).drop_last() =~= views.take(i as int));
            assert(views.take(i + 1).last() == outcomes@[i as int]@);
        }
        result.record(&outcomes[i]);
        i = i + 1;
    }
    proof {
        assert(views.take(n as int) =~= views);
    }
    result
}

/// Every outcome is counted once: the two counts add up to the number of
/// outcomes.
pub proof fn lemma_tally_total(outcomes: Seq<OutcomeView>)
    ensures
        tally_of(outcomes).total() == outcomes.len(),
    decreases outcomes.len(),
{
    if outcomes.len() > 0 {
        lemma_tally_total(outcomes.drop_last());
    }
}

/// Counting two parts apart and merging the counts gives the tally of the
/// whole.
pub proof fn lemma_tally_concat(first: Seq<OutcomeView>, second: Seq<OutcomeView>)
    ensures
        tally_of(first + second) == tally_of(first).merge(tally_of(second)),
    decreases second.len(),
{
    if second.len() == 0 {
        assert(first + second =~= first);
    } else {
        lemma_tally_concat(first, second.drop_last());
        assert((first + second).drop_last() =~= first + second.drop_last());
        assert((first + second).last() == second.last());
    }
}

/// Merging does not depend on the order of its two sides.
pub proof fn lemma_merge_commutative(a: Tally, b: Tally)
    ensures
        a.merge(b) == b.merge(a),
{
}

/// Merging does not depend on how three tallies are grouped.
pub proof fn lemma_merge_associative(a: Tally, b: Tally, c: Tally)
    ensures
        a.merge(b).merge(c) == a.merge(b.merge(c)),
{
}

/// Merging with the empty tally changes nothing.
pub proof fn lemma_merge_empty(a: Tally)
    ensures
        a.merge(Tally::empty()) == a,
        Tally::empty().merge(a) == a,
{
}

proof fn lemma_tally_remove(outcomes: Seq<OutcomeView>, i: int)
    requires
        0 <= i < outcomes.len(),
    ensures
        tally_of(outcomes) == tally_of(outcomes.remove(i)).record(outcomes[i]),
    decreases outcomes.len(),
{
    if i == outcomes.len() - 1 {
        assert(outcomes.remove(i) =~= outcomes.drop_last());
    } else {
        lemma_tally_remove(outcomes.drop_last(), i);
        assert(outcomes.remove(i).drop_last() =~= outcomes.drop_last().remove(i));
        assert(outcomes.remove(i).last() == outcomes.last());
    }
}

/// The tally does not depend on the order of completion: two sequences that
/// hold the same outcomes, each as often, have the same tally.
pub proof fn lemma_tally_permutation(a: Seq<OutcomeView>, b: Seq<OutcomeView>)
    requires
        a.to_multiset() == b.to_multiset(),
    ensures
        tally_of(a) == tally_of(b),
    decreases a.len(),
{
    to_multiset_len(a);
    to_multiset_len(b);
    if a.len() > 0 {
        let x = a.last();
        let rest = a.drop_last();
        assert(rest.push(x) =~= a);
        to_multiset_build(rest, x);
        to_multiset_contains(b, x);
        let j = choose|j: int| 0 <= j < b.len() && b[j] == x;
        to_multiset_remove(b, j);
        assert(rest.to_multiset() =~= b.remove(j).to_multiset());
        lemma_tally_permutation(rest, b.remove(j));
        lemma_tally_remove(b, j);
    }
}

/// Where every outcome is a success, all are counted as such.
pub proof fn lemma_tally_all_succeeded(outcomes: Seq<OutcomeView>)
    requires
        forall|i: int| 0 <= i < outcomes.len() ==> (#[trigger] outcomes[i]) is Success,
    ensures
        tally_of(outcomes) == (Tally { ok: outcomes.len(), failed: 0 }),
    decreases outcomes.len(),
{
    if outcomes.len() > 0 {
        let front = outcomes.drop_last();
        assert forall|i: int| 0 <= i < front.len() implies (#[trigger] front[i]) is Success by {
            assert(front[i] == outcomes[i]);
        }
        lemma_tally_all_succeeded(front);
        assert(outcomes.last() == outcomes[outcomes.len() - 1]);
    }
}

/// Where every outcome is a failure, all are counted as such.
pub proof fn lemma_tally_all_failed(outcomes: Seq<OutcomeView>)
    requires
        forall|i: int| 0 <= i < outcomes.len() ==> (#[trigger] outcomes[i]) is Failure,
    ensures
        tally_of(outcomes) == (Tally { ok: 0, failed: outcomes.len() }),
    decreases outcomes.len(),
{
    if outcomes.len() > 0 {
        let front = outcomes.drop_last();
        assert forall|i: int| 0 <= i < front.len() implies (#[trigger] front[i]) is Failure by {
            assert(front[i] == outcomes[i]);
        }
        lemma_tally_all_failed(front);
        assert(outcomes.last() == outcomes[outcomes.len() - 1]);
    }
}

} // verus!
