//! The retry orchestrator.
//!
//! The orchestrator owns the working set of pending channel identifiers.
//! Each round it selects up to a configured number of them, an unverified
//! caller runs one channel task per selected identifier, and the round's
//! reports come back at a full join.  Successful channels are appended to
//! the processed records, in arrival order, and removed from the pending
//! set; a round that removes nothing raises the stall counter, a round
//! with progress resets it.  The run halts when the pending set is empty
//! or the stall counter reaches the retry limit.
//!
//! The abstract `RunModel` and its `model_step` describe one round; every
//! mutation of the orchestrator is stated as a `model_step`, and the
//! convergence, stall-termination and persistence-uniqueness laws are
//! proved over iterated steps.

use vstd::prelude::*;
use vstd::seq_lib::lemma_no_dup_in_concat;

use crate::metrics::Metrics;
use crate::pending::{
    lemma_remaining_contains, lemma_remaining_no_duplicates, lemma_remaining_removes_one,
    lemma_remaining_unchanged, remaining_after, PendingSet,
};

verus! {

/// The report one channel task hands back at the round's join: the
/// identifier it worked on, and its record if it succeeded.
pub struct RoundReport {
    pub link: String,
    pub outcome: Option<Metrics>,
}

/// The identifiers of the successful reports, in arrival order.
pub open spec fn succ_links(reports: Seq<RoundReport>) -> Seq<Seq<char>>
    decreases reports.len(),
{
    if reports.len() == 0 {
        Seq::empty()
    } else {
        let rest = succ_links(reports.drop_last());
        match reports.last().outcome {
            Some(_) => rest.push(reports.last().link@),
            None => rest,
        }
    }
}

/// The records of the successful reports, in arrival order.
pub open spec fn succ_records(reports: Seq<RoundReport>) -> Seq<Metrics>
    decreases reports.len(),
{
    if reports.len() == 0 {
        Seq::empty()
    } else {
        let rest = succ_records(reports.drop_last());
        match reports.last().outcome {
            Some(m) => rest.push(m),
            None => rest,
        }
    }
}

/// The identifiers of a list of records.
pub open spec fn links_of(records: Seq<Metrics>) -> Seq<Seq<char>> {
    records.map_values(|m: Metrics| m.link@)
}

/// The abstract state of a run: what is pending, what has been persisted
/// (by identifier, in order of first success), and for how many
/// consecutive rounds nothing was removed.
pub struct RunModel {
    pub pending: Seq<Seq<char>>,
    pub persisted: Seq<Seq<char>>,
    pub stall: int,
}

/// The state invariant of a run: identifiers are unique on both sides and
/// no pending identifier has been persisted already.
pub open spec fn model_inv(m: RunModel) -> bool {
    &&& m.pending.no_duplicates()
    &&& m.persisted.no_duplicates()
    &&& forall|x: Seq<char>| #[trigger] m.pending.contains(x) ==> !m.persisted.contains(x)
}

/// One round, given the identifiers that succeeded in it: they are
/// persisted in arrival order and removed from the pending set, and the
/// stall counter reacts to whether anything was removed.
pub open spec fn model_step(m: RunModel, succ: Seq<Seq<char>>) -> RunModel {
    let next_pending = remaining_after(m.pending, succ);
    RunModel {
        pending: next_pending,
        persisted: m.persisted + succ,
        stall: if next_pending.len() < m.pending.len() {
            0
        } else {
            m.stall + 1
        },
    }
}

/// The state after a sequence of rounds.
pub open spec fn model_run(m: RunModel, rounds: Seq<Seq<Seq<char>>>) -> RunModel
    decreases rounds.len(),
{
    if rounds.len() == 0 {
        m
    } else {
        model_step(model_run(m, rounds.drop_last()), rounds.last())
    }
}

/// When the orchestrator stops: the pending set is empty (convergence) or
/// the stall counter has reached the retry limit.
pub open spec fn halted(m: RunModel, max_retry: int) -> bool {
    m.pending.len() == 0 || m.stall >= max_retry
}

/// A valid round outcome: the successful identifiers are distinct and
/// were all pending.
pub open spec fn round_valid(m: RunModel, succ: Seq<Seq<char>>) -> bool {
    &&& succ.no_duplicates()
    &&& forall|i: int| 0 <= i < succ.len() ==> m.pending.contains(#[trigger] succ[i])
}

/// Persistence stays unique and ordered: a valid round appends its
/// successes to the persisted records, in arrival order; no identifier is
/// ever persisted twice, across this round or any earlier one; and the
/// state invariant carries to the next round.
pub proof fn lemma_step_preserves_inv(m: RunModel, succ: Seq<Seq<char>>)
    requires
        model_inv(m),
        round_valid(m, succ),
    ensures
        model_inv(model_step(m, succ)),
        model_step(m, succ).persisted == m.persisted + succ,
{
    broadcast use vstd::seq_lib::group_seq_properties;

    let next = model_step(m, succ);
    lemma_remaining_no_duplicates(m.pending, succ);
    assert(forall|i: int, j: int|
        0 <= i < m.persisted.len() && 0 <= j < succ.len() ==> m.persisted[i] != succ[j]) by {
        assert forall|i: int, j: int|
            0 <= i < m.persisted.len() && 0 <= j < succ.len() implies m.persisted[i] != succ[j] by {
            assert(m.pending.contains(succ[j]));
            assert(!m.persisted.contains(succ[j]));
        }
    }
    lemma_no_dup_in_concat(m.persisted, succ);
    assert forall|x: Seq<char>| #[trigger] next.pending.contains(x) implies !next.persisted.contains(
        x,
    ) by {
        lemma_remaining_contains(m.pending, succ, x);
        assert(!m.persisted.contains(x));
        assert(!succ.contains(x));
        if next.persisted.contains(x) {
            let i = choose|i: int| 0 <= i < next.persisted.len() && next.persisted[i] == x;
            if i < m.persisted.len() {
                assert(m.persisted[i] == x);
            } else {
                assert(succ[i - m.persisted.len()] == x);
            }
        }
    }
}

/// Progress-driven convergence: if every round resolves exactly one
/// pending identifier, then after `k` rounds exactly `k` identifiers have
/// been removed and the stall counter has never risen; a pending set of
/// `N` identifiers is empty after exactly `N` such rounds.
pub proof fn lemma_progress_convergence(m: RunModel, rounds: Seq<Seq<Seq<char>>>)
    requires
        m.pending.no_duplicates(),
        rounds.len() <= m.pending.len(),
        forall|i: int|
            0 <= i < rounds.len() ==> (#[trigger] rounds[i]).len() == 1 && model_run(
                m,
                rounds.take(i),
            ).pending.contains(rounds[i][0]),
    ensures
        forall|k: int|
            0 <= k <= rounds.len() ==> model_run(m, #[trigger] rounds.take(k)).pending.len()
                == m.pending.len() - k,
        forall|k: int|
            0 <= k <= rounds.len() ==> model_run(m, #[trigger] rounds.take(k)).pending.no_duplicates(),
        forall|k: int|
            0 < k <= rounds.len() ==> model_run(m, #[trigger] rounds.take(k)).stall == 0,
    decreases rounds.len(),
{
    if rounds.len() == 0 {
        assert(rounds.take(0) =~= rounds);
    } else {
        let prefix = rounds.drop_last();
        assert(forall|i: int| 0 <= i < prefix.len() ==> prefix.take(i) =~= rounds.take(i));
        assert(forall|i: int| 0 <= i < prefix.len() ==> #[trigger] prefix[i] == rounds[i]);
        lemma_progress_convergence(m, prefix);
        assert(forall|k: int| 0 <= k < rounds.len() ==> rounds.take(k) =~= prefix.take(k));
        let state = model_run(m, rounds.take(rounds.len() - 1));
        assert(rounds.take(rounds.len() - 1) =~= prefix);
        assert(state == model_run(m, prefix));
        let succ = rounds.last();
        assert(state.pending.contains(succ[0]));
        assert(succ =~= seq![succ[0]]);
        lemma_remaining_removes_one(state.pending, succ[0]);
        lemma_remaining_no_duplicates(state.pending, succ);
        assert(rounds.take(rounds.len() as int) =~= rounds);
        assert(model_run(m, rounds) == model_step(state, succ));
    }
}

/// Convergence, stated for a full run: with `N` pending identifiers and
/// one resolved per round, the orchestrator is still running before each
/// of the `N` rounds, and after round `N` it has converged with nothing
/// left unresolved.
pub proof fn lemma_converges_in_n_rounds(m: RunModel, rounds: Seq<Seq<Seq<char>>>, max_retry: int)
    requires
        m.pending.no_duplicates(),
        m.stall == 0,
        max_retry >= 1,
        rounds.len() == m.pending.len(),
        forall|i: int|
            0 <= i < rounds.len() ==> (#[trigger] rounds[i]).len() == 1 && model_run(
                m,
                rounds.take(i),
            ).pending.contains(rounds[i][0]),
    ensures
        forall|k: int| 0 <= k < rounds.len() ==> !halted(model_run(m, #[trigger] rounds.take(k)), max_retry),
        halted(model_run(m, rounds), max_retry),
        model_run(m, rounds).pending.len() == 0,
{
    lemma_progress_convergence(m, rounds);
    assert(rounds.take(rounds.len() as int) =~= rounds);
    assert forall|k: int| 0 <= k < rounds.len() implies !halted(
        model_run(m, #[trigger] rounds.take(k)),
        max_retry,
    ) by {
        if k == 0 {
            assert(rounds.take(0) =~= Seq::<Seq<Seq<char>>>::empty());
            assert(model_run(m, rounds.take(0)) == m);
        }
    }
}

/// Stall termination: if no identifier ever succeeds, every round leaves
/// the pending set and the persisted records untouched and raises the
/// stall counter by one.
pub proof fn lemma_stall_termination(m: RunModel, rounds: Seq<Seq<Seq<char>>>)
    requires
        forall|i: int| 0 <= i < rounds.len() ==> (#[trigger] rounds[i]).len() == 0,
    ensures
        forall|k: int|
            0 <= k <= rounds.len() ==> model_run(m, #[trigger] rounds.take(k)).pending == m.pending
                && model_run(m, rounds.take(k)).persisted == m.persisted && model_run(
                m,
                rounds.take(k),
            ).stall == m.stall + k,
    decreases rounds.len(),
{
    if rounds.len() == 0 {
        assert(rounds.take(0) =~= rounds);
    } else {
        let prefix = rounds.drop_last();
        assert(forall|i: int| 0 <= i < prefix.len() ==> #[trigger] prefix[i] == rounds[i]);
        lemma_stall_termination(m, prefix);
        assert(forall|k: int| 0 <= k < rounds.len() ==> rounds.take(k) =~= prefix.take(k));
        let state = model_run(m, rounds.take(rounds.len() - 1));
        assert(rounds.take(rounds.len() - 1) =~= prefix);
        let succ = rounds.last();
        assert(succ.len() == 0);
        assert(forall|i: int|
            0 <= i < state.pending.len() ==> !succ.contains(#[trigger] state.pending[i]));
        lemma_remaining_unchanged(state.pending, succ);
        assert(state.persisted + succ =~= state.persisted);
        assert(rounds.take(rounds.len() as int) =~= rounds);
        assert(model_run(m, rounds) == model_step(state, succ));
    }
}

/// When every successful report carries its own identifier, the links of
/// the round's records are exactly the round's successful identifiers.
proof fn lemma_succ_records_links(reports: Seq<RoundReport>)
    requires
        forall|i: int|
            0 <= i < reports.len() ==> ((#[trigger] reports[i]).outcome matches Some(m)
                ==> m.link@ == reports[i].link@),
    ensures
        links_of(succ_records(reports)) == succ_links(reports),
    decreases reports.len(),
{
    if reports.len() > 0 {
        let prefix = reports.drop_last();
        assert(forall|i: int| 0 <= i < prefix.len() ==> #[trigger] prefix[i] == reports[i]);
        lemma_succ_records_links(prefix);
        match reports.last().outcome {
            Some(m) => {
                assert(links_of(succ_records(prefix).push(m)) =~= links_of(
                    succ_records(prefix),
                ).push(m.link@));
            },
            None => {},
        }
    }
}

/// Stall termination, stated for a full run: if nothing ever succeeds and
/// the stall counter starts at zero, the orchestrator is still running
/// before each of the first `max_retry` rounds, halts after exactly
/// `max_retry` rounds, and returns the full original set unresolved with
/// nothing persisted.
pub proof fn lemma_stalls_after_max_retry(m: RunModel, rounds: Seq<Seq<Seq<char>>>, max_retry: int)
    requires
        m.stall == 0,
        m.pending.len() > 0,
        rounds.len() == max_retry,
        forall|i: int| 0 <= i < rounds.len() ==> (#[trigger] rounds[i]).len() == 0,
    ensures
        forall|k: int| 0 <= k < max_retry ==> !halted(model_run(m, #[trigger] rounds.take(k)), max_retry),
        halted(model_run(m, rounds), max_retry),
        model_run(m, rounds).pending == m.pending,
        model_run(m, rounds).persisted == m.persisted,
{
    lemma_stall_termination(m, rounds);
    assert(rounds.take(rounds.len() as int) =~= rounds);
}

/// The retry orchestrator's concrete state.
pub struct Orchestrator {
    pending: PendingSet,
    processed: Vec<Metrics>,
    stall_count: u64,
    max_retry: u64,
    max_concurrent: usize,
}

impl Orchestrator {
    /// The abstract state this orchestrator is in.
    pub closed spec fn model(&self) -> RunModel {
        RunModel {
            pending: self.pending@,
            persisted: links_of(self.processed@),
            stall: self.stall_count as int,
        }
    }

    /// The records produced so far, in order of first success.
    pub closed spec fn spec_processed(&self) -> Seq<Metrics> {
        self.processed@
    }

    /// The configured stall limit.
    pub closed spec fn spec_max_retry(&self) -> u64 {
        self.max_retry
    }

    /// The configured per-round throttle.
    pub closed spec fn spec_max_concurrent(&self) -> usize {
        self.max_concurrent
    }

    /// The orchestrator's invariant: the abstract state invariant, plus a
    /// stall counter that never exceeds the retry limit.
    pub open spec fn inv(&self) -> bool {
        &&& model_inv(self.model())
        &&& self.model().stall <= self.spec_max_retry() as int
    }

    /// Starts a run over a working set of unique identifiers.
    pub fn new(pending: PendingSet, max_retry: u64, max_concurrent: usize) -> (r: Orchestrator)
        requires
            pending.wf(),
        ensures
            r.inv(),
            r.model() == (RunModel {
                pending: pending@,
                persisted: Seq::<Seq<char>>::empty(),
                stall: 0,
            }),
            r.spec_processed() == Seq::<Metrics>::empty(),
            r.spec_max_retry() == max_retry,
            r.spec_max_concurrent() == max_concurrent,
    {
        let r = Orchestrator {
            pending,
            processed: Vec::new(),
            stall_count: 0,
            max_retry,
            max_concurrent,
        };
        proof {
            assert(links_of(r.processed@) =~= Seq::<Seq<char>>::empty());
        }
        r
    }

    /// Whether another round should be dispatched: the run goes on while
    /// identifiers are pending and the stall limit has not been reached.
    pub fn should_continue(&self) -> (r: bool)
        ensures
            r == !halted(self.model(), self.spec_max_retry() as int),
    {
        !self.pending.is_empty() && self.stall_count < self.max_retry
    }

    /// The identifiers to attempt this round: the first pending ones, up
    /// to the configured throttle.  They are distinct and all pending, so
    /// any subset of them makes a valid round outcome.
    pub fn select_round(&self) -> (r: Vec<String>)
        requires
            self.inv(),
        ensures
            crate::views_of(r@) == self.model().pending.take(
                if self.spec_max_concurrent() as int <= self.model().pending.len() {
                    self.spec_max_concurrent() as int
                } else {
                    self.model().pending.len() as int
                },
            ),
            crate::views_of(r@).no_duplicates(),
            forall|i: int|
                0 <= i < r@.len() ==> self.model().pending.contains(
                    #[trigger] crate::views_of(r@)[i],
                ),
    {
        let r = self.pending.take_up_to(self.max_concurrent);
        proof {
            broadcast use vstd::seq_lib::group_seq_properties;

            let views = crate::views_of(r@);
            let pending = self.model().pending;
            assert(forall|i: int| 0 <= i < views.len() ==> views[i] == pending[i]);
            assert forall|i: int| 0 <= i < views.len() implies pending.contains(
                #[trigger] views[i],
            ) by {
                assert(pending[i] == views[i]);
            }
        }
        r
    }

    /// How many identifiers are still pending.
    pub fn pending_count(&self) -> (r: usize)
        ensures
            r == self.model().pending.len(),
    {
        self.pending.len()
    }

    /// Joins one round: the successful reports' records are appended to
    /// the processed list in arrival order, their identifiers leave the
    /// pending set, and the stall counter resets on progress or rises by
    /// one without it.
    #[verifier::loop_isolation(false)]
    pub fn apply_round(&mut self, reports: Vec<RoundReport>)
        requires
            old(self).inv(),
            old(self).model().stall < old(self).spec_max_retry() as int,
            round_valid(old(self).model(), succ_links(reports@)),
            forall|i: int|
                0 <= i < reports@.len() ==> ((#[trigger] reports@[i]).outcome matches Some(m)
                    ==> m.link@ == reports@[i].link@),
        ensures
            final(self).inv(),
            final(self).model() == model_step(old(self).model(), succ_links(reports@)),
            final(self).spec_processed() == old(self).spec_processed() + succ_records(reports@),
            final(self).spec_max_retry() == old(self).spec_max_retry(),
            final(self).spec_max_concurrent() == old(self).spec_max_concurrent(),
    {
        let ghost all = reports@;
        let mut reports = reports;
        let total = reports.len();
        let mut gone: Vec<String> = Vec::new();
        let mut k: usize = 0;
        while reports.len() > 0
            invariant
                all.len() == total,
                k + reports@.len() == all.len(),
                reports@ =~= all.skip(k as int),
                crate::views_of(gone@) =~= succ_links(all.take(k as int)),
                self.processed@ =~= old(self).processed@ + succ_records(all.take(k as int)),
                self.pending == old(self).pending,
                self.stall_count == old(self).stall_count,
                self.max_retry == old(self).max_retry,
                self.max_concurrent == old(self).max_concurrent,
            decreases reports@.len(),
        {
            proof {
                assert(all.skip(k as int)[0] == all[k as int]);
                assert(all.skip(k as int).remove(0) =~= all.skip(k as int + 1));
                assert(all.take(k as int + 1).drop_last() =~= all.take(k as int));
                assert(all.take(k as int + 1).last() == all[k as int]);
            }
            let rep = reports.remove(0);
            let ghost gone_before = gone@;
            let ghost processed_before = self.processed@;
            let RoundReport { link, outcome } = rep;
            match outcome {
                Some(m) => {
                    gone.push(link);
                    self.processed.push(m);
                    proof {
                        assert(crate::views_of(gone@) =~= crate::views_of(gone_before).push(
                            all[k as int].link@,
                        ));
                        assert(self.processed@ =~= processed_before.push(m));
                    }
                },
                None => {},
            }
            k = k + 1;
        }
        proof {
            assert(all.take(all.len() as int) =~= all);
            assert(crate::views_of(gone@) == succ_links(all));
        }
        let before = self.pending.len();
        self.pending.remove_ids(&gone);
        let after = self.pending.len();
        if after < before {
            self.stall_count = 0;
        } else {
            self.stall_count = self.stall_count + 1;
        }
        proof {
            lemma_succ_records_links(all);
            assert(links_of(old(self).processed@ + succ_records(all)) =~= links_of(
                old(self).processed@,
            ) + links_of(succ_records(all)));
            lemma_step_preserves_inv(old(self).model(), succ_links(all));
        }
    }

    /// The records produced so far, in order of first success.
    pub fn processed(&self) -> (r: &Vec<Metrics>)
        ensures
            r@ == self.spec_processed(),
    {
        &self.processed
    }

    /// The identifiers that are still unresolved.
    pub fn unresolved(&self) -> (r: &PendingSet)
        ensures
            r@ == self.model().pending,
    {
        &self.pending
    }

    /// For how many consecutive rounds nothing was removed.
    pub fn stall_rounds(&self) -> (r: u64)
        ensures
            r as int == self.model().stall,
    {
        self.stall_count
    }
}

} // verus!
