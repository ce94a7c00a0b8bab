//! Batch-run accounting: the outcome aggregation of the orchestrator and its
//! abort policy, as a pure state machine over per-component outcomes.
//!
//! Sequential runs stop after the first failure unless told to continue;
//! parallel runs never stop early — work already dispatched is not cancelled,
//! so the policy flag only matters for the final report there.

use vstd::prelude::*;

verus! {

/// Success and failure counters and the failed identifiers, in order.
#[derive(Clone, Debug)]
pub struct BatchStats {
    pub success: usize,
    pub failed: usize,
    pub failed_ids: Vec<String>,
}

/// The failure count always equals the failed-identifier list's length.
pub open spec fn stats_wf(s: BatchStats) -> bool {
    s.failed == s.failed_ids@.len()
}

impl BatchStats {
    /// Fresh counters.
    pub fn new() -> (r: BatchStats)
        ensures
            r.success == 0,
            r.failed == 0,
            r.failed_ids@.len() == 0,
            stats_wf(r),
    {
        BatchStats { success: 0, failed: 0, failed_ids: Vec::new() }
    }

    /// Counts one successful component.
    pub fn record_success(&mut self)
        requires
            old(self).success < usize::MAX,
        ensures
            final (self).success == old(self).success + 1,
            final (self).failed == old(self).failed,
            final (self).failed_ids == old(self).failed_ids,
            stats_wf(*old(self)) ==> stats_wf(*final (self)),
    {
        self.success = self.success + 1;
    }

    /// Counts one failed component and remembers its identifier.
    pub fn record_failure(&mut self, id: String)
        requires
            old(self).failed < usize::MAX,
        ensures
            final (self).success == old(self).success,
            final (self).failed == old(self).failed + 1,
            final (self).failed_ids@ == old(self).failed_ids@.push(id),
            stats_wf(*old(self)) ==> stats_wf(*final (self)),
    {
        self.failed = self.failed + 1;
        self.failed_ids.push(id);
    }
}

/// How many outcomes are true.
pub open spec fn count_true(s: Seq<bool>) -> int
    decreases s.len(),
{
    if s.len() == 0 {
        0
    } else {
        count_true(s.drop_last()) + if s.last() {
            1int
        } else {
            0int
        }
    }
}

/// The identifiers whose outcomes are false, in order.
pub open spec fn spec_failed_ids(ids: Seq<Seq<char>>, outs: Seq<bool>) -> Seq<Seq<char>>
    decreases outs.len(),
{
    if outs.len() == 0 || ids.len() != outs.len() {
        Seq::empty()
    } else if outs.last() {
        spec_failed_ids(ids.drop_last(), outs.drop_last())
    } else {
        spec_failed_ids(ids.drop_last(), outs.drop_last()).push(ids.last())
    }
}

/// Index just past the first failure, or the length if none fails.
pub open spec fn spec_first_stop(outs: Seq<bool>) -> int
    decreases outs.len(),
{
    if outs.len() == 0 {
        0
    } else if !outs[0] {
        1
    } else {
        1 + spec_first_stop(outs.drop_first())
    }
}

/// How many components a run processes: all of them in parallel mode or under
/// continue-on-error, otherwise up to and including the first failure.
pub open spec fn spec_stop(outs: Seq<bool>, continue_on_error: bool, parallel: bool) -> int {
    if parallel || continue_on_error {
        outs.len() as int
    } else {
        spec_first_stop(outs)
    }
}

/// Under continue-on-error the whole run is processed, whatever the
/// parallelism: the report cannot depend on the worker count.
pub proof fn lemma_stop_mode_independent(outs: Seq<bool>, p1: bool, p2: bool)
    ensures
        spec_stop(outs, true, p1) == spec_stop(outs, true, p2),
{
}

/// Pins the first-failure stop index the way a scan finds it.
proof fn lemma_first_stop_char(outs: Seq<bool>, p: int)
    requires
        0 < p <= outs.len(),
        forall|i: int| 0 <= i < p - 1 ==> #[trigger] outs[i],
        !outs[p - 1],
    ensures
        spec_first_stop(outs) == p,
    decreases p,
{
    if p > 1 {
        lemma_first_stop_char(outs.drop_first(), p - 1);
    }
}

proof fn lemma_first_stop_all_true(outs: Seq<bool>)
    requires
        forall|i: int| 0 <= i < outs.len() ==> #[trigger] outs[i],
    ensures
        spec_first_stop(outs) == outs.len(),
    decreases outs.len(),
{
    if outs.len() > 0 {
        lemma_first_stop_all_true(outs.drop_first());
    }
}

/// The outcome report of a run.
#[derive(Clone, Debug)]
pub struct BatchReport {
    pub stats: BatchStats,
    /// Whether a sequential run stopped early on a failure.
    pub aborted: bool,
}

/// Aggregates per-component outcomes exactly as the run would: outcomes are
/// taken in order up to the run's stop point; every failure records its
/// identifier; a sequential run without continue-on-error aborts right after
/// the failure it recorded.
pub fn apply_outcomes(
    ids: &Vec<String>,
    outcomes: &Vec<bool>,
    continue_on_error: bool,
    parallel: bool,
) -> (r: BatchReport)
    requires
        ids@.len() == outcomes@.len(),
    ensures
        ({
            let stop = spec_stop(outcomes@, continue_on_error, parallel);
            let done = outcomes@.take(stop);
            &&& stats_wf(r.stats)
            &&& r.stats.success == count_true(done)
            &&& r.stats.success + r.stats.failed == stop
            &&& r.stats.failed_ids.deep_view() == spec_failed_ids(
                ids.deep_view().take(stop),
                done,
            )
            &&& r.aborted == (!parallel && !continue_on_error && exists|k: int|
                0 <= k < outcomes@.len() && !(#[trigger] outcomes@[k]))
            &&& (r.aborted ==> stop > 0 && !outcomes@[stop - 1])
        }),
{
    let ghost idv = ids.deep_view();
    let n = outcomes.len();
    let mut stats = BatchStats::new();
    let mut go: bool = true;
    let mut i: usize = 0;
    while i < n && go
        invariant
            0 <= i <= n,
            n == outcomes@.len(),
            idv.len() == n,
            idv == ids.deep_view(),
            forall|k: int| 0 <= k < n ==> #[trigger] ids@[k]@ == idv[k],
            stats_wf(stats),
            stats.success == count_true(outcomes@.take(i as int)),
            stats.success + stats.failed == i,
            stats.failed_ids.deep_view() == spec_failed_ids(
                idv.take(i as int),
                outcomes@.take(i as int),
            ),
            go ==> (parallel || continue_on_error || forall|k: int|
                0 <= k < i ==> #[trigger] outcomes@[k]),
            !go ==> !parallel && !continue_on_error && i > 0 && !outcomes@[i - 1] && forall|
                k: int,
            |
                0 <= k < i - 1 ==> #[trigger] outcomes@[k],
        decreases n - i,
    {
        let ok = outcomes[i];
        proof {
            assert(outcomes@.take(i + 1).drop_last() =~= outcomes@.take(i as int));
            assert(idv.take(i + 1).drop_last() =~= idv.take(i as int));
            assert(outcomes@.take(i + 1).last() == outcomes@[i as int]);
            assert(idv.take(i + 1).last() == idv[i as int]);
            assert(idv.take(i + 1).len() == outcomes@.take(i + 1).len());
        }
        if ok {
            stats.record_success();
        } else {
            let ghost old_ids = stats.failed_ids.deep_view();
            stats.record_failure(ids[i].clone());
            proof {
                assert(stats.failed_ids.deep_view() =~~= old_ids.push(idv[i as int]));
            }
            if !continue_on_error && !parallel {
                go = false;
            }
        }
        i += 1;
    }
    proof {
        let stop = spec_stop(outcomes@, continue_on_error, parallel);
        if go {
            assert(i == n);
            if !(parallel || continue_on_error) {
                lemma_first_stop_all_true(outcomes@);
            }
            assert(stop == n);
        } else {
            lemma_first_stop_char(outcomes@, i as int);
            assert(stop == i);
        }
        assert(outcomes@.take(n as int) =~= outcomes@);
        assert(idv.take(n as int) =~= idv);
    }
    let aborted = !go;
    BatchReport { stats, aborted }
}

} // verus!
