use vstd::prelude::*;
use vstd::set_lib::{lemma_int_range, lemma_len_subset, lemma_subset_equality, set_int_range};

use crate::gate::{triggers, Policy, WinnerGate};

verus! {

/// What one unit of work produced, stamped with the position at which its
/// completion was observed.
#[derive(Debug)]
pub struct ExecutionResult {
    /// Position of the unit in the input list.
    pub unit: usize,
    /// The unit's output, or the description of its failure.
    pub outcome: Result<String, String>,
    /// 0 for the first completion observed, 1 for the next, and so on.
    pub completion_order: usize,
}

/// What the caller must do after handing an event to the coordinator.
#[derive(Clone, Copy, Debug, PartialEq, Eq, Structural)]
pub struct Actions {
    /// Run the first-completion hook now (and wait for it).
    pub fire_first: bool,
    /// Run the all-completion hook now, with the summary.
    pub fire_all: bool,
}

/// Events the coordinator refuses.
#[derive(Clone, Copy, Debug, PartialEq, Eq, Structural)]
pub enum RunError {
    /// `start` was called a second time.
    AlreadyStarted,
    /// A completion arrived before `start`.
    NotStarted,
    /// A completion named a unit outside the input list.
    UnknownUnit,
    /// A completion named a unit whose result was already recorded.
    DuplicateUnit,
}

/// The abstract state of a run.
pub struct RunView {
    pub total: nat,
    pub policy: Policy,
    pub started: bool,
    /// Every recorded result, in the order the completions were observed.
    pub log: Seq<ExecutionResult>,
}

pub open spec fn succeeded(r: ExecutionResult) -> bool {
    r.outcome is Ok
}

/// Whether some result of `log` may fire the latch under `policy`.
pub open spec fn gate_fired(policy: Policy, log: Seq<ExecutionResult>) -> bool {
    exists|i: int| 0 <= i < log.len() && triggers(policy, #[trigger] succeeded(log[i]))
}

/// Whether recording `r` after `log` is the completion that fires the latch.
pub open spec fn fires_on(policy: Policy, log: Seq<ExecutionResult>, r: ExecutionResult) -> bool {
    !gate_fired(policy, log) && triggers(policy, succeeded(r))
}

/// How many of the completions recorded in `log`, one after another, fired
/// the first-completion action.
pub open spec fn fire_count(policy: Policy, log: Seq<ExecutionResult>) -> nat
    decreases log.len(),
{
    if log.len() == 0 {
        0
    } else {
        fire_count(policy, log.drop_last()) + if fires_on(policy, log.drop_last(), log.last()) {
            1nat
        } else {
            0nat
        }
    }
}

/// Whether `log` holds a result of unit `u`.
pub open spec fn reports(log: Seq<ExecutionResult>, u: int) -> bool {
    exists|i: int| 0 <= i < log.len() && #[trigger] log[i].unit == u
}

/// A log of a run over `total` units: each result names a unit of the list,
/// no unit twice, and carries its own position as its completion order.
pub open spec fn valid_log(total: nat, log: Seq<ExecutionResult>) -> bool {
    &&& log.len() <= total
    &&& forall|i: int| 0 <= i < log.len() ==> (#[trigger] log[i]).unit < total
    &&& forall|i: int| 0 <= i < log.len() ==> (#[trigger] log[i]).completion_order == i
    &&& forall|i: int, j: int|
        0 <= i < log.len() && 0 <= j < log.len() && i != j ==> log[i].unit != log[j].unit
}

/// Whether a completion of `unit` is taken in state `v`.
pub open spec fn accepts(v: RunView, unit: usize) -> bool {
    v.started && unit < v.total && !reports(v.log, unit as int)
}

/// The error for a completion of `unit` that state `v` refuses.
pub open spec fn refusal(v: RunView, unit: usize) -> RunError {
    if !v.started {
        RunError::NotStarted
    } else if unit >= v.total {
        RunError::UnknownUnit
    } else {
        RunError::DuplicateUnit
    }
}

/// The result recorded for a completion taken in state `v`.
pub open spec fn record_of(v: RunView, unit: usize, outcome: Result<String, String>) -> ExecutionResult {
    ExecutionResult { unit, outcome, completion_order: v.log.len() as usize }
}

/// The state after a completion of `unit` with `outcome` is handed to a
/// coordinator in state `v`: recorded if taken, ignored if refused.
pub open spec fn step(v: RunView, unit: usize, outcome: Result<String, String>) -> RunView {
    if accepts(v, unit) {
        RunView { log: v.log.push(record_of(v, unit, outcome)), ..v }
    } else {
        v
    }
}

/// The state after handing `events` (unit, outcome), in order, to a
/// coordinator in state `v`.
pub open spec fn replay(v: RunView, events: Seq<(usize, Result<String, String>)>) -> RunView
    decreases events.len(),
{
    if events.len() == 0 {
        v
    } else {
        let prev = replay(v, events.drop_last());
        step(prev, events.last().0, events.last().1)
    }
}

/// Composes the task runner's completions with the winner gate: records each
/// result in completion order, says when the first-completion hook runs, and
/// says when the all-completion hook runs. One per run.
#[derive(Debug)]
pub struct RunCoordinator {
    gate: WinnerGate,
    total: usize,
    started: bool,
    reported: Vec<bool>,
    results: Vec<ExecutionResult>,
}

impl View for RunCoordinator {
    type V = RunView;

    closed spec fn view(&self) -> RunView {
        RunView {
            total: self.total as nat,
            policy: self.gate.spec_policy(),
            started: self.started,
            log: self.results@,
        }
    }
}

/// Distinct numbers below `total` are at most `total` many, and exactly
/// `total` many of them are all of `0..total`.
proof fn lemma_distinct_below(total: nat, units: Seq<int>)
    requires
        forall|i: int| 0 <= i < units.len() ==> 0 <= #[trigger] units[i] < total,
        units.no_duplicates(),
    ensures
        units.len() <= total,
        units.len() == total ==> forall|u: int| 0 <= u < total ==> units.contains(u),
{
    units.unique_seq_to_set();
    let range = set_int_range(0, total as int);
    lemma_int_range(0, total as int);
    assert(units.to_set().subset_of(range));
    lemma_len_subset(units.to_set(), range);
    if units.len() == total {
        lemma_subset_equality(units.to_set(), range);
        assert forall|u: int| 0 <= u < total implies units.contains(u) by {
            assert(range.contains(u));
            assert(units.to_set().contains(u));
        }
    }
}

/// A log of distinct units below `total` has at most `total` entries, and
/// with exactly `total` entries it holds every unit.
pub proof fn lemma_full_log_reports_every_unit(total: nat, log: Seq<ExecutionResult>)
    requires
        forall|i: int| 0 <= i < log.len() ==> (#[trigger] log[i]).unit < total,
        forall|i: int, j: int|
            0 <= i < log.len() && 0 <= j < log.len() && i != j ==> log[i].unit != log[j].unit,
    ensures
        log.len() <= total,
        log.len() == total ==> forall|u: int| 0 <= u < total ==> reports(log, u),
{
    let units = log.map_values(|r: ExecutionResult| r.unit as int);
    assert forall|i: int| 0 <= i < units.len() implies 0 <= #[trigger] units[i] < total by {
        assert(log[i].unit < total);
    }
    assert(units.no_duplicates()) by {
        assert forall|i: int, j: int| 0 <= i < units.len() && 0 <= j < units.len() && i != j
            implies units[i] != units[j] by {
            assert(log[i].unit != log[j].unit);
        }
    }
    lemma_distinct_below(total, units);
    if log.len() == total {
        assert forall|u: int| 0 <= u < total implies reports(log, u) by {
            assert(units.contains(u));
            let i = choose|i: int| 0 <= i < units.len() && units[i] == u;
            assert(log[i].unit == u);
        }
    }
}

/// Whether the latch has fired after a log, and how many times it fired on the
/// way there, agree: once if it fired, never otherwise.
pub proof fn lemma_fire_count_matches_gate(policy: Policy, log: Seq<ExecutionResult>)
    ensures
        fire_count(policy, log) == if gate_fired(policy, log) {
            1nat
        } else {
            0nat
        },
    decreases log.len(),
{
    if log.len() > 0 {
        let pre = log.drop_last();
        lemma_fire_count_matches_gate(policy, pre);
        assert(pre.push(log.last()) =~= log);
        if gate_fired(policy, pre) {
            let i = choose|i: int| 0 <= i < pre.len() && triggers(policy, #[trigger] succeeded(pre[i]));
            assert(log[i] == pre[i]);
        }
        if triggers(policy, succeeded(log.last())) {
            assert(triggers(policy, succeeded(log[log.len() - 1])));
        }
        if gate_fired(policy, log) {
            let i = choose|i: int| 0 <= i < log.len() && triggers(policy, #[trigger] succeeded(log[i]));
            if i < pre.len() {
                assert(pre[i] == log[i]);
            }
        }
    }
}

/// For any number of completions racing in any order, the first-completion
/// action fires at most once over the whole run.
pub proof fn lemma_fires_at_most_once(policy: Policy, log: Seq<ExecutionResult>)
    ensures
        fire_count(policy, log) <= 1,
{
    lemma_fire_count_matches_gate(policy, log);
}

/// Under the default policy, a run with at least one completion fires the
/// first-completion action exactly once, and on the first completion
/// recorded, whatever its outcome.
pub proof fn lemma_exactly_once_firing(log: Seq<ExecutionResult>)
    requires
        log.len() >= 1,
    ensures
        fire_count(Policy::AnyResult, log) == 1,
        fires_on(Policy::AnyResult, log.take(0), log[0]),
{
    lemma_fire_count_matches_gate(Policy::AnyResult, log);
    assert(triggers(Policy::AnyResult, succeeded(log[0])));
}

/// Under the success-only policy the action fires exactly once when some
/// unit succeeded, and never when all failed.
pub proof fn lemma_first_success_fires_iff_success(log: Seq<ExecutionResult>)
    ensures
        fire_count(Policy::FirstSuccess, log) == 1 <==> exists|i: int|
            0 <= i < log.len() && #[trigger] succeeded(log[i]),
        fire_count(Policy::FirstSuccess, log) <= 1,
{
    lemma_fire_count_matches_gate(Policy::FirstSuccess, log);
    if exists|i: int| 0 <= i < log.len() && #[trigger] succeeded(log[i]) {
        let i = choose|i: int| 0 <= i < log.len() && #[trigger] succeeded(log[i]);
        assert(triggers(Policy::FirstSuccess, succeeded(log[i])));
    }
}

/// Once every unit's result is recorded, every unit of the list is reported,
/// and no further completion is taken: the all-completion hook comes after
/// all results and only once.
pub proof fn lemma_all_completion_after_every_unit(v: RunView, unit: usize)
    requires
        valid_log(v.total, v.log),
        v.log.len() == v.total,
    ensures
        forall|u: int| 0 <= u < v.total ==> reports(v.log, u),
        !accepts(v, unit),
{
    lemma_full_log_reports_every_unit(v.total, v.log);
    if unit < v.total {
        assert(reports(v.log, unit as int));
    }
}

/// With no units, no completion is ever taken, so the first-completion
/// action never fires and the summary stays empty.
pub proof fn lemma_no_units_no_first_completion(v: RunView, unit: usize)
    requires
        v.total == 0,
    ensures
        !accepts(v, unit),
        forall|o: Result<String, String>| #[trigger] step(v, unit, o) == v,
{
}

/// Results are listed in the order their completions arrive, not in launch
/// order: after the completions `events` of distinct units of the list are
/// handed to a freshly started run, result `i` is the `i`-th completion.
pub proof fn lemma_summary_in_completion_order(v: RunView, events: Seq<(usize, Result<String, String>)>)
    requires
        v.started,
        v.log.len() == 0,
        v.total <= usize::MAX,
        forall|i: int| 0 <= i < events.len() ==> (#[trigger] events[i]).0 < v.total,
        forall|i: int, j: int|
            0 <= i < events.len() && 0 <= j < events.len() && i != j ==> events[i].0 != events[j].0,
    ensures
        replay(v, events).log.len() == events.len(),
        forall|i: int| 0 <= i < events.len() ==> {
            &&& (#[trigger] replay(v, events).log[i]).unit == events[i].0
            &&& replay(v, events).log[i].outcome == events[i].1
            &&& replay(v, events).log[i].completion_order == i
        },
        replay(v, events).total == v.total,
        replay(v, events).policy == v.policy,
        replay(v, events).started,
    decreases events.len(),
{
    if events.len() > 0 {
        let pre = events.drop_last();
        lemma_summary_in_completion_order(v, pre);
        let units = events.map_values(|e: (usize, Result<String, String>)| e.0 as int);
        assert forall|i: int| 0 <= i < units.len() implies 0 <= #[trigger] units[i] < v.total by {
            assert(events[i].0 < v.total);
        }
        assert(units.no_duplicates()) by {
            assert forall|i: int, j: int| 0 <= i < units.len() && 0 <= j < units.len() && i != j
                implies units[i] != units[j] by {
                assert(events[i].0 != events[j].0);
            }
        }
        lemma_distinct_below(v.total, units);
        let prev = replay(v, pre);
        let last = events.last();
        assert(events[events.len() - 1] == last);
        assert(!reports(prev.log, last.0 as int)) by {
            if reports(prev.log, last.0 as int) {
                let i = choose|i: int| 0 <= i < prev.log.len() && #[trigger] prev.log[i].unit == last.0;
                assert(pre[i] == events[i]);
            }
        }
        assert forall|i: int| 0 <= i < pre.len() implies (#[trigger] events[i]) == pre[i] by {}
        assert(accepts(prev, last.0));
        let log = replay(v, events).log;
        assert(log == prev.log.push(record_of(prev, last.0, last.1)));
        assert forall|i: int| 0 <= i < events.len() implies {
            &&& (#[trigger] replay(v, events).log[i]).unit == events[i].0
            &&& replay(v, events).log[i].outcome == events[i].1
            &&& replay(v, events).log[i].completion_order == i
        } by {
            if i < pre.len() {
                assert(log[i] == prev.log[i]);
                assert(prev.log[i].unit == pre[i].0);
            }
        }
    }
}

impl RunCoordinator {
    pub closed spec fn wf(&self) -> bool {
        &&& self.reported@.len() == self.total
        &&& forall|u: int| 0 <= u < self.total ==> self.reported@[u] == reports(self.results@, u)
        &&& valid_log(self.total as nat, self.results@)
        &&& self.gate.spec_fired() == gate_fired(self.gate.spec_policy(), self.results@)
        &&& !self.started ==> self.results@.len() == 0
    }

    /// A coordinator for a run over `total` units, not yet started.
    pub fn new(total: usize, policy: Policy) -> (c: RunCoordinator)
        ensures
            c.wf(),
            c@.total == total,
            c@.policy == policy,
            !c@.started,
            c@.log.len() == 0,
    {
        let mut reported: Vec<bool> = Vec::new();
        let mut k: usize = 0;
        while k < total
            invariant
                k <= total,
                reported@.len() == k,
                forall|u: int| 0 <= u < k ==> !reported@[u],
            decreases total - k,
        {
            reported.push(false);
            k = k + 1;
        }
        RunCoordinator {
            gate: WinnerGate::new(policy),
            total,
            started: false,
            reported,
            results: Vec::new(),
        }
    }

    /// Marks the run as launched. With no units at all the run is over at
    /// once: the all-completion hook runs and the first-completion hook never
    /// does.
    pub fn start(&mut self) -> (r: Result<Actions, RunError>)
        requires
            old(self).wf(),
        ensures
            final(self).wf(),
            old(self)@.started ==> r == Err::<Actions, RunError>(RunError::AlreadyStarted)
                && final(self)@ == old(self)@,
            !old(self)@.started ==> r == Ok::<Actions, RunError>(
                Actions { fire_first: false, fire_all: old(self)@.total == 0 },
            ) && final(self)@ == (RunView { started: true, ..old(self)@ }),
    {
        if self.started {
            return Err(RunError::AlreadyStarted);
        }
        self.started = true;
        Ok(Actions { fire_first: false, fire_all: self.total == 0 })
    }

    /// Records the completion of `unit` with `outcome`, as the next one in
    /// completion order, and says which hooks to run now.
    pub fn complete(&mut self, unit: usize, outcome: Result<String, String>) -> (r: Result<Actions, RunError>)
        requires
            old(self).wf(),
        ensures
            final(self).wf(),
            valid_log(final(self)@.total, final(self)@.log),
            r is Ok <==> accepts(old(self)@, unit),
            final(self)@ == step(old(self)@, unit, outcome),
            match r {
                Err(e) => e == refusal(old(self)@, unit) && final(self)@ == old(self)@,
                Ok(a) => {
                    &&& final(self)@ == (RunView {
                        log: old(self)@.log.push(record_of(old(self)@, unit, outcome)),
                        ..old(self)@
                    })
                    &&& a.fire_first == fires_on(old(self)@.policy, old(self)@.log, record_of(old(self)@, unit, outcome))
                    &&& fire_count(final(self)@.policy, final(self)@.log)
                        == fire_count(old(self)@.policy, old(self)@.log) + if a.fire_first { 1nat } else { 0nat }
                    &&& a.fire_all == (final(self)@.log.len() == final(self)@.total)
                    &&& a.fire_all ==> forall|u: int| 0 <= u < final(self)@.total ==> reports(final(self)@.log, u)
                },
            },
    {
        if !self.started {
            return Err(RunError::NotStarted);
        }
        if unit >= self.total {
            return Err(RunError::UnknownUnit);
        }
        if self.reported[unit] {
            return Err(RunError::DuplicateUnit);
        }
        proof {
            lemma_full_log_reports_every_unit(self.total as nat, self.results@);
        }
        let ghost old_log = self.results@;
        let ghost policy = self.gate.spec_policy();
        let ok = outcome.is_ok();
        let fire_first = self.gate.observe(ok);
        let order = self.results.len();
        let rec = ExecutionResult { unit, outcome, completion_order: order };
        self.results.push(rec);
        self.reported.set(unit, true);
        let fire_all = self.results.len() == self.total;
        proof {
            let log = self.results@;
            assert(log.drop_last() =~= old_log);
            assert(log[log.len() - 1].unit == unit);
            assert forall|u: int| 0 <= u < self.total implies self.reported@[u] == reports(log, u) by {
                if reports(old_log, u) {
                    let i = choose|i: int| 0 <= i < old_log.len() && #[trigger] old_log[i].unit == u;
                    assert(log[i] == old_log[i]);
                }
                if reports(log, u) && u != unit {
                    let i = choose|i: int| 0 <= i < log.len() && #[trigger] log[i].unit == u;
                    assert(old_log[i] == log[i]);
                }
            }
            assert forall|i: int, j: int| 0 <= i < log.len() && 0 <= j < log.len() && i != j
                implies log[i].unit != log[j].unit by {
                if i == old_log.len() as int {
                    assert(!reports(old_log, unit as int));
                    assert(old_log[j] == log[j]);
                } else if j == old_log.len() as int {
                    assert(!reports(old_log, unit as int));
                    assert(old_log[i] == log[i]);
                }
            }
            if gate_fired(policy, old_log) {
                let i = choose|i: int| 0 <= i < old_log.len() && triggers(policy, #[trigger] succeeded(old_log[i]));
                assert(log[i] == old_log[i]);
            }
            if triggers(policy, ok) {
                assert(triggers(policy, succeeded(log[log.len() - 1])));
            }
            if gate_fired(policy, log) {
                let i = choose|i: int| 0 <= i < log.len() && triggers(policy, #[trigger] succeeded(log[i]));
                if i < old_log.len() {
                    assert(old_log[i] == log[i]);
                }
            }
            lemma_full_log_reports_every_unit(self.total as nat, log);
        }
        Ok(Actions { fire_first, fire_all })
    }

    /// Whether every unit's result has been recorded.
    pub fn is_complete(&self) -> (b: bool)
        requires
            self.wf(),
        ensures
            b == (self@.started && self@.log.len() == self@.total),
    {
        self.started && self.results.len() == self.total
    }

    /// Whether the first-completion hook has been called for.
    pub fn first_fired(&self) -> (b: bool)
        requires
            self.wf(),
        ensures
            b == gate_fired(self@.policy, self@.log),
    {
        self.gate.is_fired()
    }

    /// The results recorded so far, in completion order.
    pub fn summary(&self) -> (s: &Vec<ExecutionResult>)
        requires
            self.wf(),
        ensures
            s@ == self@.log,
            valid_log(self@.total, s@),
    {
        &self.results
    }

    /// Hands the recorded results over, in completion order.
    pub fn into_summary(self) -> (s: Vec<ExecutionResult>)
        requires
            self.wf(),
        ensures
            s@ == self@.log,
            valid_log(self@.total, s@),
    {
        self.results
    }
}

} // verus!
