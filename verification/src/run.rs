//! The course of a run: which file is moved next, what is counted, and when
//! the run stops.
//!
//! The files are numbered from 0 in the order in which they were listed. The
//! caller asks for the next file, tries to move it and reports how that went;
//! the run counts the files that were moved and stops at the first failure
//! unless failures are to be skipped.
use vstd::prelude::*;
use crate::mover::MoveError;

verus! {

/// The state of a run over `total` files.
#[derive(Clone, Copy, Debug, PartialEq, Eq)]
pub struct MoveRun {
    total: usize,
    skip_error: bool,
    attempted: usize,
    moved: usize,
    halted: bool,
}

/// The mathematical value of a [`MoveRun`].
pub struct RunView {
    /// How many files there are to move.
    pub total: nat,
    /// Whether the run goes on after a failure.
    pub skip_error: bool,
    /// How many files the run has tried to move.
    pub attempted: nat,
    /// How many of them were moved.
    pub moved: nat,
    /// Whether a failure has stopped the run.
    pub halted: bool,
}

impl View for MoveRun {
    type V = RunView;

    closed spec fn view(&self) -> RunView {
        RunView {
            total: self.total as nat,
            skip_error: self.skip_error,
            attempted: self.attempted as nat,
            moved: self.moved as nat,
            halted: self.halted,
        }
    }
}

/// A run before its first move.
pub open spec fn start(total: nat, skip_error: bool) -> RunView {
    RunView { total, skip_error, attempted: 0, moved: 0, halted: false }
}

/// The number of the file to move next; none once the run has stopped or
/// has been through all files.
pub open spec fn pending(run: RunView) -> Option<nat> {
    if !run.halted && run.attempted < run.total {
        Some(run.attempted)
    } else {
        None
    }
}

/// The run after the pending move turned out as `moved` says. A success is
/// counted; a failure stops the run unless failures are skipped. A run with
/// nothing pending stays as it is.
pub open spec fn after(run: RunView, moved: bool) -> RunView {
    if pending(run) is None {
        run
    } else if moved {
        RunView { attempted: run.attempted + 1, moved: run.moved + 1, ..run }
    } else {
        RunView { attempted: run.attempted + 1, halted: !run.skip_error, ..run }
    }
}

/// The run carried through to its end, where `outcomes[i]` says whether
/// file `i` can be moved.
pub open spec fn finish(run: RunView, outcomes: Seq<bool>) -> RunView
    decreases run.total - run.attempted,
{
    match pending(run) {
        Some(index) => if index < outcomes.len() {
            finish(after(run, outcomes[index as int]), outcomes)
        } else {
            run
        },
        None => run,
    }
}

/// How many of `outcomes` are successes.
pub open spec fn successes(outcomes: Seq<bool>) -> nat {
    outcomes.filter(|moved: bool| moved).len()
}

/// No failure stands before place `at`.
pub open spec fn all_moved_before(outcomes: Seq<bool>, at: int) -> bool {
    forall|i: int| 0 <= i < at && i < outcomes.len() ==> #[trigger] outcomes[i]
}

impl MoveRun {
    #[verifier::type_invariant]
    spec fn in_bounds(&self) -> bool {
        self.moved <= self.attempted <= self.total
    }

    /// A run over `total` files, before its first move.
    pub fn new(total: usize, skip_error: bool) -> (run: MoveRun)
        ensures
            run@ == start(total as nat, skip_error),
    {
        MoveRun { total, skip_error, attempted: 0, moved: 0, halted: false }
    }

    /// The number of the file to move next, if there is one.
    pub fn next(&self) -> (index: Option<usize>)
        ensures
            match index {
                Some(i) => pending(self@) == Some(i as nat),
                None => pending(self@) is None,
            },
    {
        if !self.halted && self.attempted < self.total {
            Some(self.attempted)
        } else {
            None
        }
    }

    /// Takes note of how the pending move went.
    pub fn record(&mut self, outcome: &Result<(), MoveError>)
        ensures
            final(self)@ == after(old(self)@, outcome is Ok),
    {
        proof {
            use_type_invariant(&*self);
        }
        if self.halted || self.attempted >= self.total {
            return ;
        }
        self.attempted = self.attempted + 1;
        match outcome {
            Ok(_) => {
                self.moved = self.moved + 1;
            },
            Err(_) => {
                self.halted = !self.skip_error;
            },
        }
    }

    /// How many files there are to move.
    pub fn total(&self) -> (total: usize)
        ensures
            total == self@.total,
    {
        self.total
    }

    /// Whether the run goes on after a failure.
    pub fn skip_error(&self) -> (skip_error: bool)
        ensures
            skip_error == self@.skip_error,
    {
        self.skip_error
    }

    /// How many files the run has tried to move.
    pub fn attempted(&self) -> (attempted: usize)
        ensures
            attempted == self@.attempted,
    {
        self.attempted
    }

    /// How many files were moved.
    pub fn moved(&self) -> (moved: usize)
        ensures
            moved == self@.moved,
    {
        self.moved
    }

    /// Whether a failure has stopped the run before its end.
    pub fn stopped_early(&self) -> (halted: bool)
        ensures
            halted == self@.halted,
    {
        self.halted
    }
}

/// One more outcome adds one to the successes if it is one.
proof fn successes_step(outcomes: Seq<bool>, n: int)
    requires
        0 <= n < outcomes.len(),
    ensures
        successes(outcomes.take(n + 1)) == successes(outcomes.take(n)) + if outcomes[n] {
            1nat
        } else {
            0nat
        },
{
    let longer = outcomes.take(n + 1);
    assert(longer.drop_last() =~= outcomes.take(n));
    reveal(Seq::filter);
}

/// Where nothing failed before place `n`, the first `n` outcomes are `n`
/// successes.
proof fn successes_without_failure(outcomes: Seq<bool>, n: int)
    requires
        0 <= n <= outcomes.len(),
        all_moved_before(outcomes, n),
    ensures
        successes(outcomes.take(n)) == n,
    decreases n,
{
    if n == 0 {
        reveal(Seq::filter);
    } else {
        successes_without_failure(outcomes, n - 1);
        successes_step(outcomes, n - 1);
    }
}

/// What holds of a run at every moment, if the moves turn out as
/// `outcomes` says: it has counted the successes among the files it tried,
/// it has stopped only on a failure that was not to be skipped, and where
/// failures are not skipped none stands before the last file it tried.
pub open spec fn agrees_with(run: RunView, outcomes: Seq<bool>) -> bool {
    &&& run.attempted <= run.total == outcomes.len()
    &&& run.moved == successes(outcomes.take(run.attempted as int))
    &&& run.halted ==> !run.skip_error && run.attempted > 0 && !outcomes[run.attempted - 1]
    &&& !run.skip_error ==> all_moved_before(
        outcomes,
        if run.halted {
            run.attempted - 1
        } else {
            run.attempted as int
        },
    )
}

/// One move keeps the run in agreement with the outcomes.
pub proof fn step_agrees(run: RunView, outcomes: Seq<bool>)
    requires
        agrees_with(run, outcomes),
        pending(run) is Some,
    ensures
        agrees_with(after(run, outcomes[run.attempted as int]), outcomes),
{
    successes_step(outcomes, run.attempted as int);
}

/// A run carried through ends with nothing pending, in agreement with the
/// outcomes, over the same files and with the same policy.
pub proof fn finish_agrees(run: RunView, outcomes: Seq<bool>)
    requires
        agrees_with(run, outcomes),
    ensures
        agrees_with(finish(run, outcomes), outcomes),
        pending(finish(run, outcomes)) is None,
        finish(run, outcomes).total == run.total,
        finish(run, outcomes).skip_error == run.skip_error,
    decreases run.total - run.attempted,
{
    if pending(run) is Some {
        step_agrees(run, outcomes);
        finish_agrees(after(run, outcomes[run.attempted as int]), outcomes);
    }
}

/// A run before its first move agrees with any outcomes.
pub proof fn start_agrees(total: nat, skip_error: bool, outcomes: Seq<bool>)
    requires
        outcomes.len() == total,
    ensures
        agrees_with(start(total, skip_error), outcomes),
{
    reveal(Seq::filter);
}

/// However the moves turn out, a run ends with nothing pending, having
/// tried the files up to some place and counted exactly the successes among
/// them.
pub proof fn run_counts_the_moved(total: nat, skip_error: bool, outcomes: Seq<bool>)
    requires
        outcomes.len() == total,
    ensures
        ({
            let end = finish(start(total, skip_error), outcomes);
            &&& pending(end) is None
            &&& end.attempted <= total
            &&& end.moved == successes(outcomes.take(end.attempted as int))
            &&& end.moved <= end.attempted
        }),
{
    start_agrees(total, skip_error, outcomes);
    finish_agrees(start(total, skip_error), outcomes);
    let end = finish(start(total, skip_error), outcomes);
    outcomes.take(end.attempted as int).lemma_filter_len(|moved: bool| moved);
}

/// A run that does not skip failures stops at the first one: it has tried
/// the files up to and with the one that failed, has moved those before it,
/// and asks for none of those after it.
pub proof fn run_stops_at_first_failure(total: nat, outcomes: Seq<bool>, at: int)
    requires
        outcomes.len() == total,
        0 <= at < total,
        !outcomes[at],
        all_moved_before(outcomes, at),
    ensures
        ({
            let end = finish(start(total, false), outcomes);
            &&& end.halted
            &&& end.attempted == at + 1
            &&& end.moved == at
            &&& pending(end) is None
        }),
{
    start_agrees(total, false, outcomes);
    finish_agrees(start(total, false), outcomes);
    successes_without_failure(outcomes, at);
    successes_step(outcomes, at);
}

/// A run that skips failures tries every file and counts every success.
pub proof fn run_skipping_failures_tries_all(total: nat, outcomes: Seq<bool>)
    requires
        outcomes.len() == total,
    ensures
        ({
            let end = finish(start(total, true), outcomes);
            &&& !end.halted
            &&& end.attempted == total
            &&& end.moved == successes(outcomes)
        }),
{
    start_agrees(total, true, outcomes);
    finish_agrees(start(total, true), outcomes);
    assert(outcomes.take(total as int) =~= outcomes);
}

/// A run in which nothing fails moves every file, under either policy.
pub proof fn run_without_failure_moves_all(total: nat, skip_error: bool, outcomes: Seq<bool>)
    requires
        outcomes.len() == total,
        all_moved_before(outcomes, total as int),
    ensures
        ({
            let end = finish(start(total, skip_error), outcomes);
            &&& !end.halted
            &&& end.attempted == total
            &&& end.moved == total
        }),
{
    start_agrees(total, skip_error, outcomes);
    finish_agrees(start(total, skip_error), outcomes);
    successes_without_failure(outcomes, total as int);
}

} // verus!
