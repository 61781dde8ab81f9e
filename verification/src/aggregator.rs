//! The aggregation run: both summary tables recomputed from all stored
//! events and put in place of the previous ones, all or nothing.
//!
//! Against the in-memory store a run is one call. Against a transactional
//! store it is a fixed sequence of steps inside one transaction; the steps
//! and what follows from the outcome of each are given by [`Phase`].

use vstd::prelude::*;
use crate::store::{Db, DbState};
use crate::summary::{efficiency_stats, efficiency_table, stability_stats, stability_table};

verus! {

/// The store after a run: the events as they were, both tables recomputed
/// from them.
pub open spec fn recomputed(state: DbState) -> DbState {
    DbState {
        events: state.events,
        efficiency: efficiency_table(state.events),
        stability: stability_table(state.events),
    }
}

/// Recomputes both summary tables from the stored events and replaces the
/// previous tables with them. The events are left as they are.
pub fn run_aggregation(db: &mut Db)
    requires
        old(db).wf(),
    ensures
        final(db).wf(),
        final(db)@ == recomputed(old(db)@),
{
    let efficiency = efficiency_stats(db.events());
    let stability = stability_stats(db.events());
    db.replace_summaries(efficiency, stability);
}

/// Where a run inside a transaction stands: the step to take next, or how
/// the run ended.
#[derive(Clone, Copy, Debug, PartialEq, Eq, Structural)]
pub enum Phase {
    /// Open the transaction.
    Begin,
    /// Delete every row of the efficiency table.
    ClearEfficiency,
    /// Insert the recomputed rows of the efficiency table.
    FillEfficiency,
    /// Delete every row of the stability table.
    ClearStability,
    /// Insert the recomputed rows of the stability table.
    FillStability,
    /// Commit the transaction.
    Commit,
    /// The transaction is committed: the new tables are in place.
    Done,
    /// A step failed: the transaction is rolled back and the previous tables
    /// stand.
    Failed,
}

/// How many steps a run has.
pub const STEPS: usize = 6;

/// The phase that follows `phase` once its step has succeeded or failed. A
/// failure ends the run; a run that has ended stays as it is.
pub open spec fn phase_after(phase: Phase, succeeded: bool) -> Phase {
    match phase {
        Phase::Done => Phase::Done,
        Phase::Failed => Phase::Failed,
        _ => if !succeeded {
            Phase::Failed
        } else {
            match phase {
                Phase::Begin => Phase::ClearEfficiency,
                Phase::ClearEfficiency => Phase::FillEfficiency,
                Phase::FillEfficiency => Phase::ClearStability,
                Phase::ClearStability => Phase::FillStability,
                Phase::FillStability => Phase::Commit,
                _ => Phase::Done,
            }
        },
    }
}

/// The phase reached from `Begin` after the given outcomes of steps, in
/// order.
pub open spec fn phase_reached(outcomes: Seq<bool>) -> Phase
    decreases outcomes.len(),
{
    if outcomes.len() == 0 {
        Phase::Begin
    } else {
        phase_after(phase_reached(outcomes.drop_last()), outcomes.last())
    }
}

/// The tables that a reader of a transactional store sees while a run
/// stands at `phase`: the recomputed ones once the run is committed, the
/// previous ones at every other time.
pub open spec fn visible(before: DbState, phase: Phase) -> DbState {
    if phase == Phase::Done {
        recomputed(before)
    } else {
        before
    }
}

impl Phase {
    /// The phase in which every run starts.
    pub fn start() -> (p: Phase)
        ensures
            p == Phase::Begin,
    {
        Phase::Begin
    }

    /// Whether the run has ended.
    pub fn is_over(&self) -> (r: bool)
        ensures
            r == (*self == Phase::Done || *self == Phase::Failed),
    {
        match self {
            Phase::Done => true,
            Phase::Failed => true,
            _ => false,
        }
    }

    /// The phase that follows once the step of this phase has succeeded or
    /// failed.
    pub fn after(&self, succeeded: bool) -> (p: Phase)
        ensures
            p == phase_after(*self, succeeded),
    {
        match self {
            Phase::Done => Phase::Done,
            Phase::Failed => Phase::Failed,
            _ => {
                if !succeeded {
                    Phase::Failed
                } else {
                    match self {
                        Phase::Begin => Phase::ClearEfficiency,
                        Phase::ClearEfficiency => Phase::FillEfficiency,
                        Phase::FillEfficiency => Phase::ClearStability,
                        Phase::ClearStability => Phase::FillStability,
                        Phase::FillStability => Phase::Commit,
                        _ => Phase::Done,
                    }
                }
            },
        }
    }
}

/// What a run has reached after some outcomes: it is committed exactly when
/// its first six steps all succeeded, and has failed exactly when one of
/// them did not.
pub proof fn run_commits_iff_all_steps_succeed(outcomes: Seq<bool>)
    ensures
        phase_reached(outcomes) == Phase::Done <==> (outcomes.len() >= STEPS && forall|i: int|
            0 <= i < STEPS ==> outcomes[i]),
        phase_reached(outcomes) == Phase::Failed <==> exists|i: int|
            0 <= i < outcomes.len() && i < STEPS && !outcomes[i] && forall|j: int|
                0 <= j < i ==> outcomes[j],
    decreases outcomes.len(),
{
    reveal_with_fuel(phase_reached, 8);
    if outcomes.len() > 0 {
        let init = outcomes.drop_last();
        run_commits_iff_all_steps_succeed(init);
        run_progress(init);
        run_progress(outcomes);
        let n = init.len() as int;
        if phase_reached(init) == Phase::Failed {
            let i = choose|i: int|
                0 <= i < init.len() && i < STEPS && !init[i] && forall|j: int|
                    0 <= j < i ==> init[j];
            assert(!outcomes[i]);
            assert(forall|j: int| 0 <= j < i ==> outcomes[j] == init[j]);
        } else if phase_reached(init) == Phase::Done {
            assert(forall|i: int| 0 <= i < STEPS ==> outcomes[i] == init[i]);
        } else {
            assert(forall|j: int| 0 <= j < n ==> outcomes[j] == init[j]);
            if !outcomes.last() {
                assert(!outcomes[n]);
            }
        }
    }
}

/// While a run has not ended, every step so far has succeeded and the phase
/// tells how many there were.
pub proof fn run_progress(outcomes: Seq<bool>)
    ensures
        phase_reached(outcomes) != Phase::Done && phase_reached(outcomes) != Phase::Failed ==> {
            &&& outcomes.len() < STEPS
            &&& forall|i: int| 0 <= i < outcomes.len() ==> outcomes[i]
            &&& steps_taken(phase_reached(outcomes)) == outcomes.len()
        },
        phase_reached(outcomes) == Phase::Done ==> outcomes.len() >= STEPS && forall|i: int|
            0 <= i < STEPS ==> outcomes[i],
    decreases outcomes.len(),
{
    if outcomes.len() > 0 {
        let init = outcomes.drop_last();
        run_progress(init);
        if phase_reached(init) != Phase::Done && phase_reached(init) != Phase::Failed {
            assert(forall|i: int| 0 <= i < init.len() ==> outcomes[i] == init[i]);
        } else if phase_reached(init) == Phase::Done {
            assert(forall|i: int| 0 <= i < STEPS ==> outcomes[i] == init[i]);
        }
    }
}

/// How many steps have succeeded when a run stands at `phase`.
pub open spec fn steps_taken(phase: Phase) -> nat {
    match phase {
        Phase::Begin => 0,
        Phase::ClearEfficiency => 1,
        Phase::FillEfficiency => 2,
        Phase::ClearStability => 3,
        Phase::FillStability => 4,
        Phase::Commit => 5,
        Phase::Done => 6,
        Phase::Failed => 0,
    }
}

} // verus!
