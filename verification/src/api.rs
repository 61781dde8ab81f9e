//! The query that serves the composed snapshot of a store.

use vstd::prelude::*;
use crate::insights::{LEADERBOARD_LIMIT, STABILITY_LIMIT, SCHEMA_VERSION, StatsResponse,
    failure_report_is_bounded_and_ordered, insights, leaderboard_is_bounded_and_ordered,
    snapshot_of};
use crate::store::Db;

verus! {

/// Composes the snapshot of the store: the coverage figures of the events as
/// they are now, the leaderboard and the failure report of the summary
/// tables as last computed. The store is left as it is.
pub fn get_insights(db: &Db) -> (r: StatsResponse)
    requires
        db.wf(),
    ensures
        r@ == snapshot_of(db@.events, db@.efficiency, db@.stability),
        r.schema == SCHEMA_VERSION,
        r.coverage.total_jobs == db@.events.len(),
        r.leaderboard@.len() <= LEADERBOARD_LIMIT,
        r.stability@.len() <= STABILITY_LIMIT,
{
    let efficiency = db.efficiency_stats();
    let stability = db.stability_stats();
    let n = efficiency.len();
    let m = stability.len();
    proof {
        leaderboard_is_bounded_and_ordered(db@.efficiency);
        assert forall|i: int| 0 <= i < db@.stability.len() implies (
        #[trigger] db@.stability[i]).count <= u64::MAX by {
            assert(db@.stability[i] == stability@[i]@);
        }
        failure_report_is_bounded_and_ordered(db@.stability);
    }
    insights(db.events(), efficiency, stability)
}

} // verus!
