//! What holds of the pipeline as a whole, proved from the contracts of its
//! parts.

use vstd::prelude::*;
use crate::aggregator::{phase_reached, recomputed, run_commits_iff_all_steps_succeed,
    visible, STEPS};
use crate::event::Row;
use crate::grouping::{GroupKey, Grouping, first_seen, first_seen_complete, first_seen_distinct,
    group_key, keys_of, members};
use crate::insights::{coverage_of, snapshot_of};
use crate::measure::SCALE;
use crate::store::{DbState, ascending};
use crate::summary::{EfficiencyRow, StabilityRow, efficiency_table, stability_table, successes};

verus! {

/// No two stored events share an identifier.
pub proof fn identifiers_are_unique(events: Seq<Row>, i: int, j: int)
    requires
        ascending(events),
        0 <= i < events.len(),
        0 <= j < events.len(),
        i != j,
    ensures
        events[i].id != events[j].id,
{
    if i < j {
        assert(events[i].id < events[j].id);
    } else {
        assert(events[j].id < events[i].id);
    }
}

/// Appending a row whose identifier is greater than all before keeps the
/// identifiers ascending.
pub proof fn append_keeps_order(events: Seq<Row>, row: Row)
    requires
        ascending(events),
        forall|i: int| 0 <= i < events.len() ==> events[i].id < row.id,
    ensures
        ascending(events.push(row)),
{
}

/// A second run with no event stored in between leaves the store exactly as
/// the first run left it.
pub proof fn recompute_is_idempotent(state: DbState)
    ensures
        recomputed(recomputed(state)) == recomputed(state),
{
}

/// What a run computes depends on the stored events alone, not on the
/// tables that stood before.
pub proof fn recompute_ignores_previous_tables(a: DbState, b: DbState)
    requires
        a.events == b.events,
    ensures
        recomputed(a) == recomputed(b),
{
}

/// Whatever the outcomes of the steps of a run inside a transaction, a
/// reader sees either the previous tables or the recomputed ones, never a
/// mixture; it sees the recomputed ones exactly when all six steps
/// succeeded. The events are the same either way.
pub proof fn reader_sees_old_or_new(before: DbState, outcomes: Seq<bool>)
    ensures
        visible(before, phase_reached(outcomes)) == before || visible(
            before,
            phase_reached(outcomes),
        ) == recomputed(before),
        visible(before, phase_reached(outcomes)).events == before.events,
        (outcomes.len() >= STEPS && forall|i: int| 0 <= i < STEPS ==> outcomes[i]) ==> visible(
            before,
            phase_reached(outcomes),
        ) == recomputed(before),
        !(outcomes.len() >= STEPS && forall|i: int| 0 <= i < STEPS ==> outcomes[i]) ==> visible(
            before,
            phase_reached(outcomes),
        ) == before,
{
    run_commits_iff_all_steps_succeed(outcomes);
}

/// The number of jobs in a snapshot is the number of events stored at the
/// time of the query, whatever the summary tables hold.
pub proof fn coverage_counts_live_events(
    events: Seq<Row>,
    efficiency: Seq<EfficiencyRow>,
    stability: Seq<StabilityRow>,
)
    requires
        events.len() <= u64::MAX,
    ensures
        snapshot_of(events, efficiency, stability).coverage.total_jobs == events.len(),
        snapshot_of(events, efficiency, stability).coverage == coverage_of(events),
{
}

/// One more stored event is one more job in the next snapshot, with no run
/// in between.
pub proof fn coverage_follows_ingest(
    events: Seq<Row>,
    row: Row,
    efficiency: Seq<EfficiencyRow>,
    stability: Seq<StabilityRow>,
)
    requires
        events.len() < u64::MAX,
    ensures
        snapshot_of(events.push(row), efficiency, stability).coverage.total_jobs == snapshot_of(
            events,
            efficiency,
            stability,
        ).coverage.total_jobs + 1,
{
}

/// The key of row `i` of a summary of the given events.
pub open spec fn key_of_row(grouping: Grouping, events: Seq<Row>, i: int) -> GroupKey {
    first_seen(keys_of(grouping, events))[i]
}

/// Every row of a summary stands for at least one event, no two rows have
/// the same key, and every event that qualifies is counted in one row.
pub proof fn groups_partition_events(grouping: Grouping, events: Seq<Row>)
    ensures
        forall|i: int|
            0 <= i < first_seen(keys_of(grouping, events)).len() ==> members(
                grouping,
                events,
                #[trigger] key_of_row(grouping, events, i),
            ).len() >= 1,
        forall|i: int, j: int|
            0 <= i < j < first_seen(keys_of(grouping, events)).len() ==> key_of_row(
                grouping,
                events,
                i,
            ) != key_of_row(grouping, events, j),
        forall|e: int|
            0 <= e < events.len() && group_key(grouping, #[trigger] events[e]) is Some
                ==> first_seen(keys_of(grouping, events)).contains(
                group_key(grouping, events[e])->0,
            ),
{
    let keys = keys_of(grouping, events);
    let listed = first_seen(keys);
    first_seen_distinct(keys);
    assert forall|i: int| 0 <= i < listed.len() implies members(
        grouping,
        events,
        #[trigger] key_of_row(grouping, events, i),
    ).len() >= 1 by {
        let k = listed[i];
        first_seen_complete(keys, k);
        assert(listed.contains(k));
        let e = choose|e: int| 0 <= e < keys.len() && keys[e] == Some(k);
        let pred = |r: Row| group_key(grouping, r) == Some(k);
        assert(pred(events[e]));
        events.lemma_filter_contains(pred, e);
        let g = events.filter(pred);
        assert(g.contains(events[e]));
    }
    assert forall|e: int|
        0 <= e < events.len() && group_key(grouping, #[trigger] events[e]) is Some implies listed.contains(
        group_key(grouping, events[e])->0,
    ) by {
        let k = group_key(grouping, events[e])->0;
        first_seen_complete(keys, k);
        assert(keys[e] == Some(k));
    }
}

/// Every row of the efficiency table counts at least one sample, and its
/// success rate lies between nought and one.
pub proof fn efficiency_rows_are_sound(events: Seq<Row>, i: int)
    requires
        0 <= i < efficiency_table(events).len(),
    ensures
        efficiency_table(events)[i].sample_count >= 1,
        0 <= efficiency_table(events)[i].success_rate <= SCALE,
{
    groups_partition_events(Grouping::Efficiency, events);
    let k = key_of_row(Grouping::Efficiency, events, i);
    let g = members(Grouping::Efficiency, events, k);
    assert(g.len() >= 1);
    g.lemma_filter_len(|e: Row| e.payload.status == Some(crate::event::Status::Success));
    let s = successes(g) as int;
    let n = g.len() as int;
    assert(0 <= crate::measure::quotient(s * SCALE, n) <= SCALE) by (nonlinear_arith)
        requires
            0 <= s <= n,
            n >= 1,
            SCALE == 1_000_000,
    ;
}

/// Every row of the stability table counts at least one failure.
pub proof fn stability_rows_are_sound(events: Seq<Row>, i: int)
    requires
        0 <= i < stability_table(events).len(),
    ensures
        stability_table(events)[i].count >= 1,
{
    groups_partition_events(Grouping::Stability, events);
    let k = key_of_row(Grouping::Stability, events, i);
    assert(members(Grouping::Stability, events, k).len() >= 1);
}

} // verus!
