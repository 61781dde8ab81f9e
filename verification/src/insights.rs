//! The read side: coverage figures, the leaderboard and the failure report,
//! composed into one snapshot.
//!
//! The leaderboard holds the rows of the efficiency table with the greatest
//! average speed, rows without an average last; the failure report holds the
//! rows of the stability table with the greatest count. An absent average is
//! reported as zero.

use vstd::prelude::*;
use crate::event::{RawEvent, Row, rows_of};
use crate::grouping::{Grouping, distinct_keys, first_seen_counts_distinct, group_heads, keys_of};
use crate::ranking::{descending_order, descending_order_sorts, is_descending, rank_top, top};
use crate::summary::{EfficiencyRow, EfficiencyStat, StabilityRow, StabilityStat, efficiency_rows,
    stability_rows};

verus! {

/// The version of the snapshot's layout.
pub const SCHEMA_VERSION: i32 = 1;

/// The greatest number of leaderboard entries in a snapshot.
pub const LEADERBOARD_LIMIT: usize = 50;

/// The greatest number of failure entries in a snapshot.
pub const STABILITY_LIMIT: usize = 20;

/// Live figures over the stored events.
#[derive(Clone, Copy, Debug, PartialEq, Eq, Structural)]
pub struct Coverage {
    pub total_jobs: u64,
    pub unique_hardware: u64,
}

/// One line of the leaderboard. `speed` and `reduction` count millionths.
#[derive(Debug)]
pub struct EfficiencyEntry {
    pub hardware: String,
    pub encoder: String,
    pub codec: String,
    pub res: String,
    pub speed: i64,
    pub reduction: i64,
    pub samples: u64,
}

/// What an [`EfficiencyEntry`] holds, as plain values.
pub ghost struct EfficiencyLine {
    pub hardware: Seq<char>,
    pub encoder: Seq<char>,
    pub codec: Seq<char>,
    pub res: Seq<char>,
    pub speed: i64,
    pub reduction: i64,
    pub samples: nat,
}

impl View for EfficiencyEntry {
    type V = EfficiencyLine;

    open spec fn view(&self) -> EfficiencyLine {
        EfficiencyLine {
            hardware: self.hardware@,
            encoder: self.encoder@,
            codec: self.codec@,
            res: self.res@,
            speed: self.speed,
            reduction: self.reduction,
            samples: self.samples as nat,
        }
    }
}

/// One line of the failure report.
#[derive(Debug)]
pub struct StabilityEntry {
    pub encoder: String,
    pub error: String,
    pub count: u64,
}

/// What a [`StabilityEntry`] holds, as plain values.
pub ghost struct StabilityLine {
    pub encoder: Seq<char>,
    pub error: Seq<char>,
    pub count: nat,
}

impl View for StabilityEntry {
    type V = StabilityLine;

    open spec fn view(&self) -> StabilityLine {
        StabilityLine { encoder: self.encoder@, error: self.error@, count: self.count as nat }
    }
}

/// The composed snapshot that a query returns.
#[derive(Debug)]
pub struct StatsResponse {
    pub schema: i32,
    pub coverage: Coverage,
    pub leaderboard: Vec<EfficiencyEntry>,
    pub stability: Vec<StabilityEntry>,
}

/// What a [`StatsResponse`] holds, as plain values.
pub ghost struct Snapshot {
    pub schema: i32,
    pub coverage: Coverage,
    pub leaderboard: Seq<EfficiencyLine>,
    pub stability: Seq<StabilityLine>,
}

impl View for StatsResponse {
    type V = Snapshot;

    open spec fn view(&self) -> Snapshot {
        Snapshot {
            schema: self.schema,
            coverage: self.coverage,
            leaderboard: self.leaderboard@.map_values(|e: EfficiencyEntry| e@),
            stability: self.stability@.map_values(|e: StabilityEntry| e@),
        }
    }
}

/// The coverage figures of a list of events: how many there are, and how
/// many distinct hardware models they name.
pub open spec fn coverage_of(events: Seq<Row>) -> Coverage
    recommends
        events.len() <= u64::MAX,
{
    Coverage {
        total_jobs: events.len() as u64,
        unique_hardware: distinct_keys(Grouping::Hardware, events).len() as u64,
    }
}

/// The metric by which the leaderboard ranks a row: its average speed, and
/// less than any speed where it has none.
pub open spec fn speed_rank(row: EfficiencyRow) -> i128 {
    match row.avg_speed {
        Some(v) => v as i128,
        None => (i64::MIN - 1) as i128,
    }
}

/// The metric by which the failure report ranks a row: its count.
pub open spec fn count_rank(row: StabilityRow) -> i128
    recommends
        row.count <= u64::MAX,
{
    row.count as i128
}

/// The leaderboard line of an efficiency row.
pub open spec fn efficiency_line(row: EfficiencyRow) -> EfficiencyLine {
    EfficiencyLine {
        hardware: row.hardware_model,
        encoder: row.encoder,
        codec: row.video_codec,
        res: row.resolution,
        speed: match row.avg_speed {
            Some(v) => v,
            None => 0,
        },
        reduction: match row.avg_size_reduction_pct {
            Some(v) => v,
            None => 0,
        },
        samples: row.sample_count,
    }
}

/// The report line of a stability row.
pub open spec fn stability_line(row: StabilityRow) -> StabilityLine {
    StabilityLine { encoder: row.encoder, error: row.error_type, count: row.count }
}

/// The leaderboard of an efficiency table.
pub open spec fn leaderboard_of(table: Seq<EfficiencyRow>) -> Seq<EfficiencyLine> {
    top(table.map_values(|r: EfficiencyRow| speed_rank(r)), LEADERBOARD_LIMIT as nat).map_values(
        |i: usize| efficiency_line(table[i as int]),
    )
}

/// The failure report of a stability table.
pub open spec fn failure_report_of(table: Seq<StabilityRow>) -> Seq<StabilityLine> {
    top(table.map_values(|r: StabilityRow| count_rank(r)), STABILITY_LIMIT as nat).map_values(
        |i: usize| stability_line(table[i as int]),
    )
}

/// The snapshot of a store that holds the given events and summary tables.
pub open spec fn snapshot_of(
    events: Seq<Row>,
    efficiency: Seq<EfficiencyRow>,
    stability: Seq<StabilityRow>,
) -> Snapshot {
    Snapshot {
        schema: SCHEMA_VERSION,
        coverage: coverage_of(events),
        leaderboard: leaderboard_of(efficiency),
        stability: failure_report_of(stability),
    }
}

/// Computes the coverage figures of a list of events.
pub fn coverage(events: &Vec<RawEvent>) -> (c: Coverage)
    ensures
        c == coverage_of(rows_of(events@)),
{
    let heads = group_heads(Grouping::Hardware, events);
    proof {
        first_seen_counts_distinct(Grouping::Hardware, rows_of(events@));
    }
    Coverage { total_jobs: events.len() as u64, unique_hardware: heads.len() as u64 }
}

/// Composes the leaderboard of an efficiency table.
pub fn leaderboard(table: &Vec<EfficiencyStat>) -> (lines: Vec<EfficiencyEntry>)
    ensures
        lines@.map_values(|e: EfficiencyEntry| e@) == leaderboard_of(efficiency_rows(table@)),
{
    let ghost rows = efficiency_rows(table@);
    let ghost metric = rows.map_values(|r: EfficiencyRow| speed_rank(r));
    let mut ranks: Vec<i128> = Vec::new();
    let mut i: usize = 0;
    while i < table.len()
        invariant
            0 <= i <= table@.len(),
            rows == efficiency_rows(table@),
            metric == rows.map_values(|r: EfficiencyRow| speed_rank(r)),
            ranks@ == metric.take(i as int),
        decreases table@.len() - i,
    {
        let r: i128 = match table[i].avg_speed {
            Some(v) => v as i128,
            None => i64::MIN as i128 - 1,
        };
        ranks.push(r);
        proof {
            assert(ranks@ =~= metric.take(i + 1));
        }
        i += 1;
    }
    proof {
        assert(ranks@ =~= metric);
        descending_order_sorts(metric);
    }
    let order = rank_top(&ranks, LEADERBOARD_LIMIT);
    let mut lines: Vec<EfficiencyEntry> = Vec::new();
    let mut j: usize = 0;
    while j < order.len()
        invariant
            0 <= j <= order@.len(),
            rows == efficiency_rows(table@),
            order@ == top(metric, LEADERBOARD_LIMIT as nat),
            metric.len() == table@.len(),
            is_descending(metric, descending_order(metric)),
            descending_order(metric).len() == metric.len(),
            lines@.len() == j,
            forall|h: int| 0 <= h < j ==> (#[trigger] lines@[h])@ == efficiency_line(rows[order@[h] as int]),
        decreases order@.len() - j,
    {
        let p = order[j];
        proof {
            assert(order@[j as int] == descending_order(metric)[j as int]);
            assert(p < table@.len());
        }
        let s = &table[p];
        lines.push(
            EfficiencyEntry {
                hardware: s.hardware_model.clone(),
                encoder: s.encoder.clone(),
                codec: s.video_codec.clone(),
                res: s.resolution.clone(),
                speed: match s.avg_speed {
                    Some(v) => v,
                    None => 0,
                },
                reduction: match s.avg_size_reduction_pct {
                    Some(v) => v,
                    None => 0,
                },
                samples: s.sample_count,
            },
        );
        j += 1;
    }
    proof {
        assert(lines@.map_values(|e: EfficiencyEntry| e@) =~= leaderboard_of(rows));
    }
    lines
}

/// Composes the failure report of a stability table.
pub fn failure_report(table: &Vec<StabilityStat>) -> (lines: Vec<StabilityEntry>)
    ensures
        lines@.map_values(|e: StabilityEntry| e@) == failure_report_of(stability_rows(table@)),
{
    let ghost rows = stability_rows(table@);
    let ghost metric = rows.map_values(|r: StabilityRow| count_rank(r));
    let mut ranks: Vec<i128> = Vec::new();
    let mut i: usize = 0;
    while i < table.len()
        invariant
            0 <= i <= table@.len(),
            rows == stability_rows(table@),
            metric == rows.map_values(|r: StabilityRow| count_rank(r)),
            ranks@ == metric.take(i as int),
        decreases table@.len() - i,
    {
        ranks.push(table[i].count as i128);
        proof {
            assert(ranks@ =~= metric.take(i + 1));
        }
        i += 1;
    }
    proof {
        assert(ranks@ =~= metric);
        descending_order_sorts(metric);
    }
    let order = rank_top(&ranks, STABILITY_LIMIT);
    let mut lines: Vec<StabilityEntry> = Vec::new();
    let mut j: usize = 0;
    while j < order.len()
        invariant
            0 <= j <= order@.len(),
            rows == stability_rows(table@),
            order@ == top(metric, STABILITY_LIMIT as nat),
            metric.len() == table@.len(),
            is_descending(metric, descending_order(metric)),
            descending_order(metric).len() == metric.len(),
            lines@.len() == j,
            forall|h: int| 0 <= h < j ==> (#[trigger] lines@[h])@ == stability_line(rows[order@[h] as int]),
        decreases order@.len() - j,
    {
        let p = order[j];
        proof {
            assert(order@[j as int] == descending_order(metric)[j as int]);
            assert(p < table@.len());
        }
        let s = &table[p];
        lines.push(
            StabilityEntry { encoder: s.encoder.clone(), error: s.error_type.clone(), count: s.count },
        );
        j += 1;
    }
    proof {
        assert(lines@.map_values(|e: StabilityEntry| e@) =~= failure_report_of(rows));
    }
    lines
}

/// Composes the snapshot of a store that holds the given events and summary
/// tables. The coverage figures are taken from the events as they are now,
/// whatever the tables were computed from.
pub fn insights(
    events: &Vec<RawEvent>,
    efficiency: &Vec<EfficiencyStat>,
    stability: &Vec<StabilityStat>,
) -> (r: StatsResponse)
    ensures
        r@ == snapshot_of(
            rows_of(events@),
            efficiency_rows(efficiency@),
            stability_rows(stability@),
        ),
{
    StatsResponse {
        schema: SCHEMA_VERSION,
        coverage: coverage(events),
        leaderboard: leaderboard(efficiency),
        stability: failure_report(stability),
    }
}

/// The leaderboard has at most fifty lines, each taken from a row of the
/// table, and the rows it takes stand by average speed from the greatest
/// down, rows without an average last.
pub proof fn leaderboard_is_bounded_and_ordered(table: Seq<EfficiencyRow>)
    requires
        table.len() <= usize::MAX,
    ensures
        leaderboard_of(table).len() <= LEADERBOARD_LIMIT,
        leaderboard_of(table).len() <= table.len(),
        forall|a: int, b: int|
            0 <= a < b < leaderboard_of(table).len() ==> speed_rank(
                table[#[trigger] picked_efficiency(table, a)],
            ) >= speed_rank(table[#[trigger] picked_efficiency(table, b)]),
        forall|a: int|
            0 <= a < leaderboard_of(table).len() ==> 0 <= #[trigger] picked_efficiency(table, a)
                < table.len() && leaderboard_of(table)[a] == efficiency_line(
                table[picked_efficiency(table, a)],
            ),
{
    let metric = table.map_values(|r: EfficiencyRow| speed_rank(r));
    descending_order_sorts(metric);
    let order = descending_order(metric);
    assert forall|a: int, b: int| 0 <= a < b < leaderboard_of(table).len() implies speed_rank(
        table[#[trigger] picked_efficiency(table, a)],
    ) >= speed_rank(table[#[trigger] picked_efficiency(table, b)]) by {
        assert(metric[order[a] as int] >= metric[order[b] as int]);
    }
}

/// The position in the table of the row behind line `a` of the leaderboard.
pub open spec fn picked_efficiency(table: Seq<EfficiencyRow>, a: int) -> int {
    top(table.map_values(|r: EfficiencyRow| speed_rank(r)), LEADERBOARD_LIMIT as nat)[a] as int
}

/// Where no row of the table has a negative average speed, the speeds on the
/// leaderboard descend.
pub proof fn leaderboard_speeds_descend(table: Seq<EfficiencyRow>)
    requires
        table.len() <= usize::MAX,
        forall|i: int| 0 <= i < table.len() ==> (#[trigger] table[i]).avg_speed is Some ==> table[i].avg_speed->0 >= 0,
    ensures
        forall|a: int, b: int|
            0 <= a < b < leaderboard_of(table).len() ==> (#[trigger] leaderboard_of(table)[a]).speed
                >= (#[trigger] leaderboard_of(table)[b]).speed,
{
    leaderboard_is_bounded_and_ordered(table);
    assert forall|a: int, b: int| 0 <= a < b < leaderboard_of(table).len() implies (
    #[trigger] leaderboard_of(table)[a]).speed >= (#[trigger] leaderboard_of(table)[b]).speed by {
        let ia = picked_efficiency(table, a);
        let ib = picked_efficiency(table, b);
        assert(speed_rank(table[ia]) >= speed_rank(table[ib]));
    }
}

/// The position in the table of the row behind line `a` of the failure
/// report.
pub open spec fn picked_stability(table: Seq<StabilityRow>, a: int) -> int {
    top(table.map_values(|r: StabilityRow| count_rank(r)), STABILITY_LIMIT as nat)[a] as int
}

/// The failure report has at most twenty lines, each taken from a row of the
/// table, and their counts descend.
pub proof fn failure_report_is_bounded_and_ordered(table: Seq<StabilityRow>)
    requires
        table.len() <= usize::MAX,
        forall|i: int| 0 <= i < table.len() ==> (#[trigger] table[i]).count <= u64::MAX,
    ensures
        failure_report_of(table).len() <= STABILITY_LIMIT,
        failure_report_of(table).len() <= table.len(),
        forall|a: int, b: int|
            0 <= a < b < failure_report_of(table).len() ==> (#[trigger] failure_report_of(
                table,
            )[a]).count >= (#[trigger] failure_report_of(table)[b]).count,
        forall|a: int|
            0 <= a < failure_report_of(table).len() ==> 0 <= #[trigger] picked_stability(table, a)
                < table.len() && failure_report_of(table)[a] == stability_line(
                table[picked_stability(table, a)],
            ),
{
    let metric = table.map_values(|r: StabilityRow| count_rank(r));
    descending_order_sorts(metric);
    let order = descending_order(metric);
    assert forall|a: int, b: int| 0 <= a < b < failure_report_of(table).len() implies (
    #[trigger] failure_report_of(table)[a]).count >= (#[trigger] failure_report_of(
        table,
    )[b]).count by {
        assert(metric[order[a] as int] >= metric[order[b] as int]);
    }
}

} // verus!
