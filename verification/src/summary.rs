//! The two summary tables and how each row follows from its group of events.

use vstd::prelude::*;
use crate::event::{RawEvent, Row, Status, rows_of};
use crate::grouping::{GroupKey, Grouping, first_seen, group_heads, group_key, keys_of, members};
use crate::event::copy_text;
use crate::grouping::same_group;
use crate::measure::{SCALE, clamped, divide, mean, mean_of, present, quotient, ratio, total,
    total_fits, total_push};

verus! {

/// One row of the efficiency table: the figures of all finished jobs that
/// share the four dimensions. Rates and means count millionths.
#[derive(Debug)]
pub struct EfficiencyStat {
    pub hardware_model: String,
    pub encoder: String,
    pub video_codec: String,
    pub resolution: String,
    pub sample_count: u64,
    pub avg_speed: Option<i64>,
    pub avg_size_reduction_pct: Option<i64>,
    pub success_rate: i64,
}

/// What an [`EfficiencyStat`] holds, as plain values.
pub ghost struct EfficiencyRow {
    pub hardware_model: Seq<char>,
    pub encoder: Seq<char>,
    pub video_codec: Seq<char>,
    pub resolution: Seq<char>,
    pub sample_count: nat,
    pub avg_speed: Option<i64>,
    pub avg_size_reduction_pct: Option<i64>,
    pub success_rate: int,
}

impl View for EfficiencyStat {
    type V = EfficiencyRow;

    open spec fn view(&self) -> EfficiencyRow {
        EfficiencyRow {
            hardware_model: self.hardware_model@,
            encoder: self.encoder@,
            video_codec: self.video_codec@,
            resolution: self.resolution@,
            sample_count: self.sample_count as nat,
            avg_speed: self.avg_speed,
            avg_size_reduction_pct: self.avg_size_reduction_pct,
            success_rate: self.success_rate as int,
        }
    }
}

impl Clone for EfficiencyStat {
    fn clone(&self) -> (r: Self)
        ensures
            r@ == self@,
    {
        EfficiencyStat {
            hardware_model: self.hardware_model.clone(),
            encoder: self.encoder.clone(),
            video_codec: self.video_codec.clone(),
            resolution: self.resolution.clone(),
            sample_count: self.sample_count,
            avg_speed: self.avg_speed,
            avg_size_reduction_pct: self.avg_size_reduction_pct,
            success_rate: self.success_rate,
        }
    }
}

/// One row of the stability table: how often an encoder failed for one
/// reason.
#[derive(Debug)]
pub struct StabilityStat {
    pub encoder: String,
    pub error_type: String,
    pub count: u64,
}

/// What a [`StabilityStat`] holds, as plain values.
pub ghost struct StabilityRow {
    pub encoder: Seq<char>,
    pub error_type: Seq<char>,
    pub count: nat,
}

impl View for StabilityStat {
    type V = StabilityRow;

    open spec fn view(&self) -> StabilityRow {
        StabilityRow {
            encoder: self.encoder@,
            error_type: self.error_type@,
            count: self.count as nat,
        }
    }
}

impl Clone for StabilityStat {
    fn clone(&self) -> (r: Self)
        ensures
            r@ == self@,
    {
        StabilityStat {
            encoder: self.encoder.clone(),
            error_type: self.error_type.clone(),
            count: self.count,
        }
    }
}

/// The rows behind a list of efficiency figures.
pub open spec fn efficiency_rows(stats: Seq<EfficiencyStat>) -> Seq<EfficiencyRow> {
    stats.map_values(|s: EfficiencyStat| s@)
}

/// The rows behind a list of failure counts.
pub open spec fn stability_rows(stats: Seq<StabilityStat>) -> Seq<StabilityRow> {
    stats.map_values(|s: StabilityStat| s@)
}

/// The speed factors of a group, one entry per event.
pub open spec fn speeds(group: Seq<Row>) -> Seq<Option<i64>> {
    group.map_values(|e: Row| e.payload.speed_factor)
}

/// The share of its input size that a job saved, in millionths: absent
/// unless both sizes are present and the input size is not zero, and held to
/// the range of an `i64`.
pub open spec fn reduction_of(e: Row) -> Option<i64> {
    match (e.payload.input_size_bytes, e.payload.output_size_bytes) {
        (Some(i), Some(o)) => if i != 0 {
            Some(clamped(ratio((i - o) * SCALE, i as int)) as i64)
        } else {
            None
        },
        _ => None,
    }
}

/// The size reductions of a group, one entry per event.
pub open spec fn reductions(group: Seq<Row>) -> Seq<Option<i64>> {
    group.map_values(|e: Row| reduction_of(e))
}

/// How many events of a group report success.
pub open spec fn successes(group: Seq<Row>) -> nat {
    group.filter(|e: Row| e.payload.status == Some(Status::Success)).len()
}

/// The efficiency row of a group with the given key.
pub open spec fn efficiency_row(key: GroupKey, group: Seq<Row>) -> EfficiencyRow
    recommends
        key is Efficiency,
        group.len() > 0,
{
    EfficiencyRow {
        hardware_model: key->hardware_model,
        encoder: key->Efficiency_encoder,
        video_codec: key->video_codec,
        resolution: key->resolution,
        sample_count: group.len(),
        avg_speed: mean(speeds(group)),
        avg_size_reduction_pct: mean(reductions(group)),
        success_rate: quotient(successes(group) * SCALE, group.len() as int),
    }
}

/// The stability row of a group with the given key.
pub open spec fn stability_row(key: GroupKey, group: Seq<Row>) -> StabilityRow
    recommends
        key is Stability,
{
    StabilityRow {
        encoder: key->Stability_encoder,
        error_type: key->error_type,
        count: group.len(),
    }
}

/// The efficiency table of a list of events: one row per distinct key, in
/// the order in which the keys are first seen.
pub open spec fn efficiency_table(events: Seq<Row>) -> Seq<EfficiencyRow> {
    first_seen(keys_of(Grouping::Efficiency, events)).map_values(
        |k: GroupKey| efficiency_row(k, members(Grouping::Efficiency, events, k)),
    )
}

/// The stability table of a list of events: one row per distinct key, in
/// the order in which the keys are first seen.
pub open spec fn stability_table(events: Seq<Row>) -> Seq<StabilityRow> {
    first_seen(keys_of(Grouping::Stability, events)).map_values(
        |k: GroupKey| stability_row(k, members(Grouping::Stability, events, k)),
    )
}

/// The group of a key among the first `i + 1` events is its group among the
/// first `i`, with event `i` appended where that event has the key.
pub proof fn members_step(grouping: Grouping, events: Seq<Row>, i: int, key: GroupKey)
    requires
        0 <= i < events.len(),
    ensures
        members(grouping, events.take(i + 1), key) == if group_key(grouping, events[i]) == Some(key) {
            members(grouping, events.take(i), key).push(events[i])
        } else {
            members(grouping, events.take(i), key)
        },
{
    assert(events.take(i + 1) =~= events.take(i).push(events[i]));
    events.take(i).lemma_filter_push(events[i], |e: Row| group_key(grouping, e) == Some(key));
}

/// The size reduction that one event reports.
pub fn reduction(e: &RawEvent) -> (r: Option<i64>)
    ensures
        r == reduction_of(e@),
{
    match (e.payload.input_size_bytes, e.payload.output_size_bytes) {
        (Some(i), Some(o)) => {
            if i == 0 {
                None
            } else {
                let diff: i128 = i as i128 - o as i128;
                assert(SCALE == 1_000_000);
                let num: i128 = diff * 1_000_000;
                let q: i128 = if i > 0 {
                    divide(num, i as i128)
                } else {
                    divide(-num, -(i as i128))
                };
                if q < i64::MIN as i128 {
                    Some(i64::MIN)
                } else if q > i64::MAX as i128 {
                    Some(i64::MAX)
                } else {
                    Some(q as i64)
                }
            }
        },
        _ => None,
    }
}

/// The figures of a group after one more member.
proof fn group_grows(g: Seq<Row>, e: Row)
    requires
        g.len() < u64::MAX,
    ensures
        speeds(g.push(e)) == speeds(g).push(e.payload.speed_factor),
        reductions(g.push(e)) == reductions(g).push(reduction_of(e)),
        successes(g.push(e)) == successes(g) + (if e.payload.status == Some(Status::Success) {
            1nat
        } else {
            0nat
        }),
        successes(g) <= g.len(),
        i128::MIN < total(speeds(g.push(e))) <= i128::MAX,
        i128::MIN < total(reductions(g.push(e))) <= i128::MAX,
        present(speeds(g.push(e))) <= g.len() + 1,
        present(reductions(g.push(e))) <= g.len() + 1,
{
    assert(speeds(g.push(e)) =~= speeds(g).push(e.payload.speed_factor));
    assert(reductions(g.push(e)) =~= reductions(g).push(reduction_of(e)));
    g.lemma_filter_push(e, |e: Row| e.payload.status == Some(Status::Success));
    g.lemma_filter_len(|e: Row| e.payload.status == Some(Status::Success));
    total_fits(speeds(g.push(e)));
    total_fits(reductions(g.push(e)));
}

/// The efficiency row of the group that the event at `head` belongs to.
fn summarize_efficiency(events: &Vec<RawEvent>, head: usize) -> (stat: EfficiencyStat)
    requires
        head < events@.len(),
        group_key(Grouping::Efficiency, events@[head as int]@) is Some,
    ensures
        stat@ == efficiency_row(
            group_key(Grouping::Efficiency, events@[head as int]@)->0,
            members(
                Grouping::Efficiency,
                rows_of(events@),
                group_key(Grouping::Efficiency, events@[head as int]@)->0,
            ),
        ),
{
    let ghost rows = rows_of(events@);
    let ghost key = group_key(Grouping::Efficiency, events@[head as int]@)->0;
    let mut count: u64 = 0;
    let mut speed_sum: i128 = 0;
    let mut speed_n: u64 = 0;
    let mut red_sum: i128 = 0;
    let mut red_n: u64 = 0;
    let mut succ: u64 = 0;
    let mut i: usize = 0;
    proof {
        assert(rows.take(0) =~= Seq::<Row>::empty());
        reveal(Seq::filter);
    }
    while i < events.len()
        invariant
            0 <= i <= events@.len(),
            head < events@.len(),
            rows == rows_of(events@),
            group_key(Grouping::Efficiency, events@[head as int]@) == Some(key),
            count == members(Grouping::Efficiency, rows.take(i as int), key).len(),
            count <= i,
            i > head ==> count >= 1,
            speed_sum == total(speeds(members(Grouping::Efficiency, rows.take(i as int), key))),
            speed_n == present(speeds(members(Grouping::Efficiency, rows.take(i as int), key))),
            red_sum == total(reductions(members(Grouping::Efficiency, rows.take(i as int), key))),
            red_n == present(reductions(members(Grouping::Efficiency, rows.take(i as int), key))),
            succ == successes(members(Grouping::Efficiency, rows.take(i as int), key)),
            speed_n <= count,
            red_n <= count,
            succ <= count,
        decreases events@.len() - i,
    {
        let ghost g = members(Grouping::Efficiency, rows.take(i as int), key);
        proof {
            members_step(Grouping::Efficiency, rows, i as int, key);
        }
        if same_group(Grouping::Efficiency, &events[head], &events[i]) {
            proof {
                group_grows(g, rows[i as int]);
                total_push(speeds(g), rows[i as int].payload.speed_factor);
                total_push(reductions(g), reduction_of(rows[i as int]));
            }
            count += 1;
            match events[i].payload.speed_factor {
                Some(v) => {
                    speed_sum += v as i128;
                    speed_n += 1;
                },
                None => {},
            }
            match reduction(&events[i]) {
                Some(v) => {
                    red_sum += v as i128;
                    red_n += 1;
                },
                None => {},
            }
            match events[i].payload.status {
                Some(Status::Success) => {
                    succ += 1;
                },
                _ => {},
            }
        }
        i += 1;
    }
    let ghost g = members(Grouping::Efficiency, rows, key);
    proof {
        assert(rows.take(events@.len() as int) =~= rows);
        assert(0 <= quotient(succ * SCALE, count as int) <= SCALE) by (nonlinear_arith)
            requires
                0 <= succ <= count,
                count >= 1,
                SCALE == 1_000_000,
        ;
    }
    let rate: i128 = divide(succ as i128 * 1_000_000, count as i128);
    let p = &events[head].payload;
    EfficiencyStat {
        hardware_model: copy_text(&p.hardware_model).unwrap(),
        encoder: copy_text(&p.encoder).unwrap(),
        video_codec: copy_text(&p.video_codec).unwrap(),
        resolution: copy_text(&p.resolution).unwrap(),
        sample_count: count,
        avg_speed: mean_of(speed_sum, speed_n, Ghost(speeds(g))),
        avg_size_reduction_pct: mean_of(red_sum, red_n, Ghost(reductions(g))),
        success_rate: rate as i64,
    }
}

/// The stability row of the group that the event at `head` belongs to.
fn summarize_stability(events: &Vec<RawEvent>, head: usize) -> (stat: StabilityStat)
    requires
        head < events@.len(),
        group_key(Grouping::Stability, events@[head as int]@) is Some,
    ensures
        stat@ == stability_row(
            group_key(Grouping::Stability, events@[head as int]@)->0,
            members(
                Grouping::Stability,
                rows_of(events@),
                group_key(Grouping::Stability, events@[head as int]@)->0,
            ),
        ),
{
    let ghost rows = rows_of(events@);
    let ghost key = group_key(Grouping::Stability, events@[head as int]@)->0;
    let mut count: u64 = 0;
    let mut i: usize = 0;
    proof {
        assert(rows.take(0) =~= Seq::<Row>::empty());
        reveal(Seq::filter);
    }
    while i < events.len()
        invariant
            0 <= i <= events@.len(),
            head < events@.len(),
            rows == rows_of(events@),
            group_key(Grouping::Stability, events@[head as int]@) == Some(key),
            count == members(Grouping::Stability, rows.take(i as int), key).len(),
            count <= i,
        decreases events@.len() - i,
    {
        proof {
            members_step(Grouping::Stability, rows, i as int, key);
        }
        if same_group(Grouping::Stability, &events[head], &events[i]) {
            count += 1;
        }
        i += 1;
    }
    proof {
        assert(rows.take(events@.len() as int) =~= rows);
    }
    let p = &events[head].payload;
    StabilityStat {
        encoder: copy_text(&p.encoder).unwrap(),
        error_type: copy_text(&p.failure_reason).unwrap(),
        count,
    }
}

/// Computes the efficiency table of a list of events.
pub fn efficiency_stats(events: &Vec<RawEvent>) -> (stats: Vec<EfficiencyStat>)
    ensures
        efficiency_rows(stats@) == efficiency_table(rows_of(events@)),
{
    let ghost rows = rows_of(events@);
    let ghost keys = first_seen(keys_of(Grouping::Efficiency, rows));
    let heads = group_heads(Grouping::Efficiency, events);
    let mut stats: Vec<EfficiencyStat> = Vec::new();
    let mut j: usize = 0;
    while j < heads.len()
        invariant
            0 <= j <= heads@.len(),
            rows == rows_of(events@),
            keys == first_seen(keys_of(Grouping::Efficiency, rows)),
            heads@.len() == keys.len(),
            forall|h: int|
                0 <= h < heads@.len() ==> 0 <= #[trigger] heads@[h] < events@.len() && group_key(
                    Grouping::Efficiency,
                    events@[heads@[h] as int]@,
                ) == Some(keys[h]),
            stats@.len() == j,
            forall|h: int|
                0 <= h < j ==> (#[trigger] stats@[h])@ == efficiency_row(
                    keys[h],
                    members(Grouping::Efficiency, rows, keys[h]),
                ),
        decreases heads@.len() - j,
    {
        let stat = summarize_efficiency(events, heads[j]);
        stats.push(stat);
        j += 1;
    }
    proof {
        assert(efficiency_rows(stats@) =~= efficiency_table(rows));
    }
    stats
}

/// Computes the stability table of a list of events.
pub fn stability_stats(events: &Vec<RawEvent>) -> (stats: Vec<StabilityStat>)
    ensures
        stability_rows(stats@) == stability_table(rows_of(events@)),
{
    let ghost rows = rows_of(events@);
    let ghost keys = first_seen(keys_of(Grouping::Stability, rows));
    let heads = group_heads(Grouping::Stability, events);
    let mut stats: Vec<StabilityStat> = Vec::new();
    let mut j: usize = 0;
    while j < heads.len()
        invariant
            0 <= j <= heads@.len(),
            rows == rows_of(events@),
            keys == first_seen(keys_of(Grouping::Stability, rows)),
            heads@.len() == keys.len(),
            forall|h: int|
                0 <= h < heads@.len() ==> 0 <= #[trigger] heads@[h] < events@.len() && group_key(
                    Grouping::Stability,
                    events@[heads@[h] as int]@,
                ) == Some(keys[h]),
            stats@.len() == j,
            forall|h: int|
                0 <= h < j ==> (#[trigger] stats@[h])@ == stability_row(
                    keys[h],
                    members(Grouping::Stability, rows, keys[h]),
                ),
        decreases heads@.len() - j,
    {
        let stat = summarize_stability(events, heads[j]);
        stats.push(stat);
        j += 1;
    }
    proof {
        assert(stability_rows(stats@) =~= stability_table(rows));
    }
    stats
}

} // verus!
