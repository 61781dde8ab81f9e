use alembic::aggregator::Phase;
use alembic::summary::{efficiency_stats, reduction, stability_stats};
use alembic::{run_aggregation, Db, EventType, IngestEvent, RawEvent, Status};

fn text(s: &str) -> Option<String> {
    Some(s.to_string())
}

fn blank(event_type: EventType) -> IngestEvent {
    IngestEvent {
        app_version: "1.0.0".to_string(),
        event_type,
        status: None,
        failure_reason: None,
        hardware_model: None,
        encoder: None,
        duration_ms: None,
        input_size_bytes: None,
        output_size_bytes: None,
        speed_factor: None,
        video_codec: None,
        resolution: None,
    }
}

fn finished(
    hw: &str,
    enc: &str,
    codec: &str,
    res: &str,
    speed: Option<i64>,
    sizes: Option<(i64, i64)>,
    status: Option<Status>,
) -> IngestEvent {
    let mut e = blank(EventType::JobFinished);
    e.hardware_model = text(hw);
    e.encoder = text(enc);
    e.video_codec = text(codec);
    e.resolution = text(res);
    e.speed_factor = speed;
    e.input_size_bytes = sizes.map(|s| s.0);
    e.output_size_bytes = sizes.map(|s| s.1);
    e.status = status;
    e
}

fn failure(enc: &str, reason: &str) -> IngestEvent {
    let mut e = blank(EventType::JobFinished);
    e.status = Some(Status::Failure);
    e.encoder = text(enc);
    e.failure_reason = text(reason);
    e
}

fn stored(payloads: Vec<IngestEvent>) -> Vec<RawEvent> {
    let mut out = Vec::new();
    let mut id: u128 = 1;
    for payload in payloads {
        out.push(RawEvent { id, created_at: 0, payload });
        id += 1;
    }
    out
}

#[test]
fn two_successes_give_one_row_with_their_means() {
    let events = stored(vec![
        finished("A", "x", "h264", "1080p", Some(2_000_000), Some((100, 50)), Some(Status::Success)),
        finished("A", "x", "h264", "1080p", Some(4_000_000), Some((100, 25)), Some(Status::Success)),
    ]);
    let table = efficiency_stats(&events);
    assert_eq!(table.len(), 1);
    let row = &table[0];
    assert_eq!(row.hardware_model, "A");
    assert_eq!(row.encoder, "x");
    assert_eq!(row.video_codec, "h264");
    assert_eq!(row.resolution, "1080p");
    assert_eq!(row.sample_count, 2);
    assert_eq!(row.avg_speed, Some(3_000_000));
    assert_eq!(row.avg_size_reduction_pct, Some(625_000));
    assert_eq!(row.success_rate, 1_000_000);
}

#[test]
fn two_equal_failures_give_one_row_counting_two() {
    let events = stored(vec![failure("x", "timeout"), failure("x", "timeout")]);
    let table = stability_stats(&events);
    assert_eq!(table.len(), 1);
    assert_eq!(table[0].encoder, "x");
    assert_eq!(table[0].error_type, "timeout");
    assert_eq!(table[0].count, 2);
}

#[test]
fn no_events_give_empty_tables() {
    let events: Vec<RawEvent> = Vec::new();
    assert!(efficiency_stats(&events).is_empty());
    assert!(stability_stats(&events).is_empty());
}

#[test]
fn started_jobs_and_incomplete_dimensions_are_left_out() {
    let mut started = finished("A", "x", "h264", "1080p", Some(1_000_000), None, None);
    started.event_type = EventType::JobStarted;
    let mut no_codec = finished("A", "x", "h264", "1080p", Some(1_000_000), None, None);
    no_codec.video_codec = None;
    let mut no_hw = finished("A", "x", "h264", "1080p", Some(1_000_000), None, None);
    no_hw.hardware_model = None;
    let mut no_enc = finished("A", "x", "h264", "1080p", Some(1_000_000), None, None);
    no_enc.encoder = None;
    let mut no_res = finished("A", "x", "h264", "1080p", Some(1_000_000), None, None);
    no_res.resolution = None;
    let events = stored(vec![started, no_codec, no_hw, no_enc, no_res]);
    assert!(efficiency_stats(&events).is_empty());
}

#[test]
fn failed_jobs_count_as_samples_and_lower_the_success_rate() {
    let events = stored(vec![
        finished("A", "x", "h264", "1080p", Some(2_000_000), None, Some(Status::Success)),
        finished("A", "x", "h264", "1080p", Some(2_000_000), None, Some(Status::Failure)),
        finished("A", "x", "h264", "1080p", Some(2_000_000), None, None),
    ]);
    let table = efficiency_stats(&events);
    assert_eq!(table.len(), 1);
    assert_eq!(table[0].sample_count, 3);
    assert_eq!(table[0].success_rate, 333_333);
}

#[test]
fn absent_speeds_are_left_out_of_the_mean() {
    let events = stored(vec![
        finished("A", "x", "h264", "1080p", Some(2_000_000), None, Some(Status::Success)),
        finished("A", "x", "h264", "1080p", None, None, Some(Status::Success)),
        finished("A", "x", "h264", "1080p", Some(5_000_000), None, Some(Status::Success)),
    ]);
    let table = efficiency_stats(&events);
    assert_eq!(table[0].sample_count, 3);
    assert_eq!(table[0].avg_speed, Some(3_500_000));
    assert_eq!(table[0].avg_size_reduction_pct, None);
}

#[test]
fn a_group_without_any_speed_has_no_mean() {
    let events = stored(vec![finished("A", "x", "h264", "1080p", None, None, None)]);
    let table = efficiency_stats(&events);
    assert_eq!(table.len(), 1);
    assert_eq!(table[0].avg_speed, None);
    assert_eq!(table[0].success_rate, 0);
}

#[test]
fn means_round_toward_zero() {
    let events = stored(vec![
        finished("A", "x", "h264", "1080p", Some(1), None, None),
        finished("A", "x", "h264", "1080p", Some(2), None, None),
    ]);
    assert_eq!(efficiency_stats(&events)[0].avg_speed, Some(1));
    let events = stored(vec![
        finished("A", "x", "h264", "1080p", Some(-1), None, None),
        finished("A", "x", "h264", "1080p", Some(-2), None, None),
    ]);
    assert_eq!(efficiency_stats(&events)[0].avg_speed, Some(-1));
}

#[test]
fn reduction_of_one_event() {
    let e = stored(vec![finished("A", "x", "c", "r", None, Some((100, 50)), None)]);
    assert_eq!(reduction(&e[0]), Some(500_000));
    let e = stored(vec![finished("A", "x", "c", "r", None, Some((3, 2)), None)]);
    assert_eq!(reduction(&e[0]), Some(333_333));
    let e = stored(vec![finished("A", "x", "c", "r", None, Some((100, 150)), None)]);
    assert_eq!(reduction(&e[0]), Some(-500_000));
    let e = stored(vec![finished("A", "x", "c", "r", None, Some((0, 10)), None)]);
    assert_eq!(reduction(&e[0]), None);
    let e = stored(vec![finished("A", "x", "c", "r", None, Some((-4, -2)), None)]);
    assert_eq!(reduction(&e[0]), Some(500_000));
    let mut only_in = finished("A", "x", "c", "r", None, None, None);
    only_in.input_size_bytes = Some(10);
    assert_eq!(reduction(&stored(vec![only_in])[0]), None);
    let mut only_out = finished("A", "x", "c", "r", None, None, None);
    only_out.output_size_bytes = Some(10);
    assert_eq!(reduction(&stored(vec![only_out])[0]), None);
}

#[test]
fn reduction_is_held_to_the_range_of_the_measure() {
    let e = stored(vec![finished("A", "x", "c", "r", None, Some((1, i64::MIN)), None)]);
    assert_eq!(reduction(&e[0]), Some(i64::MAX));
    let e = stored(vec![finished("A", "x", "c", "r", None, Some((1, i64::MAX)), None)]);
    assert_eq!(reduction(&e[0]), Some(i64::MIN));
}

#[test]
fn extreme_speeds_do_not_overflow_the_mean() {
    let events = stored(vec![
        finished("A", "x", "c", "r", Some(i64::MAX), None, None),
        finished("A", "x", "c", "r", Some(i64::MAX), None, None),
        finished("A", "x", "c", "r", Some(i64::MAX), None, None),
    ]);
    assert_eq!(efficiency_stats(&events)[0].avg_speed, Some(i64::MAX));
    let events = stored(vec![
        finished("A", "x", "c", "r", Some(i64::MIN), None, None),
        finished("A", "x", "c", "r", Some(i64::MIN), None, None),
    ]);
    assert_eq!(efficiency_stats(&events)[0].avg_speed, Some(i64::MIN));
}

#[test]
fn rows_stand_in_order_of_first_occurrence() {
    let events = stored(vec![
        finished("B", "x", "h264", "1080p", Some(1_000_000), None, None),
        finished("A", "x", "h264", "1080p", Some(2_000_000), None, None),
        finished("B", "x", "h264", "1080p", Some(3_000_000), None, None),
        finished("A", "y", "h264", "1080p", Some(4_000_000), None, None),
        finished("A", "x", "hevc", "1080p", Some(5_000_000), None, None),
        finished("A", "x", "h264", "720p", Some(6_000_000), None, None),
    ]);
    let table = efficiency_stats(&events);
    let keys: Vec<(String, String, String, String, u64)> = table
        .iter()
        .map(|r| {
            (
                r.hardware_model.clone(),
                r.encoder.clone(),
                r.video_codec.clone(),
                r.resolution.clone(),
                r.sample_count,
            )
        })
        .collect();
    let s = |a: &str, b: &str, c: &str, d: &str, n: u64| {
        (a.to_string(), b.to_string(), c.to_string(), d.to_string(), n)
    };
    assert_eq!(
        keys,
        vec![
            s("B", "x", "h264", "1080p", 2),
            s("A", "x", "h264", "1080p", 1),
            s("A", "y", "h264", "1080p", 1),
            s("A", "x", "hevc", "1080p", 1),
            s("A", "x", "h264", "720p", 1),
        ]
    );
    assert_eq!(table[0].avg_speed, Some(2_000_000));
}

#[test]
fn stability_takes_failures_with_encoder_and_reason_only() {
    let mut success = failure("x", "timeout");
    success.status = Some(Status::Success);
    let mut no_status = failure("x", "timeout");
    no_status.status = None;
    let mut no_reason = failure("x", "timeout");
    no_reason.failure_reason = None;
    let mut no_encoder = failure("x", "timeout");
    no_encoder.encoder = None;
    let mut started = failure("y", "crash");
    started.event_type = EventType::JobStarted;
    let events = stored(vec![
        success,
        no_status,
        no_reason,
        no_encoder,
        started,
        failure("x", "timeout"),
        failure("x", "oom"),
        failure("y", "crash"),
    ]);
    let table = stability_stats(&events);
    let rows: Vec<(String, String, u64)> =
        table.iter().map(|r| (r.encoder.clone(), r.error_type.clone(), r.count)).collect();
    assert_eq!(
        rows,
        vec![
            ("y".to_string(), "crash".to_string(), 2),
            ("x".to_string(), "timeout".to_string(), 1),
            ("x".to_string(), "oom".to_string(), 1),
        ]
    );
}

#[test]
fn a_run_replaces_both_tables_and_keeps_the_events() {
    let events = stored(vec![
        finished("A", "x", "h264", "1080p", Some(2_000_000), Some((100, 50)), Some(Status::Success)),
        failure("x", "timeout"),
    ]);
    let stale_efficiency = efficiency_stats(&stored(vec![finished(
        "Z", "z", "z", "z", Some(9), None, None,
    )]));
    let stale_stability = stability_stats(&stored(vec![failure("z", "stale")]));
    let mut db = Db::restore(events, stale_efficiency, stale_stability).unwrap();
    assert_eq!(db.efficiency_stats()[0].hardware_model, "Z");
    run_aggregation(&mut db);
    assert_eq!(db.events().len(), 2);
    assert_eq!(db.efficiency_stats().len(), 1);
    assert_eq!(db.efficiency_stats()[0].hardware_model, "A");
    assert_eq!(db.stability_stats().len(), 1);
    assert_eq!(db.stability_stats()[0].error_type, "timeout");
}

#[test]
fn a_second_run_changes_nothing() {
    let events = stored(vec![
        finished("A", "x", "h264", "1080p", Some(2_000_000), Some((100, 50)), Some(Status::Success)),
        finished("B", "y", "hevc", "4k", Some(7_000_000), Some((100, 10)), Some(Status::Failure)),
        failure("x", "timeout"),
        failure("y", "oom"),
    ]);
    let mut db = Db::restore(events, Vec::new(), Vec::new()).unwrap();
    run_aggregation(&mut db);
    let first = format!("{:?}{:?}", db.efficiency_stats(), db.stability_stats());
    run_aggregation(&mut db);
    let second = format!("{:?}{:?}", db.efficiency_stats(), db.stability_stats());
    assert_eq!(first, second);
}

#[test]
fn a_run_in_a_transaction_commits_after_six_good_steps() {
    let mut phase = Phase::start();
    let expected = [
        Phase::ClearEfficiency,
        Phase::FillEfficiency,
        Phase::ClearStability,
        Phase::FillStability,
        Phase::Commit,
        Phase::Done,
    ];
    for next in expected {
        assert!(!phase.is_over());
        phase = phase.after(true);
        assert_eq!(phase, next);
    }
    assert!(phase.is_over());
    assert_eq!(phase.after(false), Phase::Done);
    assert_eq!(phase.after(true), Phase::Done);
}

#[test]
fn a_failed_step_ends_the_run_without_commit() {
    for failing in 0..6 {
        let mut phase = Phase::start();
        for step in 0..6 {
            phase = phase.after(step != failing);
        }
        assert_eq!(phase, Phase::Failed);
        assert!(phase.is_over());
        assert_eq!(phase.after(true), Phase::Failed);
    }
}
