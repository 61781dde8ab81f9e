use alembic::ident::{assign_id, id_text, next_id, timestamp_ms};
use alembic::ingest::{receive, validate};
use alembic::{
    get_insights, ingest_event, run_aggregation, Db, DbError, EventType, IngestEvent,
    IngestOutcome, RawEvent, Rejection, Status, Submission,
};

fn sample(version: &str) -> IngestEvent {
    IngestEvent {
        app_version: version.to_string(),
        event_type: EventType::JobFinished,
        status: Some(Status::Success),
        failure_reason: None,
        hardware_model: Some("M2".to_string()),
        encoder: Some("x265".to_string()),
        duration_ms: Some(1200),
        input_size_bytes: Some(1000),
        output_size_bytes: Some(400),
        speed_factor: Some(1_500_000),
        video_codec: Some("hevc".to_string()),
        resolution: Some("4k".to_string()),
    }
}

fn wire(event_type: &str, status: Option<&str>) -> Submission {
    Submission {
        app_version: "2.1.0".to_string(),
        event_type: event_type.to_string(),
        status: status.map(|s| s.to_string()),
        failure_reason: Some("timeout".to_string()),
        hardware_model: Some("M2".to_string()),
        encoder: None,
        duration_ms: Some(1200),
        input_size_bytes: None,
        output_size_bytes: Some(400),
        speed_factor: Some(-1),
        video_codec: Some("hevc".to_string()),
        resolution: None,
    }
}

fn bare() -> IngestEvent {
    IngestEvent {
        app_version: String::new(),
        event_type: EventType::JobStarted,
        status: None,
        failure_reason: None,
        hardware_model: None,
        encoder: None,
        duration_ms: None,
        input_size_bytes: None,
        output_size_bytes: None,
        speed_factor: None,
        video_codec: None,
        resolution: None,
    }
}

#[test]
fn ingest_adds_exactly_one_row_with_the_submitted_values() {
    let mut db = Db::new();
    let id = ingest_event(&mut db, sample("2.1.0")).unwrap();
    assert_eq!(db.events().len(), 1);
    let row = &db.events()[0];
    assert_eq!(row.id, id);
    assert_eq!(format!("{:?}", row.payload), format!("{:?}", sample("2.1.0")));
}

#[test]
fn ingest_accepts_an_event_with_every_optional_field_absent() {
    let mut db = Db::new();
    ingest_event(&mut db, bare()).unwrap();
    let minimal = Submission {
        app_version: String::new(),
        event_type: "job_started".to_string(),
        status: None,
        failure_reason: None,
        hardware_model: None,
        encoder: None,
        duration_ms: None,
        input_size_bytes: None,
        output_size_bytes: None,
        speed_factor: None,
        video_codec: None,
        resolution: None,
    };
    assert_eq!(receive(&mut db, Some(minimal)).status_code(), 202);
    assert_eq!(db.events().len(), 2);
    assert_eq!(format!("{:?}", db.events()[1].payload), format!("{:?}", bare()));
    assert_eq!(db.events()[0].payload.hardware_model, None);
    assert_eq!(db.events()[0].payload.speed_factor, None);
}

#[test]
fn identifiers_ascend_in_insertion_order() {
    let mut db = Db::new();
    let mut last: Option<u128> = None;
    for i in 0..200 {
        let id = ingest_event(&mut db, sample(&format!("v{}", i))).unwrap();
        if let Some(l) = last {
            assert!(id > l);
        }
        last = Some(id);
    }
    let events = db.events();
    assert_eq!(events.len(), 200);
    for i in 1..events.len() {
        assert!(events[i - 1].id < events[i].id);
        assert_eq!(events[i].payload.app_version, format!("v{}", i));
    }
    assert_eq!(db.last_id(), last);
}

#[test]
fn ingest_leaves_earlier_rows_and_the_tables_alone() {
    let mut db = Db::new();
    ingest_event(&mut db, sample("a")).unwrap();
    run_aggregation(&mut db);
    let before_rows = format!("{:?}", db.events());
    let before_tables = format!("{:?}{:?}", db.efficiency_stats(), db.stability_stats());
    ingest_event(&mut db, sample("b")).unwrap();
    assert_eq!(format!("{:?}", &db.events()[..1]), before_rows);
    assert_eq!(
        format!("{:?}{:?}", db.efficiency_stats(), db.stability_stats()),
        before_tables
    );
}

#[test]
fn a_submission_that_is_no_event_is_rejected_and_stores_nothing() {
    let mut db = Db::new();
    ingest_event(&mut db, sample("a")).unwrap();
    let outcome = receive(&mut db, None);
    assert_eq!(outcome, IngestOutcome::Rejected(Rejection::Malformed));
    assert_eq!(outcome.status_code(), 400);
    assert_eq!(db.events().len(), 1);
}

#[test]
fn a_submission_with_an_unknown_name_is_rejected_and_stores_nothing() {
    let mut db = Db::new();
    let outcome = receive(&mut db, Some(wire("job_paused", Some("success"))));
    assert_eq!(outcome, IngestOutcome::Rejected(Rejection::UnknownEventType));
    assert_eq!(outcome.status_code(), 400);
    let outcome = receive(&mut db, Some(wire("job_finished", Some("cancelled"))));
    assert_eq!(outcome, IngestOutcome::Rejected(Rejection::UnknownStatus));
    assert_eq!(outcome.status_code(), 400);
    let outcome = receive(&mut db, Some(wire("", Some(""))));
    assert_eq!(outcome, IngestOutcome::Rejected(Rejection::UnknownEventType));
    assert_eq!(db.events().len(), 0);
}

#[test]
fn validate_keeps_every_value_as_it_is() {
    let event = validate(wire("job_started", Some("failure"))).unwrap();
    assert_eq!(event.app_version, "2.1.0");
    assert_eq!(event.event_type, EventType::JobStarted);
    assert_eq!(event.status, Some(Status::Failure));
    assert_eq!(event.failure_reason, Some("timeout".to_string()));
    assert_eq!(event.hardware_model, Some("M2".to_string()));
    assert_eq!(event.encoder, None);
    assert_eq!(event.duration_ms, Some(1200));
    assert_eq!(event.input_size_bytes, None);
    assert_eq!(event.output_size_bytes, Some(400));
    assert_eq!(event.speed_factor, Some(-1));
    assert_eq!(event.video_codec, Some("hevc".to_string()));
    assert_eq!(event.resolution, None);
    let event = validate(wire("job_finished", None)).unwrap();
    assert_eq!(event.event_type, EventType::JobFinished);
    assert_eq!(event.status, None);
    assert_eq!(validate(wire("job_finished", Some("Success"))).err(), Some(Rejection::UnknownStatus));
    assert_eq!(validate(wire("finished", None)).err(), Some(Rejection::UnknownEventType));
}

#[test]
fn an_accepted_submission_reports_its_identifier() {
    let mut db = Db::new();
    let outcome = receive(&mut db, Some(wire("job_finished", Some("success"))));
    match outcome {
        IngestOutcome::Accepted(id) => assert_eq!(db.events()[0].id, id),
        other => panic!("unexpected outcome {:?}", other),
    }
    assert_eq!(outcome.status_code(), 202);
}

#[test]
fn a_full_identifier_space_fails_the_ingest_and_stores_nothing() {
    let last = RawEvent { id: u128::MAX, created_at: 0, payload: sample("last") };
    let mut db = Db::restore(vec![last], Vec::new(), Vec::new()).unwrap();
    assert_eq!(ingest_event(&mut db, sample("more")), Err(DbError::Exhausted));
    assert_eq!(db.events().len(), 1);
    let outcome = receive(&mut db, Some(wire("job_finished", None)));
    assert_eq!(outcome, IngestOutcome::Failed(DbError::Exhausted));
    assert_eq!(outcome.status_code(), 500);
    assert_eq!(db.events().len(), 1);
}

#[test]
fn append_takes_the_candidate_where_it_is_greater() {
    let mut db = Db::new();
    let candidate: u128 = (1_700_000_000_000u128 << 80) | 77;
    assert_eq!(db.append(candidate, sample("a")), Ok(candidate));
    assert_eq!(db.events()[0].created_at, 1_700_000_000_000);
    assert_eq!(db.append(candidate + 5, sample("b")), Ok(candidate + 5));
    assert_eq!(db.events().len(), 2);
}

#[test]
fn append_takes_the_successor_where_the_candidate_is_not_greater() {
    let mut db = Db::new();
    let first: u128 = (1_700_000_000_000u128 << 80) | 77;
    db.append(first, sample("a")).unwrap();
    assert_eq!(db.append(first, sample("b")), Ok(first + 1));
    let earlier: u128 = (1_600_000_000_000u128 << 80) | 3;
    assert_eq!(db.append(earlier, sample("c")), Ok(first + 2));
    assert_eq!(db.events()[2].created_at, 1_600_000_000_000);
    assert_eq!(db.events()[2].id, first + 2);
}

#[test]
fn next_id_rules() {
    assert_eq!(next_id(None, 0), Some(0));
    assert_eq!(next_id(None, 9), Some(9));
    assert_eq!(next_id(Some(5), 9), Some(9));
    assert_eq!(next_id(Some(9), 9), Some(10));
    assert_eq!(next_id(Some(9), 2), Some(10));
    assert_eq!(next_id(Some(u128::MAX - 1), 2), Some(u128::MAX));
    assert_eq!(next_id(Some(u128::MAX), 2), None);
    assert_eq!(next_id(Some(u128::MAX), u128::MAX), None);
}

#[test]
fn assign_id_exceeds_the_last_identifier() {
    assert!(assign_id(None).is_some());
    let far: u128 = u128::MAX - 10;
    assert_eq!(assign_id(Some(far)), Some(far + 1));
    assert_eq!(assign_id(Some(u128::MAX)), None);
    let id = assign_id(Some(0)).unwrap();
    assert!(id > 0);
}

#[test]
fn identifier_text_is_crockford_base_32() {
    assert_eq!(id_text(0), "00000000000000000000000000");
    assert_eq!(id_text(u128::MAX), "7ZZZZZZZZZZZZZZZZZZZZZZZZZ");
    assert_eq!(id_text(1u128 << 80), "00000000010000000000000000");
    assert_eq!(
        id_text(1873526660931231682191479120471901695),
        "01D39ZY06FGSCTVN4T2V9PKHFZ"
    );
    assert_eq!(id_text(31), "0000000000000000000000000Z");
    assert_eq!(id_text(32), "00000000000000000000000010");
}

#[test]
fn identifier_text_sorts_as_the_identifiers_do() {
    let ids: [u128; 5] = [0, 31, 32, 1u128 << 80, u128::MAX];
    for w in ids.windows(2) {
        assert!(id_text(w[0]) < id_text(w[1]));
    }
}

#[test]
fn timestamp_is_the_upper_48_bits() {
    assert_eq!(timestamp_ms(0), 0);
    assert_eq!(timestamp_ms((1u128 << 80) - 1), 0);
    assert_eq!(timestamp_ms(1u128 << 80), 1);
    assert_eq!(timestamp_ms(1873526660931231682191479120471901695), 1549744931023);
    assert_eq!(timestamp_ms(u128::MAX), (1u64 << 48) - 1);
}

#[test]
fn restore_refuses_events_out_of_order() {
    let a = RawEvent { id: 5, created_at: 0, payload: sample("a") };
    let b = RawEvent { id: 5, created_at: 0, payload: sample("b") };
    assert_eq!(Db::restore(vec![a, b], Vec::new(), Vec::new()).err(), Some(DbError::Unordered));
    let a = RawEvent { id: 7, created_at: 0, payload: sample("a") };
    let b = RawEvent { id: 6, created_at: 0, payload: sample("b") };
    assert_eq!(Db::restore(vec![a, b], Vec::new(), Vec::new()).err(), Some(DbError::Unordered));
    let a = RawEvent { id: 1, created_at: 0, payload: sample("a") };
    let b = RawEvent { id: 3, created_at: 0, payload: sample("b") };
    let c = RawEvent { id: 2, created_at: 0, payload: sample("c") };
    assert_eq!(Db::restore(vec![a, b, c], Vec::new(), Vec::new()).err(), Some(DbError::Unordered));
}

#[test]
fn restore_keeps_what_it_is_given() {
    let a = RawEvent { id: 1, created_at: 10, payload: sample("a") };
    let b = RawEvent { id: 2, created_at: 20, payload: sample("b") };
    let db = Db::restore(vec![a, b], Vec::new(), Vec::new()).unwrap();
    assert_eq!(db.events().len(), 2);
    assert_eq!(db.events()[1].created_at, 20);
    assert_eq!(db.last_id(), Some(2));
    assert!(Db::restore(Vec::new(), Vec::new(), Vec::new()).is_ok());
    assert_eq!(Db::new().last_id(), None);
}

#[test]
fn total_jobs_follows_ingest_without_a_run() {
    let mut db = Db::new();
    assert_eq!(get_insights(&db).coverage.total_jobs, 0);
    ingest_event(&mut db, sample("a")).unwrap();
    run_aggregation(&mut db);
    ingest_event(&mut db, sample("b")).unwrap();
    ingest_event(&mut db, bare()).unwrap();
    let snapshot = get_insights(&db);
    assert_eq!(snapshot.coverage.total_jobs, 3);
    assert_eq!(snapshot.leaderboard.len(), 1);
    assert_eq!(snapshot.leaderboard[0].samples, 1);
}
