use alembic::assets::{asset_path, content_type, fallback_path};
use alembic::scheduler::{Order, Scheduler, Signal};
use alembic::{Config, EventType, Status};

fn text(s: &str) -> Option<String> {
    Some(s.to_string())
}

#[test]
fn event_type_names() {
    assert_eq!(EventType::JobStarted.name(), "job_started");
    assert_eq!(EventType::JobFinished.name(), "job_finished");
    assert_eq!(EventType::from_name(&"job_started".to_string()), Some(EventType::JobStarted));
    assert_eq!(EventType::from_name(&"job_finished".to_string()), Some(EventType::JobFinished));
    assert_eq!(EventType::from_name(&"JOB_FINISHED".to_string()), None);
    assert_eq!(EventType::from_name(&"".to_string()), None);
    assert_eq!(EventType::from_name(&"job_finished ".to_string()), None);
}

#[test]
fn status_names() {
    assert_eq!(Status::Success.name(), "success");
    assert_eq!(Status::Failure.name(), "failure");
    assert_eq!(Status::from_name(&"success".to_string()), Some(Status::Success));
    assert_eq!(Status::from_name(&"failure".to_string()), Some(Status::Failure));
    assert_eq!(Status::from_name(&"failed".to_string()), None);
    assert_eq!(Status::from_name(&"".to_string()), None);
}

#[test]
fn config_defaults() {
    let c = Config::from_env(None, None, None, None, None, None);
    assert_eq!(c.database_url, "sqlite:alembic.db");
    assert_eq!(c.host, "0.0.0.0");
    assert_eq!(c.port, 3000);
    assert_eq!(c.aggregation_interval_secs, 60);
    assert_eq!(c.rate_limit_per_min, 30);
    assert_eq!(c.rate_limit_burst, 10);
}

#[test]
fn config_reads_what_is_given() {
    let c = Config::from_env(
        text("sqlite::memory:"),
        text("127.0.0.1"),
        text("8080"),
        text("5"),
        text("120"),
        text("+7"),
    );
    assert_eq!(c.database_url, "sqlite::memory:");
    assert_eq!(c.host, "127.0.0.1");
    assert_eq!(c.port, 8080);
    assert_eq!(c.aggregation_interval_secs, 5);
    assert_eq!(c.rate_limit_per_min, 120);
    assert_eq!(c.rate_limit_burst, 7);
}

#[test]
fn config_falls_back_on_numbers_it_cannot_read() {
    let c = Config::from_env(
        text(""),
        text(""),
        text("65536"),
        text("-1"),
        text("thirty"),
        text(" 10"),
    );
    assert_eq!(c.database_url, "");
    assert_eq!(c.host, "");
    assert_eq!(c.port, 3000);
    assert_eq!(c.aggregation_interval_secs, 60);
    assert_eq!(c.rate_limit_per_min, 30);
    assert_eq!(c.rate_limit_burst, 10);
    let c = Config::from_env(None, None, text(""), text("+"), text("4294967296"), text("1.5"));
    assert_eq!(c.port, 3000);
    assert_eq!(c.aggregation_interval_secs, 60);
    assert_eq!(c.rate_limit_per_min, 30);
    assert_eq!(c.rate_limit_burst, 10);
}

#[test]
fn config_reads_the_extremes() {
    let c = Config::from_env(
        None,
        None,
        text("65535"),
        text("18446744073709551615"),
        text("4294967295"),
        text("0"),
    );
    assert_eq!(c.port, 65535);
    assert_eq!(c.aggregation_interval_secs, u64::MAX);
    assert_eq!(c.rate_limit_per_min, u32::MAX);
    assert_eq!(c.rate_limit_burst, 0);
    let c = Config::from_env(None, None, text("0080"), text("18446744073709551616"), None, None);
    assert_eq!(c.port, 80);
    assert_eq!(c.aggregation_interval_secs, 60);
}

#[test]
fn rate_limit_period_is_a_minute_shared_out() {
    let with = |n: &str| Config::from_env(None, None, None, None, text(n), None).rate_limit_period();
    assert_eq!(with("30"), 2_000_000_000);
    assert_eq!(with("60"), 1_000_000_000);
    assert_eq!(with("1"), 60_000_000_000);
    assert_eq!(with("7"), 8_571_428_571);
    assert_eq!(with("0"), 60_000_000_000);
    assert_eq!(with("4294967295"), 13);
}

#[test]
fn asset_path_drops_leading_slashes() {
    assert_eq!(asset_path("/app.js"), "app.js");
    assert_eq!(asset_path("///assets/app.js"), "assets/app.js");
    assert_eq!(asset_path("assets/app.js"), "assets/app.js");
    assert_eq!(asset_path("/a/"), "a/");
    assert_eq!(asset_path("/caf\u{e9}/\u{1f600}.png"), "caf\u{e9}/\u{1f600}.png");
}

#[test]
fn the_empty_path_is_the_index_page() {
    assert_eq!(asset_path(""), "index.html");
    assert_eq!(asset_path("/"), "index.html");
    assert_eq!(asset_path("////"), "index.html");
}

#[test]
fn a_missing_route_falls_back_to_the_index_page() {
    assert_eq!(fallback_path("dashboard"), text("index.html"));
    assert_eq!(fallback_path("a/b/c"), text("index.html"));
    assert_eq!(fallback_path(""), text("index.html"));
}

#[test]
fn a_missing_file_has_no_fallback() {
    assert_eq!(fallback_path("app.js"), None);
    assert_eq!(fallback_path("."), None);
    assert_eq!(fallback_path("a/b.c/d"), None);
    assert_eq!(fallback_path("trailing."), None);
}

#[test]
fn content_type_follows_the_extension() {
    assert_eq!(content_type("index.html"), "text/html");
    assert_eq!(content_type("assets/site.css"), "text/css");
    assert_eq!(content_type("logo.png"), "image/png");
    assert_eq!(content_type("no_extension"), "application/octet-stream");
}

#[test]
fn a_name_without_a_dot_is_served_as_data_of_unknown_kind() {
    assert_eq!(content_type(""), "application/octet-stream");
    assert_eq!(content_type("dashboard"), "application/octet-stream");
    assert_eq!(content_type("a/b/c"), "application/octet-stream");
    assert_eq!(content_type("html"), "application/octet-stream");
    assert_eq!(content_type("/"), "application/octet-stream");
}

#[test]
fn scheduler_runs_at_startup_and_on_each_tick() {
    let mut s = Scheduler::new();
    assert_eq!(s.on_signal(Signal::Startup), Order::Run);
    assert_eq!(s.on_signal(Signal::Finished(true)), Order::Rest);
    assert_eq!(s.on_signal(Signal::Tick), Order::Run);
    assert_eq!(s.on_signal(Signal::Finished(true)), Order::Rest);
    assert_eq!(s.on_signal(Signal::Tick), Order::Run);
}

#[test]
fn scheduler_never_starts_a_second_run() {
    let mut s = Scheduler::new();
    assert_eq!(s.on_signal(Signal::Startup), Order::Run);
    assert_eq!(s.on_signal(Signal::Tick), Order::Skip);
    assert_eq!(s.on_signal(Signal::Tick), Order::Skip);
    assert_eq!(s.on_signal(Signal::Startup), Order::Skip);
    assert_eq!(s.on_signal(Signal::Finished(true)), Order::Rest);
    assert_eq!(s.on_signal(Signal::Tick), Order::Run);
}

#[test]
fn scheduler_reports_a_failed_run_and_goes_on() {
    let mut s = Scheduler::new();
    assert_eq!(s.on_signal(Signal::Startup), Order::Run);
    assert_eq!(s.on_signal(Signal::Finished(false)), Order::Report);
    assert!(!s.running);
    assert_eq!(s.on_signal(Signal::Tick), Order::Run);
    assert_eq!(s.on_signal(Signal::Finished(false)), Order::Report);
    assert_eq!(s.on_signal(Signal::Finished(false)), Order::Rest);
    assert_eq!(s.on_signal(Signal::Tick), Order::Run);
}
