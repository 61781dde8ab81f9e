//! Telemetry pipeline for encoding jobs: validated append-only ingestion of
//! job events, full recomputation of summary tables, and a composed read-side
//! snapshot, with every rule stated as a contract and proved.

pub mod aggregator;
pub mod api;
pub mod assets;
pub mod config;
pub mod event;
pub mod grouping;
pub mod ident;
pub mod ingest;
pub mod insights;
pub mod laws;
pub mod measure;
pub mod ranking;
pub mod scheduler;
pub mod store;
pub mod summary;

pub use aggregator::run_aggregation;
pub use api::get_insights;
pub use config::Config;
pub use event::{EventType, IngestEvent, RawEvent, Status};
pub use ingest::{ingest_event, IngestOutcome, Rejection, Submission};
pub use insights::{Coverage, EfficiencyEntry, StabilityEntry, StatsResponse};
pub use store::{Db, DbError};
pub use summary::{EfficiencyStat, StabilityStat};
