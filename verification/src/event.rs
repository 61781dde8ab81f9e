//! Job events: the submitted shape and the stored row.
//!
//! Fractional measures are fixed-point integers counted in millionths, so a
//! speed factor of 2.5 is held as 2_500_000.

use vstd::prelude::*;
use vstd::string::StringExecFns;

verus! {

/// The lifecycle transition that an event reports.
#[derive(Clone, Copy, Debug, PartialEq, Eq, Structural)]
pub enum EventType {
    JobStarted,
    JobFinished,
}

/// How a finished job ended.
#[derive(Clone, Copy, Debug, PartialEq, Eq, Structural)]
pub enum Status {
    Success,
    Failure,
}

/// The wire name of an event type.
pub open spec fn event_type_name(t: EventType) -> Seq<char> {
    match t {
        EventType::JobStarted => "job_started"@,
        EventType::JobFinished => "job_finished"@,
    }
}

/// The wire name of a status.
pub open spec fn status_name(s: Status) -> Seq<char> {
    match s {
        Status::Success => "success"@,
        Status::Failure => "failure"@,
    }
}

/// The event type that a wire name stands for, if any.
pub open spec fn event_type_of(name: Seq<char>) -> Option<EventType> {
    if name == "job_started"@ {
        Some(EventType::JobStarted)
    } else if name == "job_finished"@ {
        Some(EventType::JobFinished)
    } else {
        None
    }
}

/// The status that a wire name stands for, if any.
pub open spec fn status_of(name: Seq<char>) -> Option<Status> {
    if name == "success"@ {
        Some(Status::Success)
    } else if name == "failure"@ {
        Some(Status::Failure)
    } else {
        None
    }
}

impl EventType {
    /// The wire name of this event type.
    pub fn name(&self) -> (r: String)
        ensures
            r@ == event_type_name(*self),
    {
        match self {
            EventType::JobStarted => String::from_str("job_started"),
            EventType::JobFinished => String::from_str("job_finished"),
        }
    }

    /// Reads a wire name; `None` for any text that names no event type.
    pub fn from_name(name: &String) -> (r: Option<EventType>)
        ensures
            r == event_type_of(name@),
    {
        if *name == String::from_str("job_started") {
            Some(EventType::JobStarted)
        } else if *name == String::from_str("job_finished") {
            Some(EventType::JobFinished)
        } else {
            None
        }
    }
}

impl Status {
    /// The wire name of this status.
    pub fn name(&self) -> (r: String)
        ensures
            r@ == status_name(*self),
    {
        match self {
            Status::Success => String::from_str("success"),
            Status::Failure => String::from_str("failure"),
        }
    }

    /// Reads a wire name; `None` for any text that names no status.
    pub fn from_name(name: &String) -> (r: Option<Status>)
        ensures
            r == status_of(name@),
    {
        if *name == String::from_str("success") {
            Some(Status::Success)
        } else if *name == String::from_str("failure") {
            Some(Status::Failure)
        } else {
            None
        }
    }
}

/// Every event type is read back from its own wire name.
pub proof fn event_type_name_round_trip(t: EventType)
    ensures
        event_type_of(event_type_name(t)) == Some(t),
{
    reveal_strlit("job_started");
    reveal_strlit("job_finished");
    if t == EventType::JobFinished {
        assert("job_finished"@.len() != "job_started"@.len());
    }
}

/// Every status is read back from its own wire name.
pub proof fn status_name_round_trip(s: Status)
    ensures
        status_of(status_name(s)) == Some(s),
{
    reveal_strlit("success");
    reveal_strlit("failure");
    if s == Status::Failure {
        assert("failure"@[0] != "success"@[0]);
    }
}

/// The text behind an optional string.
pub open spec fn text_of(o: Option<String>) -> Option<Seq<char>> {
    match o {
        Some(s) => Some(s@),
        None => None,
    }
}

/// A copy of an optional string.
pub fn copy_text(o: &Option<String>) -> (r: Option<String>)
    ensures
        text_of(r) == text_of(*o),
{
    match o {
        Some(s) => Some(s.clone()),
        None => None,
    }
}

/// One reported transition of an encoding job, as a client submits it.
///
/// Every field but the first two may be absent; an absent measure stays
/// absent and is never read as zero. `speed_factor` counts millionths.
#[derive(Debug)]
pub struct IngestEvent {
    pub app_version: String,
    pub event_type: EventType,
    pub status: Option<Status>,
    pub failure_reason: Option<String>,
    pub hardware_model: Option<String>,
    pub encoder: Option<String>,
    pub duration_ms: Option<i64>,
    pub input_size_bytes: Option<i64>,
    pub output_size_bytes: Option<i64>,
    pub speed_factor: Option<i64>,
    pub video_codec: Option<String>,
    pub resolution: Option<String>,
}

/// What an [`IngestEvent`] holds, as plain values.
pub ghost struct EventData {
    pub app_version: Seq<char>,
    pub event_type: EventType,
    pub status: Option<Status>,
    pub failure_reason: Option<Seq<char>>,
    pub hardware_model: Option<Seq<char>>,
    pub encoder: Option<Seq<char>>,
    pub duration_ms: Option<i64>,
    pub input_size_bytes: Option<i64>,
    pub output_size_bytes: Option<i64>,
    pub speed_factor: Option<i64>,
    pub video_codec: Option<Seq<char>>,
    pub resolution: Option<Seq<char>>,
}

impl View for IngestEvent {
    type V = EventData;

    open spec fn view(&self) -> EventData {
        EventData {
            app_version: self.app_version@,
            event_type: self.event_type,
            status: self.status,
            failure_reason: text_of(self.failure_reason),
            hardware_model: text_of(self.hardware_model),
            encoder: text_of(self.encoder),
            duration_ms: self.duration_ms,
            input_size_bytes: self.input_size_bytes,
            output_size_bytes: self.output_size_bytes,
            speed_factor: self.speed_factor,
            video_codec: text_of(self.video_codec),
            resolution: text_of(self.resolution),
        }
    }
}

impl Clone for IngestEvent {
    fn clone(&self) -> (r: Self)
        ensures
            r@ == self@,
    {
        IngestEvent {
            app_version: self.app_version.clone(),
            event_type: self.event_type,
            status: self.status,
            failure_reason: copy_text(&self.failure_reason),
            hardware_model: copy_text(&self.hardware_model),
            encoder: copy_text(&self.encoder),
            duration_ms: self.duration_ms,
            input_size_bytes: self.input_size_bytes,
            output_size_bytes: self.output_size_bytes,
            speed_factor: self.speed_factor,
            video_codec: copy_text(&self.video_codec),
            resolution: copy_text(&self.resolution),
        }
    }
}

/// A stored event: the submitted values under the identifier and the
/// timestamp that the store assigned. Never changed once written.
#[derive(Debug)]
pub struct RawEvent {
    pub id: u128,
    pub created_at: u64,
    pub payload: IngestEvent,
}

/// What a [`RawEvent`] holds, as plain values.
pub ghost struct Row {
    pub id: u128,
    pub created_at: u64,
    pub payload: EventData,
}

impl View for RawEvent {
    type V = Row;

    open spec fn view(&self) -> Row {
        Row { id: self.id, created_at: self.created_at, payload: self.payload@ }
    }
}

impl Clone for RawEvent {
    fn clone(&self) -> (r: Self)
        ensures
            r@ == self@,
    {
        RawEvent { id: self.id, created_at: self.created_at, payload: self.payload.clone() }
    }
}

/// The rows behind a list of stored events, in the same order.
pub open spec fn rows_of(events: Seq<RawEvent>) -> Seq<Row> {
    events.map_values(|e: RawEvent| e@)
}

} // verus!
