//! Ingestion: one append to the store for every accepted submission.

use vstd::prelude::*;
use crate::event::{EventType, IngestEvent, Status, event_type_of, status_of, text_of};
use crate::ident::{fresh_ulid, next_id_of};
use crate::store::{Db, DbError, appended_row, last_id_of};

verus! {

/// The status that answers an accepted submission.
pub const STATUS_ACCEPTED: u16 = 202;

/// The status that answers a submission that is not an event.
pub const STATUS_BAD_REQUEST: u16 = 400;

/// The status that answers a failure of the store.
pub const STATUS_SERVER_ERROR: u16 = 500;

/// A submission as it comes off the wire: the shape of an event, with the
/// event type and the status still as names.
#[derive(Debug)]
pub struct Submission {
    pub app_version: String,
    pub event_type: String,
    pub status: Option<String>,
    pub failure_reason: Option<String>,
    pub hardware_model: Option<String>,
    pub encoder: Option<String>,
    pub duration_ms: Option<i64>,
    pub input_size_bytes: Option<i64>,
    pub output_size_bytes: Option<i64>,
    pub speed_factor: Option<i64>,
    pub video_codec: Option<String>,
    pub resolution: Option<String>,
}

/// What a [`Submission`] holds, as plain values.
pub ghost struct SubmissionData {
    pub app_version: Seq<char>,
    pub event_type: Seq<char>,
    pub status: Option<Seq<char>>,
    pub failure_reason: Option<Seq<char>>,
    pub hardware_model: Option<Seq<char>>,
    pub encoder: Option<Seq<char>>,
    pub duration_ms: Option<i64>,
    pub input_size_bytes: Option<i64>,
    pub output_size_bytes: Option<i64>,
    pub speed_factor: Option<i64>,
    pub video_codec: Option<Seq<char>>,
    pub resolution: Option<Seq<char>>,
}

impl View for Submission {
    type V = SubmissionData;

    open spec fn view(&self) -> SubmissionData {
        SubmissionData {
            app_version: self.app_version@,
            event_type: self.event_type@,
            status: text_of(self.status),
            failure_reason: text_of(self.failure_reason),
            hardware_model: text_of(self.hardware_model),
            encoder: text_of(self.encoder),
            duration_ms: self.duration_ms,
            input_size_bytes: self.input_size_bytes,
            output_size_bytes: self.output_size_bytes,
            speed_factor: self.speed_factor,
            video_codec: text_of(self.video_codec),
            resolution: text_of(self.resolution),
        }
    }
}

/// Why a submission was rejected.
#[derive(Clone, Copy, Debug, PartialEq, Eq, Structural)]
pub enum Rejection {
    /// The submission does not have the shape of an event.
    Malformed,
    /// The event type is not one of the known names.
    UnknownEventType,
    /// The status is not one of the known names.
    UnknownStatus,
}

/// How a submission ended.
#[derive(Clone, Copy, Debug, PartialEq, Eq, Structural)]
pub enum IngestOutcome {
    /// The event was stored under this identifier.
    Accepted(u128),
    /// The submission was not an event; nothing was stored.
    Rejected(Rejection),
    /// The store failed; nothing was stored.
    Failed(DbError),
}

/// The event that a submission stands for, or why it stands for none. The
/// names are all that is checked: every other value is taken as it is,
/// present or absent, whether or not it fits the event type.
pub open spec fn validated(s: SubmissionData) -> Result<crate::event::EventData, Rejection> {
    if event_type_of(s.event_type) is None {
        Err(Rejection::UnknownEventType)
    } else if s.status is Some && status_of(s.status->0) is None {
        Err(Rejection::UnknownStatus)
    } else {
        Ok(
            crate::event::EventData {
                app_version: s.app_version,
                event_type: event_type_of(s.event_type)->0,
                status: match s.status {
                    Some(name) => status_of(name),
                    None => None,
                },
                failure_reason: s.failure_reason,
                hardware_model: s.hardware_model,
                encoder: s.encoder,
                duration_ms: s.duration_ms,
                input_size_bytes: s.input_size_bytes,
                output_size_bytes: s.output_size_bytes,
                speed_factor: s.speed_factor,
                video_codec: s.video_codec,
                resolution: s.resolution,
            },
        )
    }
}

/// Reads a submission as an event.
pub fn validate(s: Submission) -> (r: Result<IngestEvent, Rejection>)
    ensures
        r is Ok <==> validated(s@) is Ok,
        r is Ok ==> r->Ok_0@ == validated(s@)->Ok_0,
        r is Err ==> r->Err_0 == validated(s@)->Err_0,
{
    let event_type = match EventType::from_name(&s.event_type) {
        Some(t) => t,
        None => {
            return Err(Rejection::UnknownEventType);
        },
    };
    let status = match &s.status {
        Some(name) => match Status::from_name(name) {
            Some(st) => Some(st),
            None => {
                return Err(Rejection::UnknownStatus);
            },
        },
        None => None,
    };
    Ok(
        IngestEvent {
            app_version: s.app_version,
            event_type,
            status,
            failure_reason: s.failure_reason,
            hardware_model: s.hardware_model,
            encoder: s.encoder,
            duration_ms: s.duration_ms,
            input_size_bytes: s.input_size_bytes,
            output_size_bytes: s.output_size_bytes,
            speed_factor: s.speed_factor,
            video_codec: s.video_codec,
            resolution: s.resolution,
        },
    )
}

/// The status that reports an outcome to the client. It tells the kind of
/// the outcome and nothing else.
pub open spec fn status_of_outcome(outcome: IngestOutcome) -> u16 {
    match outcome {
        IngestOutcome::Accepted(_) => STATUS_ACCEPTED,
        IngestOutcome::Rejected(_) => STATUS_BAD_REQUEST,
        IngestOutcome::Failed(_) => STATUS_SERVER_ERROR,
    }
}

impl IngestOutcome {
    /// The status that reports this outcome to the client.
    pub fn status_code(&self) -> (code: u16)
        ensures
            code == status_of_outcome(*self),
    {
        match self {
            IngestOutcome::Accepted(_) => STATUS_ACCEPTED,
            IngestOutcome::Rejected(_) => STATUS_BAD_REQUEST,
            IngestOutcome::Failed(_) => STATUS_SERVER_ERROR,
        }
    }
}

/// Stores one event under a freshly assigned identifier and returns the
/// identifier.
///
/// The new row holds the submitted values unchanged and stands last; its
/// identifier is greater than every identifier assigned before. The call
/// fails, and stores nothing, only where no greater identifier is left.
pub fn ingest_event(db: &mut Db, payload: IngestEvent) -> (r: Result<u128, DbError>)
    requires
        old(db).wf(),
    ensures
        final(db).wf(),
        final(db)@.efficiency == old(db)@.efficiency,
        final(db)@.stability == old(db)@.stability,
        r is Err <==> last_id_of(old(db)@.events) == Some(u128::MAX),
        r is Err ==> r == Err::<u128, DbError>(DbError::Exhausted) && final(db)@ == old(db)@,
        r is Ok ==> {
            &&& final(db)@.events.len() == old(db)@.events.len() + 1
            &&& final(db)@.events.drop_last() == old(db)@.events
            &&& final(db)@.events.last().id == r->Ok_0
            &&& final(db)@.events.last().payload == payload@
            &&& forall|i: int| 0 <= i < old(db)@.events.len() ==> old(db)@.events[i].id < r->Ok_0
            &&& exists|candidate: u128|
                final(db)@.events == old(db)@.events.push(
                    #[trigger] appended_row(old(db)@.events, candidate, payload),
                ) && Some(r->Ok_0) == next_id_of(last_id_of(old(db)@.events), candidate)
        },
{
    let candidate = fresh_ulid();
    let ghost before = db@.events;
    let r = db.append(candidate, payload);
    proof {
        if r is Ok {
            assert(before.push(appended_row(before, candidate, payload)).drop_last() =~= before);
        }
    }
    r
}

/// The rejection of a submission, if it is to be rejected: `parsed` is the
/// submission as it was read off the wire, `None` where it could not be read.
pub open spec fn rejection_of(parsed: Option<Submission>) -> Option<Rejection> {
    match parsed {
        None => Some(Rejection::Malformed),
        Some(s) => match validated(s@) {
            Ok(_) => None,
            Err(why) => Some(why),
        },
    }
}

/// Answers one submission: `parsed` is the submission as it was read off
/// the wire, or `None` where it could not be read.
///
/// A submission that could not be read, or that names an unknown event type
/// or status, is rejected and leaves the store as it was. Every other
/// submission is stored as [`ingest_event`] says.
pub fn receive(db: &mut Db, parsed: Option<Submission>) -> (outcome: IngestOutcome)
    requires
        old(db).wf(),
    ensures
        final(db).wf(),
        final(db)@.efficiency == old(db)@.efficiency,
        final(db)@.stability == old(db)@.stability,
        rejection_of(parsed) is Some ==> outcome == IngestOutcome::Rejected(
            rejection_of(parsed)->0,
        ),
        rejection_of(parsed) is None && last_id_of(old(db)@.events) == Some(u128::MAX) ==> outcome
            == IngestOutcome::Failed(DbError::Exhausted),
        rejection_of(parsed) is None && last_id_of(old(db)@.events) != Some(u128::MAX)
            ==> outcome is Accepted,
        !(outcome is Accepted) ==> final(db)@ == old(db)@,
        outcome is Accepted ==> {
            &&& final(db)@.events.len() == old(db)@.events.len() + 1
            &&& final(db)@.events.drop_last() == old(db)@.events
            &&& final(db)@.events.last().id == outcome->Accepted_0
            &&& Ok::<crate::event::EventData, Rejection>(final(db)@.events.last().payload)
                == validated(parsed->0@)
            &&& forall|i: int|
                0 <= i < old(db)@.events.len() ==> old(db)@.events[i].id < outcome->Accepted_0
        },
{
    match parsed {
        None => IngestOutcome::Rejected(Rejection::Malformed),
        Some(submission) => match validate(submission) {
            Err(why) => IngestOutcome::Rejected(why),
            Ok(payload) => match ingest_event(db, payload) {
                Ok(id) => IngestOutcome::Accepted(id),
                Err(e) => IngestOutcome::Failed(e),
            },
        },
    }
}

} // verus!
