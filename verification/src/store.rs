//! The store: the append-only list of events and the two summary tables
//! derived from it.
//!
//! Events are never changed or removed, and their identifiers strictly
//! ascend in the order in which they were appended. The summary tables are
//! only ever replaced whole, both at once.

use vstd::prelude::*;
use crate::event::{IngestEvent, RawEvent, Row, rows_of};
use crate::ident::{next_id, next_id_of, timestamp_ms, timestamp_of};
use crate::summary::{EfficiencyRow, EfficiencyStat, StabilityRow, StabilityStat, efficiency_rows,
    stability_rows};

verus! {

/// Why the store refused an operation.
#[derive(Clone, Copy, Debug, PartialEq, Eq, Structural)]
pub enum DbError {
    /// No identifier greater than the last one is left.
    Exhausted,
    /// The events offered do not stand in strictly ascending order of
    /// identifier.
    Unordered,
}

/// The store.
#[derive(Debug)]
pub struct Db {
    events: Vec<RawEvent>,
    efficiency: Vec<EfficiencyStat>,
    stability: Vec<StabilityStat>,
}

/// What a [`Db`] holds, as plain values.
pub ghost struct DbState {
    pub events: Seq<Row>,
    pub efficiency: Seq<EfficiencyRow>,
    pub stability: Seq<StabilityRow>,
}

/// Whether identifiers strictly ascend along a list of events.
pub open spec fn ascending(events: Seq<Row>) -> bool {
    forall|i: int, j: int| 0 <= i < j < events.len() ==> events[i].id < events[j].id
}

/// The identifier of the last event, if there is one.
pub open spec fn last_id_of(events: Seq<Row>) -> Option<u128> {
    if events.len() == 0 {
        None
    } else {
        Some(events.last().id)
    }
}

/// The row that an append writes.
pub open spec fn appended_row(events: Seq<Row>, candidate: u128, payload: IngestEvent) -> Row
    recommends
        next_id_of(last_id_of(events), candidate) is Some,
{
    Row {
        id: next_id_of(last_id_of(events), candidate)->0,
        created_at: timestamp_of(candidate),
        payload: payload@,
    }
}

impl View for Db {
    type V = DbState;

    closed spec fn view(&self) -> DbState {
        DbState {
            events: rows_of(self.events@),
            efficiency: efficiency_rows(self.efficiency@),
            stability: stability_rows(self.stability@),
        }
    }
}

impl Db {
    /// The invariant of the store: identifiers strictly ascend in stored
    /// order, and the events are no more than a `u64` counts.
    pub open spec fn wf(&self) -> bool {
        &&& ascending(self@.events)
        &&& self@.events.len() <= u64::MAX
    }

    /// An empty store.
    pub fn new() -> (db: Db)
        ensures
            db.wf(),
            db@.events.len() == 0,
            db@.efficiency.len() == 0,
            db@.stability.len() == 0,
    {
        Db { events: Vec::new(), efficiency: Vec::new(), stability: Vec::new() }
    }

    /// A store that holds the given events and summary tables. Refused where
    /// the identifiers of the events do not strictly ascend.
    pub fn restore(
        events: Vec<RawEvent>,
        efficiency: Vec<EfficiencyStat>,
        stability: Vec<StabilityStat>,
    ) -> (r: Result<Db, DbError>)
        ensures
            r is Ok <==> ascending(rows_of(events@)),
            r is Err ==> r == Err::<Db, DbError>(DbError::Unordered),
            r is Ok ==> r->Ok_0.wf() && r->Ok_0@ == (DbState {
                events: rows_of(events@),
                efficiency: efficiency_rows(efficiency@),
                stability: stability_rows(stability@),
            }),
    {
        let ghost rows = rows_of(events@);
        let n = events.len();
        let mut i: usize = 1;
        while i < n
            invariant
                1 <= i,
                n == events@.len(),
                rows == rows_of(events@),
                forall|a: int, b: int| 0 <= a < b < i && b < n ==> rows[a].id < rows[b].id,
            decreases n - i,
        {
            if events[i - 1].id >= events[i].id {
                proof {
                    assert(rows[i - 1].id >= rows[i as int].id);
                }
                return Err(DbError::Unordered);
            }
            proof {
                assert forall|a: int, b: int| 0 <= a < b < i + 1 && b < n implies rows[a].id
                    < rows[b].id by {
                    if b == i && a < i - 1 {
                        assert(rows[a].id < rows[i - 1].id);
                    }
                }
            }
            i += 1;
        }
        Ok(Db { events, efficiency, stability })
    }

    /// The stored events, oldest first.
    pub fn events(&self) -> (r: &Vec<RawEvent>)
        ensures
            rows_of(r@) == self@.events,
    {
        &self.events
    }

    /// The efficiency table as last computed.
    pub fn efficiency_stats(&self) -> (r: &Vec<EfficiencyStat>)
        ensures
            efficiency_rows(r@) == self@.efficiency,
    {
        &self.efficiency
    }

    /// The stability table as last computed.
    pub fn stability_stats(&self) -> (r: &Vec<StabilityStat>)
        ensures
            stability_rows(r@) == self@.stability,
    {
        &self.stability
    }

    /// The identifier of the last event, if there is one.
    pub fn last_id(&self) -> (r: Option<u128>)
        ensures
            r == last_id_of(self@.events),
    {
        let n = self.events.len();
        if n == 0 {
            None
        } else {
            Some(self.events[n - 1].id)
        }
    }

    /// Appends one event under the identifier that follows from `candidate`,
    /// stamped with the candidate's creation time. Fails, and changes
    /// nothing, only where no greater identifier is left.
    pub fn append(&mut self, candidate: u128, payload: IngestEvent) -> (r: Result<u128, DbError>)
        requires
            old(self).wf(),
        ensures
            final(self).wf(),
            final(self)@.efficiency == old(self)@.efficiency,
            final(self)@.stability == old(self)@.stability,
            r is Err <==> last_id_of(old(self)@.events) == Some(u128::MAX),
            r is Err ==> r == Err::<u128, DbError>(DbError::Exhausted) && final(self)@ == old(
                self,
            )@,
            r is Ok ==> Some(r->Ok_0) == next_id_of(last_id_of(old(self)@.events), candidate)
                && final(self)@.events == old(self)@.events.push(
                appended_row(old(self)@.events, candidate, payload),
            ),
            r is Ok ==> forall|i: int|
                0 <= i < old(self)@.events.len() ==> old(self)@.events[i].id < r->Ok_0,
    {
        let last = self.last_id();
        match next_id(last, candidate) {
            None => Err(DbError::Exhausted),
            Some(id) => {
                let n = self.events.len();
                let ghost before = rows_of(self.events@);
                proof {
                    assert forall|i: int| 0 <= i < before.len() implies before[i].id < id by {
                        if i < before.len() - 1 {
                            assert(before[i].id < before[before.len() - 1].id);
                        }
                    }
                }
                self.events.push(
                    RawEvent { id, created_at: timestamp_ms(candidate), payload },
                );
                proof {
                    assert(rows_of(self.events@) =~= before.push(
                        appended_row(before, candidate, payload),
                    ));
                    assert(self.events@.len() == self.events.len());
                }
                Ok(id)
            },
        }
    }

    /// Replaces both summary tables at once.
    pub(crate) fn replace_summaries(
        &mut self,
        efficiency: Vec<EfficiencyStat>,
        stability: Vec<StabilityStat>,
    )
        requires
            old(self).wf(),
        ensures
            final(self).wf(),
            final(self)@ == (DbState {
                events: old(self)@.events,
                efficiency: efficiency_rows(efficiency@),
                stability: stability_rows(stability@),
            }),
    {
        self.efficiency = efficiency;
        self.stability = stability;
    }
}

} // verus!
