//! Grouping of stored events by the dimensions of a summary.
//!
//! A summary has one row for each distinct key among the events that qualify
//! for it, in the order in which the keys are first seen.

use vstd::prelude::*;
use crate::event::{EventType, RawEvent, Row, Status, rows_of};

verus! {

/// The ways in which events are grouped: for the efficiency table, for the
/// stability table, and by hardware model alone for the coverage figures.
#[derive(Clone, Copy, Debug, PartialEq, Eq, Structural)]
pub enum Grouping {
    Efficiency,
    Stability,
    Hardware,
}

/// The key under which a grouping files an event.
pub ghost enum GroupKey {
    Efficiency {
        hardware_model: Seq<char>,
        encoder: Seq<char>,
        video_codec: Seq<char>,
        resolution: Seq<char>,
    },
    Stability { encoder: Seq<char>, error_type: Seq<char> },
    Hardware { model: Seq<char> },
}

/// The key of an event in a grouping, or `None` where the event does not
/// qualify for it.
///
/// The efficiency table takes the finished jobs, failed ones included, that
/// name all four dimensions. The stability table takes the events with status
/// failure that name an encoder and a failure reason. The grouping by
/// hardware takes every event that names a hardware model.
pub open spec fn group_key(grouping: Grouping, e: Row) -> Option<GroupKey> {
    let p = e.payload;
    match grouping {
        Grouping::Efficiency => {
            if p.event_type == EventType::JobFinished && p.hardware_model is Some
                && p.encoder is Some && p.video_codec is Some && p.resolution is Some {
                Some(
                    GroupKey::Efficiency {
                        hardware_model: p.hardware_model->0,
                        encoder: p.encoder->0,
                        video_codec: p.video_codec->0,
                        resolution: p.resolution->0,
                    },
                )
            } else {
                None
            }
        },
        Grouping::Stability => {
            if p.status == Some(Status::Failure) && p.encoder is Some && p.failure_reason is Some {
                Some(
                    GroupKey::Stability {
                        encoder: p.encoder->0,
                        error_type: p.failure_reason->0,
                    },
                )
            } else {
                None
            }
        },
        Grouping::Hardware => {
            match p.hardware_model {
                Some(model) => Some(GroupKey::Hardware { model }),
                None => None,
            }
        },
    }
}

/// The keys of all events, one entry per event.
pub open spec fn keys_of(grouping: Grouping, events: Seq<Row>) -> Seq<Option<GroupKey>> {
    events.map_values(|e: Row| group_key(grouping, e))
}

/// The distinct keys that are present, each at the place of its first
/// occurrence.
pub open spec fn first_seen(keys: Seq<Option<GroupKey>>) -> Seq<GroupKey>
    decreases keys.len(),
{
    if keys.len() == 0 {
        Seq::empty()
    } else {
        let before = first_seen(keys.drop_last());
        match keys.last() {
            Some(k) => if before.contains(k) {
                before
            } else {
                before.push(k)
            },
            None => before,
        }
    }
}

/// The events of one group, in stored order.
pub open spec fn members(grouping: Grouping, events: Seq<Row>, key: GroupKey) -> Seq<Row> {
    events.filter(|e: Row| group_key(grouping, e) == Some(key))
}

/// The distinct keys hold exactly the keys that are present.
pub proof fn first_seen_complete(keys: Seq<Option<GroupKey>>, k: GroupKey)
    ensures
        first_seen(keys).contains(k) <==> keys.contains(Some(k)),
    decreases keys.len(),
{
    if keys.len() > 0 {
        let init = keys.drop_last();
        first_seen_complete(init, k);
        let before = first_seen(init);
        if keys.contains(Some(k)) {
            let i = choose|i: int| 0 <= i < keys.len() && keys[i] == Some(k);
            if i < init.len() {
                assert(init[i] == Some(k));
                assert(before.contains(k));
                let j = choose|j: int| 0 <= j < before.len() && before[j] == k;
                assert(first_seen(keys)[j] == k);
            } else {
                if before.contains(k) {
                } else {
                    assert(first_seen(keys) == before.push(k));
                    assert(first_seen(keys)[before.len() as int] == k);
                }
            }
        }
        if first_seen(keys).contains(k) {
            let j = choose|j: int| 0 <= j < first_seen(keys).len() && first_seen(keys)[j] == k;
            if j < before.len() {
                assert(before[j] == k);
                assert(before.contains(k));
                let i = choose|i: int| 0 <= i < init.len() && init[i] == Some(k);
                assert(keys[i] == Some(k));
            } else {
                assert(keys.last() == Some(k));
                assert(keys[keys.len() - 1] == Some(k));
            }
        }
    }
}

/// No key is listed twice.
pub proof fn first_seen_distinct(keys: Seq<Option<GroupKey>>)
    ensures
        first_seen(keys).no_duplicates(),
        first_seen(keys).len() <= keys.len(),
    decreases keys.len(),
{
    if keys.len() > 0 {
        first_seen_distinct(keys.drop_last());
    }
}

/// Whether an event qualifies for a grouping.
pub fn qualifies(grouping: Grouping, e: &RawEvent) -> (r: bool)
    ensures
        r == (group_key(grouping, e@) is Some),
{
    let p = &e.payload;
    match grouping {
        Grouping::Efficiency => {
            p.event_type == EventType::JobFinished && p.hardware_model.is_some()
                && p.encoder.is_some() && p.video_codec.is_some() && p.resolution.is_some()
        },
        Grouping::Stability => {
            let failed = match p.status {
                Some(Status::Failure) => true,
                _ => false,
            };
            failed && p.encoder.is_some() && p.failure_reason.is_some()
        },
        Grouping::Hardware => p.hardware_model.is_some(),
    }
}

/// Whether two optional strings are both present and hold the same text.
fn same_text(a: &Option<String>, b: &Option<String>) -> (r: bool)
    ensures
        r == (crate::event::text_of(*a) is Some && crate::event::text_of(*a)
            == crate::event::text_of(*b)),
{
    match a {
        Some(x) => match b {
            Some(y) => *x == *y,
            None => false,
        },
        None => false,
    }
}

/// Whether two events qualify for a grouping and fall into the same group.
pub fn same_group(grouping: Grouping, a: &RawEvent, b: &RawEvent) -> (r: bool)
    ensures
        r == (group_key(grouping, a@) is Some && group_key(grouping, a@) == group_key(grouping, b@)),
{
    if !qualifies(grouping, a) || !qualifies(grouping, b) {
        return false;
    }
    let p = &a.payload;
    let q = &b.payload;
    match grouping {
        Grouping::Efficiency => {
            same_text(&p.hardware_model, &q.hardware_model) && same_text(&p.encoder, &q.encoder)
                && same_text(&p.video_codec, &q.video_codec) && same_text(
                &p.resolution,
                &q.resolution,
            )
        },
        Grouping::Stability => {
            same_text(&p.encoder, &q.encoder) && same_text(&p.failure_reason, &q.failure_reason)
        },
        Grouping::Hardware => same_text(&p.hardware_model, &q.hardware_model),
    }
}

/// For each distinct key of a grouping, the position of the first event that
/// has it.
pub fn group_heads(grouping: Grouping, events: &Vec<RawEvent>) -> (heads: Vec<usize>)
    ensures
        heads@.len() == first_seen(keys_of(grouping, rows_of(events@))).len(),
        forall|j: int|
            0 <= j < heads@.len() ==> 0 <= #[trigger] heads@[j] < events@.len() && group_key(
                grouping,
                events@[heads@[j] as int]@,
            ) == Some(first_seen(keys_of(grouping, rows_of(events@)))[j]),
{
    let ghost keys = keys_of(grouping, rows_of(events@));
    let mut heads: Vec<usize> = Vec::new();
    let mut i: usize = 0;
    while i < events.len()
        invariant
            0 <= i <= events@.len(),
            keys == keys_of(grouping, rows_of(events@)),
            heads@.len() == first_seen(keys.take(i as int)).len(),
            forall|j: int|
                0 <= j < heads@.len() ==> 0 <= #[trigger] heads@[j] < i && group_key(
                    grouping,
                    events@[heads@[j] as int]@,
                ) == Some(first_seen(keys.take(i as int))[j]),
        decreases events@.len() - i,
    {
        let ghost before = first_seen(keys.take(i as int));
        proof {
            assert(keys.take(i + 1).drop_last() =~= keys.take(i as int));
            assert(keys.take(i + 1).last() == group_key(grouping, events@[i as int]@));
        }
        if qualifies(grouping, &events[i]) {
            let ghost k = group_key(grouping, events@[i as int]@)->0;
            let mut found = false;
            let mut j: usize = 0;
            while j < heads.len() && !found
                invariant
                    0 <= j <= heads@.len(),
                    i < events@.len(),
                    heads@.len() == before.len(),
                    group_key(grouping, events@[i as int]@) == Some(k),
                    forall|h: int|
                        0 <= h < heads@.len() ==> 0 <= #[trigger] heads@[h] < i && group_key(
                            grouping,
                            events@[heads@[h] as int]@,
                        ) == Some(before[h]),
                    found ==> before.contains(k),
                    !found ==> forall|h: int| 0 <= h < j ==> before[h] != k,
                decreases heads@.len() - j + (if found { 0int } else { 1int }),
            {
                if same_group(grouping, &events[heads[j]], &events[i]) {
                    proof {
                        assert(before[j as int] == k);
                    }
                    found = true;
                } else {
                    j += 1;
                }
            }
            if !found {
                heads.push(i);
                proof {
                    assert(!before.contains(k));
                    assert(first_seen(keys.take(i + 1)) == before.push(k));
                }
            }
        }
        i += 1;
    }
    proof {
        assert(keys.take(events@.len() as int) =~= keys);
    }
    heads
}

/// The set of keys that occur among the events.
pub open spec fn distinct_keys(grouping: Grouping, events: Seq<Row>) -> Set<GroupKey> {
    Set::new(
        |k: GroupKey|
            exists|i: int| 0 <= i < events.len() && group_key(grouping, #[trigger] events[i]) == Some(k),
    )
}

/// The keys listed in order of first occurrence are the keys that occur,
/// each once: there are as many as there are distinct keys.
pub proof fn first_seen_counts_distinct(grouping: Grouping, events: Seq<Row>)
    ensures
        first_seen(keys_of(grouping, events)).to_set() == distinct_keys(grouping, events),
        distinct_keys(grouping, events).finite(),
        first_seen(keys_of(grouping, events)).len() == distinct_keys(grouping, events).len(),
{
    let keys = keys_of(grouping, events);
    let listed = first_seen(keys);
    first_seen_distinct(keys);
    assert forall|k: GroupKey| listed.to_set().contains(k) == distinct_keys(
        grouping,
        events,
    ).contains(k) by {
        first_seen_complete(keys, k);
        if keys.contains(Some(k)) {
            let i = choose|i: int| 0 <= i < keys.len() && keys[i] == Some(k);
            assert(group_key(grouping, events[i]) == Some(k));
        }
        if distinct_keys(grouping, events).contains(k) {
            let i = choose|i: int|
                0 <= i < events.len() && group_key(grouping, #[trigger] events[i]) == Some(k);
            assert(keys[i] == Some(k));
        }
    }
    assert(listed.to_set() =~= distinct_keys(grouping, events));
    listed.unique_seq_to_set();
}

} // verus!
