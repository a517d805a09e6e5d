//! Reading the event log: which events a request selects, and in what order.

use vstd::prelude::*;

use crate::model::{copy_text, EventRecord, RecordView};
use crate::storage::rows::{numbered, StoredEvent, StoredView};

verus! {

/// Whether a request for events of `kind`, or of any kind, selects an event
/// of the kind `name`.
pub open spec fn selects(kind: Option<Seq<char>>, name: Seq<char>) -> bool {
    match kind {
        Some(kind) => kind == name,
        None => true,
    }
}

/// The events of the log that a request selects, in the order of the log.
pub open spec fn selected(events: Seq<StoredView>, kind: Option<Seq<char>>) -> Seq<RecordView>
    decreases events.len(),
{
    if events.len() == 0 {
        Seq::empty()
    } else {
        let earlier = selected(events.drop_last(), kind);
        if selects(kind, events.last().record.kind) {
            earlier.push(events.last().record)
        } else {
            earlier
        }
    }
}

/// Whether one event is to be listed before another: it was detected later,
/// or at the same time and logged later.
pub open spec fn at_least_as_new(left: RecordView, right: RecordView) -> bool {
    ||| left.detected_at_ms > right.detected_at_ms
    ||| left.detected_at_ms == right.detected_at_ms && left.id >= right.id
}

/// Whether events are listed newest first.
pub open spec fn newest_first(records: Seq<RecordView>) -> bool {
    forall|i: int, j: int|
        0 <= i < j < records.len() ==> at_least_as_new(#[trigger] records[i], #[trigger] records[j])
}

/// The first `limit` items of a sequence, or all of it.
pub open spec fn at_most(records: Seq<RecordView>, limit: nat) -> Seq<RecordView> {
    if limit < records.len() {
        records.take(limit as int)
    } else {
        records
    }
}

/// Whether `listed` answers a request: the selected events, newest first, cut
/// off at `limit`.
pub open spec fn is_listing(
    events: Seq<StoredView>,
    kind: Option<Seq<char>>,
    limit: nat,
    listed: Seq<RecordView>,
) -> bool {
    exists|ordered: Seq<RecordView>|
        {
            &&& #[trigger] newest_first(ordered)
            &&& ordered.to_multiset() == selected(events, kind).to_multiset()
            &&& listed == at_most(ordered, limit)
        }
}

/// A copy of a listed event.
pub fn copy_record(record: &EventRecord) -> (copy: EventRecord)
    ensures
        copy@ == record@,
{
    EventRecord {
        id: record.id,
        kind: record.kind.clone(),
        detected_at_ms: record.detected_at_ms,
        previous_boot_id: copy_text(&record.previous_boot_id),
        current_boot_id: record.current_boot_id.clone(),
        window_start_ms: record.window_start_ms,
        window_end_ms: record.window_end_ms,
        graceful: record.graceful,
        details: copy_text(&record.details),
    }
}

/// Whether the log is numbered upwards.
pub fn check_numbered(events: &Vec<StoredEvent>) -> (ordered: bool)
    ensures
        ordered == numbered(events@.map_values(|event: StoredEvent| event@)),
{
    let ghost views = events@.map_values(|event: StoredEvent| event@);
    let mut i: usize = 0;
    while i < events.len()
        invariant
            i <= events.len(),
            views == events@.map_values(|event: StoredEvent| event@),
            numbered(views.take(i as int)),
        decreases events.len() - i,
    {
        assert(views[i as int] == events[i as int]@);
        if i > 0 {
            assert(views[i - 1] == events[i - 1]@);
            if events[i].record.id <= events[i - 1].record.id {
                return false;
            }
        }
        assert forall|j: int, k: int| 0 <= j < k < i + 1 implies (#[trigger] views.take(i + 1)[j]).record.id < (
        #[trigger] views.take(i + 1)[k]).record.id by {
            assert(views.take(i as int)[j] == views[j]);
            if k < i {
                assert(views.take(i as int)[k] == views[k]);
            } else if j < i - 1 {
                assert(views.take(i as int)[i - 1] == views[i - 1]);
            }
        }
        i += 1;
    }
    assert(views.take(i as int) =~= views);
    true
}

/// How many events of a kind the log holds.
pub fn count_kind(events: &Vec<StoredEvent>, kind: &str) -> (count: usize)
    ensures
        count == selected(events@.map_values(|event: StoredEvent| event@), Some(kind@)).len(),
{
    let ghost views = events@.map_values(|event: StoredEvent| event@);
    let wanted = kind.to_owned();
    let mut count: usize = 0;
    let mut i: usize = 0;
    while i < events.len()
        invariant
            i <= events.len(),
            views == events@.map_values(|event: StoredEvent| event@),
            wanted@ == kind@,
            count == selected(views.take(i as int), Some(kind@)).len(),
            count <= i,
        decreases events.len() - i,
    {
        assert(views.take(i + 1).drop_last() =~= views.take(i as int));
        assert(views.take(i + 1).last() == events[i as int]@);
        if events[i].record.kind == wanted {
            count += 1;
        }
        i += 1;
    }
    assert(views.take(i as int) =~= views);
    count
}

/// Whether `record` is to be listed before, or level with, `other`.
fn precedes(record: &EventRecord, other: &EventRecord) -> (result: bool)
    ensures
        result == at_least_as_new(record@, other@),
{
    record.detected_at_ms > other.detected_at_ms || (record.detected_at_ms == other.detected_at_ms && record.id
        >= other.id)
}

/// Puts an event in its place among events that are listed newest first.
fn place_record(listed: &mut Vec<EventRecord>, record: EventRecord)
    requires
        newest_first(old(listed)@.map_values(|record: EventRecord| record@)),
    ensures
        newest_first(final(listed)@.map_values(|record: EventRecord| record@)),
        final(listed)@.map_values(|record: EventRecord| record@).to_multiset() == old(listed)@.map_values(
            |record: EventRecord| record@,
        ).to_multiset().insert(record@),
{
    let ghost before = listed@.map_values(|record: EventRecord| record@);
    let mut place: usize = 0;
    while place < listed.len() && precedes(&listed[place], &record)
        invariant
            place <= listed.len(),
            before == listed@.map_values(|record: EventRecord| record@),
            forall|j: int| 0 <= j < place ==> at_least_as_new(#[trigger] before[j], record@),
        decreases listed.len() - place,
    {
        assert(before[place as int] == listed[place as int]@);
        place += 1;
    }
    proof {
        if place < listed.len() {
            assert(before[place as int] == listed[place as int]@);
        }
    }
    listed.insert(place, record);
    let ghost after = listed@.map_values(|record: EventRecord| record@);
    proof {
        assert(after =~= before.insert(place as int, record@));
        vstd::seq_lib::to_multiset_insert(before, place as int, record@);
        assert forall|i: int, j: int| 0 <= i < j < after.len() implies at_least_as_new(
            #[trigger] after[i],
            #[trigger] after[j],
        ) by {
            let left = if i < place { i } else { i - 1 };
            let right = if j < place { j } else { j - 1 };
            if i == place {
                assert(after[j] == before[j - 1]);
                assert(at_least_as_new(record@, before[place as int]));
            } else if j == place {
                assert(after[i] == before[i]);
            } else {
                assert(after[i] == before[left]);
                assert(after[j] == before[right]);
            }
        }
    }
}

/// The events of the log that a request selects, newest first, cut off at
/// `limit`.
pub fn list_events(events: &Vec<StoredEvent>, limit: usize, kind: Option<&str>) -> (listed: Vec<EventRecord>)
    ensures
        is_listing(
            events@.map_values(|event: StoredEvent| event@),
            match kind {
                Some(kind) => Some(kind@),
                None => None,
            },
            limit as nat,
            listed@.map_values(|record: EventRecord| record@),
        ),
{
    let ghost views = events@.map_values(|event: StoredEvent| event@);
    let ghost wanted_view = match kind {
        Some(kind) => Some(kind@),
        None => None,
    };
    let wanted = match kind {
        Some(kind) => Some(kind.to_owned()),
        None => None,
    };
    let mut listed: Vec<EventRecord> = Vec::new();
    let mut i: usize = 0;
    assert(listed@.map_values(|record: EventRecord| record@) =~= selected(views.take(0), wanted_view));
    while i < events.len()
        invariant
            i <= events.len(),
            views == events@.map_values(|event: StoredEvent| event@),
            match (wanted, wanted_view) {
                (Some(wanted), Some(wanted_view)) => wanted@ == wanted_view,
                (None, None) => true,
                _ => false,
            },
            newest_first(listed@.map_values(|record: EventRecord| record@)),
            listed@.map_values(|record: EventRecord| record@).to_multiset() == selected(
                views.take(i as int),
                wanted_view,
            ).to_multiset(),
        decreases events.len() - i,
    {
        assert(views.take(i + 1).drop_last() =~= views.take(i as int));
        assert(views.take(i + 1).last() == events[i as int]@);
        let chosen: bool = match &wanted {
            Some(wanted) => events[i].record.kind == *wanted,
            None => true,
        };
        if chosen {
            proof {
                vstd::seq_lib::to_multiset_build(
                    selected(views.take(i as int), wanted_view),
                    events[i as int]@.record,
                );
            }
            place_record(&mut listed, copy_record(&events[i].record));
        }
        i += 1;
    }
    assert(views.take(i as int) =~= views);
    let ghost ordered = listed@.map_values(|record: EventRecord| record@);
    listed.truncate(limit);
    assert(listed@.map_values(|record: EventRecord| record@) =~= at_most(ordered, limit as nat));
    listed
}

} // verus!
