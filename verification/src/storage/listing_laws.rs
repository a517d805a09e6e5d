//! What holds of every listing of the event log.

use vstd::prelude::*;

use crate::model::{kind_name, EventKind, RecordView};
use crate::numeric::clamp_i64;
use crate::storage::listing::{at_least_as_new, at_most, is_listing, newest_first, selected, selects};
use crate::storage::rows::{numbered, StateView, StoredView};
use crate::storage::status_of;

verus! {

/// What is selected comes from the log, in its order.
proof fn lemma_selected_comes_from_log(events: Seq<StoredView>, kind: Option<Seq<char>>)
    ensures
        forall|i: int|
            0 <= i < selected(events, kind).len() ==> selects(kind, (#[trigger] selected(events, kind)[i]).kind),
        forall|i: int|
            0 <= i < selected(events, kind).len() ==> exists|j: int|
                0 <= j < events.len() && (#[trigger] events[j]).record == #[trigger] selected(events, kind)[i],
        numbered(events) ==> forall|i: int, j: int|
            0 <= i < j < selected(events, kind).len() ==> (#[trigger] selected(events, kind)[i]).id < (
            #[trigger] selected(events, kind)[j]).id,
    decreases events.len(),
{
    if events.len() > 0 {
        let earlier = selected(events.drop_last(), kind);
        let all = selected(events, kind);
        lemma_selected_comes_from_log(events.drop_last(), kind);
        assert forall|i: int| 0 <= i < all.len() implies exists|j: int|
            0 <= j < events.len() && (#[trigger] events[j]).record == #[trigger] all[i] by {
            if i < earlier.len() {
                assert(all[i] == earlier[i]);
                let j = choose|j: int|
                    0 <= j < events.drop_last().len() && (#[trigger] events.drop_last()[j]).record == earlier[i];
                assert(events[j].record == all[i]);
            } else {
                assert(events[events.len() - 1].record == all[i]);
            }
        }
        assert forall|i: int| 0 <= i < all.len() implies selects(kind, (#[trigger] all[i]).kind) by {
            if i < earlier.len() {
                assert(all[i] == earlier[i]);
            }
        }
        if numbered(events) {
            assert forall|i: int, j: int| 0 <= i < j < events.drop_last().len() implies (
            #[trigger] events.drop_last()[i]).record.id < (#[trigger] events.drop_last()[j]).record.id by {
                assert(events.drop_last()[i] == events[i]);
                assert(events.drop_last()[j] == events[j]);
            }
            assert(numbered(events.drop_last()));
            assert forall|i: int, j: int| 0 <= i < j < all.len() implies (#[trigger] all[i]).id < (
            #[trigger] all[j]).id by {
                assert(all[i] == earlier[i]);
                if j < earlier.len() {
                    assert(all[j] == earlier[j]);
                } else {
                    let k = choose|k: int|
                        0 <= k < events.drop_last().len() && (#[trigger] events.drop_last()[k]).record
                            == earlier[i];
                    assert(events[k].record.id < events[events.len() - 1].record.id);
                }
            }
        }
    }
}

/// The whole of what a listing was cut from.
proof fn lemma_ordering_of(
    events: Seq<StoredView>,
    kind: Option<Seq<char>>,
    limit: nat,
    listed: Seq<RecordView>,
) -> (ordered: Seq<RecordView>)
    requires
        is_listing(events, kind, limit, listed),
    ensures
        newest_first(ordered),
        ordered.to_multiset() == selected(events, kind).to_multiset(),
        listed == at_most(ordered, limit),
{
    choose|ordered: Seq<RecordView>|
        {
            &&& #[trigger] newest_first(ordered)
            &&& ordered.to_multiset() == selected(events, kind).to_multiset()
            &&& listed == at_most(ordered, limit)
        }
}

/// A listing is newest first, holds as many of the selected events as the
/// limit allows, and nothing but events of the log of the kind asked for.
pub proof fn law_listing_is_newest_first(
    events: Seq<StoredView>,
    kind: Option<Seq<char>>,
    limit: nat,
    listed: Seq<RecordView>,
)
    requires
        is_listing(events, kind, limit, listed),
    ensures
        newest_first(listed),
        listed.len() == if limit < selected(events, kind).len() {
            limit
        } else {
            selected(events, kind).len()
        },
        forall|i: int| 0 <= i < listed.len() ==> selects(kind, (#[trigger] listed[i]).kind),
        forall|i: int|
            0 <= i < listed.len() ==> exists|j: int|
                0 <= j < events.len() && (#[trigger] events[j]).record == #[trigger] listed[i],
{
    broadcast use vstd::seq_lib::group_to_multiset_ensures;

    let ordered = lemma_ordering_of(events, kind, limit, listed);
    let all = selected(events, kind);
    assert(ordered.len() == ordered.to_multiset().len());
    assert(all.len() == all.to_multiset().len());
    lemma_selected_comes_from_log(events, kind);
    assert forall|i: int| 0 <= i < listed.len() implies all.contains(#[trigger] listed[i]) by {
        assert(listed[i] == ordered[i]);
        assert(ordered.contains(ordered[i]));
        assert(ordered.to_multiset().count(ordered[i]) > 0);
    }
    assert forall|i: int| 0 <= i < listed.len() implies selects(kind, (#[trigger] listed[i]).kind) by {
        assert(all.contains(listed[i]));
        let j = choose|j: int| 0 <= j < all.len() && all[j] == listed[i];
        assert(selects(kind, all[j].kind));
    }
    assert forall|i: int| 0 <= i < listed.len() implies exists|j: int|
        0 <= j < events.len() && (#[trigger] events[j]).record == #[trigger] listed[i] by {
        assert(all.contains(listed[i]));
        let j = choose|j: int| 0 <= j < all.len() && all[j] == listed[i];
        assert(all[j] == listed[i]);
    }
}

/// A listing leaves out only events that are no newer than those it holds.
pub proof fn law_listing_keeps_the_newest(
    events: Seq<StoredView>,
    kind: Option<Seq<char>>,
    limit: nat,
    listed: Seq<RecordView>,
    record: RecordView,
)
    requires
        is_listing(events, kind, limit, listed),
        selected(events, kind).contains(record),
        !listed.contains(record),
    ensures
        listed.len() == limit,
        forall|i: int| 0 <= i < listed.len() ==> at_least_as_new(#[trigger] listed[i], record),
{
    broadcast use vstd::seq_lib::group_to_multiset_ensures;

    let ordered = lemma_ordering_of(events, kind, limit, listed);
    assert(selected(events, kind).to_multiset().count(record) > 0);
    assert(ordered.contains(record));
    let place = choose|j: int| 0 <= j < ordered.len() && ordered[j] == record;
    if limit >= ordered.len() {
        assert(listed[place] == record);
    } else if place < limit {
        assert(listed[place] == record);
    }
    assert forall|i: int| 0 <= i < listed.len() implies at_least_as_new(#[trigger] listed[i], record) by {
        assert(listed[i] == ordered[i]);
        assert(at_least_as_new(ordered[i], ordered[place]));
    }
}

/// What the log holds of the kind asked for is selected.
proof fn lemma_selected_holds(events: Seq<StoredView>, kind: Option<Seq<char>>, i: int)
    requires
        0 <= i < events.len(),
        selects(kind, events[i].record.kind),
    ensures
        selected(events, kind).contains(events[i].record),
    decreases events.len(),
{
    let all = selected(events, kind);
    if i == events.len() - 1 {
        assert(all.last() == events[i].record);
    } else {
        let earlier = selected(events.drop_last(), kind);
        lemma_selected_holds(events.drop_last(), kind, i);
        let k = choose|k: int| 0 <= k < earlier.len() && earlier[k] == events[i].record;
        assert(all[k] == earlier[k]);
    }
}

/// Every event of the log that is of the kind asked for is listed, as long as
/// the limit does not cut the listing off.
pub proof fn law_logged_events_are_listed(
    events: Seq<StoredView>,
    kind: Option<Seq<char>>,
    limit: nat,
    listed: Seq<RecordView>,
    i: int,
)
    requires
        is_listing(events, kind, limit, listed),
        selected(events, kind).len() <= limit,
        0 <= i < events.len(),
        selects(kind, events[i].record.kind),
    ensures
        listed.contains(events[i].record),
{
    broadcast use vstd::seq_lib::group_to_multiset_ensures;

    let all = selected(events, kind);
    let ordered = lemma_ordering_of(events, kind, limit, listed);
    lemma_selected_holds(events, kind, i);
    assert(ordered.len() == ordered.to_multiset().len());
    assert(all.len() == all.to_multiset().len());
    assert(all.to_multiset().count(events[i].record) > 0);
    assert(ordered.contains(events[i].record));
}

proof fn lemma_ordering_is_unique(left: Seq<RecordView>, right: Seq<RecordView>)
    requires
        newest_first(left),
        newest_first(right),
        left.to_multiset() == right.to_multiset(),
        forall|i: int, j: int|
            0 <= i < left.len() && 0 <= j < left.len() && (#[trigger] left[i]).id == (#[trigger] left[j]).id
                ==> i == j,
    ensures
        left == right,
    decreases left.len(),
{
    broadcast use vstd::seq_lib::group_to_multiset_ensures;

    assert(left.len() == left.to_multiset().len());
    assert(right.len() == right.to_multiset().len());
    if left.len() > 0 {
        assert(left.contains(left[0]));
        assert(right.contains(right[0]));
        assert(left.to_multiset().count(left[0]) > 0);
        assert(right.to_multiset().count(right[0]) > 0);
        assert(right.contains(left[0]));
        assert(left.contains(right[0]));
        let i = choose|i: int| 0 <= i < right.len() && right[i] == left[0];
        let j = choose|j: int| 0 <= j < left.len() && left[j] == right[0];
        if i > 0 {
            assert(at_least_as_new(right[0], right[i]));
        }
        if j > 0 {
            assert(at_least_as_new(left[0], left[j]));
        }
        assert(left[0].id == left[j].id);
        assert(left[0] == right[0]);
        assert(left.remove(0) =~= left.drop_first());
        assert(right.remove(0) =~= right.drop_first());
        assert(left.drop_first().to_multiset() =~= right.drop_first().to_multiset());
        lemma_ordering_is_unique(left.drop_first(), right.drop_first());
        assert(left =~= seq![left[0]] + left.drop_first());
        assert(right =~= seq![right[0]] + right.drop_first());
    }
}

/// A request has one answer.
pub proof fn law_listing_is_unique(
    events: Seq<StoredView>,
    kind: Option<Seq<char>>,
    limit: nat,
    left: Seq<RecordView>,
    right: Seq<RecordView>,
)
    requires
        numbered(events),
        is_listing(events, kind, limit, left),
        is_listing(events, kind, limit, right),
    ensures
        left == right,
{
    broadcast use vstd::seq_lib::group_to_multiset_ensures;

    let all = selected(events, kind);
    let one = lemma_ordering_of(events, kind, limit, left);
    let other = lemma_ordering_of(events, kind, limit, right);
    lemma_selected_comes_from_log(events, kind);
    lemma_distinct_numbers(all, one);
    lemma_ordering_is_unique(one, other);
}

/// Events that carry different numbers still do in any other order.
proof fn lemma_distinct_numbers(all: Seq<RecordView>, ordered: Seq<RecordView>)
    requires
        ordered.to_multiset() == all.to_multiset(),
        forall|i: int, j: int| 0 <= i < j < all.len() ==> (#[trigger] all[i]).id < (#[trigger] all[j]).id,
    ensures
        forall|i: int, j: int|
            0 <= i < ordered.len() && 0 <= j < ordered.len() && (#[trigger] ordered[i]).id == (
            #[trigger] ordered[j]).id ==> i == j,
{
    broadcast use vstd::seq_lib::group_to_multiset_ensures;

    assert forall|i: int, j: int|
        0 <= i < ordered.len() && 0 <= j < ordered.len() && (#[trigger] ordered[i]).id == (
        #[trigger] ordered[j]).id implies i == j by {
        assert(ordered.contains(ordered[i]) && ordered.contains(ordered[j]));
        assert(ordered.to_multiset().count(ordered[i]) > 0);
        assert(ordered.to_multiset().count(ordered[j]) > 0);
        assert(all.contains(ordered[i]) && all.contains(ordered[j]));
        let p = choose|p: int| 0 <= p < all.len() && all[p] == ordered[i];
        let q = choose|q: int| 0 <= q < all.len() && all[q] == ordered[j];
        assert(p == q);
        assert(ordered[i] == ordered[j]);
        if i != j {
            lemma_twice(ordered, i, j);
            lemma_once(all, p);
        }
    }
}

proof fn lemma_twice(records: Seq<RecordView>, i: int, j: int)
    requires
        0 <= i < records.len(),
        0 <= j < records.len(),
        i != j,
        records[i] == records[j],
    ensures
        records.to_multiset().count(records[i]) >= 2,
{
    broadcast use vstd::seq_lib::group_to_multiset_ensures;

    let rest = records.remove(i);
    let k = if j < i { j } else { j - 1 };
    assert(rest[k] == records[j]);
    assert(rest.contains(records[i]));
    assert(rest.to_multiset().count(records[i]) > 0);
    assert(records.contains(records[i]));
    assert(records.to_multiset().count(records[i]) > 0);
    assert(rest.to_multiset() =~= records.to_multiset().remove(records[i]));
}

proof fn lemma_once(records: Seq<RecordView>, i: int)
    requires
        0 <= i < records.len(),
        forall|i: int, j: int|
            0 <= i < j < records.len() ==> (#[trigger] records[i]).id < (#[trigger] records[j]).id,
    ensures
        records.to_multiset().count(records[i]) < 2,
{
    broadcast use vstd::seq_lib::group_to_multiset_ensures;

    let rest = records.remove(i);
    assert(rest.to_multiset() =~= records.to_multiset().remove(records[i]));
    assert(records.contains(records[i]));
    assert(records.to_multiset().count(records[i]) > 0);
    if rest.contains(records[i]) {
        let k = choose|k: int| 0 <= k < rest.len() && rest[k] == records[i];
        let j = if k < i { k } else { k + 1 };
        assert(records[j] == rest[k]);
        assert(records[j].id == records[i].id);
    }
    assert(rest.to_multiset().count(records[i]) == 0);
}

/// A listing with a smaller limit is the beginning of one with a larger limit.
pub proof fn law_shorter_listing_is_a_prefix(
    events: Seq<StoredView>,
    kind: Option<Seq<char>>,
    fewer: nat,
    more: nat,
    shorter: Seq<RecordView>,
    longer: Seq<RecordView>,
)
    requires
        numbered(events),
        fewer <= more,
        is_listing(events, kind, fewer, shorter),
        is_listing(events, kind, more, longer),
    ensures
        shorter.len() <= longer.len(),
        shorter == longer.take(shorter.len() as int),
        shorter.is_prefix_of(longer),
{
    let all = selected(events, kind);
    let one = lemma_ordering_of(events, kind, fewer, shorter);
    let other = lemma_ordering_of(events, kind, more, longer);
    lemma_selected_comes_from_log(events, kind);
    lemma_distinct_numbers(all, one);
    lemma_ordering_is_unique(one, other);
    assert(shorter =~= longer.take(shorter.len() as int));
}

/// Filtering keeps each record as often as it is there, or drops it.
proof fn lemma_filter_count(records: Seq<RecordView>, keep: spec_fn(RecordView) -> bool, record: RecordView)
    ensures
        records.filter(keep).to_multiset().count(record) == if keep(record) {
            records.to_multiset().count(record)
        } else {
            0
        },
    decreases records.len(),
{
    broadcast use vstd::seq_lib::group_to_multiset_ensures;

    reveal(Seq::filter);
    if records.len() > 0 {
        let rest = records.drop_last();
        lemma_filter_count(rest, keep, record);
        assert(records =~= rest.push(records.last()));
        vstd::seq_lib::to_multiset_build(rest, records.last());
        vstd::seq_lib::to_multiset_build(rest.filter(keep), records.last());
    }
}

/// Filtering keeps the order.
proof fn lemma_filter_keeps_order(records: Seq<RecordView>, keep: spec_fn(RecordView) -> bool)
    requires
        newest_first(records),
    ensures
        newest_first(records.filter(keep)),
        forall|i: int|
            0 <= i < records.filter(keep).len() ==> records.contains(#[trigger] records.filter(keep)[i]),
    decreases records.len(),
{
    reveal(Seq::filter);
    if records.len() > 0 {
        let rest = records.drop_last();
        let last = records.last();
        assert(newest_first(rest)) by {
            assert forall|i: int, j: int| 0 <= i < j < rest.len() implies at_least_as_new(
                #[trigger] rest[i],
                #[trigger] rest[j],
            ) by {
                assert(rest[i] == records[i] && rest[j] == records[j]);
            }
        }
        lemma_filter_keeps_order(rest, keep);
        let kept = rest.filter(keep);
        let after = records.filter(keep);
        assert forall|i: int| 0 <= i < kept.len() implies at_least_as_new(#[trigger] kept[i], last)
            && records.contains(kept[i]) by {
            let k = choose|k: int| 0 <= k < rest.len() && rest[k] == kept[i];
            assert(records[k] == kept[i]);
            assert(at_least_as_new(records[k], records[records.len() - 1]));
        }
        assert forall|i: int| 0 <= i < after.len() implies records.contains(#[trigger] after[i]) by {
            if i < kept.len() {
                assert(after[i] == kept[i]);
            } else {
                assert(after[i] == records[records.len() - 1]);
            }
        }
        assert forall|i: int, j: int| 0 <= i < j < after.len() implies at_least_as_new(
            #[trigger] after[i],
            #[trigger] after[j],
        ) by {
            assert(after[i] == kept[i]);
            if j < kept.len() {
                assert(after[j] == kept[j]);
            }
        }
    }
}

/// What is selected of a kind is what is selected of any kind, filtered.
proof fn lemma_selected_is_filtered(events: Seq<StoredView>, kind: Seq<char>)
    ensures
        selected(events, Some(kind)) == selected(events, None).filter(|record: RecordView| record.kind == kind),
        selected(events, None).len() == events.len(),
    decreases events.len(),
{
    reveal(Seq::filter);
    if events.len() > 0 {
        lemma_selected_is_filtered(events.drop_last(), kind);
        let earlier = selected(events.drop_last(), None);
        let all = selected(events, None);
        assert(all.drop_last() =~= earlier);
        assert(all.last() == events.last().record);
    }
}

/// A listing of one kind is the listing of every kind without the events of
/// other kinds, in the same order, as long as the limit cuts neither off.
pub proof fn law_listing_by_kind_is_filtered(
    events: Seq<StoredView>,
    kind: Seq<char>,
    limit: nat,
    every: Seq<RecordView>,
    some: Seq<RecordView>,
)
    requires
        numbered(events),
        events.len() <= limit,
        is_listing(events, None, limit, every),
        is_listing(events, Some(kind), limit, some),
    ensures
        some == every.filter(|record: RecordView| record.kind == kind),
{
    broadcast use vstd::seq_lib::group_to_multiset_ensures;

    let keep = |record: RecordView| record.kind == kind;
    let all = selected(events, None);
    let chosen = selected(events, Some(kind));
    lemma_selected_is_filtered(events, kind);
    all.lemma_filter_len(keep);
    law_listing_is_newest_first(events, None, limit, every);
    law_listing_is_newest_first(events, Some(kind), limit, some);
    let every_ordered = lemma_ordering_of(events, None, limit, every);
    let some_ordered = lemma_ordering_of(events, Some(kind), limit, some);
    assert(every_ordered.len() == every_ordered.to_multiset().len());
    assert(some_ordered.len() == some_ordered.to_multiset().len());
    assert(all.len() == all.to_multiset().len());
    assert(chosen.len() == chosen.to_multiset().len());
    assert(every == every_ordered);
    assert(some == some_ordered);
    let filtered = every.filter(keep);
    lemma_filter_keeps_order(every, keep);
    assert forall|record: RecordView| filtered.to_multiset().count(record) == #[trigger] some.to_multiset().count(
        record,
    ) by {
        lemma_filter_count(every, keep, record);
        lemma_filter_count(all, keep, record);
    }
    assert(filtered.to_multiset() =~= some.to_multiset());
    lemma_selected_comes_from_log(events, Some(kind));
    lemma_distinct_numbers(chosen, some);
    lemma_ordering_is_unique(some, filtered);
}

/// Listings that the limit does not cut off are as long as the status says:
/// all events, and the changed boots among them.
pub proof fn law_status_counts_the_listings(
    state: StateView,
    events: Seq<StoredView>,
    limit: nat,
    every: Seq<RecordView>,
    boots: Seq<RecordView>,
)
    requires
        events.len() <= limit,
        is_listing(events, None, limit, every),
        is_listing(events, Some(kind_name(EventKind::BootChanged)), limit, boots),
    ensures
        status_of(state, events).total_event_count == clamp_i64(every.len() as int),
        status_of(state, events).boot_change_count == clamp_i64(boots.len() as int),
        events.len() <= i64::MAX ==> {
            &&& every.len() == status_of(state, events).total_event_count
            &&& boots.len() == status_of(state, events).boot_change_count
        },
{
    let kind = kind_name(EventKind::BootChanged);
    lemma_selected_is_filtered(events, kind);
    selected(events, None).lemma_filter_len(|record: RecordView| record.kind == kind);
    law_listing_is_newest_first(events, None, limit, every);
    law_listing_is_newest_first(events, Some(kind), limit, boots);
}

/// Whether one event is newer than another: it was detected later, or at the
/// same time and logged under a larger number.
pub open spec fn is_newer(left: RecordView, right: RecordView) -> bool {
    ||| left.detected_at_ms > right.detected_at_ms
    ||| left.detected_at_ms == right.detected_at_ms && left.id > right.id
}

/// A listing holds no more events than the limit, only events of the log and,
/// where a kind is asked for, only events of that kind; and each is newer than
/// those after it.
pub proof fn law_listing_goes_from_new_to_old(
    events: Seq<StoredView>,
    kind: Option<Seq<char>>,
    limit: nat,
    listed: Seq<RecordView>,
)
    requires
        numbered(events),
        is_listing(events, kind, limit, listed),
    ensures
        listed.len() <= limit,
        forall|i: int|
            0 <= i < listed.len() ==> (kind matches Some(wanted) ==> (#[trigger] listed[i]).kind == wanted),
        forall|i: int|
            0 <= i < listed.len() ==> exists|n: int|
                0 <= n < events.len() && (#[trigger] events[n]).record == #[trigger] listed[i],
        forall|i: int, j: int|
            0 <= i < j < listed.len() ==> is_newer(#[trigger] listed[i], #[trigger] listed[j]),
{
    law_listing_is_newest_first(events, kind, limit, listed);
    let ordered = lemma_ordering_of(events, kind, limit, listed);
    lemma_selected_comes_from_log(events, kind);
    lemma_distinct_numbers(selected(events, kind), ordered);
    assert forall|i: int| 0 <= i < listed.len() implies (kind matches Some(wanted) ==> (
    #[trigger] listed[i]).kind == wanted) by {
        assert(selects(kind, listed[i].kind));
    }
    assert forall|i: int, j: int| 0 <= i < j < listed.len() implies is_newer(
        #[trigger] listed[i],
        #[trigger] listed[j],
    ) by {
        assert(at_least_as_new(listed[i], listed[j]));
        assert(listed[i] == ordered[i] && listed[j] == ordered[j]);
    }
}

/// An event of the log that is of the kind asked for, or any event where none
/// is asked for, is listed, unless the listing is as long as the limit and
/// holds newer events alone.
pub proof fn law_listing_omits_only_older_events(
    events: Seq<StoredView>,
    kind: Option<Seq<char>>,
    limit: nat,
    listed: Seq<RecordView>,
    n: int,
)
    requires
        numbered(events),
        is_listing(events, kind, limit, listed),
        0 <= n < events.len(),
        kind matches Some(wanted) ==> events[n].record.kind == wanted,
    ensures
        listed.contains(events[n].record) || {
            &&& listed.len() == limit
            &&& forall|i: int| 0 <= i < listed.len() ==> is_newer(#[trigger] listed[i], events[n].record)
        },
{
    let record = events[n].record;
    lemma_selected_holds(events, kind, n);
    if !listed.contains(record) {
        law_listing_keeps_the_newest(events, kind, limit, listed, record);
        law_listing_is_newest_first(events, kind, limit, listed);
        assert forall|i: int| 0 <= i < listed.len() implies is_newer(#[trigger] listed[i], record) by {
            assert(at_least_as_new(listed[i], record));
            let m = choose|m: int| 0 <= m < events.len() && (#[trigger] events[m]).record == listed[i];
            if m < n {
                assert(events[m].record.id < events[n].record.id);
            } else if n < m {
                assert(events[n].record.id < events[m].record.id);
            } else {
                assert(listed.contains(record));
            }
        }
    }
}

/// The places in the log of the events of a kind.
pub open spec fn places(events: Seq<StoredView>, kind: Seq<char>) -> Set<int> {
    Set::new(|i: int| 0 <= i < events.len() && events[i].record.kind == kind)
}

proof fn lemma_selected_counts_places(events: Seq<StoredView>, kind: Seq<char>)
    ensures
        places(events, kind).finite(),
        selected(events, Some(kind)).len() == places(events, kind).len(),
    decreases events.len(),
{
    if events.len() == 0 {
        assert(places(events, kind) =~= Set::empty());
    } else {
        let earlier = events.drop_last();
        lemma_selected_counts_places(earlier, kind);
        if events.last().record.kind == kind {
            assert(places(events, kind) =~= places(earlier, kind).insert(events.len() - 1));
        } else {
            assert(places(events, kind) =~= places(earlier, kind));
        }
    }
}

/// A status counts the events of the log, and the changed boots among them.
pub proof fn law_status_counts_the_log(state: StateView, events: Seq<StoredView>)
    requires
        events.len() <= i64::MAX,
    ensures
        status_of(state, events).total_event_count == events.len(),
        status_of(state, events).boot_change_count == places(events, "boot_changed"@).len(),
{
    lemma_selected_counts_places(events, "boot_changed"@);
    lemma_selected_is_filtered(events, "boot_changed"@);
    selected(events, None).lemma_filter_len(|record: RecordView| record.kind == "boot_changed"@);
}

} // verus!
