//! What every transaction keeps true of the tables.

use vstd::prelude::*;

use crate::storage::rows::{
    change_sessions, changed_boot, changed_session, commit, has_session, is_recorded, log_event, log_events,
    log_of, numbered, ChangesView, EventView, LogView, SessionChangeView, SessionView, StateView, StoredView,
    TablesView,
};

verus! {

/// No two events have one fingerprint.
pub open spec fn fingerprints_unique(events: Seq<StoredView>) -> bool {
    forall|i: int, j: int|
        0 <= i < j < events.len() ==> (#[trigger] events[i]).fingerprint != (#[trigger] events[j]).fingerprint
}

/// No boot has two sessions.
pub open spec fn sessions_unique(sessions: Seq<SessionView>) -> bool {
    forall|i: int, j: int|
        0 <= i < j < sessions.len() ==> (#[trigger] sessions[i]).boot_id != (#[trigger] sessions[j]).boot_id
}

/// Whether a session tells the same of its boot as the state row.
pub open spec fn mirrors(session: SessionView, state: StateView) -> bool {
    &&& session.boot_id == state.boot_id
    &&& session.last_seen_at_ms == state.last_seen_at_ms
    &&& session.last_boottime_ms == state.last_boottime_ms
    &&& session.monitor_generations == state.generation
}

/// Whether the boot of the state row has a session, and it agrees with it.
pub open spec fn state_has_session(sessions: Seq<SessionView>, state: StateView) -> bool {
    exists|i: int| 0 <= i < sessions.len() && mirrors(#[trigger] sessions[i], state)
}

/// Whether a state row makes sense by itself: the monitor is active and has
/// not ended, or it is not active and has an end time and an end reason; and
/// it is the first monitor process of its boot or a later one.
pub open spec fn state_sound(state: StateView) -> bool {
    &&& state.active <==> state.ended_at_ms is None
    &&& state.active <==> state.end_reason is None
    &&& state.generation >= 1
}

/// The tables fit together: fingerprints and sessions are unique, and the
/// state row is sound and belongs to a session that agrees with it.
pub open spec fn consistent(tables: TablesView) -> bool {
    &&& fingerprints_unique(tables.events)
    &&& sessions_unique(tables.sessions)
    &&& tables.state matches Some(state) ==> state_sound(state) && state_has_session(tables.sessions, state)
}

/// Whether `after` continues the log `before`.
pub open spec fn continues(before: Seq<StoredView>, after: Seq<StoredView>) -> bool {
    &&& before.len() <= after.len()
    &&& after.take(before.len() as int) == before
}

/// Logging an event only adds to the log, keeps fingerprints unique and the
/// numbers upwards, and leaves its fingerprint in the log.
pub proof fn lemma_log_event(log: LogView, event: EventView)
    requires
        log_event(log, event) is Some,
    ensures
        ({
            let after = log_event(log, event)->0;
            &&& continues(log.events, after.events)
            &&& is_recorded(after.events, event.fingerprint)
            &&& fingerprints_unique(log.events) ==> fingerprints_unique(after.events)
            &&& numbered(log.events) ==> numbered(after.events)
        }),
{
    let events = log.events;
    let after = log_event(log, event)->0.events;
    assert(after.take(events.len() as int) =~= events);
    if !is_recorded(events, event.fingerprint) {
        assert(after[events.len() as int].fingerprint == event.fingerprint);
        if fingerprints_unique(events) {
            assert forall|i: int, j: int| 0 <= i < j < after.len() implies (#[trigger] after[i]).fingerprint != (
            #[trigger] after[j]).fingerprint by {
                assert(after[i] == events[i]);
            }
        }
        if numbered(events) {
            assert forall|i: int, j: int| 0 <= i < j < after.len() implies (#[trigger] after[i]).record.id < (
            #[trigger] after[j]).record.id by {
                assert(after[i] == events[i]);
                if j == events.len() {
                    if i < events.len() - 1 {
                        assert(events[i].record.id < events[events.len() - 1].record.id);
                    }
                } else {
                    assert(after[j] == events[j]);
                }
            }
        }
    }
}

/// A fingerprint that is in the log stays there as the log goes on.
pub proof fn lemma_recorded_stays(before: Seq<StoredView>, after: Seq<StoredView>, fingerprint: Seq<char>)
    requires
        continues(before, after),
        is_recorded(before, fingerprint),
    ensures
        is_recorded(after, fingerprint),
{
    let i = choose|i: int| 0 <= i < before.len() && (#[trigger] before[i]).fingerprint == fingerprint;
    assert(after.take(before.len() as int)[i] == after[i]);
}

/// Logging events only adds to the log, keeps fingerprints unique and the
/// numbers upwards, and leaves their fingerprints in the log.
pub proof fn lemma_log_events(log: LogView, added: Seq<EventView>)
    requires
        log_events(log, added) is Some,
    ensures
        ({
            let after = log_events(log, added)->0;
            &&& continues(log.events, after.events)
            &&& fingerprints_unique(log.events) ==> fingerprints_unique(after.events)
            &&& numbered(log.events) ==> numbered(after.events)
            &&& forall|i: int|
                0 <= i < added.len() ==> is_recorded(after.events, (#[trigger] added[i]).fingerprint)
        }),
    decreases added.len(),
{
    let events = log.events;
    if added.len() == 0 {
        assert(events.take(events.len() as int) =~= events);
    } else {
        let earlier = log_events(log, added.drop_last())->0;
        let after = log_events(log, added)->0.events;
        lemma_log_events(log, added.drop_last());
        lemma_log_event(earlier, added.last());
        assert(after.take(events.len() as int) =~= after.take(earlier.events.len() as int).take(
            events.len() as int,
        ));
        assert forall|i: int| 0 <= i < added.len() implies is_recorded(
            after,
            (#[trigger] added[i]).fingerprint,
        ) by {
            if i < added.len() - 1 {
                assert(added.drop_last()[i] == added[i]);
                lemma_recorded_stays(earlier.events, after, added[i].fingerprint);
            }
        }
    }
}

/// A session change keeps every boot at one session, keeps all sessions of
/// other boots, and leaves its own boot with a session if there was one or if
/// it opens one.
pub proof fn lemma_change_sessions(sessions: Seq<SessionView>, change: SessionChangeView)
    ensures
        ({
            let after = change_sessions(sessions, change);
            &&& sessions_unique(sessions) ==> sessions_unique(after)
            &&& sessions.len() <= after.len()
            &&& forall|i: int|
                0 <= i < sessions.len() ==> #[trigger] after[i] == if sessions[i].boot_id == changed_boot(
                    change,
                ) {
                    changed_session(sessions[i], change)
                } else {
                    sessions[i]
                }
            &&& after.len() > sessions.len() ==> {
                &&& after.len() == sessions.len() + 1
                &&& change is Open
                &&& !has_session(sessions, changed_boot(change))
                &&& after.last().boot_id == changed_boot(change)
            }
            &&& change is Open ==> has_session(after, changed_boot(change))
        }),
{
    let after = change_sessions(sessions, change);
    if change is Open && !has_session(sessions, changed_boot(change)) {
        assert(after[sessions.len() as int].boot_id == changed_boot(change));
    } else if change is Open {
        let i = choose|i: int|
            0 <= i < sessions.len() && (#[trigger] sessions[i]).boot_id == changed_boot(change);
        assert(after[i].boot_id == changed_boot(change));
    }
}

/// Whether a transaction writes one thing of the boot to its session and to
/// the state row, speaks of a boot that has a session or gets one, and leaves a
/// sound state row.
pub open spec fn fits(tables: TablesView, changes: ChangesView) -> bool {
    &&& state_sound(changes.state)
    &&& changes.state.boot_id == changed_boot(changes.session)
    &&& match changes.session {
        SessionChangeView::Open { boot_id, boot_started_at_ms, seen_at_ms, boottime_ms, generation } => {
            &&& changes.state.last_seen_at_ms == seen_at_ms
            &&& changes.state.last_boottime_ms == boottime_ms
            &&& changes.state.generation == generation
        },
        SessionChangeView::Resume { boot_id, seen_at_ms, boottime_ms, generation } => {
            &&& changes.state.last_seen_at_ms == seen_at_ms
            &&& changes.state.last_boottime_ms == boottime_ms
            &&& changes.state.generation == generation
            &&& tables.state matches Some(state) && state.boot_id == boot_id
        },
        SessionChangeView::Touch { boot_id, seen_at_ms, boottime_ms } => {
            &&& changes.state.last_seen_at_ms == seen_at_ms
            &&& changes.state.last_boottime_ms == boottime_ms
            &&& tables.state matches Some(state) && state.boot_id == boot_id && state.generation
                == changes.state.generation
        },
        SessionChangeView::Close { boot_id, seen_at_ms, boottime_ms, reason } => {
            &&& changes.state.last_seen_at_ms == seen_at_ms
            &&& changes.state.last_boottime_ms == boottime_ms
            &&& tables.state matches Some(state) && state.boot_id == boot_id && state.generation
                == changes.state.generation
        },
    }
}

/// A transaction that fits leaves consistent tables consistent.
pub proof fn lemma_commit_consistent(tables: TablesView, changes: ChangesView)
    requires
        consistent(tables),
        fits(tables, changes),
        commit(tables, changes) is Some,
    ensures
        consistent(commit(tables, changes)->0),
{
    let after = commit(tables, changes)->0;
    lemma_log_events(log_of(tables), changes.events);
    lemma_change_sessions(tables.sessions, changes.session);
    let boot_id = changed_boot(changes.session);
    if changes.session is Open {
        let i = choose|i: int|
            0 <= i < after.sessions.len() && (#[trigger] after.sessions[i]).boot_id == boot_id;
        if i < tables.sessions.len() {
            assert(after.sessions[i] == changed_session(tables.sessions[i], changes.session));
        }
        assert(mirrors(after.sessions[i], changes.state));
    } else {
        let i = choose|i: int|
            0 <= i < tables.sessions.len() && mirrors(#[trigger] tables.sessions[i], tables.state->0);
        assert(after.sessions[i] == changed_session(tables.sessions[i], changes.session));
        assert(mirrors(after.sessions[i], changes.state));
    }
}

} // verus!
