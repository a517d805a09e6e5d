//! What holds as long as every boot of the machine has an ID of its own.

use vstd::prelude::*;

use crate::model::{EventKind, SampleView};
use crate::storage::consistency::{consistent, lemma_change_sessions, mirrors};
use crate::storage::fingerprints::{
    has_colon, law_boot_fingerprint_injective, law_fingerprint_heads, law_monitor_fingerprint_injective,
};
use crate::storage::laws::{count_of, law_changed_boot_is_logged_once, law_restart_is_not_a_changed_boot};
use crate::storage::plan::{
    boot_fingerprint, clock_event, gap_event, heartbeat_changes, is_current, monitor_fingerprint, next_generation,
    startup_changes, stop_changes,
};
use crate::storage::rows::{
    change_sessions, changed_session, commit, has_session, is_recorded, log_events, log_of, no_rows, ChangesView,
    EventView, LogView, SessionChangeView, SessionView, StoredView, TablesView,
};

verus! {

/// Whether a boot has a session that has seen at least so many monitor
/// processes.
pub open spec fn has_seen(sessions: Seq<SessionView>, boot_id: Seq<char>, generation: int) -> bool {
    exists|i: int|
        0 <= i < sessions.len() && (#[trigger] sessions[i]).boot_id == boot_id && generation
            <= sessions[i].monitor_generations
}

/// Every restart in the log is one that the session of its boot counts.
pub open spec fn restarts_accounted(sessions: Seq<SessionView>, events: Seq<StoredView>) -> bool {
    forall|i: int, boot_id: Seq<char>, generation: int|
        #![trigger events[i], monitor_fingerprint(boot_id, generation)]
        0 <= i < events.len() && events[i].fingerprint == monitor_fingerprint(boot_id, generation)
            ==> has_seen(sessions, boot_id, generation)
}

/// Every boot that the log says the machine changed to has a session.
pub open spec fn boots_accounted(sessions: Seq<SessionView>, events: Seq<StoredView>) -> bool {
    forall|i: int, previous: Seq<char>, current: Seq<char>|
        #![trigger events[i], boot_fingerprint(previous, current)]
        0 <= i < events.len() && !has_colon(previous) && events[i].fingerprint == boot_fingerprint(
            previous,
            current,
        ) ==> has_session(sessions, current)
}

/// The log tells of no boot and of no restart that the sessions do not know,
/// and the current boot is named without a colon, as the kernel names it.
pub open spec fn accounted(tables: TablesView) -> bool {
    &&& restarts_accounted(tables.sessions, tables.events)
    &&& boots_accounted(tables.sessions, tables.events)
    &&& tables.state matches Some(state) ==> !has_colon(state.boot_id)
}

/// Whether the kernel that was sampled is the one seen last, or one that was
/// never seen before and is named without a colon.
pub open spec fn is_same_or_fresh(tables: TablesView, sample: SampleView) -> bool {
    ||| is_current(tables.state, sample)
    ||| !has_session(tables.sessions, sample.boot_id) && !has_colon(sample.boot_id)
}

/// An event that a transaction logs is one of the log before, or one that the
/// transaction asked for.
proof fn lemma_origin(log: LogView, added: Seq<EventView>, i: int)
    requires
        log_events(log, added) is Some,
        0 <= i < log_events(log, added)->0.events.len(),
    ensures
        ({
            let logged = log_events(log, added)->0.events[i];
            ||| i < log.events.len() && logged == log.events[i]
            ||| exists|j: int| 0 <= j < added.len() && logged.fingerprint == (#[trigger] added[j]).fingerprint
        }),
    decreases added.len(),
{
    if added.len() > 0 {
        let earlier = log_events(log, added.drop_last())->0.events;
        let after = log_events(log, added)->0.events;
        if i < earlier.len() {
            assert(after[i] == earlier[i]);
            lemma_origin(log, added.drop_last(), i);
            if !(i < log.events.len() && earlier[i] == log.events[i]) {
                let j = choose|j: int|
                    0 <= j < added.drop_last().len() && earlier[i].fingerprint == (
                    #[trigger] added.drop_last()[j]).fingerprint;
                assert(added[j] == added.drop_last()[j]);
            }
        } else {
            assert(after[i].fingerprint == added[added.len() - 1].fingerprint);
        }
    }
}

/// A session change that does not lower the count of monitor processes leaves
/// no boot with fewer of them, and takes no session away.
proof fn lemma_seen_stays(
    sessions: Seq<SessionView>,
    change: SessionChangeView,
    boot_id: Seq<char>,
    generation: int,
)
    requires
        match change {
            SessionChangeView::Open { boot_id, .. } => !has_session(sessions, boot_id),
            SessionChangeView::Resume { boot_id, generation, .. } => forall|i: int|
                0 <= i < sessions.len() && (#[trigger] sessions[i]).boot_id == boot_id
                    ==> sessions[i].monitor_generations <= generation,
            _ => true,
        },
    ensures
        has_seen(sessions, boot_id, generation) ==> has_seen(
            change_sessions(sessions, change),
            boot_id,
            generation,
        ),
        has_session(sessions, boot_id) ==> has_session(change_sessions(sessions, change), boot_id),
{
    let after = change_sessions(sessions, change);
    lemma_change_sessions(sessions, change);
    if has_seen(sessions, boot_id, generation) {
        let i = choose|i: int|
            0 <= i < sessions.len() && (#[trigger] sessions[i]).boot_id == boot_id && generation
                <= sessions[i].monitor_generations;
        assert(after[i].boot_id == boot_id);
        assert(sessions[i].monitor_generations <= after[i].monitor_generations);
    }
    if has_session(sessions, boot_id) {
        let i = choose|i: int| 0 <= i < sessions.len() && (#[trigger] sessions[i]).boot_id == boot_id;
        assert(after[i].boot_id == boot_id);
    }
}

/// A transaction keeps the log accounted for if it keeps the sessions, and
/// accounts for what it logs itself.
proof fn lemma_commit_accounted(tables: TablesView, changes: ChangesView)
    requires
        accounted(tables),
        commit(tables, changes) is Some,
        !has_colon(changes.state.boot_id),
        match changes.session {
            SessionChangeView::Open { boot_id, .. } => !has_session(tables.sessions, boot_id),
            SessionChangeView::Resume { boot_id, generation, .. } => forall|i: int|
                0 <= i < tables.sessions.len() && (#[trigger] tables.sessions[i]).boot_id == boot_id
                    ==> tables.sessions[i].monitor_generations <= generation,
            _ => true,
        },
        forall|j: int, boot_id: Seq<char>, generation: int|
            #![trigger changes.events[j], monitor_fingerprint(boot_id, generation)]
            0 <= j < changes.events.len() && changes.events[j].fingerprint == monitor_fingerprint(
                boot_id,
                generation,
            ) ==> has_seen(change_sessions(tables.sessions, changes.session), boot_id, generation),
        forall|j: int, previous: Seq<char>, current: Seq<char>|
            #![trigger changes.events[j], boot_fingerprint(previous, current)]
            0 <= j < changes.events.len() && !has_colon(previous) && changes.events[j].fingerprint
                == boot_fingerprint(previous, current) ==> has_session(
                change_sessions(tables.sessions, changes.session),
                current,
            ),
    ensures
        accounted(commit(tables, changes)->0),
{
    let after = commit(tables, changes)->0;
    assert forall|i: int, boot_id: Seq<char>, generation: int|
        #![trigger after.events[i], monitor_fingerprint(boot_id, generation)]
        0 <= i < after.events.len() && after.events[i].fingerprint == monitor_fingerprint(
            boot_id,
            generation,
        ) implies has_seen(after.sessions, boot_id, generation) by {
        lemma_origin(log_of(tables), changes.events, i);
        if i < tables.events.len() && after.events[i] == tables.events[i] {
            lemma_seen_stays(tables.sessions, changes.session, boot_id, generation);
        } else {
            let j = choose|j: int|
                0 <= j < changes.events.len() && after.events[i].fingerprint == (
                #[trigger] changes.events[j]).fingerprint;
            assert(changes.events[j].fingerprint == monitor_fingerprint(boot_id, generation));
        }
    }
    assert forall|i: int, previous: Seq<char>, current: Seq<char>|
        #![trigger after.events[i], boot_fingerprint(previous, current)]
        0 <= i < after.events.len() && !has_colon(previous) && after.events[i].fingerprint
            == boot_fingerprint(previous, current) implies has_session(after.sessions, current) by {
        lemma_origin(log_of(tables), changes.events, i);
        if i < tables.events.len() && after.events[i] == tables.events[i] {
            lemma_seen_stays(tables.sessions, changes.session, current, 0);
        } else {
            let j = choose|j: int|
                0 <= j < changes.events.len() && after.events[i].fingerprint == (
                #[trigger] changes.events[j]).fingerprint;
            assert(changes.events[j].fingerprint == boot_fingerprint(previous, current));
        }
    }
}

/// Tables without a row are accounted for.
pub proof fn law_empty_tables_are_accounted()
    ensures
        accounted(no_rows()),
        consistent(no_rows()),
{
}

/// Starting on the kernel seen last, or on one never seen before, keeps the
/// log accounted for.
pub proof fn law_start_keeps_account(tables: TablesView, sample: SampleView)
    requires
        consistent(tables),
        accounted(tables),
        is_same_or_fresh(tables, sample),
        commit(tables, startup_changes(tables.state, sample)) is Some,
    ensures
        accounted(commit(tables, startup_changes(tables.state, sample))->0),
{
    let changes = startup_changes(tables.state, sample);
    let sessions = change_sessions(tables.sessions, changes.session);
    lemma_change_sessions(tables.sessions, changes.session);
    if is_current(tables.state, sample) {
        let previous = tables.state->0;
        let known = choose|i: int|
            0 <= i < tables.sessions.len() && mirrors(#[trigger] tables.sessions[i], previous);
        assert forall|i: int|
            0 <= i < tables.sessions.len() && (#[trigger] tables.sessions[i]).boot_id == sample.boot_id
            implies tables.sessions[i].monitor_generations <= next_generation(previous) by {
            assert(i == known);
        }
        assert(sessions[known] == changed_session(tables.sessions[known], changes.session));
        assert(has_seen(sessions, sample.boot_id, next_generation(previous) as int));
    }
    assert forall|j: int, boot_id: Seq<char>, generation: int|
        #![trigger changes.events[j], monitor_fingerprint(boot_id, generation)]
        0 <= j < changes.events.len() && changes.events[j].fingerprint == monitor_fingerprint(
            boot_id,
            generation,
        ) implies has_seen(sessions, boot_id, generation) by {
        let previous = tables.state->0;
        law_fingerprint_heads(previous.boot_id, sample.boot_id, next_generation(previous) as int, 0);
        law_fingerprint_heads(previous.boot_id, boot_id, generation, 0);
        law_monitor_fingerprint_injective(
            sample.boot_id,
            next_generation(previous) as int,
            boot_id,
            generation,
        );
    }
    assert forall|j: int, previous: Seq<char>, current: Seq<char>|
        #![trigger changes.events[j], boot_fingerprint(previous, current)]
        0 <= j < changes.events.len() && !has_colon(previous) && changes.events[j].fingerprint
            == boot_fingerprint(previous, current) implies has_session(sessions, current) by {
        let before = tables.state->0;
        law_fingerprint_heads(before.boot_id, sample.boot_id, next_generation(before) as int, 0);
        law_fingerprint_heads(previous, current, 0, 0);
        law_boot_fingerprint_injective(before.boot_id, sample.boot_id, previous, current);
    }
    lemma_commit_accounted(tables, changes);
}

/// Heartbeats keep the log accounted for.
pub proof fn law_heartbeat_keeps_account(
    tables: TablesView,
    sample: SampleView,
    interval_ms: i64,
    gap_factor: i64,
)
    requires
        accounted(tables),
        is_current(tables.state, sample),
        commit(tables, heartbeat_changes(tables.state->0, sample, interval_ms, gap_factor)) is Some,
    ensures
        accounted(commit(tables, heartbeat_changes(tables.state->0, sample, interval_ms, gap_factor))->0),
{
    let previous = tables.state->0;
    let changes = heartbeat_changes(previous, sample, interval_ms, gap_factor);
    law_fingerprint_heads(
        previous.boot_id,
        sample.boot_id,
        previous.generation as int,
        previous.last_boottime_ms as int,
    );
    assert forall|j: int| 0 <= j < changes.events.len() implies {
        let first = (#[trigger] changes.events[j]).fingerprint[0];
        first == 'g' || first == 'c'
    } by {
        let event = changes.events[j];
        assert(event == gap_event(previous, sample, interval_ms, gap_factor) || event == clock_event(
            previous,
            sample,
        ));
    }
    assert forall|j: int, boot_id: Seq<char>, generation: int|
        #![trigger changes.events[j], monitor_fingerprint(boot_id, generation)]
        0 <= j < changes.events.len() implies changes.events[j].fingerprint != monitor_fingerprint(
        boot_id,
        generation,
    ) by {
        law_fingerprint_heads(boot_id, boot_id, generation, 0);
    }
    assert forall|j: int, before: Seq<char>, current: Seq<char>|
        #![trigger changes.events[j], boot_fingerprint(before, current)]
        0 <= j < changes.events.len() implies changes.events[j].fingerprint != boot_fingerprint(
        before,
        current,
    ) by {
        law_fingerprint_heads(before, current, 0, 0);
    }
    lemma_commit_accounted(tables, changes);
}

/// An orderly stop keeps the log accounted for.
pub proof fn law_stop_keeps_account(tables: TablesView, sample: SampleView, reason: Seq<char>)
    requires
        accounted(tables),
        is_current(tables.state, sample),
    ensures
        commit(tables, stop_changes(tables.state->0, sample, reason)) matches Some(after) && accounted(after),
{
    lemma_commit_accounted(tables, stop_changes(tables.state->0, sample, reason));
}

/// A reboot adds exactly one changed boot to the log: a start on a kernel that
/// was never seen before finds no such change in the log.
pub proof fn law_reboot_adds_one_changed_boot(tables: TablesView, sample: SampleView)
    requires
        consistent(tables),
        accounted(tables),
        tables.state is Some,
        !has_session(tables.sessions, sample.boot_id),
        commit(tables, startup_changes(tables.state, sample)) is Some,
    ensures
        count_of(
            commit(tables, startup_changes(tables.state, sample))->0.events,
            EventKind::BootChanged,
        ) == count_of(tables.events, EventKind::BootChanged) + 1,
{
    let previous = tables.state->0;
    let known = choose|i: int|
        0 <= i < tables.sessions.len() && mirrors(#[trigger] tables.sessions[i], previous);
    assert(tables.sessions[known].boot_id == previous.boot_id);
    let fingerprint = boot_fingerprint(previous.boot_id, sample.boot_id);
    if is_recorded(tables.events, fingerprint) {
        let i = choose|i: int|
            0 <= i < tables.events.len() && (#[trigger] tables.events[i]).fingerprint == fingerprint;
        assert(has_session(tables.sessions, sample.boot_id));
    }
    law_changed_boot_is_logged_once(tables, sample);
}

/// A restart of the monitor adds exactly one restarted monitor to the log,
/// and no changed boot, until the count of monitor processes is exhausted.
pub proof fn law_restart_adds_one_restarted_monitor(tables: TablesView, sample: SampleView)
    requires
        consistent(tables),
        accounted(tables),
        is_current(tables.state, sample),
        tables.state->0.generation < i64::MAX,
        commit(tables, startup_changes(tables.state, sample)) is Some,
    ensures
        ({
            let after = commit(tables, startup_changes(tables.state, sample))->0;
            &&& count_of(after.events, EventKind::MonitorRestarted) == count_of(
                tables.events,
                EventKind::MonitorRestarted,
            ) + 1
            &&& count_of(after.events, EventKind::BootChanged) == count_of(
                tables.events,
                EventKind::BootChanged,
            )
        }),
{
    let previous = tables.state->0;
    let generation = next_generation(previous) as int;
    let fingerprint = monitor_fingerprint(sample.boot_id, generation);
    let known = choose|i: int|
        0 <= i < tables.sessions.len() && mirrors(#[trigger] tables.sessions[i], previous);
    if is_recorded(tables.events, fingerprint) {
        let i = choose|i: int|
            0 <= i < tables.events.len() && (#[trigger] tables.events[i]).fingerprint == fingerprint;
        assert(has_seen(tables.sessions, sample.boot_id, generation));
        let counting = choose|i: int|
            0 <= i < tables.sessions.len() && (#[trigger] tables.sessions[i]).boot_id == sample.boot_id
                && generation <= tables.sessions[i].monitor_generations;
        assert(counting == known);
    }
    law_restart_is_not_a_changed_boot(tables, sample);
}

} // verus!
