//! What holds of the storage across its operations.

use vstd::prelude::*;

use crate::model::{kind_name, law_kind_names_distinct, EventKind, SampleView};
use crate::storage::consistency::{
    continues, fingerprints_unique, lemma_log_event, lemma_log_events, lemma_recorded_stays,
};
use crate::storage::fingerprints::law_fingerprint_heads;
use crate::storage::listing::selected;
use crate::storage::plan::{
    boot_clock_event, boot_clock_fingerprint, boot_event, boot_fingerprint, clock_event, clock_fingerprint,
    clock_ran_back, gap_event, gap_fingerprint, has_gap, heartbeat_changes, heartbeat_events, is_current, kinds_of,
    monitor_fingerprint, next_generation, overlaps, restart_event, started_state, startup_changes, startup_events,
    startup_outcome, stop_changes, stopped_gracefully, StartupDisposition, StartupOutcome,
};
use crate::storage::rows::{
    commit, is_recorded, log_event, log_events, log_of, next_event_id, stored_event, EventView, LogView, StateView,
    StoredView, TablesView,
};
use crate::storage::status_of;

verus! {

/// How many events of a kind the log holds.
pub open spec fn count_of(events: Seq<StoredView>, kind: EventKind) -> nat {
    selected(events, Some(kind_name(kind))).len()
}

/// One more if an event is new to the log.
pub open spec fn if_new(events: Seq<StoredView>, fingerprint: Seq<char>) -> nat {
    if is_recorded(events, fingerprint) {
        0
    } else {
        1
    }
}

proof fn lemma_count_log_event(log: LogView, event: EventView, kind: EventKind)
    requires
        log_event(log, event) is Some,
    ensures
        count_of(log_event(log, event)->0.events, kind) == count_of(log.events, kind) + if event.kind == kind {
            if_new(log.events, event.fingerprint)
        } else {
            0
        },
{
    let after = log_event(log, event)->0;
    if !is_recorded(log.events, event.fingerprint) {
        assert(after.events.drop_last() =~= log.events);
        law_kind_names_distinct(event.kind, kind);
    }
}

/// A transaction with one event logs that event.
pub proof fn lemma_log_one(log: LogView, event: EventView)
    ensures
        log_events(log, seq![event]) == log_event(log, event),
{
    assert(seq![event].drop_last() =~= Seq::<EventView>::empty());
    assert(seq![event].last() == event);
    reveal_with_fuel(log_events, 2);
}

/// A transaction with two events logs the one, then the other.
pub proof fn lemma_log_two(log: LogView, first: EventView, second: EventView)
    ensures
        log_events(log, seq![first, second]) == match log_event(log, first) {
            Some(log) => log_event(log, second),
            None => None,
        },
{
    assert(seq![first, second].drop_last() =~= seq![first]);
    assert(seq![first, second].last() == second);
    lemma_log_one(log, first);
}

/// An event whose fingerprint is in the log already leaves every event of the
/// log as it is. Any other event is added as one row that says what the event
/// says. Either way fingerprints stay unique, and logging an event with that
/// fingerprint again adds nothing.
pub proof fn law_fingerprint_is_logged_once(log: LogView, event: EventView, again: EventView)
    requires
        next_event_id(log) <= i64::MAX,
        again.fingerprint == event.fingerprint,
    ensures
        ({
            let once = log_event(log, event)->0;
            &&& log_event(log, event) is Some
            &&& is_recorded(log.events, event.fingerprint) ==> once.events == log.events
            &&& !is_recorded(log.events, event.fingerprint) ==> once.events == log.events.push(
                stored_event(event, next_event_id(log) as i64),
            )
            &&& fingerprints_unique(log.events) ==> fingerprints_unique(once.events)
            &&& log_event(once, again) matches Some(twice) ==> twice.events == once.events
        }),
{
    lemma_log_event(log, event);
}

/// Starting on a storage that holds no state is always possible and logs
/// nothing.
pub proof fn law_first_start_logs_nothing(tables: TablesView, sample: SampleView)
    requires
        tables.state is None,
    ensures
        startup_outcome(tables.state, sample) == (StartupOutcome {
            disposition: StartupDisposition::Baseline,
            generation: 1,
        }),
        commit(tables, startup_changes(tables.state, sample)) matches Some(after) && after.events
            == tables.events && after.state == Some(started_state(sample, sample.observed_at_ms, 1)),
{
}

/// Starting on another kernel than the one seen last logs one changed boot,
/// unless this very change is in the log already, and neither a restarted
/// monitor nor missed heartbeats. If the new kernel seems to have begun before
/// the last heartbeat, one clock anomaly goes with it in the same way.
pub proof fn law_changed_boot_is_logged_once(tables: TablesView, sample: SampleView)
    requires
        tables.state is Some,
        tables.state->0.boot_id != sample.boot_id,
        commit(tables, startup_changes(tables.state, sample)) is Some,
    ensures
        ({
            let previous = tables.state->0;
            let change = boot_fingerprint(previous.boot_id, sample.boot_id);
            let anomaly = boot_clock_fingerprint(previous.boot_id, sample.boot_id);
            let after = commit(tables, startup_changes(tables.state, sample))->0;
            &&& startup_outcome(tables.state, sample) == (StartupOutcome {
                disposition: StartupDisposition::BootChanged { graceful: stopped_gracefully(previous) },
                generation: 1,
            })
            &&& is_recorded(after.events, change)
            &&& count_of(after.events, EventKind::BootChanged) == count_of(
                tables.events,
                EventKind::BootChanged,
            ) + if_new(tables.events, change)
            &&& count_of(after.events, EventKind::MonitorRestarted) == count_of(
                tables.events,
                EventKind::MonitorRestarted,
            )
            &&& count_of(after.events, EventKind::HeartbeatGap) == count_of(
                tables.events,
                EventKind::HeartbeatGap,
            )
            &&& count_of(after.events, EventKind::ClockAnomaly) == count_of(
                tables.events,
                EventKind::ClockAnomaly,
            ) + if overlaps(previous, sample) {
                if_new(tables.events, anomaly)
            } else {
                0
            }
        }),
{
    let previous = tables.state->0;
    let first = boot_event(previous, sample);
    let second = boot_clock_event(previous, sample);
    let added = startup_events(tables.state, sample);
    let after = commit(tables, startup_changes(tables.state, sample))->0;
    lemma_log_one(log_of(tables), first);
    lemma_log_two(log_of(tables), first, second);
    lemma_log_events(log_of(tables), added);
    assert(added[0] == first);
    let between = log_event(log_of(tables), first)->0;
    lemma_count_log_event(log_of(tables), first, EventKind::BootChanged);
    lemma_count_log_event(log_of(tables), first, EventKind::MonitorRestarted);
    lemma_count_log_event(log_of(tables), first, EventKind::HeartbeatGap);
    lemma_count_log_event(log_of(tables), first, EventKind::ClockAnomaly);
    if overlaps(previous, sample) {
        lemma_count_log_event(between, second, EventKind::BootChanged);
        lemma_count_log_event(between, second, EventKind::MonitorRestarted);
        lemma_count_log_event(between, second, EventKind::HeartbeatGap);
        lemma_count_log_event(between, second, EventKind::ClockAnomaly);
        law_fingerprint_heads(previous.boot_id, sample.boot_id, 0, 0);
        lemma_log_event(log_of(tables), first);
        if is_recorded(tables.events, second.fingerprint) {
            lemma_recorded_stays(tables.events, between.events, second.fingerprint);
        } else if is_recorded(between.events, second.fingerprint) {
            let i = choose|i: int|
                0 <= i < between.events.len() && (#[trigger] between.events[i]).fingerprint == second.fingerprint;
            if i < tables.events.len() {
                assert(between.events.take(tables.events.len() as int)[i] == between.events[i]);
            }
        }
    }
}

/// The event of a changed boot that is new to the log is its next entry; it
/// bounds the outage by the last heartbeat and the start of the new kernel,
/// tells whether the monitor had stopped in an orderly way, and carries a note
/// exactly when the two ends of the window are the wrong way round.
pub proof fn law_changed_boot_keeps_the_evidence(tables: TablesView, sample: SampleView)
    requires
        tables.state is Some,
        tables.state->0.boot_id != sample.boot_id,
        !is_recorded(tables.events, boot_fingerprint(tables.state->0.boot_id, sample.boot_id)),
        commit(tables, startup_changes(tables.state, sample)) is Some,
    ensures
        ({
            let previous = tables.state->0;
            let after = commit(tables, startup_changes(tables.state, sample))->0;
            let logged = after.events[tables.events.len() as int].record;
            &&& after.events.len() > tables.events.len()
            &&& logged.id == next_event_id(log_of(tables))
            &&& logged.kind == kind_name(EventKind::BootChanged)
            &&& logged.detected_at_ms == sample.observed_at_ms
            &&& logged.previous_boot_id == Some(previous.boot_id)
            &&& logged.current_boot_id == sample.boot_id
            &&& logged.window_start_ms == Some(previous.last_seen_at_ms)
            &&& logged.window_end_ms == Some(sample.boot_started_at_ms)
            &&& logged.graceful == Some(stopped_gracefully(previous))
            &&& logged.details is Some <==> sample.boot_started_at_ms < previous.last_seen_at_ms
        }),
{
    let previous = tables.state->0;
    let first = boot_event(previous, sample);
    let second = boot_clock_event(previous, sample);
    lemma_log_one(log_of(tables), first);
    lemma_log_two(log_of(tables), first, second);
    let between = log_event(log_of(tables), first)->0;
    if overlaps(previous, sample) {
        let after = log_event(between, second)->0.events;
        lemma_log_event(between, second);
        assert(after.take(between.events.len() as int)[tables.events.len() as int]
            == after[tables.events.len() as int]);
    }
}

/// Starting again on the kernel seen last never logs a changed boot: it logs
/// one restarted monitor, unless this very restart is in the log already.
pub proof fn law_restart_is_not_a_changed_boot(tables: TablesView, sample: SampleView)
    requires
        is_current(tables.state, sample),
        commit(tables, startup_changes(tables.state, sample)) is Some,
    ensures
        ({
            let previous = tables.state->0;
            let restart = monitor_fingerprint(sample.boot_id, next_generation(previous) as int);
            let after = commit(tables, startup_changes(tables.state, sample))->0;
            &&& startup_outcome(tables.state, sample) == (StartupOutcome {
                disposition: StartupDisposition::MonitorRestarted { graceful: stopped_gracefully(previous) },
                generation: next_generation(previous),
            })
            &&& is_recorded(after.events, restart)
            &&& after.state->0.first_seen_at_ms == previous.first_seen_at_ms
            &&& count_of(after.events, EventKind::BootChanged) == count_of(
                tables.events,
                EventKind::BootChanged,
            )
            &&& count_of(after.events, EventKind::MonitorRestarted) == count_of(
                tables.events,
                EventKind::MonitorRestarted,
            ) + if_new(tables.events, restart)
            &&& count_of(after.events, EventKind::HeartbeatGap) == count_of(
                tables.events,
                EventKind::HeartbeatGap,
            )
            &&& count_of(after.events, EventKind::ClockAnomaly) == count_of(
                tables.events,
                EventKind::ClockAnomaly,
            )
        }),
{
    let event = restart_event(tables.state->0, sample);
    lemma_log_one(log_of(tables), event);
    lemma_log_event(log_of(tables), event);
    lemma_count_log_event(log_of(tables), event, EventKind::BootChanged);
    lemma_count_log_event(log_of(tables), event, EventKind::MonitorRestarted);
    lemma_count_log_event(log_of(tables), event, EventKind::HeartbeatGap);
    lemma_count_log_event(log_of(tables), event, EventKind::ClockAnomaly);
}

/// Starting a second time after a changed boot, as a retry does, does not log
/// the change again.
pub proof fn law_retry_does_not_repeat_the_boot(tables: TablesView, first: SampleView, again: SampleView)
    requires
        first.boot_id == again.boot_id,
        commit(tables, startup_changes(tables.state, first)) is Some,
        ({
            let once = commit(tables, startup_changes(tables.state, first))->0;
            commit(once, startup_changes(once.state, again)) is Some
        }),
    ensures
        ({
            let once = commit(tables, startup_changes(tables.state, first))->0;
            let twice = commit(once, startup_changes(once.state, again))->0;
            &&& startup_outcome(once.state, again).disposition == (StartupDisposition::MonitorRestarted {
                graceful: false,
            })
            &&& count_of(twice.events, EventKind::BootChanged) == count_of(once.events, EventKind::BootChanged)
        }),
{
    let once = commit(tables, startup_changes(tables.state, first))->0;
    law_restart_is_not_a_changed_boot(once, again);
}

/// A heartbeat logs neither a changed boot nor a restarted monitor.
pub proof fn law_heartbeat_keeps_continuity(
    tables: TablesView,
    sample: SampleView,
    interval_ms: i64,
    gap_factor: i64,
)
    requires
        is_current(tables.state, sample),
        commit(tables, heartbeat_changes(tables.state->0, sample, interval_ms, gap_factor)) is Some,
    ensures
        ({
            let after = commit(tables, heartbeat_changes(tables.state->0, sample, interval_ms, gap_factor))->0;
            &&& count_of(after.events, EventKind::BootChanged) == count_of(
                tables.events,
                EventKind::BootChanged,
            )
            &&& count_of(after.events, EventKind::MonitorRestarted) == count_of(
                tables.events,
                EventKind::MonitorRestarted,
            )
            &&& after.state->0.generation == tables.state->0.generation
            &&& after.state->0.first_seen_at_ms == tables.state->0.first_seen_at_ms
        }),
{
    let previous = tables.state->0;
    let gap = gap_event(previous, sample, interval_ms, gap_factor);
    let clock = clock_event(previous, sample);
    let added = heartbeat_events(previous, sample, interval_ms, gap_factor);
    lemma_log_one(log_of(tables), gap);
    lemma_log_one(log_of(tables), clock);
    lemma_log_two(log_of(tables), gap, clock);
    if has_gap(previous, sample, interval_ms, gap_factor) {
        let between = log_event(log_of(tables), gap)->0;
        if clock_ran_back(previous, sample) {
            assert(added =~= seq![gap, clock]);
            lemma_count_log_event(between, clock, EventKind::BootChanged);
            lemma_count_log_event(between, clock, EventKind::MonitorRestarted);
        } else {
            assert(added =~= seq![gap]);
        }
        lemma_count_log_event(log_of(tables), gap, EventKind::BootChanged);
        lemma_count_log_event(log_of(tables), gap, EventKind::MonitorRestarted);
    } else if clock_ran_back(previous, sample) {
        assert(added =~= seq![clock]);
        lemma_count_log_event(log_of(tables), clock, EventKind::BootChanged);
        lemma_count_log_event(log_of(tables), clock, EventKind::MonitorRestarted);
    } else {
        assert(added =~= seq![]);
    }
}

/// A heartbeat logs missed heartbeats exactly when there are any, and a clock
/// anomaly exactly when a clock ran backwards; each once, unless this very
/// event is in the log already.
pub proof fn law_heartbeat_logs_what_it_notices(
    tables: TablesView,
    sample: SampleView,
    interval_ms: i64,
    gap_factor: i64,
)
    requires
        is_current(tables.state, sample),
        commit(tables, heartbeat_changes(tables.state->0, sample, interval_ms, gap_factor)) is Some,
    ensures
        ({
            let previous = tables.state->0;
            let after = commit(tables, heartbeat_changes(previous, sample, interval_ms, gap_factor))->0;
            let gap = gap_fingerprint(
                sample.boot_id,
                previous.generation as int,
                previous.last_boottime_ms as int,
            );
            let anomaly = clock_fingerprint(
                sample.boot_id,
                previous.generation as int,
                previous.last_boottime_ms as int,
            );
            &&& count_of(after.events, EventKind::HeartbeatGap) == count_of(
                tables.events,
                EventKind::HeartbeatGap,
            ) + if has_gap(previous, sample, interval_ms, gap_factor) {
                if_new(tables.events, gap)
            } else {
                0
            }
            &&& has_gap(previous, sample, interval_ms, gap_factor) ==> is_recorded(after.events, gap)
            &&& count_of(after.events, EventKind::ClockAnomaly) == count_of(
                tables.events,
                EventKind::ClockAnomaly,
            ) + if clock_ran_back(previous, sample) {
                if_new(tables.events, anomaly)
            } else {
                0
            }
            &&& clock_ran_back(previous, sample) ==> is_recorded(after.events, anomaly)
        }),
{
    let previous = tables.state->0;
    let gap = gap_event(previous, sample, interval_ms, gap_factor);
    let clock = clock_event(previous, sample);
    let added = heartbeat_events(previous, sample, interval_ms, gap_factor);
    lemma_log_one(log_of(tables), gap);
    lemma_log_one(log_of(tables), clock);
    lemma_log_two(log_of(tables), gap, clock);
    lemma_log_events(log_of(tables), added);
    if has_gap(previous, sample, interval_ms, gap_factor) {
        let between = log_event(log_of(tables), gap)->0;
        assert(added[0] == gap);
        if clock_ran_back(previous, sample) {
            assert(added =~= seq![gap, clock]);
            assert(added[1] == clock);
            lemma_count_log_event(between, clock, EventKind::HeartbeatGap);
            lemma_count_log_event(between, clock, EventKind::ClockAnomaly);
            law_fingerprint_heads(
                sample.boot_id,
                sample.boot_id,
                previous.generation as int,
                previous.last_boottime_ms as int,
            );
            lemma_log_event(log_of(tables), gap);
            if is_recorded(tables.events, clock.fingerprint) {
                lemma_recorded_stays(tables.events, between.events, clock.fingerprint);
            } else if is_recorded(between.events, clock.fingerprint) {
                let i = choose|i: int|
                    0 <= i < between.events.len() && (#[trigger] between.events[i]).fingerprint
                        == clock.fingerprint;
                if i < tables.events.len() {
                    assert(between.events.take(tables.events.len() as int)[i] == between.events[i]);
                }
            }
        } else {
            assert(added =~= seq![gap]);
        }
        lemma_count_log_event(log_of(tables), gap, EventKind::HeartbeatGap);
        lemma_count_log_event(log_of(tables), gap, EventKind::ClockAnomaly);
    } else if clock_ran_back(previous, sample) {
        assert(added =~= seq![clock]);
        assert(added[0] == clock);
        lemma_count_log_event(log_of(tables), clock, EventKind::HeartbeatGap);
        lemma_count_log_event(log_of(tables), clock, EventKind::ClockAnomaly);
    } else {
        assert(added =~= seq![]);
    }
}

/// Heartbeats are missed exactly when the boot clock advanced by more than
/// the interval times the factor. Left out are a boot clock that ran backwards
/// under a negative product, and an advance beyond a product that is itself
/// beyond the largest number.
pub proof fn law_gap_means_late(
    previous: StateView,
    sample: SampleView,
    interval_ms: i64,
    gap_factor: i64,
)
    requires
        !(interval_ms * gap_factor < sample.boottime_ms - previous.last_boottime_ms < 0),
        !(i64::MAX <= interval_ms * gap_factor < sample.boottime_ms - previous.last_boottime_ms),
    ensures
        has_gap(previous, sample, interval_ms, gap_factor) <==> sample.boottime_ms
            - previous.last_boottime_ms > interval_ms * gap_factor,
{
}

/// A heartbeat reports a clock anomaly exactly when the wall clock or the boot
/// clock ran backwards, by however little.
pub proof fn law_anomaly_means_a_clock_ran_back(
    previous: StateView,
    sample: SampleView,
    interval_ms: i64,
    gap_factor: i64,
)
    ensures
        kinds_of(heartbeat_events(previous, sample, interval_ms, gap_factor)).contains(EventKind::ClockAnomaly)
            <==> sample.observed_at_ms < previous.last_seen_at_ms || sample.boottime_ms
            < previous.last_boottime_ms,
{
    let events = heartbeat_events(previous, sample, interval_ms, gap_factor);
    let kinds = kinds_of(events);
    if clock_ran_back(previous, sample) {
        assert(events.last() == clock_event(previous, sample));
        assert(kinds[events.len() - 1] == EventKind::ClockAnomaly);
    }
}

/// While neither clock runs backwards and no heartbeat is late, heartbeats log
/// nothing.
pub proof fn law_steady_heartbeats_log_nothing(
    tables: TablesView,
    sample: SampleView,
    interval_ms: i64,
    gap_factor: i64,
)
    requires
        is_current(tables.state, sample),
        tables.state->0.last_seen_at_ms <= sample.observed_at_ms,
        0 <= sample.boottime_ms - tables.state->0.last_boottime_ms <= interval_ms * gap_factor,
    ensures
        commit(tables, heartbeat_changes(tables.state->0, sample, interval_ms, gap_factor)) matches Some(after)
            && after.events == tables.events,
{
    assert(heartbeat_events(tables.state->0, sample, interval_ms, gap_factor) =~= seq![]);
}

/// No operation takes an event out of the log or changes one.
pub proof fn law_log_only_grows(
    tables: TablesView,
    sample: SampleView,
    interval_ms: i64,
    gap_factor: i64,
    reason: Seq<char>,
)
    ensures
        commit(tables, startup_changes(tables.state, sample)) matches Some(after) ==> continues(
            tables.events,
            after.events,
        ),
        commit(tables, heartbeat_changes(tables.state->0, sample, interval_ms, gap_factor)) matches Some(after)
            ==> continues(tables.events, after.events),
        commit(tables, stop_changes(tables.state->0, sample, reason)) matches Some(after) ==> after.events
            == tables.events,
{
    if commit(tables, startup_changes(tables.state, sample)) is Some {
        lemma_log_events(log_of(tables), startup_changes(tables.state, sample).events);
    }
    let changes = heartbeat_changes(tables.state->0, sample, interval_ms, gap_factor);
    if commit(tables, changes) is Some {
        lemma_log_events(log_of(tables), changes.events);
    }
}

/// After an orderly stop the next start is graceful, on whatever kernel.
pub proof fn law_stop_makes_the_next_start_graceful(
    tables: TablesView,
    last: SampleView,
    reason: Seq<char>,
    next: SampleView,
)
    requires
        is_current(tables.state, last),
    ensures
        commit(tables, stop_changes(tables.state->0, last, reason)) matches Some(stopped)
            && startup_outcome(stopped.state, next).disposition == if next.boot_id == last.boot_id {
            StartupDisposition::MonitorRestarted { graceful: true }
        } else {
            StartupDisposition::BootChanged { graceful: true }
        },
{
}

/// After a start or a heartbeat, without an orderly stop, the next start is
/// not graceful, on whatever kernel.
pub proof fn law_silence_makes_the_next_start_ungraceful(
    tables: TablesView,
    last: SampleView,
    interval_ms: i64,
    gap_factor: i64,
    next: SampleView,
)
    ensures
        ({
            let disposition = if next.boot_id == last.boot_id {
                StartupDisposition::MonitorRestarted { graceful: false }
            } else {
                StartupDisposition::BootChanged { graceful: false }
            };
            &&& commit(tables, startup_changes(tables.state, last)) matches Some(started) ==> startup_outcome(
                started.state,
                next,
            ).disposition == disposition
            &&& is_current(tables.state, last) ==> (commit(
                tables,
                heartbeat_changes(tables.state->0, last, interval_ms, gap_factor),
            ) matches Some(alive) ==> startup_outcome(alive.state, next).disposition == disposition)
        }),
{
}

/// What a start, a heartbeat or a stop writes is what the next status reads.
pub proof fn law_status_reads_what_was_written(
    tables: TablesView,
    sample: SampleView,
    interval_ms: i64,
    gap_factor: i64,
    reason: Seq<char>,
)
    ensures
        commit(tables, startup_changes(tables.state, sample)) matches Some(after) ==> {
            let status = status_of(after.state->0, after.events);
            &&& after.state is Some
            &&& status.boot_id == sample.boot_id
            &&& status.boot_started_at_ms == sample.boot_started_at_ms
            &&& status.last_heartbeat_at_ms == sample.observed_at_ms
            &&& status.last_boottime_ms == sample.boottime_ms
            &&& status.monitor_active
            &&& status.monitor_generation == startup_outcome(tables.state, sample).generation
            &&& status.ended_at_ms is None
            &&& status.end_reason is None
        },
        is_current(tables.state, sample) ==> (commit(
            tables,
            heartbeat_changes(tables.state->0, sample, interval_ms, gap_factor),
        ) matches Some(after) ==> {
            let status = status_of(after.state->0, after.events);
            &&& after.state is Some
            &&& status.boot_id == sample.boot_id
            &&& status.last_heartbeat_at_ms == sample.observed_at_ms
            &&& status.last_boottime_ms == sample.boottime_ms
            &&& status.monitor_active
            &&& status.monitor_generation == tables.state->0.generation
            &&& status.ended_at_ms is None
            &&& status.end_reason is None
        }),
        is_current(tables.state, sample) ==> (commit(
            tables,
            stop_changes(tables.state->0, sample, reason),
        ) matches Some(after) && {
            let status = status_of(after.state->0, after.events);
            &&& after.state is Some
            &&& status.boot_id == sample.boot_id
            &&& status.last_heartbeat_at_ms == sample.observed_at_ms
            &&& !status.monitor_active
            &&& status.ended_at_ms == Some(sample.observed_at_ms)
            &&& status.end_reason == Some(reason)
        }),
{
}

/// A start and a heartbeat are carried out as long as two numbers are left
/// for events.
pub proof fn law_writes_succeed_with_room(
    tables: TablesView,
    sample: SampleView,
    interval_ms: i64,
    gap_factor: i64,
)
    requires
        next_event_id(log_of(tables)) < i64::MAX,
    ensures
        commit(tables, startup_changes(tables.state, sample)) is Some,
        commit(tables, heartbeat_changes(tables.state->0, sample, interval_ms, gap_factor)) is Some,
{
    let previous = tables.state->0;
    lemma_log_one(log_of(tables), restart_event(previous, sample));
    lemma_log_one(log_of(tables), boot_event(previous, sample));
    lemma_log_two(log_of(tables), boot_event(previous, sample), boot_clock_event(previous, sample));
    let gap = gap_event(previous, sample, interval_ms, gap_factor);
    let clock = clock_event(previous, sample);
    lemma_log_one(log_of(tables), gap);
    lemma_log_one(log_of(tables), clock);
    lemma_log_two(log_of(tables), gap, clock);
    let added = heartbeat_events(previous, sample, interval_ms, gap_factor);
    if has_gap(previous, sample, interval_ms, gap_factor) {
        if clock_ran_back(previous, sample) {
            assert(added =~= seq![gap, clock]);
        } else {
            assert(added =~= seq![gap]);
        }
    } else if clock_ran_back(previous, sample) {
        assert(added =~= seq![clock]);
    } else {
        assert(added =~= seq![]);
    }
}

} // verus!
