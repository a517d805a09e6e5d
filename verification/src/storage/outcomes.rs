//! What each operation leaves behind, row by row and field by field.

use vstd::prelude::*;

use crate::model::{kind_name, law_kind_names_distinct, EventKind, RecordView, SampleView, StatusView};
use crate::storage::consistency::{lemma_change_sessions, lemma_log_event};
use crate::storage::fingerprints::law_fingerprint_heads;
use crate::storage::laws::{lemma_log_one, lemma_log_two};
use crate::storage::plan::{
    boot_clock_event, boot_clock_fingerprint, boot_event, boot_fingerprint, clock_event, clock_fingerprint,
    clock_ran_back, gap_event, gap_fingerprint, has_gap, heartbeat_changes, heartbeat_events, heartbeat_refusal,
    is_current, kinds_of, monitor_fingerprint, overlaps, restart_event, startup_changes, startup_outcome,
    stop_changes, stop_refusal, StartupDisposition, StorageError,
};
use crate::storage::rows::{
    commit, has_session, is_recorded, log_event, log_of, no_rows, EventView, LogView, SessionView, StateView,
    StoredView, TablesView,
};
use crate::storage::{rows_of, status_of};
use crate::text::decimal;

verus! {

/// Whether the log holds a fingerprint.
pub open spec fn holds(events: Seq<StoredView>, fingerprint: Seq<char>) -> bool {
    exists|i: int| 0 <= i < events.len() && (#[trigger] events[i]).fingerprint == fingerprint
}

/// One if a fingerprint is new to the log.
pub open spec fn new_to(events: Seq<StoredView>, fingerprint: Seq<char>) -> int {
    if holds(events, fingerprint) {
        0
    } else {
        1
    }
}

/// Whether a boot has a session.
pub open spec fn known(sessions: Seq<SessionView>, boot_id: Seq<char>) -> bool {
    exists|i: int| 0 <= i < sessions.len() && (#[trigger] sessions[i]).boot_id == boot_id
}

/// Whether a row says what an event says.
pub open spec fn tells(row: RecordView, event: EventView) -> bool {
    &&& row.kind == kind_name(event.kind)
    &&& row.detected_at_ms == event.detected_at_ms
    &&& row.previous_boot_id == event.previous_boot_id
    &&& row.current_boot_id == event.current_boot_id
    &&& row.window_start_ms == event.window_start_ms
    &&& row.window_end_ms == event.window_end_ms
    &&& row.graceful == event.graceful
    &&& row.details == event.details
}

// ---------------------------------------------------------------------------
// The log
// ---------------------------------------------------------------------------

/// An event can be logged while a number larger than all that are spent is
/// left, and spends the next one. If its fingerprint is new, it becomes the
/// last row, under that number, and the row says what the event says; if not,
/// the rows stay as they are.
pub proof fn law_logged_row_tells_the_event(log: LogView, event: EventView)
    ensures
        ({
            let largest = if log.events.len() == 0 {
                if log.last_id < 0 {
                    0
                } else {
                    log.last_id as int
                }
            } else if log.last_id < log.events[log.events.len() - 1].record.id {
                log.events[log.events.len() - 1].record.id as int
            } else {
                log.last_id as int
            };
            match log_event(log, event) {
                None => largest == i64::MAX,
                Some(after) => {
                    &&& after.last_id == largest + 1
                    &&& forall|i: int| 0 <= i < log.events.len() ==> #[trigger] after.events[i] == log.events[i]
                    &&& after.events.len() == log.events.len() + new_to(log.events, event.fingerprint)
                    &&& after.events.len() > log.events.len() ==> {
                        let row = after.events[log.events.len() as int];
                        &&& row.fingerprint == event.fingerprint
                        &&& row.record.id == largest + 1
                        &&& tells(row.record, event)
                    }
                },
            }
        }),
{
    assert(is_recorded(log.events, event.fingerprint) == holds(log.events, event.fingerprint));
}

/// The rows that one event adds to the log, if any.
proof fn lemma_one_row(tables: TablesView, event: EventView, after: LogView)
    requires
        log_event(log_of(tables), event) == Some(after),
    ensures
        forall|i: int| 0 <= i < tables.events.len() ==> #[trigger] after.events[i] == tables.events[i],
        after.events.len() == tables.events.len() + new_to(tables.events, event.fingerprint),
        forall|i: int|
            tables.events.len() <= i < after.events.len() ==> tells((#[trigger] after.events[i]).record, event),
        holds(after.events, event.fingerprint),
{
    law_logged_row_tells_the_event(log_of(tables), event);
    lemma_log_event(log_of(tables), event);
    assert(is_recorded(after.events, event.fingerprint) == holds(after.events, event.fingerprint));
}

/// The rows that two events with different fingerprints add to the log.
proof fn lemma_two_rows(tables: TablesView, first: EventView, second: EventView, after: LogView)
    requires
        first.fingerprint != second.fingerprint,
        log_event(log_of(tables), first) is Some,
        log_event(log_event(log_of(tables), first)->0, second) == Some(after),
    ensures
        forall|i: int| 0 <= i < tables.events.len() ==> #[trigger] after.events[i] == tables.events[i],
        after.events.len() == tables.events.len() + new_to(tables.events, first.fingerprint) + new_to(
            tables.events,
            second.fingerprint,
        ),
        forall|i: int|
            tables.events.len() <= i < after.events.len() ==> {
                ||| i == tables.events.len() && !holds(tables.events, first.fingerprint) && tells(
                    (#[trigger] after.events[i]).record,
                    first,
                )
                ||| i == after.events.len() - 1 && !holds(tables.events, second.fingerprint) && tells(
                    after.events[i].record,
                    second,
                )
            },
        holds(after.events, first.fingerprint),
        holds(after.events, second.fingerprint),
{
    let between = log_event(log_of(tables), first)->0;
    lemma_one_row(tables, first, between);
    let middle = TablesView { events: between.events, last_event_id: between.last_id, ..tables };
    assert(log_of(middle) == between);
    lemma_one_row(middle, second, after);
    assert(holds(between.events, second.fingerprint) == holds(tables.events, second.fingerprint)) by {
        if holds(tables.events, second.fingerprint) {
            let i = choose|i: int|
                0 <= i < tables.events.len() && (#[trigger] tables.events[i]).fingerprint == second.fingerprint;
            assert(between.events[i] == tables.events[i]);
        }
        if holds(between.events, second.fingerprint) {
            let i = choose|i: int|
                0 <= i < between.events.len() && (#[trigger] between.events[i]).fingerprint
                    == second.fingerprint;
            law_logged_row_tells_the_event(log_of(tables), first);
            if i < tables.events.len() {
                assert(between.events[i] == tables.events[i]);
            }
        }
    }
    let i = choose|i: int|
        0 <= i < between.events.len() && (#[trigger] between.events[i]).fingerprint == first.fingerprint;
    assert(after.events[i] == between.events[i]);
    assert forall|i: int| tables.events.len() <= i < after.events.len() implies {
        ||| i == tables.events.len() && !holds(tables.events, first.fingerprint) && tells(
            (#[trigger] after.events[i]).record,
            first,
        )
        ||| i == after.events.len() - 1 && !holds(tables.events, second.fingerprint) && tells(
            after.events[i].record,
            second,
        )
    } by {
        if i < between.events.len() {
            assert(after.events[i] == between.events[i]);
        }
    }
}

// ---------------------------------------------------------------------------
// Starting
// ---------------------------------------------------------------------------

/// What a start finds: a baseline exactly where no state was persisted, a
/// changed boot exactly where the state is of another boot, and a restarted
/// monitor otherwise; graceful exactly when the monitor was inactive and its
/// end was recorded. Monitor processes of a boot are counted from one.
pub proof fn law_start_outcome(previous: Option<StateView>, sample: SampleView)
    ensures
        ({
            let outcome = startup_outcome(previous, sample);
            match previous {
                None => outcome.disposition is Baseline && outcome.generation == 1,
                Some(state) => {
                    let ended = !state.active && state.ended_at_ms is Some;
                    if state.boot_id == sample.boot_id {
                        &&& outcome.disposition == (StartupDisposition::MonitorRestarted { graceful: ended })
                        &&& state.generation < i64::MAX ==> outcome.generation == state.generation + 1
                        &&& state.generation == i64::MAX ==> outcome.generation == i64::MAX
                    } else {
                        &&& outcome.disposition == (StartupDisposition::BootChanged { graceful: ended })
                        &&& outcome.generation == 1
                    }
                },
            }
        }),
{
}

/// After a start the state row holds what was sampled, and the monitor is
/// active. The boot was first seen now, unless the row was of this boot
/// before: then it was first seen when the row said so.
pub proof fn law_start_writes_the_state_row(tables: TablesView, sample: SampleView)
    requires
        commit(tables, startup_changes(tables.state, sample)) is Some,
    ensures
        ({
            let after = commit(tables, startup_changes(tables.state, sample))->0;
            &&& after.state matches Some(row) && {
                &&& row.boot_id == sample.boot_id
                &&& row.boot_started_at_ms == sample.boot_started_at_ms
                &&& row.last_seen_at_ms == sample.observed_at_ms
                &&& row.last_boottime_ms == sample.boottime_ms
                &&& row.active
                &&& row.ended_at_ms is None
                &&& row.end_reason is None
                &&& row.generation == startup_outcome(tables.state, sample).generation
                &&& match tables.state {
                    Some(state) => if state.boot_id == sample.boot_id {
                        row.first_seen_at_ms == state.first_seen_at_ms
                    } else {
                        row.first_seen_at_ms == sample.observed_at_ms
                    },
                    None => row.first_seen_at_ms == sample.observed_at_ms,
                }
            }
        }),
{
}

/// A start changes the session of the sampled boot and no other. A boot
/// without a session gets one, first seen now. One that has a session keeps
/// when it was first seen; it is taken to have started when the sample says,
/// except where only the monitor was away.
pub proof fn law_start_writes_the_session(tables: TablesView, sample: SampleView)
    requires
        commit(tables, startup_changes(tables.state, sample)) is Some,
    ensures
        ({
            let before = tables.sessions;
            let after = commit(tables, startup_changes(tables.state, sample))->0.sessions;
            let restarted = tables.state matches Some(state) && state.boot_id == sample.boot_id;
            &&& after.len() == before.len() + if restarted || known(before, sample.boot_id) {
                0int
            } else {
                1int
            }
            &&& forall|i: int|
                0 <= i < before.len() && (#[trigger] before[i]).boot_id != sample.boot_id ==> after[i] == before[i]
            &&& forall|i: int|
                0 <= i < after.len() && (#[trigger] after[i]).boot_id == sample.boot_id ==> {
                    &&& after[i].last_seen_at_ms == sample.observed_at_ms
                    &&& after[i].last_boottime_ms == sample.boottime_ms
                    &&& after[i].monitor_generations == startup_outcome(tables.state, sample).generation
                    &&& after[i].ended_at_ms is None
                    &&& after[i].end_reason is None
                    &&& i < before.len() ==> before[i].boot_id == sample.boot_id && after[i].first_seen_at_ms
                        == before[i].first_seen_at_ms
                    &&& i >= before.len() ==> after[i].first_seen_at_ms == sample.observed_at_ms
                    &&& after[i].boot_started_at_ms == if restarted {
                        before[i].boot_started_at_ms
                    } else {
                        sample.boot_started_at_ms
                    }
                }
            &&& after.len() > before.len() ==> after[before.len() as int].boot_id == sample.boot_id
            &&& !restarted ==> known(after, sample.boot_id)
        }),
{
    let changes = startup_changes(tables.state, sample);
    let before = tables.sessions;
    let after = commit(tables, changes)->0.sessions;
    lemma_change_sessions(before, changes.session);
    assert(has_session(before, sample.boot_id) == known(before, sample.boot_id));
    if !(tables.state matches Some(state) && state.boot_id == sample.boot_id) {
        assert(has_session(after, sample.boot_id) == known(after, sample.boot_id));
    }
}

/// A start without a state logs nothing. One on another boot logs one changed
/// boot and, exactly if that boot seems to have begun before the last
/// heartbeat, one clock anomaly; one on the same boot logs one restarted
/// monitor. Nothing is logged that the log knows by its fingerprint, and what
/// was logged before stays.
pub proof fn law_start_adds_rows(tables: TablesView, sample: SampleView)
    requires
        commit(tables, startup_changes(tables.state, sample)) is Some,
    ensures
        ({
            let after = commit(tables, startup_changes(tables.state, sample))->0;
            let grown = after.events.len() - tables.events.len();
            &&& forall|i: int| 0 <= i < tables.events.len() ==> #[trigger] after.events[i] == tables.events[i]
            &&& match tables.state {
                None => grown == 0 && after.last_event_id == tables.last_event_id,
                Some(state) => if state.boot_id == sample.boot_id {
                    let restart = monitor_fingerprint(
                        sample.boot_id,
                        startup_outcome(tables.state, sample).generation as int,
                    );
                    grown == new_to(tables.events, restart) && holds(after.events, restart)
                } else {
                    let change = boot_fingerprint(state.boot_id, sample.boot_id);
                    let anomaly = boot_clock_fingerprint(state.boot_id, sample.boot_id);
                    if sample.boot_started_at_ms < state.last_seen_at_ms {
                        &&& grown == new_to(tables.events, change) + new_to(tables.events, anomaly)
                        &&& holds(after.events, change)
                        &&& holds(after.events, anomaly)
                    } else {
                        &&& grown == new_to(tables.events, change)
                        &&& holds(after.events, change)
                    }
                },
            }
        }),
{
    lemma_start_rows(tables, sample);
}

/// Every row that a start adds was detected now, names the boot before and the
/// boot now, and bounds what happened from the last heartbeat: a changed boot
/// and its clock anomaly by the start of the new kernel, a restarted monitor
/// by now. Changed boots and restarts say whether the monitor's end was
/// recorded; clock anomalies leave that open.
pub proof fn law_start_rows_keep_the_evidence(tables: TablesView, sample: SampleView, i: int)
    requires
        commit(tables, startup_changes(tables.state, sample)) is Some,
        tables.events.len() <= i < commit(tables, startup_changes(tables.state, sample))->0.events.len(),
    ensures
        ({
            let row = commit(tables, startup_changes(tables.state, sample))->0.events[i].record;
            let state = tables.state->0;
            let ended = !state.active && state.ended_at_ms is Some;
            &&& tables.state is Some
            &&& row.detected_at_ms == sample.observed_at_ms
            &&& row.previous_boot_id == Some(state.boot_id)
            &&& row.current_boot_id == sample.boot_id
            &&& row.window_start_ms == Some(state.last_seen_at_ms)
            &&& if state.boot_id == sample.boot_id {
                &&& row.kind == "monitor_restarted"@
                &&& row.window_end_ms == Some(sample.observed_at_ms)
                &&& row.graceful == Some(ended)
                &&& row.details == Some(
                    if ended {
                        "monitor restarted after an observed graceful stop"@
                    } else {
                        "monitor restarted without an observed graceful stop"@
                    },
                )
            } else {
                &&& row.window_end_ms == Some(sample.boot_started_at_ms)
                &&& row.kind == "boot_changed"@ || row.kind == "clock_anomaly"@
                &&& row.kind == "boot_changed"@ ==> {
                    &&& row.graceful == Some(ended)
                    &&& row.details == if sample.boot_started_at_ms < state.last_seen_at_ms {
                        Some(
                            "wall clock overlap: the estimated new boot time is earlier than the previous heartbeat"@,
                        )
                    } else {
                        None
                    }
                }
                &&& row.kind == "clock_anomaly"@ ==> {
                    &&& sample.boot_started_at_ms < state.last_seen_at_ms
                    &&& row.graceful is None
                    &&& row.details == Some("wall clock moved backwards across boots"@)
                }
            }
        }),
{
    lemma_start_rows(tables, sample);
    law_kind_names_distinct(EventKind::BootChanged, EventKind::ClockAnomaly);
}

/// A start that finds a changed boot that is new to the log adds it first, as
/// a changed boot; a clock anomaly that goes with it comes after it.
pub proof fn law_changed_boot_comes_first(tables: TablesView, sample: SampleView)
    requires
        tables.state is Some,
        tables.state->0.boot_id != sample.boot_id,
        commit(tables, startup_changes(tables.state, sample)) is Some,
    ensures
        ({
            let state = tables.state->0;
            let after = commit(tables, startup_changes(tables.state, sample))->0;
            let n = tables.events.len() as int;
            let last = after.events.len() - 1;
            &&& !holds(tables.events, boot_fingerprint(state.boot_id, sample.boot_id)) ==> last >= n
                && after.events[n].record.kind == "boot_changed"@
            &&& sample.boot_started_at_ms < state.last_seen_at_ms && !holds(
                tables.events,
                boot_clock_fingerprint(state.boot_id, sample.boot_id),
            ) ==> last >= n && after.events[last].record.kind == "clock_anomaly"@
        }),
{
    lemma_start_rows(tables, sample);
}

/// Where the rows come from that a start adds.
proof fn lemma_start_rows(tables: TablesView, sample: SampleView)
    requires
        commit(tables, startup_changes(tables.state, sample)) is Some,
    ensures
        ({
            let after = commit(tables, startup_changes(tables.state, sample))->0;
            let state = tables.state->0;
            let grown = after.events.len() - tables.events.len();
            let n = tables.events.len() as int;
            let change = boot_event(state, sample);
            let anomaly = boot_clock_event(state, sample);
            let restart = restart_event(state, sample);
            &&& forall|i: int| 0 <= i < n ==> #[trigger] after.events[i] == tables.events[i]
            &&& tables.state is None ==> after.events == tables.events && after.last_event_id
                == tables.last_event_id
            &&& tables.state is Some && state.boot_id == sample.boot_id ==> {
                &&& grown == new_to(tables.events, restart.fingerprint)
                &&& holds(after.events, restart.fingerprint)
                &&& forall|i: int| n <= i < after.events.len() ==> tells((#[trigger] after.events[i]).record, restart)
            }
            &&& tables.state is Some && state.boot_id != sample.boot_id && !overlaps(state, sample) ==> {
                &&& grown == new_to(tables.events, change.fingerprint)
                &&& holds(after.events, change.fingerprint)
                &&& forall|i: int| n <= i < after.events.len() ==> tells((#[trigger] after.events[i]).record, change)
            }
            &&& tables.state is Some && state.boot_id != sample.boot_id && overlaps(state, sample) ==> {
                &&& grown == new_to(tables.events, change.fingerprint) + new_to(
                    tables.events,
                    anomaly.fingerprint,
                )
                &&& holds(after.events, change.fingerprint)
                &&& holds(after.events, anomaly.fingerprint)
                &&& forall|i: int|
                    n <= i < after.events.len() ==> {
                        ||| i == n && !holds(tables.events, change.fingerprint) && tells(
                            (#[trigger] after.events[i]).record,
                            change,
                        )
                        ||| i == after.events.len() - 1 && !holds(tables.events, anomaly.fingerprint) && tells(
                            after.events[i].record,
                            anomaly,
                        )
                    }
            }
        }),
{
    let after = commit(tables, startup_changes(tables.state, sample))->0;
    if tables.state is Some {
        let state = tables.state->0;
        let change = boot_event(state, sample);
        let anomaly = boot_clock_event(state, sample);
        let restart = restart_event(state, sample);
        lemma_log_one(log_of(tables), restart);
        lemma_log_one(log_of(tables), change);
        lemma_log_two(log_of(tables), change, anomaly);
        if state.boot_id == sample.boot_id {
            lemma_one_row(tables, restart, log_of(after));
        } else if overlaps(state, sample) {
            law_fingerprint_heads(state.boot_id, sample.boot_id, 0, 0);
            lemma_two_rows(tables, change, anomaly, log_of(after));
        } else {
            lemma_one_row(tables, change, log_of(after));
        }
    }
}

// ---------------------------------------------------------------------------
// Heartbeats
// ---------------------------------------------------------------------------

/// A sample is of the current boot exactly when there is a state row and it
/// names the same boot. Of any other sample a heartbeat and a stop are
/// refused: without a state for want of a baseline, and with one because of
/// the boot, which a refused heartbeat names together with the boot before.
pub proof fn law_refusals(previous: Option<StateView>, sample: SampleView, error: StorageError)
    ensures
        is_current(previous, sample) <==> previous is Some && previous->0.boot_id == sample.boot_id,
        previous is None ==> {
            &&& heartbeat_refusal(previous, sample, error) <==> error is NoBaseline
            &&& stop_refusal(previous, sample, error) <==> error is NoBaseline
        },
        previous is Some && previous->0.boot_id != sample.boot_id ==> {
            &&& heartbeat_refusal(previous, sample, error) <==> {
                &&& error matches StorageError::BootIdChanged { previous: before, current }
                &&& before@ == previous->0.boot_id
                &&& current@ == sample.boot_id
            }
            &&& stop_refusal(previous, sample, error) <==> error is DifferentBoot
        },
        previous is Some && previous->0.boot_id == sample.boot_id ==> !heartbeat_refusal(previous, sample, error)
            && !stop_refusal(previous, sample, error),
{
}

/// Heartbeats were missed exactly when the boot clock went on, and by more
/// than the interval times the factor; a product beyond the largest number is
/// never exceeded.
pub proof fn law_gap_condition(previous: StateView, sample: SampleView, interval_ms: i64, gap_factor: i64)
    ensures
        has_gap(previous, sample, interval_ms, gap_factor) <==> {
            &&& sample.boottime_ms >= previous.last_boottime_ms
            &&& sample.boottime_ms - previous.last_boottime_ms > interval_ms * gap_factor
            &&& interval_ms * gap_factor < i64::MAX
        },
{
}

/// A heartbeat reports missed heartbeats first, then a clock that ran
/// backwards, each exactly when it is so, and nothing else.
pub proof fn law_heartbeat_reports(
    previous: StateView,
    sample: SampleView,
    interval_ms: i64,
    gap_factor: i64,
)
    ensures
        ({
            let reported = kinds_of(heartbeat_changes(previous, sample, interval_ms, gap_factor).events);
            let late = sample.boottime_ms >= previous.last_boottime_ms && sample.boottime_ms
                - previous.last_boottime_ms > interval_ms * gap_factor && interval_ms * gap_factor < i64::MAX;
            let back = sample.observed_at_ms < previous.last_seen_at_ms || sample.boottime_ms
                < previous.last_boottime_ms;
            if late && back {
                reported == seq![EventKind::HeartbeatGap, EventKind::ClockAnomaly]
            } else if late {
                reported == seq![EventKind::HeartbeatGap]
            } else if back {
                reported == seq![EventKind::ClockAnomaly]
            } else {
                reported == Seq::<EventKind>::empty()
            }
        }),
{
    let reported = kinds_of(heartbeat_changes(previous, sample, interval_ms, gap_factor).events);
    law_gap_condition(previous, sample, interval_ms, gap_factor);
    assert(reported.len() <= 2);
}

/// After a heartbeat the state row says that the monitor is active and was
/// alive when the sample was taken; the boot, its start, when it was first
/// seen and the monitor process stay.
pub proof fn law_heartbeat_writes_the_state_row(
    tables: TablesView,
    sample: SampleView,
    interval_ms: i64,
    gap_factor: i64,
)
    requires
        tables.state is Some,
        commit(tables, heartbeat_changes(tables.state->0, sample, interval_ms, gap_factor)) is Some,
    ensures
        ({
            let state = tables.state->0;
            let after = commit(tables, heartbeat_changes(state, sample, interval_ms, gap_factor))->0;
            &&& after.state matches Some(row) && {
                &&& row.boot_id == state.boot_id
                &&& row.boot_started_at_ms == state.boot_started_at_ms
                &&& row.first_seen_at_ms == state.first_seen_at_ms
                &&& row.generation == state.generation
                &&& row.last_seen_at_ms == sample.observed_at_ms
                &&& row.last_boottime_ms == sample.boottime_ms
                &&& row.active
                &&& row.ended_at_ms is None
                &&& row.end_reason is None
            }
        }),
{
}

/// A heartbeat adds no session. The sessions of the sampled boot take on when
/// it was seen and nothing else, and no other session changes.
pub proof fn law_heartbeat_writes_the_session(
    tables: TablesView,
    sample: SampleView,
    interval_ms: i64,
    gap_factor: i64,
)
    requires
        tables.state is Some,
        commit(tables, heartbeat_changes(tables.state->0, sample, interval_ms, gap_factor)) is Some,
    ensures
        ({
            let before = tables.sessions;
            let after = commit(
                tables,
                heartbeat_changes(tables.state->0, sample, interval_ms, gap_factor),
            )->0.sessions;
            &&& after.len() == before.len()
            &&& forall|i: int|
                0 <= i < before.len() ==> {
                    let was = before[i];
                    let is = #[trigger] after[i];
                    &&& was.boot_id != sample.boot_id ==> is == was
                    &&& was.boot_id == sample.boot_id ==> {
                        &&& is.last_seen_at_ms == sample.observed_at_ms
                        &&& is.last_boottime_ms == sample.boottime_ms
                        &&& is.boot_id == was.boot_id
                        &&& is.boot_started_at_ms == was.boot_started_at_ms
                        &&& is.first_seen_at_ms == was.first_seen_at_ms
                        &&& is.monitor_generations == was.monitor_generations
                        &&& is.ended_at_ms == was.ended_at_ms
                        &&& is.end_reason == was.end_reason
                    }
                }
        }),
{
}

/// A heartbeat logs missed heartbeats exactly when it reports them, and a
/// clock anomaly likewise, except for what the log knows by its fingerprint;
/// what was logged before stays. Without either no number is spent.
pub proof fn law_heartbeat_adds_rows(
    tables: TablesView,
    sample: SampleView,
    interval_ms: i64,
    gap_factor: i64,
)
    requires
        tables.state is Some,
        commit(tables, heartbeat_changes(tables.state->0, sample, interval_ms, gap_factor)) is Some,
    ensures
        ({
            let state = tables.state->0;
            let after = commit(tables, heartbeat_changes(state, sample, interval_ms, gap_factor))->0;
            let gap = gap_fingerprint(sample.boot_id, state.generation as int, state.last_boottime_ms as int);
            let anomaly = clock_fingerprint(
                sample.boot_id,
                state.generation as int,
                state.last_boottime_ms as int,
            );
            let late = sample.boottime_ms >= state.last_boottime_ms && sample.boottime_ms
                - state.last_boottime_ms > interval_ms * gap_factor && interval_ms * gap_factor < i64::MAX;
            let back = sample.observed_at_ms < state.last_seen_at_ms || sample.boottime_ms
                < state.last_boottime_ms;
            &&& forall|i: int| 0 <= i < tables.events.len() ==> #[trigger] after.events[i] == tables.events[i]
            &&& after.events.len() == tables.events.len() + (if late {
                new_to(tables.events, gap)
            } else {
                0
            }) + (if back {
                new_to(tables.events, anomaly)
            } else {
                0
            })
            &&& late ==> holds(after.events, gap)
            &&& back ==> holds(after.events, anomaly)
            &&& !late && !back ==> after.last_event_id == tables.last_event_id
        }),
{
    lemma_heartbeat_rows(tables, sample, interval_ms, gap_factor);
    law_gap_condition(tables.state->0, sample, interval_ms, gap_factor);
}

/// Every row that a heartbeat adds was detected now, names the sampled boot as
/// the boot before and the boot now, bounds what happened by the last
/// heartbeat and now, and leaves open whether anything was graceful. Missed
/// heartbeats say by how much the boot clock advanced and what was allowed.
pub proof fn law_heartbeat_rows_keep_the_evidence(
    tables: TablesView,
    sample: SampleView,
    interval_ms: i64,
    gap_factor: i64,
    i: int,
)
    requires
        tables.state is Some,
        commit(tables, heartbeat_changes(tables.state->0, sample, interval_ms, gap_factor)) is Some,
        tables.events.len() <= i < commit(
            tables,
            heartbeat_changes(tables.state->0, sample, interval_ms, gap_factor),
        )->0.events.len(),
    ensures
        ({
            let state = tables.state->0;
            let row = commit(
                tables,
                heartbeat_changes(state, sample, interval_ms, gap_factor),
            )->0.events[i].record;
            let advance = sample.boottime_ms - state.last_boottime_ms;
            &&& row.detected_at_ms == sample.observed_at_ms
            &&& row.previous_boot_id == Some(sample.boot_id)
            &&& row.current_boot_id == sample.boot_id
            &&& row.window_start_ms == Some(state.last_seen_at_ms)
            &&& row.window_end_ms == Some(sample.observed_at_ms)
            &&& row.graceful is None
            &&& row.kind == "heartbeat_gap"@ || row.kind == "clock_anomaly"@
            &&& row.kind == "heartbeat_gap"@ ==> {
                let shown = if advance > i64::MAX {
                    i64::MAX as int
                } else {
                    advance
                };
                let allowed = if interval_ms * gap_factor < i64::MIN {
                    i64::MIN as int
                } else {
                    interval_ms * gap_factor
                };
                &&& advance > interval_ms * gap_factor
                &&& row.details == Some(
                    "CLOCK_BOOTTIME advanced by "@ + decimal(shown) + " ms; threshold was "@ + decimal(allowed)
                        + " ms"@,
                )
            }
            &&& row.kind == "clock_anomaly"@ ==> {
                &&& sample.observed_at_ms < state.last_seen_at_ms || advance < 0
                &&& row.details == Some("wall clock or CLOCK_BOOTTIME moved backwards"@)
            }
        }),
{
    lemma_heartbeat_rows(tables, sample, interval_ms, gap_factor);
    law_gap_condition(tables.state->0, sample, interval_ms, gap_factor);
    law_kind_names_distinct(EventKind::HeartbeatGap, EventKind::ClockAnomaly);
}

/// Where the rows come from that a heartbeat adds.
proof fn lemma_heartbeat_rows(tables: TablesView, sample: SampleView, interval_ms: i64, gap_factor: i64)
    requires
        tables.state is Some,
        commit(tables, heartbeat_changes(tables.state->0, sample, interval_ms, gap_factor)) is Some,
    ensures
        ({
            let state = tables.state->0;
            let after = commit(tables, heartbeat_changes(state, sample, interval_ms, gap_factor))->0;
            let gap = gap_event(state, sample, interval_ms, gap_factor);
            let clock = clock_event(state, sample);
            let late = has_gap(state, sample, interval_ms, gap_factor);
            let back = clock_ran_back(state, sample);
            let n = tables.events.len();
            &&& forall|i: int| 0 <= i < n ==> #[trigger] after.events[i] == tables.events[i]
            &&& after.events.len() == n + (if late {
                new_to(tables.events, gap.fingerprint)
            } else {
                0
            }) + (if back {
                new_to(tables.events, clock.fingerprint)
            } else {
                0
            })
            &&& late ==> holds(after.events, gap.fingerprint)
            &&& back ==> holds(after.events, clock.fingerprint)
            &&& !late && !back ==> after.last_event_id == tables.last_event_id
            &&& forall|i: int|
                n <= i < after.events.len() ==> {
                    ||| late && tells((#[trigger] after.events[i]).record, gap)
                    ||| back && tells(after.events[i].record, clock)
                }
        }),
{
    let state = tables.state->0;
    let after = commit(tables, heartbeat_changes(state, sample, interval_ms, gap_factor))->0;
    let gap = gap_event(state, sample, interval_ms, gap_factor);
    let clock = clock_event(state, sample);
    let added = heartbeat_events(state, sample, interval_ms, gap_factor);
    lemma_log_one(log_of(tables), gap);
    lemma_log_one(log_of(tables), clock);
    lemma_log_two(log_of(tables), gap, clock);
    if has_gap(state, sample, interval_ms, gap_factor) {
        if clock_ran_back(state, sample) {
            assert(added =~= seq![gap, clock]);
            law_fingerprint_heads(
                sample.boot_id,
                sample.boot_id,
                state.generation as int,
                state.last_boottime_ms as int,
            );
            lemma_two_rows(tables, gap, clock, log_of(after));
        } else {
            assert(added =~= seq![gap]);
            lemma_one_row(tables, gap, log_of(after));
        }
    } else if clock_ran_back(state, sample) {
        assert(added =~= seq![clock]);
        lemma_one_row(tables, clock, log_of(after));
    } else {
        assert(added =~= seq![]);
    }
}

// ---------------------------------------------------------------------------
// Stopping
// ---------------------------------------------------------------------------

/// A stop is always carried out. The state row and the sessions of the sampled
/// boot say that it was seen now, and ended now for the reason given; nothing
/// else changes, and nothing is logged.
pub proof fn law_stop_writes_the_end(tables: TablesView, sample: SampleView, reason: Seq<char>)
    requires
        tables.state is Some,
    ensures
        commit(tables, stop_changes(tables.state->0, sample, reason)) matches Some(after) && {
            let state = tables.state->0;
            &&& after.events == tables.events
            &&& after.last_event_id == tables.last_event_id
            &&& after.state matches Some(row) && {
                &&& row.boot_id == state.boot_id
                &&& row.boot_started_at_ms == state.boot_started_at_ms
                &&& row.first_seen_at_ms == state.first_seen_at_ms
                &&& row.generation == state.generation
                &&& row.last_seen_at_ms == sample.observed_at_ms
                &&& row.last_boottime_ms == sample.boottime_ms
                &&& !row.active
                &&& row.ended_at_ms == Some(sample.observed_at_ms)
                &&& row.end_reason == Some(reason)
            }
            &&& after.sessions.len() == tables.sessions.len()
            &&& forall|i: int|
                0 <= i < tables.sessions.len() ==> {
                    let was = tables.sessions[i];
                    let is = #[trigger] after.sessions[i];
                    &&& was.boot_id != sample.boot_id ==> is == was
                    &&& was.boot_id == sample.boot_id ==> {
                        &&& is.last_seen_at_ms == sample.observed_at_ms
                        &&& is.last_boottime_ms == sample.boottime_ms
                        &&& is.ended_at_ms == Some(sample.observed_at_ms)
                        &&& is.end_reason == Some(reason)
                        &&& is.boot_id == was.boot_id
                        &&& is.boot_started_at_ms == was.boot_started_at_ms
                        &&& is.first_seen_at_ms == was.first_seen_at_ms
                        &&& is.monitor_generations == was.monitor_generations
                    }
                }
        },
{
}

// ---------------------------------------------------------------------------
// Reading
// ---------------------------------------------------------------------------

/// A status says what the state row says, field by field.
pub proof fn law_status_is_the_state_row(state: StateView, events: Seq<StoredView>)
    ensures
        ({
            let status: StatusView = status_of(state, events);
            &&& status.boot_id == state.boot_id
            &&& status.boot_started_at_ms == state.boot_started_at_ms
            &&& status.first_seen_at_ms == state.first_seen_at_ms
            &&& status.last_heartbeat_at_ms == state.last_seen_at_ms
            &&& status.last_boottime_ms == state.last_boottime_ms
            &&& status.monitor_active == state.active
            &&& status.monitor_generation == state.generation
            &&& status.ended_at_ms == state.ended_at_ms
            &&& status.end_reason == state.end_reason
        }),
{
}

/// Tables without a row hold neither sessions nor events nor a state, and no
/// number was spent on them.
pub proof fn law_no_rows_is_nothing()
    ensures
        no_rows().sessions.len() == 0,
        no_rows().state is None,
        no_rows().events.len() == 0,
        no_rows().last_event_id == 0,
        rows_of(None) == no_rows(),
{
}

} // verus!
