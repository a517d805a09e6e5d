//! What a sample of the kernel means for the persisted state: the decisions of
//! the monitor, taken from the state row alone.

use vstd::prelude::*;
use vstd::string::StringExecFns;

use crate::model::{EventKind, SampleView, SystemSample};
use crate::numeric::{clamp_i64, saturating_difference, saturating_product, saturating_sum};
use crate::storage::rows::{
    borrowed_state, Changes, ChangesView, EventView, NewEvent, SessionChange, SessionChangeView, StateRow,
    StateView,
};
use crate::text::{append_decimal, decimal};

verus! {

/// How the monitor found the machine when it started.
#[derive(Clone, Debug, PartialEq, Eq, Structural)]
pub enum StartupDisposition {
    /// Nothing was persisted yet.
    Baseline,
    /// The kernel is not the one seen last.
    BootChanged { graceful: bool },
    /// The kernel is the one seen last; only the monitor was away.
    MonitorRestarted { graceful: bool },
}

/// The outcome of starting to monitor.
#[derive(Clone, Debug, PartialEq, Eq, Structural)]
pub struct StartupOutcome {
    pub disposition: StartupDisposition,
    pub generation: i64,
}

/// Why an operation on the storage was refused.
#[derive(Clone, Debug, PartialEq, Eq)]
pub enum StorageError {
    /// Nothing was persisted yet.
    NoBaseline,
    /// The kernel changed under a running monitor.
    BootIdChanged { previous: String, current: String },
    /// A boot that is not the current one was to be marked as stopped.
    DifferentBoot,
    /// The event log has run out of numbers.
    LogFull,
    /// The storage was opened for reading alone.
    ReadOnly,
    /// The tables were to be created, and are there already.
    TablesExist,
    /// A table was to be read that is not there.
    MissingTable { table: String },
    /// The database was written with a schema that is not known here.
    NewerSchema { version: i64 },
    /// The database cannot be read with the schema that it has.
    UnsupportedSchema { version: i64 },
    /// The event log is not numbered upwards.
    UnorderedLog,
}

/// The schema version that this crate reads and writes.
pub const SCHEMA_VERSION: i64 = 1;

/// The message of a storage error.
pub open spec fn storage_message(error: StorageError) -> Seq<char> {
    match error {
        StorageError::NoBaseline => "database has no monitoring baseline; start the daemon first"@,
        StorageError::BootIdChanged { previous, current } => "boot ID changed while the daemon was running ("@
            + previous@ + " -> "@ + current@ + "); systemd should restart the daemon"@,
        StorageError::DifferentBoot => "refusing to mark a different boot as gracefully stopped"@,
        StorageError::LogFull => "database or disk is full"@,
        StorageError::ReadOnly => "attempt to write a readonly database"@,
        StorageError::TablesExist => "table boot_sessions already exists"@,
        StorageError::MissingTable { table } => "no such table: "@ + table@,
        StorageError::NewerSchema { version } => "database schema version "@ + decimal(version as int)
            + " is newer than supported version "@ + decimal(SCHEMA_VERSION as int),
        StorageError::UnsupportedSchema { version } => "unsupported database schema version "@
            + decimal(version as int) + "; expected "@ + decimal(SCHEMA_VERSION as int),
        StorageError::UnorderedLog => "the event log is not in order"@,
    }
}

impl StorageError {
    /// The message that is shown for the error.
    pub fn message(&self) -> (message: String)
        ensures
            message@ == storage_message(*self),
    {
        match self {
            StorageError::NoBaseline => {
                "database has no monitoring baseline; start the daemon first".to_owned()
            },
            StorageError::BootIdChanged { previous, current } => {
                let mut message = "boot ID changed while the daemon was running (".to_owned();
                message.append(previous.as_str());
                message.append(" -> ");
                message.append(current.as_str());
                message.append("); systemd should restart the daemon");
                message
            },
            StorageError::DifferentBoot => {
                "refusing to mark a different boot as gracefully stopped".to_owned()
            },
            StorageError::LogFull => "database or disk is full".to_owned(),
            StorageError::ReadOnly => "attempt to write a readonly database".to_owned(),
            StorageError::TablesExist => "table boot_sessions already exists".to_owned(),
            StorageError::MissingTable { table } => {
                let mut message = "no such table: ".to_owned();
                message.append(table.as_str());
                message
            },
            StorageError::NewerSchema { version } => {
                let mut message = "database schema version ".to_owned();
                append_decimal(&mut message, *version);
                message.append(" is newer than supported version ");
                append_decimal(&mut message, SCHEMA_VERSION);
                message
            },
            StorageError::UnsupportedSchema { version } => {
                let mut message = "unsupported database schema version ".to_owned();
                append_decimal(&mut message, *version);
                message.append("; expected ");
                append_decimal(&mut message, SCHEMA_VERSION);
                message
            },
            StorageError::UnorderedLog => "the event log is not in order".to_owned(),
        }
    }
}

// ---------------------------------------------------------------------------
// Fingerprints
// ---------------------------------------------------------------------------

/// The fingerprint of a change from one boot to another.
pub open spec fn boot_fingerprint(previous: Seq<char>, current: Seq<char>) -> Seq<char> {
    "boot:"@ + previous + ":"@ + current
}

/// The fingerprint of a wall clock that ran backwards between two boots.
pub open spec fn boot_clock_fingerprint(previous: Seq<char>, current: Seq<char>) -> Seq<char> {
    "clock:boot:"@ + previous + ":"@ + current
}

/// The fingerprint of a monitor process of a boot.
pub open spec fn monitor_fingerprint(boot_id: Seq<char>, generation: int) -> Seq<char> {
    "monitor:"@ + boot_id + ":"@ + decimal(generation)
}

/// The fingerprint of missed heartbeats after the last one.
pub open spec fn gap_fingerprint(boot_id: Seq<char>, generation: int, last_boottime_ms: int) -> Seq<char> {
    "gap:"@ + boot_id + ":"@ + decimal(generation) + ":"@ + decimal(last_boottime_ms)
}

/// The fingerprint of a clock that ran backwards after the last heartbeat.
pub open spec fn clock_fingerprint(boot_id: Seq<char>, generation: int, last_boottime_ms: int) -> Seq<char> {
    "clock:"@ + boot_id + ":"@ + decimal(generation) + ":"@ + decimal(last_boottime_ms)
}

// ---------------------------------------------------------------------------
// Starting to monitor
// ---------------------------------------------------------------------------

/// Whether the monitor was seen to stop in an orderly way.
pub open spec fn stopped_gracefully(state: StateView) -> bool {
    !state.active && state.ended_at_ms is Some
}

/// Whether a boot seems to have begun before the last heartbeat of the boot
/// before it.
pub open spec fn overlaps(previous: StateView, sample: SampleView) -> bool {
    sample.boot_started_at_ms < previous.last_seen_at_ms
}

/// The event of a changed boot: the machine went down at some time between
/// the last heartbeat and the start of the new kernel.
pub open spec fn boot_event(previous: StateView, sample: SampleView) -> EventView {
    EventView {
        fingerprint: boot_fingerprint(previous.boot_id, sample.boot_id),
        kind: EventKind::BootChanged,
        detected_at_ms: sample.observed_at_ms,
        previous_boot_id: Some(previous.boot_id),
        current_boot_id: sample.boot_id,
        window_start_ms: Some(previous.last_seen_at_ms),
        window_end_ms: Some(sample.boot_started_at_ms),
        graceful: Some(stopped_gracefully(previous)),
        details: if overlaps(previous, sample) {
            Some(
                "wall clock overlap: the estimated new boot time is earlier than the previous heartbeat"@,
            )
        } else {
            None
        },
    }
}

/// The event of a wall clock that ran backwards between two boots.
pub open spec fn boot_clock_event(previous: StateView, sample: SampleView) -> EventView {
    EventView {
        fingerprint: boot_clock_fingerprint(previous.boot_id, sample.boot_id),
        kind: EventKind::ClockAnomaly,
        detected_at_ms: sample.observed_at_ms,
        previous_boot_id: Some(previous.boot_id),
        current_boot_id: sample.boot_id,
        window_start_ms: Some(previous.last_seen_at_ms),
        window_end_ms: Some(sample.boot_started_at_ms),
        graceful: None,
        details: Some("wall clock moved backwards across boots"@),
    }
}

/// The number of the monitor process after this one.
pub open spec fn next_generation(previous: StateView) -> i64 {
    clamp_i64(previous.generation + 1)
}

/// The event of a restarted monitor: it was away between the last heartbeat
/// and now.
pub open spec fn restart_event(previous: StateView, sample: SampleView) -> EventView {
    EventView {
        fingerprint: monitor_fingerprint(sample.boot_id, next_generation(previous) as int),
        kind: EventKind::MonitorRestarted,
        detected_at_ms: sample.observed_at_ms,
        previous_boot_id: Some(previous.boot_id),
        current_boot_id: sample.boot_id,
        window_start_ms: Some(previous.last_seen_at_ms),
        window_end_ms: Some(sample.observed_at_ms),
        graceful: Some(stopped_gracefully(previous)),
        details: Some(
            if stopped_gracefully(previous) {
                "monitor restarted after an observed graceful stop"@
            } else {
                "monitor restarted without an observed graceful stop"@
            },
        ),
    }
}

/// The state row of a monitor that has just seen `sample`.
pub open spec fn started_state(sample: SampleView, first_seen_at_ms: i64, generation: i64) -> StateView {
    StateView {
        boot_id: sample.boot_id,
        boot_started_at_ms: sample.boot_started_at_ms,
        first_seen_at_ms,
        last_seen_at_ms: sample.observed_at_ms,
        last_boottime_ms: sample.boottime_ms,
        active: true,
        generation,
        ended_at_ms: None,
        end_reason: None,
    }
}

/// What starting to monitor finds.
pub open spec fn startup_outcome(previous: Option<StateView>, sample: SampleView) -> StartupOutcome {
    match previous {
        None => StartupOutcome { disposition: StartupDisposition::Baseline, generation: 1 },
        Some(previous) => if previous.boot_id != sample.boot_id {
            StartupOutcome {
                disposition: StartupDisposition::BootChanged { graceful: stopped_gracefully(previous) },
                generation: 1,
            }
        } else {
            StartupOutcome {
                disposition: StartupDisposition::MonitorRestarted { graceful: stopped_gracefully(previous) },
                generation: next_generation(previous),
            }
        },
    }
}

/// What starting to monitor logs.
pub open spec fn startup_events(previous: Option<StateView>, sample: SampleView) -> Seq<EventView> {
    match previous {
        None => seq![],
        Some(previous) => if previous.boot_id == sample.boot_id {
            seq![restart_event(previous, sample)]
        } else if overlaps(previous, sample) {
            seq![boot_event(previous, sample), boot_clock_event(previous, sample)]
        } else {
            seq![boot_event(previous, sample)]
        },
    }
}

/// What starting to monitor writes.
pub open spec fn startup_changes(previous: Option<StateView>, sample: SampleView) -> ChangesView {
    let generation = startup_outcome(previous, sample).generation;
    match previous {
        Some(previous) if previous.boot_id == sample.boot_id => ChangesView {
            events: startup_events(Some(previous), sample),
            session: SessionChangeView::Resume {
                boot_id: sample.boot_id,
                seen_at_ms: sample.observed_at_ms,
                boottime_ms: sample.boottime_ms,
                generation,
            },
            state: started_state(sample, previous.first_seen_at_ms, generation),
        },
        _ => ChangesView {
            events: startup_events(previous, sample),
            session: SessionChangeView::Open {
                boot_id: sample.boot_id,
                boot_started_at_ms: sample.boot_started_at_ms,
                seen_at_ms: sample.observed_at_ms,
                boottime_ms: sample.boottime_ms,
                generation,
            },
            state: started_state(sample, sample.observed_at_ms, generation),
        },
    }
}

fn new_started_state(sample: &SystemSample, first_seen_at_ms: i64, generation: i64) -> (state: StateRow)
    ensures
        state@ == started_state(sample@, first_seen_at_ms, generation),
{
    StateRow {
        boot_id: sample.boot_id.clone(),
        boot_started_at_ms: sample.boot_started_at_ms,
        first_seen_at_ms,
        last_seen_at_ms: sample.observed_at_ms,
        last_boottime_ms: sample.boottime_ms,
        active: true,
        generation,
        ended_at_ms: None,
        end_reason: None,
    }
}

fn open_session(sample: &SystemSample, generation: i64) -> (change: SessionChange)
    ensures
        change@ == (SessionChangeView::Open {
            boot_id: sample@.boot_id,
            boot_started_at_ms: sample@.boot_started_at_ms,
            seen_at_ms: sample@.observed_at_ms,
            boottime_ms: sample@.boottime_ms,
            generation,
        }),
{
    SessionChange::Open {
        boot_id: sample.boot_id.clone(),
        boot_started_at_ms: sample.boot_started_at_ms,
        seen_at_ms: sample.observed_at_ms,
        boottime_ms: sample.boottime_ms,
        generation,
    }
}

fn new_boot_event(previous: &StateRow, sample: &SystemSample) -> (event: NewEvent)
    ensures
        event@ == boot_event(previous@, sample@),
{
    let mut fingerprint = "boot:".to_owned();
    fingerprint.append(previous.boot_id.as_str());
    fingerprint.append(":");
    fingerprint.append(sample.boot_id.as_str());
    let details = if sample.boot_started_at_ms < previous.last_seen_at_ms {
        Some(
            "wall clock overlap: the estimated new boot time is earlier than the previous heartbeat".to_owned(),
        )
    } else {
        None
    };
    NewEvent {
        fingerprint,
        kind: EventKind::BootChanged,
        detected_at_ms: sample.observed_at_ms,
        previous_boot_id: Some(previous.boot_id.clone()),
        current_boot_id: sample.boot_id.clone(),
        window_start_ms: Some(previous.last_seen_at_ms),
        window_end_ms: Some(sample.boot_started_at_ms),
        graceful: Some(!previous.active && previous.ended_at_ms.is_some()),
        details,
    }
}

fn new_boot_clock_event(previous: &StateRow, sample: &SystemSample) -> (event: NewEvent)
    ensures
        event@ == boot_clock_event(previous@, sample@),
{
    let mut fingerprint = "clock:boot:".to_owned();
    fingerprint.append(previous.boot_id.as_str());
    fingerprint.append(":");
    fingerprint.append(sample.boot_id.as_str());
    NewEvent {
        fingerprint,
        kind: EventKind::ClockAnomaly,
        detected_at_ms: sample.observed_at_ms,
        previous_boot_id: Some(previous.boot_id.clone()),
        current_boot_id: sample.boot_id.clone(),
        window_start_ms: Some(previous.last_seen_at_ms),
        window_end_ms: Some(sample.boot_started_at_ms),
        graceful: None,
        details: Some("wall clock moved backwards across boots".to_owned()),
    }
}

fn new_restart_event(previous: &StateRow, sample: &SystemSample, generation: i64) -> (event: NewEvent)
    requires
        generation == next_generation(previous@),
    ensures
        event@ == restart_event(previous@, sample@),
{
    let graceful: bool = !previous.active && previous.ended_at_ms.is_some();
    let mut fingerprint = "monitor:".to_owned();
    fingerprint.append(sample.boot_id.as_str());
    fingerprint.append(":");
    append_decimal(&mut fingerprint, generation);
    let details = if graceful {
        "monitor restarted after an observed graceful stop".to_owned()
    } else {
        "monitor restarted without an observed graceful stop".to_owned()
    };
    NewEvent {
        fingerprint,
        kind: EventKind::MonitorRestarted,
        detected_at_ms: sample.observed_at_ms,
        previous_boot_id: Some(previous.boot_id.clone()),
        current_boot_id: sample.boot_id.clone(),
        window_start_ms: Some(previous.last_seen_at_ms),
        window_end_ms: Some(sample.observed_at_ms),
        graceful: Some(graceful),
        details: Some(details),
    }
}

/// Decides what it means that the monitor starts and sees `sample`, with
/// `previous` as the state row.
pub fn plan_startup(previous: Option<&StateRow>, sample: &SystemSample) -> (plan: (StartupOutcome, Changes))
    ensures
        ({
            let state = borrowed_state(previous);
            &&& plan.0 == startup_outcome(state, sample@)
            &&& plan.1@ == startup_changes(state, sample@)
        }),
{
    let mut events: Vec<NewEvent> = Vec::new();
    match previous {
        None => {
            let changes = Changes {
                events,
                session: open_session(sample, 1),
                state: new_started_state(sample, sample.observed_at_ms, 1),
            };
            assert(changes@.events =~= startup_events(None, sample@));
            (StartupOutcome { disposition: StartupDisposition::Baseline, generation: 1 }, changes)
        },
        Some(previous) => {
            let graceful: bool = !previous.active && previous.ended_at_ms.is_some();
            if previous.boot_id != sample.boot_id {
                events.push(new_boot_event(previous, sample));
                if sample.boot_started_at_ms < previous.last_seen_at_ms {
                    events.push(new_boot_clock_event(previous, sample));
                }
                let changes = Changes {
                    events,
                    session: open_session(sample, 1),
                    state: new_started_state(sample, sample.observed_at_ms, 1),
                };
                assert(changes@.events =~= startup_events(Some(previous@), sample@));
                (
                    StartupOutcome {
                        disposition: StartupDisposition::BootChanged { graceful },
                        generation: 1,
                    },
                    changes,
                )
            } else {
                let generation: i64 = saturating_sum(previous.generation, 1);
                events.push(new_restart_event(previous, sample, generation));
                let changes = Changes {
                    events,
                    session: SessionChange::Resume {
                        boot_id: sample.boot_id.clone(),
                        seen_at_ms: sample.observed_at_ms,
                        boottime_ms: sample.boottime_ms,
                        generation,
                    },
                    state: new_started_state(sample, previous.first_seen_at_ms, generation),
                };
                assert(changes@.events =~= startup_events(Some(previous@), sample@));
                (
                    StartupOutcome {
                        disposition: StartupDisposition::MonitorRestarted { graceful },
                        generation,
                    },
                    changes,
                )
            }
        },
    }
}

// ---------------------------------------------------------------------------
// Heartbeats
// ---------------------------------------------------------------------------

/// The most that the boot clock may advance between two heartbeats.
pub open spec fn gap_threshold(interval_ms: i64, gap_factor: i64) -> i64 {
    clamp_i64(interval_ms * gap_factor)
}

/// By how much the boot clock advanced since the last heartbeat.
pub open spec fn boottime_advance(previous: StateView, sample: SampleView) -> i64 {
    clamp_i64(sample.boottime_ms - previous.last_boottime_ms)
}

/// Whether heartbeats were missed before `sample`.
pub open spec fn has_gap(previous: StateView, sample: SampleView, interval_ms: i64, gap_factor: i64) -> bool {
    &&& sample.boottime_ms >= previous.last_boottime_ms
    &&& boottime_advance(previous, sample) > gap_threshold(interval_ms, gap_factor)
}

/// Whether a clock ran backwards before `sample`, be it the wall clock or the
/// boot clock.
pub open spec fn clock_ran_back(previous: StateView, sample: SampleView) -> bool {
    ||| sample.observed_at_ms < previous.last_seen_at_ms
    ||| sample.boottime_ms < previous.last_boottime_ms
}

/// The event of missed heartbeats.
pub open spec fn gap_event(
    previous: StateView,
    sample: SampleView,
    interval_ms: i64,
    gap_factor: i64,
) -> EventView {
    EventView {
        fingerprint: gap_fingerprint(
            sample.boot_id,
            previous.generation as int,
            previous.last_boottime_ms as int,
        ),
        kind: EventKind::HeartbeatGap,
        detected_at_ms: sample.observed_at_ms,
        previous_boot_id: Some(sample.boot_id),
        current_boot_id: sample.boot_id,
        window_start_ms: Some(previous.last_seen_at_ms),
        window_end_ms: Some(sample.observed_at_ms),
        graceful: None,
        details: Some(
            "CLOCK_BOOTTIME advanced by "@ + decimal(boottime_advance(previous, sample) as int)
                + " ms; threshold was "@ + decimal(gap_threshold(interval_ms, gap_factor) as int) + " ms"@,
        ),
    }
}

/// The event of a clock that ran backwards.
pub open spec fn clock_event(previous: StateView, sample: SampleView) -> EventView {
    EventView {
        fingerprint: clock_fingerprint(
            sample.boot_id,
            previous.generation as int,
            previous.last_boottime_ms as int,
        ),
        kind: EventKind::ClockAnomaly,
        detected_at_ms: sample.observed_at_ms,
        previous_boot_id: Some(sample.boot_id),
        current_boot_id: sample.boot_id,
        window_start_ms: Some(previous.last_seen_at_ms),
        window_end_ms: Some(sample.observed_at_ms),
        graceful: None,
        details: Some("wall clock or CLOCK_BOOTTIME moved backwards"@),
    }
}

/// What a heartbeat logs: missed heartbeats first, then a clock that ran
/// backwards.
pub open spec fn heartbeat_events(
    previous: StateView,
    sample: SampleView,
    interval_ms: i64,
    gap_factor: i64,
) -> Seq<EventView> {
    let gap = if has_gap(previous, sample, interval_ms, gap_factor) {
        seq![gap_event(previous, sample, interval_ms, gap_factor)]
    } else {
        seq![]
    };
    let clock = if clock_ran_back(previous, sample) {
        seq![clock_event(previous, sample)]
    } else {
        seq![]
    };
    gap + clock
}

/// The kinds of events, in their order.
pub open spec fn kinds_of(events: Seq<EventView>) -> Seq<EventKind> {
    events.map_values(|event: EventView| event.kind)
}

/// What a heartbeat writes.
pub open spec fn heartbeat_changes(
    previous: StateView,
    sample: SampleView,
    interval_ms: i64,
    gap_factor: i64,
) -> ChangesView {
    ChangesView {
        events: heartbeat_events(previous, sample, interval_ms, gap_factor),
        session: SessionChangeView::Touch {
            boot_id: sample.boot_id,
            seen_at_ms: sample.observed_at_ms,
            boottime_ms: sample.boottime_ms,
        },
        state: StateView {
            last_seen_at_ms: sample.observed_at_ms,
            last_boottime_ms: sample.boottime_ms,
            active: true,
            ended_at_ms: None,
            end_reason: None,
            ..previous
        },
    }
}

fn new_gap_event(
    previous: &StateRow,
    sample: &SystemSample,
    interval_ms: i64,
    gap_factor: i64,
) -> (event: NewEvent)
    ensures
        event@ == gap_event(previous@, sample@, interval_ms, gap_factor),
{
    let advance: i64 = saturating_difference(sample.boottime_ms, previous.last_boottime_ms);
    let threshold: i64 = saturating_product(interval_ms, gap_factor);
    let mut fingerprint = "gap:".to_owned();
    fingerprint.append(sample.boot_id.as_str());
    fingerprint.append(":");
    append_decimal(&mut fingerprint, previous.generation);
    fingerprint.append(":");
    append_decimal(&mut fingerprint, previous.last_boottime_ms);
    let mut details = "CLOCK_BOOTTIME advanced by ".to_owned();
    append_decimal(&mut details, advance);
    details.append(" ms; threshold was ");
    append_decimal(&mut details, threshold);
    details.append(" ms");
    NewEvent {
        fingerprint,
        kind: EventKind::HeartbeatGap,
        detected_at_ms: sample.observed_at_ms,
        previous_boot_id: Some(sample.boot_id.clone()),
        current_boot_id: sample.boot_id.clone(),
        window_start_ms: Some(previous.last_seen_at_ms),
        window_end_ms: Some(sample.observed_at_ms),
        graceful: None,
        details: Some(details),
    }
}

fn new_clock_event(previous: &StateRow, sample: &SystemSample) -> (event: NewEvent)
    ensures
        event@ == clock_event(previous@, sample@),
{
    let mut fingerprint = "clock:".to_owned();
    fingerprint.append(sample.boot_id.as_str());
    fingerprint.append(":");
    append_decimal(&mut fingerprint, previous.generation);
    fingerprint.append(":");
    append_decimal(&mut fingerprint, previous.last_boottime_ms);
    NewEvent {
        fingerprint,
        kind: EventKind::ClockAnomaly,
        detected_at_ms: sample.observed_at_ms,
        previous_boot_id: Some(sample.boot_id.clone()),
        current_boot_id: sample.boot_id.clone(),
        window_start_ms: Some(previous.last_seen_at_ms),
        window_end_ms: Some(sample.observed_at_ms),
        graceful: None,
        details: Some("wall clock or CLOCK_BOOTTIME moved backwards".to_owned()),
    }
}

/// Why a heartbeat is refused, if it is: nothing was persisted yet, or the
/// kernel is not the one of the state row.
pub open spec fn heartbeat_refusal(previous: Option<StateView>, sample: SampleView, error: StorageError) -> bool {
    match previous {
        None => error is NoBaseline,
        Some(previous) => {
            &&& previous.boot_id != sample.boot_id
            &&& error matches StorageError::BootIdChanged { previous: before, current }
            &&& before@ == previous.boot_id
            &&& current@ == sample.boot_id
        },
    }
}

/// Whether `state` is the row of the boot that was sampled.
pub open spec fn is_current(state: Option<StateView>, sample: SampleView) -> bool {
    state matches Some(state) && state.boot_id == sample.boot_id
}

/// Decides what it means that a running monitor sees `sample`, with
/// `previous` as the state row: the kinds of the events that it reports, and
/// what is to be written.
pub fn plan_heartbeat(
    previous: Option<&StateRow>,
    sample: &SystemSample,
    interval_ms: i64,
    gap_factor: i64,
) -> (plan: Result<(Vec<EventKind>, Changes), StorageError>)
    ensures
        ({
            let state = borrowed_state(previous);
            match plan {
                Ok((emitted, changes)) => {
                    &&& is_current(state, sample@)
                    &&& changes@ == heartbeat_changes(state->0, sample@, interval_ms, gap_factor)
                    &&& emitted@ == kinds_of(changes@.events)
                },
                Err(error) => heartbeat_refusal(state, sample@, error),
            }
        }),
{
    let previous = match previous {
        Some(previous) => previous,
        None => return Err(StorageError::NoBaseline),
    };
    if previous.boot_id != sample.boot_id {
        return Err(
            StorageError::BootIdChanged {
                previous: previous.boot_id.clone(),
                current: sample.boot_id.clone(),
            },
        );
    }
    let mut emitted: Vec<EventKind> = Vec::new();
    let mut events: Vec<NewEvent> = Vec::new();
    let threshold: i64 = saturating_product(interval_ms, gap_factor);
    let advance: i64 = saturating_difference(sample.boottime_ms, previous.last_boottime_ms);
    if sample.boottime_ms >= previous.last_boottime_ms && advance > threshold {
        events.push(new_gap_event(previous, sample, interval_ms, gap_factor));
        emitted.push(EventKind::HeartbeatGap);
    }
    if sample.observed_at_ms < previous.last_seen_at_ms
        || sample.boottime_ms < previous.last_boottime_ms {
        events.push(new_clock_event(previous, sample));
        emitted.push(EventKind::ClockAnomaly);
    }
    let changes = Changes {
        events,
        session: SessionChange::Touch {
            boot_id: sample.boot_id.clone(),
            seen_at_ms: sample.observed_at_ms,
            boottime_ms: sample.boottime_ms,
        },
        state: StateRow {
            boot_id: previous.boot_id.clone(),
            boot_started_at_ms: previous.boot_started_at_ms,
            first_seen_at_ms: previous.first_seen_at_ms,
            last_seen_at_ms: sample.observed_at_ms,
            last_boottime_ms: sample.boottime_ms,
            active: true,
            generation: previous.generation,
            ended_at_ms: None,
            end_reason: None,
        },
    };
    assert(changes@.events =~= heartbeat_events(previous@, sample@, interval_ms, gap_factor));
    assert(emitted@ =~= kinds_of(changes@.events));
    Ok((emitted, changes))
}

// ---------------------------------------------------------------------------
// Stopping
// ---------------------------------------------------------------------------

/// What an orderly stop writes.
pub open spec fn stop_changes(previous: StateView, sample: SampleView, reason: Seq<char>) -> ChangesView {
    ChangesView {
        events: seq![],
        session: SessionChangeView::Close {
            boot_id: sample.boot_id,
            seen_at_ms: sample.observed_at_ms,
            boottime_ms: sample.boottime_ms,
            reason,
        },
        state: StateView {
            last_seen_at_ms: sample.observed_at_ms,
            last_boottime_ms: sample.boottime_ms,
            active: false,
            ended_at_ms: Some(sample.observed_at_ms),
            end_reason: Some(reason),
            ..previous
        },
    }
}

/// Why an orderly stop is refused, if it is: nothing was persisted yet, or
/// the kernel is not the one of the state row.
pub open spec fn stop_refusal(previous: Option<StateView>, sample: SampleView, error: StorageError) -> bool {
    match previous {
        None => error is NoBaseline,
        Some(previous) => previous.boot_id != sample.boot_id && error is DifferentBoot,
    }
}

/// Decides what it means that the monitor stops after having seen `sample`.
pub fn plan_stop(
    previous: Option<&StateRow>,
    sample: &SystemSample,
    reason: &str,
) -> (plan: Result<Changes, StorageError>)
    ensures
        ({
            let state = borrowed_state(previous);
            match plan {
                Ok(changes) => {
                    &&& is_current(state, sample@)
                    &&& changes@ == stop_changes(state->0, sample@, reason@)
                },
                Err(error) => stop_refusal(state, sample@, error),
            }
        }),
{
    let previous = match previous {
        Some(previous) => previous,
        None => return Err(StorageError::NoBaseline),
    };
    if previous.boot_id != sample.boot_id {
        return Err(StorageError::DifferentBoot);
    }
    let changes = Changes {
        events: Vec::new(),
        session: SessionChange::Close {
            boot_id: sample.boot_id.clone(),
            seen_at_ms: sample.observed_at_ms,
            boottime_ms: sample.boottime_ms,
            reason: reason.to_owned(),
        },
        state: StateRow {
            boot_id: previous.boot_id.clone(),
            boot_started_at_ms: previous.boot_started_at_ms,
            first_seen_at_ms: previous.first_seen_at_ms,
            last_seen_at_ms: sample.observed_at_ms,
            last_boottime_ms: sample.boottime_ms,
            active: false,
            generation: previous.generation,
            ended_at_ms: Some(sample.observed_at_ms),
            end_reason: Some(reason.to_owned()),
        },
    };
    assert(changes@.events =~= seq![]);
    Ok(changes)
}

/// The messages of refusals show what they are about: the boot before and the
/// boot now, the schema version found and the one that is known, or the table.
pub proof fn law_refusals_show_what_they_are_about(previous: String, current: String, version: i64, table: String)
    ensures
        ({
            let message = storage_message(StorageError::BootIdChanged { previous, current });
            &&& ("boot ID changed while the daemon was running ("@ + previous@ + " -> "@).is_prefix_of(message)
            &&& (current@ + "); systemd should restart the daemon"@).is_suffix_of(message)
            &&& message.len() == "boot ID changed while the daemon was running ("@.len() + previous@.len()
                + " -> "@.len() + current@.len() + "); systemd should restart the daemon"@.len()
        }),
        ({
            let message = storage_message(StorageError::NewerSchema { version });
            &&& ("database schema version "@ + decimal(version as int)).is_prefix_of(message)
            &&& (" is newer than supported version "@ + decimal(1)).is_suffix_of(message)
            &&& message.len() == "database schema version "@.len() + decimal(version as int).len()
                + " is newer than supported version "@.len() + decimal(1).len()
        }),
        ({
            let message = storage_message(StorageError::UnsupportedSchema { version });
            &&& ("unsupported database schema version "@ + decimal(version as int)).is_prefix_of(message)
            &&& ("; expected "@ + decimal(1)).is_suffix_of(message)
            &&& message.len() == "unsupported database schema version "@.len() + decimal(version as int).len()
                + "; expected "@.len() + decimal(1).len()
        }),
        ({
            let message = storage_message(StorageError::MissingTable { table });
            &&& "no such table: "@.is_prefix_of(message)
            &&& table@.is_suffix_of(message)
            &&& message.len() == "no such table: "@.len() + table@.len()
        }),
{
}

} // verus!
