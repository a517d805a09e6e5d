//! The rows that are persisted, and what one transaction does to them.

use vstd::prelude::*;

use crate::model::{copy_text, kind_name, optional_text, EventKind, EventRecord, RecordView};

verus! {

/// The single row of the current monitoring state.
#[derive(Clone, Debug)]
pub struct StateRow {
    pub boot_id: String,
    pub boot_started_at_ms: i64,
    pub first_seen_at_ms: i64,
    pub last_seen_at_ms: i64,
    pub last_boottime_ms: i64,
    pub active: bool,
    pub generation: i64,
    pub ended_at_ms: Option<i64>,
    pub end_reason: Option<String>,
}

/// A state row with its texts as characters.
#[verifier::ext_equal]
pub struct StateView {
    pub boot_id: Seq<char>,
    pub boot_started_at_ms: i64,
    pub first_seen_at_ms: i64,
    pub last_seen_at_ms: i64,
    pub last_boottime_ms: i64,
    pub active: bool,
    pub generation: i64,
    pub ended_at_ms: Option<i64>,
    pub end_reason: Option<Seq<char>>,
}

impl View for StateRow {
    type V = StateView;

    open spec fn view(&self) -> StateView {
        StateView {
            boot_id: self.boot_id@,
            boot_started_at_ms: self.boot_started_at_ms,
            first_seen_at_ms: self.first_seen_at_ms,
            last_seen_at_ms: self.last_seen_at_ms,
            last_boottime_ms: self.last_boottime_ms,
            active: self.active,
            generation: self.generation,
            ended_at_ms: self.ended_at_ms,
            end_reason: optional_text(self.end_reason),
        }
    }
}

/// The state row, where there is one, with its texts as characters.
pub open spec fn optional_state(state: Option<StateRow>) -> Option<StateView> {
    match state {
        Some(state) => Some(state@),
        None => None,
    }
}

/// A borrowed state row, where there is one, with its texts as characters.
pub open spec fn borrowed_state(state: Option<&StateRow>) -> Option<StateView> {
    match state {
        Some(state) => Some(state@),
        None => None,
    }
}

/// What is kept of one boot of the machine.
#[derive(Clone, Debug)]
pub struct BootSession {
    pub boot_id: String,
    pub boot_started_at_ms: i64,
    pub first_seen_at_ms: i64,
    pub last_seen_at_ms: i64,
    pub last_boottime_ms: i64,
    pub monitor_generations: i64,
    pub ended_at_ms: Option<i64>,
    pub end_reason: Option<String>,
}

/// A boot session with its texts as characters.
#[verifier::ext_equal]
pub struct SessionView {
    pub boot_id: Seq<char>,
    pub boot_started_at_ms: i64,
    pub first_seen_at_ms: i64,
    pub last_seen_at_ms: i64,
    pub last_boottime_ms: i64,
    pub monitor_generations: i64,
    pub ended_at_ms: Option<i64>,
    pub end_reason: Option<Seq<char>>,
}

impl View for BootSession {
    type V = SessionView;

    open spec fn view(&self) -> SessionView {
        SessionView {
            boot_id: self.boot_id@,
            boot_started_at_ms: self.boot_started_at_ms,
            first_seen_at_ms: self.first_seen_at_ms,
            last_seen_at_ms: self.last_seen_at_ms,
            last_boottime_ms: self.last_boottime_ms,
            monitor_generations: self.monitor_generations,
            ended_at_ms: self.ended_at_ms,
            end_reason: optional_text(self.end_reason),
        }
    }
}

/// An event that is about to be logged. Of two events with one fingerprint
/// only the first is kept.
#[derive(Clone, Debug)]
pub struct NewEvent {
    pub fingerprint: String,
    pub kind: EventKind,
    pub detected_at_ms: i64,
    pub previous_boot_id: Option<String>,
    pub current_boot_id: String,
    pub window_start_ms: Option<i64>,
    pub window_end_ms: Option<i64>,
    pub graceful: Option<bool>,
    pub details: Option<String>,
}

/// A new event with its texts as characters.
#[verifier::ext_equal]
pub struct EventView {
    pub fingerprint: Seq<char>,
    pub kind: EventKind,
    pub detected_at_ms: i64,
    pub previous_boot_id: Option<Seq<char>>,
    pub current_boot_id: Seq<char>,
    pub window_start_ms: Option<i64>,
    pub window_end_ms: Option<i64>,
    pub graceful: Option<bool>,
    pub details: Option<Seq<char>>,
}

impl View for NewEvent {
    type V = EventView;

    open spec fn view(&self) -> EventView {
        EventView {
            fingerprint: self.fingerprint@,
            kind: self.kind,
            detected_at_ms: self.detected_at_ms,
            previous_boot_id: optional_text(self.previous_boot_id),
            current_boot_id: self.current_boot_id@,
            window_start_ms: self.window_start_ms,
            window_end_ms: self.window_end_ms,
            graceful: self.graceful,
            details: optional_text(self.details),
        }
    }
}

/// A row of the event log.
#[derive(Clone, Debug)]
pub struct StoredEvent {
    pub fingerprint: String,
    pub record: EventRecord,
}

/// A row of the event log with its texts as characters.
#[verifier::ext_equal]
pub struct StoredView {
    pub fingerprint: Seq<char>,
    pub record: RecordView,
}

impl View for StoredEvent {
    type V = StoredView;

    open spec fn view(&self) -> StoredView {
        StoredView { fingerprint: self.fingerprint@, record: self.record@ }
    }
}

/// What a transaction does to the boot sessions.
#[derive(Clone, Debug)]
pub enum SessionChange {
    /// Adds the session of a boot, or starts over one that is already there,
    /// keeping when it was first seen.
    Open {
        boot_id: String,
        boot_started_at_ms: i64,
        seen_at_ms: i64,
        boottime_ms: i64,
        generation: i64,
    },
    /// A further monitor process watches the boot.
    Resume { boot_id: String, seen_at_ms: i64, boottime_ms: i64, generation: i64 },
    /// The boot was seen alive.
    Touch { boot_id: String, seen_at_ms: i64, boottime_ms: i64 },
    /// The monitor stopped in an orderly way.
    Close { boot_id: String, seen_at_ms: i64, boottime_ms: i64, reason: String },
}

/// A session change with its texts as characters.
#[verifier::ext_equal]
pub enum SessionChangeView {
    Open {
        boot_id: Seq<char>,
        boot_started_at_ms: i64,
        seen_at_ms: i64,
        boottime_ms: i64,
        generation: i64,
    },
    Resume { boot_id: Seq<char>, seen_at_ms: i64, boottime_ms: i64, generation: i64 },
    Touch { boot_id: Seq<char>, seen_at_ms: i64, boottime_ms: i64 },
    Close { boot_id: Seq<char>, seen_at_ms: i64, boottime_ms: i64, reason: Seq<char> },
}

impl View for SessionChange {
    type V = SessionChangeView;

    open spec fn view(&self) -> SessionChangeView {
        match *self {
            SessionChange::Open { boot_id, boot_started_at_ms, seen_at_ms, boottime_ms, generation } =>
                SessionChangeView::Open {
                    boot_id: boot_id@,
                    boot_started_at_ms,
                    seen_at_ms,
                    boottime_ms,
                    generation,
                },
            SessionChange::Resume { boot_id, seen_at_ms, boottime_ms, generation } =>
                SessionChangeView::Resume { boot_id: boot_id@, seen_at_ms, boottime_ms, generation },
            SessionChange::Touch { boot_id, seen_at_ms, boottime_ms } =>
                SessionChangeView::Touch { boot_id: boot_id@, seen_at_ms, boottime_ms },
            SessionChange::Close { boot_id, seen_at_ms, boottime_ms, reason } =>
                SessionChangeView::Close { boot_id: boot_id@, seen_at_ms, boottime_ms, reason: reason@ },
        }
    }
}

/// All that one transaction writes: events to log, a change to the boot
/// sessions, and the state row that replaces the current one.
#[derive(Clone, Debug)]
pub struct Changes {
    pub events: Vec<NewEvent>,
    pub session: SessionChange,
    pub state: StateRow,
}

/// A transaction with its texts as characters.
#[verifier::ext_equal]
pub struct ChangesView {
    pub events: Seq<EventView>,
    pub session: SessionChangeView,
    pub state: StateView,
}

impl View for Changes {
    type V = ChangesView;

    open spec fn view(&self) -> ChangesView {
        ChangesView {
            events: self.events@.map_values(|event: NewEvent| event@),
            session: self.session@,
            state: self.state@,
        }
    }
}

/// The persisted tables: every boot session, the current state where there is
/// one, the event log in the order in which it was written, and the largest
/// number that was handed out for an event, zero where there was none.
#[derive(Clone, Debug)]
pub struct Tables {
    pub sessions: Vec<BootSession>,
    pub state: Option<StateRow>,
    pub events: Vec<StoredEvent>,
    pub last_event_id: i64,
}

/// The tables with their texts as characters.
#[verifier::ext_equal]
pub struct TablesView {
    pub sessions: Seq<SessionView>,
    pub state: Option<StateView>,
    pub events: Seq<StoredView>,
    pub last_event_id: i64,
}

impl View for Tables {
    type V = TablesView;

    open spec fn view(&self) -> TablesView {
        TablesView {
            sessions: self.sessions@.map_values(|session: BootSession| session@),
            state: optional_state(self.state),
            events: self.events@.map_values(|event: StoredEvent| event@),
            last_event_id: self.last_event_id,
        }
    }
}

// ---------------------------------------------------------------------------
// The event log
// ---------------------------------------------------------------------------

/// Whether an event with this fingerprint is in the log.
pub open spec fn is_recorded(events: Seq<StoredView>, fingerprint: Seq<char>) -> bool {
    exists|i: int| 0 <= i < events.len() && (#[trigger] events[i]).fingerprint == fingerprint
}

/// The event log with the largest number that was handed out for it.
#[verifier::ext_equal]
pub struct LogView {
    pub events: Seq<StoredView>,
    pub last_id: i64,
}

/// The event log among the tables.
pub open spec fn log_of(tables: TablesView) -> LogView {
    LogView { events: tables.events, last_id: tables.last_event_id }
}

/// The largest number that is spent: the one that was handed out last, or that
/// of the last event where this is larger.
pub open spec fn largest_id(log: LogView) -> i64 {
    let last = if log.events.len() == 0 {
        0
    } else {
        log.events.last().record.id
    };
    if log.last_id < last {
        last
    } else {
        log.last_id
    }
}

/// The number that the next event gets.
pub open spec fn next_event_id(log: LogView) -> int {
    largest_id(log) + 1
}

/// A new event as a row of the log.
pub open spec fn stored_event(event: EventView, id: i64) -> StoredView {
    StoredView {
        fingerprint: event.fingerprint,
        record: RecordView {
            id,
            kind: kind_name(event.kind),
            detected_at_ms: event.detected_at_ms,
            previous_boot_id: event.previous_boot_id,
            current_boot_id: event.current_boot_id,
            window_start_ms: event.window_start_ms,
            window_end_ms: event.window_end_ms,
            graceful: event.graceful,
            details: event.details,
        },
    }
}

/// The log after an event, or `None` where no number is left for it. An event
/// whose fingerprint is in the log already is not added to it, but spends a
/// number all the same.
pub open spec fn log_event(log: LogView, event: EventView) -> Option<LogView> {
    let id = next_event_id(log);
    if id > i64::MAX {
        None
    } else {
        Some(
            LogView {
                events: if is_recorded(log.events, event.fingerprint) {
                    log.events
                } else {
                    log.events.push(stored_event(event, id as i64))
                },
                last_id: id as i64,
            },
        )
    }
}

/// The log after several events, in their order.
pub open spec fn log_events(log: LogView, added: Seq<EventView>) -> Option<LogView>
    decreases added.len(),
{
    if added.len() == 0 {
        Some(log)
    } else {
        match log_events(log, added.drop_last()) {
            Some(log) => log_event(log, added.last()),
            None => None,
        }
    }
}

/// The log is numbered upwards.
pub open spec fn numbered(events: Seq<StoredView>) -> bool {
    forall|i: int, j: int|
        0 <= i < j < events.len() ==> (#[trigger] events[i]).record.id < (#[trigger] events[j]).record.id
}

// ---------------------------------------------------------------------------
// The boot sessions
// ---------------------------------------------------------------------------

/// Whether there is a session of this boot.
pub open spec fn has_session(sessions: Seq<SessionView>, boot_id: Seq<char>) -> bool {
    exists|i: int| 0 <= i < sessions.len() && (#[trigger] sessions[i]).boot_id == boot_id
}

/// The boot that a session change is about.
pub open spec fn changed_boot(change: SessionChangeView) -> Seq<char> {
    match change {
        SessionChangeView::Open { boot_id, .. } => boot_id,
        SessionChangeView::Resume { boot_id, .. } => boot_id,
        SessionChangeView::Touch { boot_id, .. } => boot_id,
        SessionChangeView::Close { boot_id, .. } => boot_id,
    }
}

/// What a change makes of the session that it is about.
pub open spec fn changed_session(session: SessionView, change: SessionChangeView) -> SessionView {
    match change {
        SessionChangeView::Open { boot_id, boot_started_at_ms, seen_at_ms, boottime_ms, generation } =>
            SessionView {
                boot_started_at_ms,
                last_seen_at_ms: seen_at_ms,
                last_boottime_ms: boottime_ms,
                monitor_generations: generation,
                ended_at_ms: None,
                end_reason: None,
                ..session
            },
        SessionChangeView::Resume { boot_id, seen_at_ms, boottime_ms, generation } => SessionView {
            last_seen_at_ms: seen_at_ms,
            last_boottime_ms: boottime_ms,
            monitor_generations: generation,
            ended_at_ms: None,
            end_reason: None,
            ..session
        },
        SessionChangeView::Touch { boot_id, seen_at_ms, boottime_ms } => SessionView {
            last_seen_at_ms: seen_at_ms,
            last_boottime_ms: boottime_ms,
            ..session
        },
        SessionChangeView::Close { boot_id, seen_at_ms, boottime_ms, reason } => SessionView {
            last_seen_at_ms: seen_at_ms,
            last_boottime_ms: boottime_ms,
            ended_at_ms: Some(seen_at_ms),
            end_reason: Some(reason),
            ..session
        },
    }
}

/// The sessions after a change: every session of the boot takes it on, and a
/// boot that is opened without a session gets one.
pub open spec fn change_sessions(sessions: Seq<SessionView>, change: SessionChangeView) -> Seq<SessionView> {
    match change {
        SessionChangeView::Open {
            boot_id,
            boot_started_at_ms,
            seen_at_ms,
            boottime_ms,
            generation,
        } if !has_session(sessions, boot_id) => sessions.push(
            SessionView {
                boot_id,
                boot_started_at_ms,
                first_seen_at_ms: seen_at_ms,
                last_seen_at_ms: seen_at_ms,
                last_boottime_ms: boottime_ms,
                monitor_generations: generation,
                ended_at_ms: None,
                end_reason: None,
            },
        ),
        _ => sessions.map_values(
            |session: SessionView|
                if session.boot_id == changed_boot(change) {
                    changed_session(session, change)
                } else {
                    session
                },
        ),
    }
}

/// The tables after a transaction, or `None` where it cannot be carried out
/// because the event log has run out of numbers.
pub open spec fn commit(tables: TablesView, changes: ChangesView) -> Option<TablesView> {
    match log_events(log_of(tables), changes.events) {
        Some(log) => Some(
            TablesView {
                sessions: change_sessions(tables.sessions, changes.session),
                state: Some(changes.state),
                events: log.events,
                last_event_id: log.last_id,
            },
        ),
        None => None,
    }
}

/// Tables without a row.
pub open spec fn no_rows() -> TablesView {
    TablesView { sessions: Seq::empty(), state: None, events: Seq::empty(), last_event_id: 0 }
}

// ---------------------------------------------------------------------------
// Carrying a transaction out
// ---------------------------------------------------------------------------

impl Tables {
    /// Tables without a row.
    pub fn empty() -> (tables: Tables)
        ensures
            tables@ == no_rows(),
    {
        let tables = Tables { sessions: Vec::new(), state: None, events: Vec::new(), last_event_id: 0 };
        assert(tables@.sessions =~= Seq::empty());
        assert(tables@.events =~= Seq::empty());
        tables
    }
}

/// Whether an event with this fingerprint is in the log.
fn find_event(events: &Vec<StoredEvent>, fingerprint: &String) -> (found: bool)
    ensures
        found == is_recorded(events@.map_values(|event: StoredEvent| event@), fingerprint@),
{
    let ghost views = events@.map_values(|event: StoredEvent| event@);
    let mut i: usize = 0;
    while i < events.len()
        invariant
            i <= events.len(),
            views == events@.map_values(|event: StoredEvent| event@),
            forall|j: int| 0 <= j < i ==> (#[trigger] views[j]).fingerprint != fingerprint@,
        decreases events.len() - i,
    {
        assert(views[i as int] == events[i as int]@);
        if events[i].fingerprint == *fingerprint {
            return true;
        }
        i += 1;
    }
    false
}

/// The log that `events` and `last_id` make up.
pub open spec fn written_log(events: Seq<StoredEvent>, last_id: i64) -> LogView {
    LogView { events: events.map_values(|event: StoredEvent| event@), last_id }
}

/// Logs an event, unless its fingerprint is in the log already, and gives the
/// number that it spent. Gives nothing and leaves the log alone where no
/// number is left.
pub fn insert_event(events: &mut Vec<StoredEvent>, last_id: i64, event: &NewEvent) -> (spent: Option<i64>)
    ensures
        match log_event(written_log(old(events)@, last_id), event@) {
            Some(after) => spent matches Some(id) && written_log(final(events)@, id) == after,
            None => spent is None && final(events)@ == old(events)@,
        },
        final(events)@.len() >= old(events)@.len(),
        final(events)@.take(old(events)@.len() as int) == old(events)@,
{
    let ghost log = written_log(events@, last_id);
    assert(events@.take(events@.len() as int) == events@);
    let mut largest: i64 = 0;
    let count: usize = events.len();
    if count > 0 {
        assert(log.events.last() == events[count - 1]@);
        largest = events[count - 1].record.id;
    }
    if largest < last_id {
        largest = last_id;
    }
    if largest == i64::MAX {
        return None;
    }
    let id: i64 = largest + 1;
    if find_event(events, &event.fingerprint) {
        return Some(id);
    }
    let stored = StoredEvent {
        fingerprint: event.fingerprint.clone(),
        record: EventRecord {
            id,
            kind: event.kind.as_str().to_owned(),
            detected_at_ms: event.detected_at_ms,
            previous_boot_id: copy_text(&event.previous_boot_id),
            current_boot_id: event.current_boot_id.clone(),
            window_start_ms: event.window_start_ms,
            window_end_ms: event.window_end_ms,
            graceful: event.graceful,
            details: copy_text(&event.details),
        },
    };
    assert(stored@ == stored_event(event@, id));
    events.push(stored);
    assert(events@.map_values(|event: StoredEvent| event@) =~= log.events.push(stored@));
    assert(events@.take(old(events)@.len() as int) =~= old(events)@);
    Some(id)
}

/// Logs events in their order, and gives the largest number that is then
/// spent. Where one of them cannot be logged, none is.
fn insert_events(events: &mut Vec<StoredEvent>, last_id: i64, added: &Vec<NewEvent>) -> (spent: Option<i64>)
    ensures
        match log_events(written_log(old(events)@, last_id), added@.map_values(|event: NewEvent| event@)) {
            Some(after) => spent matches Some(id) && written_log(final(events)@, id) == after,
            None => spent is None && final(events)@ == old(events)@,
        },
{
    let ghost before = written_log(events@, last_id);
    let ghost views = added@.map_values(|event: NewEvent| event@);
    let count: usize = events.len();
    let mut spent: i64 = last_id;
    let mut i: usize = 0;
    assert(events@.take(count as int) =~= events@);
    while i < added.len()
        invariant
            i <= added.len(),
            before == written_log(old(events)@, last_id),
            views == added@.map_values(|event: NewEvent| event@),
            count == old(events)@.len(),
            count <= events@.len(),
            events@.take(count as int) == old(events)@,
            log_events(before, views.take(i as int)) == Some(written_log(events@, spent)),
        decreases added.len() - i,
    {
        let ghost current = events@;
        assert(views.take(i + 1).drop_last() =~= views.take(i as int));
        assert(views.take(i + 1).last() == added[i as int]@);
        match insert_event(events, spent, &added[i]) {
            Some(id) => {
                spent = id;
            },
            None => {
                proof {
                    lemma_log_stays_full(before, views, i + 1);
                }
                events.truncate(count);
                return None;
            },
        }
        assert(events@.take(count as int) =~= events@.take(current.len() as int).take(count as int));
        i += 1;
    }
    assert(views.take(i as int) =~= views);
    Some(spent)
}

/// A transaction that cannot log some event cannot log the rest either.
proof fn lemma_log_stays_full(log: LogView, added: Seq<EventView>, from: int)
    requires
        0 <= from <= added.len(),
        log_events(log, added.take(from)) is None,
    ensures
        log_events(log, added) is None,
    decreases added.len() - from,
{
    if from < added.len() {
        assert(added.take(from + 1).drop_last() =~= added.take(from));
        lemma_log_stays_full(log, added, from + 1);
    } else {
        assert(added.take(from) =~= added);
    }
}

/// A copy of a session with a change taken on.
fn apply_change(session: &BootSession, change: &SessionChange) -> (changed: BootSession)
    ensures
        changed@ == changed_session(session@, change@),
{
    match change {
        SessionChange::Open { boot_id: _, boot_started_at_ms, seen_at_ms, boottime_ms, generation } =>
            BootSession {
                boot_id: session.boot_id.clone(),
                boot_started_at_ms: *boot_started_at_ms,
                first_seen_at_ms: session.first_seen_at_ms,
                last_seen_at_ms: *seen_at_ms,
                last_boottime_ms: *boottime_ms,
                monitor_generations: *generation,
                ended_at_ms: None,
                end_reason: None,
            },
        SessionChange::Resume { boot_id: _, seen_at_ms, boottime_ms, generation } => BootSession {
            boot_id: session.boot_id.clone(),
            boot_started_at_ms: session.boot_started_at_ms,
            first_seen_at_ms: session.first_seen_at_ms,
            last_seen_at_ms: *seen_at_ms,
            last_boottime_ms: *boottime_ms,
            monitor_generations: *generation,
            ended_at_ms: None,
            end_reason: None,
        },
        SessionChange::Touch { boot_id: _, seen_at_ms, boottime_ms } => BootSession {
            boot_id: session.boot_id.clone(),
            boot_started_at_ms: session.boot_started_at_ms,
            first_seen_at_ms: session.first_seen_at_ms,
            last_seen_at_ms: *seen_at_ms,
            last_boottime_ms: *boottime_ms,
            monitor_generations: session.monitor_generations,
            ended_at_ms: session.ended_at_ms,
            end_reason: copy_text(&session.end_reason),
        },
        SessionChange::Close { boot_id: _, seen_at_ms, boottime_ms, reason } => BootSession {
            boot_id: session.boot_id.clone(),
            boot_started_at_ms: session.boot_started_at_ms,
            first_seen_at_ms: session.first_seen_at_ms,
            last_seen_at_ms: *seen_at_ms,
            last_boottime_ms: *boottime_ms,
            monitor_generations: session.monitor_generations,
            ended_at_ms: Some(*seen_at_ms),
            end_reason: Some(reason.clone()),
        },
    }
}

/// The boot that a session change is about.
fn target_boot(change: &SessionChange) -> (boot_id: &String)
    ensures
        boot_id@ == changed_boot(change@),
{
    match change {
        SessionChange::Open { boot_id, .. } => boot_id,
        SessionChange::Resume { boot_id, .. } => boot_id,
        SessionChange::Touch { boot_id, .. } => boot_id,
        SessionChange::Close { boot_id, .. } => boot_id,
    }
}

/// Carries a session change out.
fn update_sessions(sessions: &mut Vec<BootSession>, change: &SessionChange)
    ensures
        final(sessions)@.map_values(|session: BootSession| session@) == change_sessions(
            old(sessions)@.map_values(|session: BootSession| session@),
            change@,
        ),
{
    let ghost before = sessions@.map_values(|session: BootSession| session@);
    let boot_id = target_boot(change);
    let mut found: bool = false;
    let mut i: usize = 0;
    while i < sessions.len()
        invariant
            i <= sessions@.len(),
            sessions@.len() == before.len(),
            boot_id@ == changed_boot(change@),
            found == exists|j: int| 0 <= j < i && (#[trigger] before[j]).boot_id == boot_id@,
            forall|j: int|
                0 <= j < i ==> (#[trigger] sessions@[j])@ == if before[j].boot_id == boot_id@ {
                    changed_session(before[j], change@)
                } else {
                    before[j]
                },
            forall|j: int| i <= j < sessions@.len() ==> (#[trigger] sessions@[j])@ == before[j],
        decreases sessions.len() - i,
    {
        assert(before[i as int] == sessions@[i as int]@);
        if sessions[i].boot_id == *boot_id {
            let changed = apply_change(&sessions[i], change);
            sessions.set(i, changed);
            found = true;
        }
        i += 1;
    }
    assert(found == has_session(before, boot_id@));
    let ghost walked = sessions@.map_values(|session: BootSession| session@);
    assert(walked =~= before.map_values(
        |session: SessionView|
            if session.boot_id == changed_boot(change@) {
                changed_session(session, change@)
            } else {
                session
            },
    ));
    match change {
        SessionChange::Open { boot_id, boot_started_at_ms, seen_at_ms, boottime_ms, generation } => {
            if !found {
                assert(walked =~= before);
                sessions.push(
                    BootSession {
                        boot_id: boot_id.clone(),
                        boot_started_at_ms: *boot_started_at_ms,
                        first_seen_at_ms: *seen_at_ms,
                        last_seen_at_ms: *seen_at_ms,
                        last_boottime_ms: *boottime_ms,
                        monitor_generations: *generation,
                        ended_at_ms: None,
                        end_reason: None,
                    },
                );
                assert(sessions@.map_values(|session: BootSession| session@) =~= change_sessions(
                    before,
                    change@,
                ));
            }
        },
        _ => {},
    }
}

impl Tables {
    /// Carries a transaction out as a whole, or gives `false` and changes
    /// nothing where the event log has run out of numbers.
    pub fn apply(&mut self, changes: Changes) -> (applied: bool)
        ensures
            match commit(old(self)@, changes@) {
                Some(after) => applied && final(self)@ == after,
                None => !applied && final(self)@ == old(self)@,
            },
    {
        match insert_events(&mut self.events, self.last_event_id, &changes.events) {
            Some(spent) => {
                self.last_event_id = spent;
                update_sessions(&mut self.sessions, &changes.session);
                self.state = Some(changes.state);
                true
            },
            None => false,
        }
    }
}

} // verus!
