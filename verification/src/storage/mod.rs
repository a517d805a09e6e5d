//! The persisted monitoring state and the event log.

pub mod consistency;
pub mod fingerprints;
pub mod freshness;
pub mod laws;
pub mod listing;
pub mod listing_laws;
pub mod outcomes;
pub mod plan;
pub mod rows;

use vstd::prelude::*;

use crate::model::{copy_text, kind_name, CurrentStatus, EventKind, EventRecord, StatusView, SystemSample};
use crate::numeric::{clamp_i64, fit_i64};
use crate::storage::consistency::{consistent, lemma_commit_consistent, lemma_log_events};
use crate::storage::listing::{check_numbered, count_kind, is_listing, list_events, selected};
use crate::storage::plan::{
    heartbeat_changes, heartbeat_refusal, is_current, kinds_of, plan_heartbeat, plan_startup, plan_stop,
    startup_changes, startup_outcome, stop_changes, stop_refusal, SCHEMA_VERSION,
};
use crate::storage::rows::{commit, log_of, no_rows, numbered, StateView, StoredView, Tables, TablesView};

pub use crate::storage::plan::{StartupDisposition, StartupOutcome, StorageError};

verus! {

/// What has to be done to a database before it is written to.
#[derive(Clone, Copy, Debug, PartialEq, Eq, Structural)]
pub enum Migration {
    /// The tables have to be created.
    CreateTables,
    /// The tables are there.
    UpToDate,
}

/// Decides how a database with the schema version `version` is made ready for
/// writing.
pub fn migrate(version: i64) -> (migration: Result<Migration, StorageError>)
    ensures
        match migration {
            Ok(Migration::CreateTables) => version == 0,
            Ok(Migration::UpToDate) => version == SCHEMA_VERSION,
            Err(error) => version != 0 && version != SCHEMA_VERSION && error == (StorageError::NewerSchema {
                version,
            }),
        },
{
    if version == 0 {
        Ok(Migration::CreateTables)
    } else if version == SCHEMA_VERSION {
        Ok(Migration::UpToDate)
    } else {
        Err(StorageError::NewerSchema { version })
    }
}

/// The report on a state row beside a log of events.
pub open spec fn status_of(state: StateView, events: Seq<StoredView>) -> StatusView {
    StatusView {
        boot_id: state.boot_id,
        boot_started_at_ms: state.boot_started_at_ms,
        first_seen_at_ms: state.first_seen_at_ms,
        last_heartbeat_at_ms: state.last_seen_at_ms,
        last_boottime_ms: state.last_boottime_ms,
        monitor_active: state.active,
        monitor_generation: state.generation,
        ended_at_ms: state.ended_at_ms,
        end_reason: state.end_reason,
        boot_change_count: clamp_i64(
            selected(events, Some(kind_name(EventKind::BootChanged))).len() as int,
        ),
        total_event_count: clamp_i64(events.len() as int),
    }
}

/// A number of rows, held within `i64`.
fn count_i64(count: usize) -> (result: i64)
    ensures
        result == clamp_i64(count as int),
{
    match fit_i64(count as u128) {
        Some(result) => result,
        None => i64::MAX,
    }
}

/// Whether an error says that a table is not there.
pub open spec fn is_missing(error: StorageError, table: Seq<char>) -> bool {
    error matches StorageError::MissingTable { table: missing } && missing@ == table
}

/// The rows of tables, none where there are no tables.
pub open spec fn rows_of(tables: Option<Tables>) -> TablesView {
    match tables {
        Some(tables) => tables@,
        None => no_rows(),
    }
}

/// The rows that are persisted. Each operation that writes is one
/// transaction: it is carried out as a whole, or it is refused and changes
/// nothing. A storage that was opened for reading alone refuses to write, and
/// one without tables refuses every operation.
#[derive(Clone, Debug)]
pub struct Storage {
    tables: Tables,
    created: bool,
    writable: bool,
}

impl View for Storage {
    type V = TablesView;

    closed spec fn view(&self) -> TablesView {
        self.tables@
    }
}

impl Storage {
    /// The event log is numbered upwards, and without tables there are no
    /// rows.
    pub open spec fn wf(&self) -> bool {
        &&& numbered(self@.events)
        &&& !self.has_tables() ==> self@ == no_rows()
    }

    /// Whether the tables are there.
    pub closed spec fn has_tables(&self) -> bool {
        self.created
    }

    /// Whether the storage was opened for writing.
    pub closed spec fn writable(&self) -> bool {
        self.writable
    }

    /// Opens a database for writing. `version` is its schema version, and
    /// `tables` holds its rows, events in the order of their numbers, where it
    /// has the tables. They are created where the version says that they have
    /// yet to be, which fails if they are there.
    pub fn open_or_create(version: i64, tables: Option<Tables>) -> (storage: Result<Self, StorageError>)
        ensures
            match storage {
                Ok(storage) => {
                    &&& storage.wf()
                    &&& storage.writable()
                    &&& storage@ == rows_of(tables)
                    &&& version == 0 && tables is None && storage.has_tables() || version == SCHEMA_VERSION
                        && storage.has_tables() == (tables is Some)
                },
                Err(error) => {
                    ||| version != 0 && version != SCHEMA_VERSION && error == (StorageError::NewerSchema {
                        version,
                    })
                    ||| version == 0 && tables is Some && error is TablesExist
                    ||| version == SCHEMA_VERSION && !numbered(rows_of(tables).events) && error is UnorderedLog
                },
            },
    {
        match migrate(version) {
            Ok(Migration::CreateTables) => match tables {
                Some(_) => Err(StorageError::TablesExist),
                None => Ok(Storage { tables: Tables::empty(), created: true, writable: true }),
            },
            Ok(Migration::UpToDate) => Storage::over(tables, true),
            Err(error) => Err(error),
        }
    }

    /// Opens a database for reading alone. `version` is its schema version,
    /// and `tables` holds its rows, events in the order of their numbers,
    /// where it has the tables.
    pub fn open_read_only(version: i64, tables: Option<Tables>) -> (storage: Result<Self, StorageError>)
        ensures
            match storage {
                Ok(storage) => {
                    &&& version == SCHEMA_VERSION
                    &&& storage.wf()
                    &&& !storage.writable()
                    &&& storage@ == rows_of(tables)
                    &&& storage.has_tables() == (tables is Some)
                },
                Err(error) => {
                    ||| version != SCHEMA_VERSION && error == (StorageError::UnsupportedSchema { version })
                    ||| version == SCHEMA_VERSION && !numbered(rows_of(tables).events) && error is UnorderedLog
                },
            },
    {
        if version != SCHEMA_VERSION {
            return Err(StorageError::UnsupportedSchema { version });
        }
        Storage::over(tables, false)
    }

    /// The storage over tables as they are.
    fn over(tables: Option<Tables>, writable: bool) -> (storage: Result<Self, StorageError>)
        ensures
            match storage {
                Ok(storage) => {
                    &&& storage.wf()
                    &&& storage.writable() == writable
                    &&& storage@ == rows_of(tables)
                    &&& storage.has_tables() == (tables is Some)
                },
                Err(error) => !numbered(rows_of(tables).events) && error is UnorderedLog,
            },
    {
        match tables {
            Some(tables) => if check_numbered(&tables.events) {
                Ok(Storage { tables, created: true, writable })
            } else {
                Err(StorageError::UnorderedLog)
            },
            None => Ok(Storage { tables: Tables::empty(), created: false, writable }),
        }
    }

    /// Refuses where the table is not there.
    fn require_table(&self, table: &str) -> (found: Result<(), StorageError>)
        ensures
            match found {
                Ok(()) => self.has_tables(),
                Err(error) => !self.has_tables() && is_missing(error, table@),
            },
    {
        if self.created {
            Ok(())
        } else {
            Err(StorageError::MissingTable { table: table.to_owned() })
        }
    }

    /// The rows.
    pub fn tables(&self) -> (tables: &Tables)
        ensures
            tables@ == self@,
    {
        &self.tables
    }

    /// Records that a monitor starts on the kernel that was sampled.
    pub fn begin_monitoring(&mut self, sample: &SystemSample) -> (outcome: Result<StartupOutcome, StorageError>)
        requires
            old(self).wf(),
        ensures
            final(self).wf(),
            consistent(old(self)@) ==> consistent(final(self)@),
            final(self).writable() == old(self).writable(),
            final(self).has_tables() == old(self).has_tables(),
            if !old(self).has_tables() {
                outcome matches Err(error) && is_missing(error, "current_state"@) && final(self)@ == old(self)@
            } else if !old(self).writable() {
                outcome == Err::<StartupOutcome, _>(StorageError::ReadOnly) && final(self)@ == old(self)@
            } else {
                match commit(old(self)@, startup_changes(old(self)@.state, sample@)) {
                    Some(after) => {
                        &&& outcome == Ok::<_, StorageError>(startup_outcome(old(self)@.state, sample@))
                        &&& final(self)@ == after
                    },
                    None => {
                        &&& outcome == Err::<StartupOutcome, _>(StorageError::LogFull)
                        &&& final(self)@ == old(self)@
                    },
                }
            },
    {
        match self.require_table("current_state") {
            Ok(()) => {},
            Err(error) => {
                return Err(error);
            },
        }
        if !self.writable {
            return Err(StorageError::ReadOnly);
        }
        let (outcome, changes) = plan_startup(self.tables.state.as_ref(), sample);
        proof {
            if commit(self@, changes@) is Some {
                lemma_log_events(log_of(self@), changes@.events);
                if consistent(self@) {
                    lemma_commit_consistent(self@, changes@);
                }
            }
        }
        if self.tables.apply(changes) {
            Ok(outcome)
        } else {
            Err(StorageError::LogFull)
        }
    }

    /// Records that a running monitor saw `sample`, and gives the kinds of
    /// the events that it noticed.
    pub fn heartbeat(
        &mut self,
        sample: &SystemSample,
        interval_ms: i64,
        gap_factor: i64,
    ) -> (emitted: Result<Vec<EventKind>, StorageError>)
        requires
            old(self).wf(),
        ensures
            final(self).wf(),
            consistent(old(self)@) ==> consistent(final(self)@),
            final(self).writable() == old(self).writable(),
            final(self).has_tables() == old(self).has_tables(),
            emitted is Err ==> final(self)@ == old(self)@,
            if !old(self).has_tables() {
                emitted matches Err(error) && is_missing(error, "current_state"@)
            } else if !is_current(old(self)@.state, sample@) {
                emitted matches Err(error) && heartbeat_refusal(old(self)@.state, sample@, error)
            } else if !old(self).writable() {
                emitted matches Err(error) && error is ReadOnly
            } else {
                let changes = heartbeat_changes(old(self)@.state->0, sample@, interval_ms, gap_factor);
                match commit(old(self)@, changes) {
                    Some(after) => {
                        &&& emitted matches Ok(kinds) && kinds@ == kinds_of(changes.events)
                        &&& final(self)@ == after
                    },
                    None => emitted matches Err(error) && error is LogFull,
                }
            },
    {
        match self.require_table("current_state") {
            Ok(()) => {},
            Err(error) => {
                return Err(error);
            },
        }
        match plan_heartbeat(self.tables.state.as_ref(), sample, interval_ms, gap_factor) {
            Ok((emitted, changes)) => {
                if !self.writable {
                    return Err(StorageError::ReadOnly);
                }
                proof {
                    if commit(self@, changes@) is Some {
                        lemma_log_events(log_of(self@), changes@.events);
                        if consistent(self@) {
                            lemma_commit_consistent(self@, changes@);
                        }
                    }
                }
                if self.tables.apply(changes) {
                    Ok(emitted)
                } else {
                    Err(StorageError::LogFull)
                }
            },
            Err(error) => Err(error),
        }
    }

    /// Records that the monitor stops in an orderly way, having seen `sample`
    /// last.
    pub fn mark_stopped(&mut self, sample: &SystemSample, reason: &str) -> (stopped: Result<(), StorageError>)
        requires
            old(self).wf(),
        ensures
            final(self).wf(),
            consistent(old(self)@) ==> consistent(final(self)@),
            final(self).writable() == old(self).writable(),
            final(self).has_tables() == old(self).has_tables(),
            if !old(self).has_tables() {
                &&& stopped matches Err(error) && is_missing(error, "current_state"@)
                &&& final(self)@ == old(self)@
            } else if !is_current(old(self)@.state, sample@) {
                &&& stopped matches Err(error) && stop_refusal(old(self)@.state, sample@, error)
                &&& final(self)@ == old(self)@
            } else if !old(self).writable() {
                &&& stopped matches Err(error) && error is ReadOnly
                &&& final(self)@ == old(self)@
            } else {
                &&& stopped is Ok
                &&& Some(final(self)@) == commit(
                    old(self)@,
                    stop_changes(old(self)@.state->0, sample@, reason@),
                )
            },
    {
        match self.require_table("current_state") {
            Ok(()) => {},
            Err(error) => {
                return Err(error);
            },
        }
        match plan_stop(self.tables.state.as_ref(), sample, reason) {
            Ok(changes) => {
                if !self.writable {
                    return Err(StorageError::ReadOnly);
                }
                proof {
                    assert(commit(self@, changes@) is Some);
                    lemma_log_events(log_of(self@), changes@.events);
                    if consistent(self@) {
                        lemma_commit_consistent(self@, changes@);
                    }
                }
                if self.tables.apply(changes) {
                    Ok(())
                } else {
                    Err(StorageError::LogFull)
                }
            },
            Err(error) => Err(error),
        }
    }

    /// The current state, where monitoring has begun.
    pub fn status(&self) -> (status: Result<Option<CurrentStatus>, StorageError>)
        ensures
            if !self.has_tables() {
                status matches Err(error) && is_missing(error, "current_state"@)
            } else {
                match self@.state {
                    Some(state) => status matches Ok(Some(status)) && status@ == status_of(state, self@.events),
                    None => status matches Ok(None),
                }
            },
    {
        match self.require_table("current_state") {
            Ok(()) => {},
            Err(error) => {
                return Err(error);
            },
        }
        match &self.tables.state {
            Some(state) => {
                let boot_changes: usize = count_kind(&self.tables.events, EventKind::BootChanged.as_str());
                let total: usize = self.tables.events.len();
                Ok(
                    Some(
                        CurrentStatus {
                            boot_id: state.boot_id.clone(),
                            boot_started_at_ms: state.boot_started_at_ms,
                            first_seen_at_ms: state.first_seen_at_ms,
                            last_heartbeat_at_ms: state.last_seen_at_ms,
                            last_boottime_ms: state.last_boottime_ms,
                            monitor_active: state.active,
                            monitor_generation: state.generation,
                            ended_at_ms: state.ended_at_ms,
                            end_reason: copy_text(&state.end_reason),
                            boot_change_count: count_i64(boot_changes),
                            total_event_count: count_i64(total),
                        },
                    ),
                )
            },
            None => Ok(None),
        }
    }

    /// The logged events of a kind, or of every kind, newest first, and at
    /// most `limit` of them.
    pub fn history(&self, limit: usize, kind: Option<&str>) -> (listed: Result<Vec<EventRecord>, StorageError>)
        ensures
            match listed {
                Ok(listed) => {
                    &&& self.has_tables()
                    &&& is_listing(
                        self@.events,
                        match kind {
                            Some(kind) => Some(kind@),
                            None => None,
                        },
                        limit as nat,
                        listed@.map_values(|record: EventRecord| record@),
                    )
                },
                Err(error) => !self.has_tables() && is_missing(error, "events"@),
            },
    {
        match self.require_table("events") {
            Ok(()) => Ok(list_events(&self.tables.events, limit, kind)),
            Err(error) => Err(error),
        }
    }
}

} // verus!
