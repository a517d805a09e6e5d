//! The tables of the library against a database of SQLite's own.

use bootwitness::model::SystemSample;
use bootwitness::storage::plan::{plan_heartbeat, plan_startup, plan_stop};
use bootwitness::storage::rows::{Changes, SessionChange, StateRow, Tables};
use bootwitness::storage::Storage;
use rusqlite::types::Value;
use rusqlite::{Connection, OptionalExtension};

const SCHEMA: &str = "
    CREATE TABLE boot_sessions (
        boot_id TEXT PRIMARY KEY NOT NULL,
        boot_started_at_ms INTEGER NOT NULL,
        first_seen_at_ms INTEGER NOT NULL,
        last_seen_at_ms INTEGER NOT NULL,
        last_boottime_ms INTEGER NOT NULL,
        monitor_generations INTEGER NOT NULL,
        ended_at_ms INTEGER,
        end_reason TEXT
    );
    CREATE TABLE current_state (
        singleton_id INTEGER PRIMARY KEY CHECK (singleton_id = 1),
        boot_id TEXT NOT NULL,
        boot_started_at_ms INTEGER NOT NULL,
        first_seen_at_ms INTEGER NOT NULL,
        last_seen_at_ms INTEGER NOT NULL,
        last_boottime_ms INTEGER NOT NULL,
        active INTEGER NOT NULL CHECK (active IN (0, 1)),
        generation INTEGER NOT NULL,
        ended_at_ms INTEGER,
        end_reason TEXT,
        FOREIGN KEY (boot_id) REFERENCES boot_sessions(boot_id)
    );
    CREATE TABLE events (
        id INTEGER PRIMARY KEY AUTOINCREMENT,
        fingerprint TEXT NOT NULL UNIQUE,
        kind TEXT NOT NULL,
        detected_at_ms INTEGER NOT NULL,
        previous_boot_id TEXT,
        current_boot_id TEXT NOT NULL,
        window_start_ms INTEGER,
        window_end_ms INTEGER,
        graceful INTEGER CHECK (graceful IS NULL OR graceful IN (0, 1)),
        details TEXT
    );";

fn connect() -> Connection {
    let connection = Connection::open_in_memory().unwrap();
    connection.execute_batch("PRAGMA foreign_keys = ON;").unwrap();
    connection.execute_batch(SCHEMA).unwrap();
    connection
}

fn carry_out(connection: &Connection, changes: &Changes) {
    for event in &changes.events {
        connection
            .execute(
                "INSERT INTO events (
                     fingerprint, kind, detected_at_ms, previous_boot_id, current_boot_id,
                     window_start_ms, window_end_ms, graceful, details
                 ) VALUES (?1, ?2, ?3, ?4, ?5, ?6, ?7, ?8, ?9)
                 ON CONFLICT(fingerprint) DO NOTHING",
                (
                    &event.fingerprint,
                    event.kind.as_str(),
                    event.detected_at_ms,
                    &event.previous_boot_id,
                    &event.current_boot_id,
                    event.window_start_ms,
                    event.window_end_ms,
                    event.graceful.map(i64::from),
                    &event.details,
                ),
            )
            .unwrap();
    }
    let state = &changes.state;
    match &changes.session {
        SessionChange::Open {
            boot_id,
            boot_started_at_ms,
            seen_at_ms,
            boottime_ms,
            generation,
        } => {
            connection
                .execute(
                    "INSERT INTO boot_sessions (
                         boot_id, boot_started_at_ms, first_seen_at_ms, last_seen_at_ms,
                         last_boottime_ms, monitor_generations, ended_at_ms, end_reason
                     ) VALUES (?1, ?2, ?3, ?3, ?4, ?5, NULL, NULL)
                     ON CONFLICT(boot_id) DO UPDATE SET
                         boot_started_at_ms = excluded.boot_started_at_ms,
                         last_seen_at_ms = excluded.last_seen_at_ms,
                         last_boottime_ms = excluded.last_boottime_ms,
                         monitor_generations = excluded.monitor_generations,
                         ended_at_ms = NULL,
                         end_reason = NULL",
                    (boot_id, boot_started_at_ms, seen_at_ms, boottime_ms, generation),
                )
                .unwrap();
            start_state(connection, state);
        }
        SessionChange::Resume {
            boot_id,
            seen_at_ms,
            boottime_ms,
            generation,
        } => {
            connection
                .execute(
                    "UPDATE boot_sessions
                     SET last_seen_at_ms = ?2, last_boottime_ms = ?3, monitor_generations = ?4,
                         ended_at_ms = NULL, end_reason = NULL
                     WHERE boot_id = ?1",
                    (boot_id, seen_at_ms, boottime_ms, generation),
                )
                .unwrap();
            start_state(connection, state);
        }
        SessionChange::Touch {
            boot_id,
            seen_at_ms,
            boottime_ms,
        } => {
            connection
                .execute(
                    "UPDATE boot_sessions SET last_seen_at_ms = ?2, last_boottime_ms = ?3 WHERE boot_id = ?1",
                    (boot_id, seen_at_ms, boottime_ms),
                )
                .unwrap();
            connection
                .execute(
                    "UPDATE current_state
                     SET last_seen_at_ms = ?2, last_boottime_ms = ?3, active = 1,
                         ended_at_ms = NULL, end_reason = NULL
                     WHERE singleton_id = 1 AND boot_id = ?1",
                    (boot_id, seen_at_ms, boottime_ms),
                )
                .unwrap();
        }
        SessionChange::Close {
            boot_id,
            seen_at_ms,
            boottime_ms,
            reason,
        } => {
            connection
                .execute(
                    "UPDATE boot_sessions
                     SET last_seen_at_ms = ?2, last_boottime_ms = ?3, ended_at_ms = ?2, end_reason = ?4
                     WHERE boot_id = ?1",
                    (boot_id, seen_at_ms, boottime_ms, reason),
                )
                .unwrap();
            connection
                .execute(
                    "UPDATE current_state
                     SET last_seen_at_ms = ?2, last_boottime_ms = ?3, active = 0,
                         ended_at_ms = ?2, end_reason = ?4
                     WHERE singleton_id = 1 AND boot_id = ?1",
                    (boot_id, seen_at_ms, boottime_ms, reason),
                )
                .unwrap();
        }
    }
}

fn start_state(connection: &Connection, state: &StateRow) {
    connection
        .execute(
            "INSERT INTO current_state (
                 singleton_id, boot_id, boot_started_at_ms, first_seen_at_ms,
                 last_seen_at_ms, last_boottime_ms, active, generation,
                 ended_at_ms, end_reason
             ) VALUES (1, ?1, ?2, ?3, ?4, ?5, 1, ?6, NULL, NULL)
             ON CONFLICT(singleton_id) DO UPDATE SET
                 boot_id = excluded.boot_id,
                 boot_started_at_ms = excluded.boot_started_at_ms,
                 first_seen_at_ms = excluded.first_seen_at_ms,
                 last_seen_at_ms = excluded.last_seen_at_ms,
                 last_boottime_ms = excluded.last_boottime_ms,
                 active = 1,
                 generation = excluded.generation,
                 ended_at_ms = NULL,
                 end_reason = NULL",
            (
                &state.boot_id,
                state.boot_started_at_ms,
                state.first_seen_at_ms,
                state.last_seen_at_ms,
                state.last_boottime_ms,
                state.generation,
            ),
        )
        .unwrap();
}

fn query(connection: &Connection, sql: &str) -> Vec<Vec<Value>> {
    let mut statement = connection.prepare(sql).unwrap();
    let columns = statement.column_count();
    let rows = statement
        .query_map([], |row| {
            let mut values: Vec<Value> = Vec::new();
            for column in 0..columns {
                values.push(row.get(column)?);
            }
            Ok(values)
        })
        .unwrap();
    rows.map(|row| row.unwrap()).collect()
}

fn integer(value: Option<i64>) -> Value {
    match value {
        Some(value) => Value::Integer(value),
        None => Value::Null,
    }
}

fn text(value: &Option<String>) -> Value {
    match value {
        Some(value) => Value::Text(value.clone()),
        None => Value::Null,
    }
}

fn compare(connection: &Connection, storage: &Storage) {
    let tables = storage.tables();
    let sessions: Vec<Vec<Value>> = tables
        .sessions
        .iter()
        .map(|session| {
            vec![
                Value::Text(session.boot_id.clone()),
                Value::Integer(session.boot_started_at_ms),
                Value::Integer(session.first_seen_at_ms),
                Value::Integer(session.last_seen_at_ms),
                Value::Integer(session.last_boottime_ms),
                Value::Integer(session.monitor_generations),
                integer(session.ended_at_ms),
                text(&session.end_reason),
            ]
        })
        .collect();
    assert_eq!(
        query(connection, "SELECT * FROM boot_sessions ORDER BY rowid"),
        sessions
    );
    let states: Vec<Vec<Value>> = tables
        .state
        .iter()
        .map(|state| {
            vec![
                Value::Integer(1),
                Value::Text(state.boot_id.clone()),
                Value::Integer(state.boot_started_at_ms),
                Value::Integer(state.first_seen_at_ms),
                Value::Integer(state.last_seen_at_ms),
                Value::Integer(state.last_boottime_ms),
                Value::Integer(i64::from(state.active)),
                Value::Integer(state.generation),
                integer(state.ended_at_ms),
                text(&state.end_reason),
            ]
        })
        .collect();
    assert_eq!(query(connection, "SELECT * FROM current_state"), states);
    let events: Vec<Vec<Value>> = tables
        .events
        .iter()
        .map(|event| {
            vec![
                Value::Integer(event.record.id),
                Value::Text(event.fingerprint.clone()),
                Value::Text(event.record.kind.clone()),
                Value::Integer(event.record.detected_at_ms),
                text(&event.record.previous_boot_id),
                Value::Text(event.record.current_boot_id.clone()),
                integer(event.record.window_start_ms),
                integer(event.record.window_end_ms),
                integer(event.record.graceful.map(i64::from)),
                text(&event.record.details),
            ]
        })
        .collect();
    assert_eq!(query(connection, "SELECT * FROM events ORDER BY id"), events);
    let last: Option<i64> = connection
        .query_row("SELECT seq FROM sqlite_sequence WHERE name = 'events'", [], |row| row.get(0))
        .optional()
        .unwrap();
    assert_eq!(last.unwrap_or(0), tables.last_event_id);
}

fn compare_listings(connection: &Connection, storage: &Storage) {
    for limit in [0usize, 1, 3, 100] {
        let all: Vec<Vec<Value>> = storage
            .history(limit, None).unwrap()
            .iter()
            .map(|event| vec![Value::Integer(event.id)])
            .collect();
        let sql = format!("SELECT id FROM events ORDER BY detected_at_ms DESC, id DESC LIMIT {limit}");
        assert_eq!(query(connection, &sql), all);
        for kind in ["boot_changed", "monitor_restarted", "heartbeat_gap", "clock_anomaly"] {
            let some: Vec<Vec<Value>> = storage
                .history(limit, Some(kind)).unwrap()
                .iter()
                .map(|event| vec![Value::Integer(event.id)])
                .collect();
            let sql = format!(
                "SELECT id FROM events WHERE kind = '{kind}' ORDER BY detected_at_ms DESC, id DESC LIMIT {limit}"
            );
            assert_eq!(query(connection, &sql), some);
        }
    }
    if let Some(status) = storage.status().unwrap() {
        assert_eq!(
            query(connection, "SELECT COUNT(*) FROM events WHERE kind = 'boot_changed'"),
            vec![vec![Value::Integer(status.boot_change_count)]]
        );
        assert_eq!(
            query(connection, "SELECT COUNT(*) FROM events"),
            vec![vec![Value::Integer(status.total_event_count)]]
        );
    }
}

#[test]
fn the_tables_do_what_sqlite_does() {
    let connection = connect();
    let mut storage = Storage::open_or_create(0, None).unwrap();
    let boots = ["boot-a", "boot-b", "boot-c"];
    let mut seed: i64 = 12_345;
    let mut next = |bound: i64| {
        seed = (seed * 1_103_515_245 + 12_345) % 2_147_483_648;
        (seed / 65_536) % bound
    };
    for _ in 0..400 {
        let boot = boots[next(3) as usize];
        let sample = SystemSample::new(boot, next(200_000), next(60_000));
        let previous = storage.tables().state.clone();
        match next(4) {
            0 => {
                let (_, changes) = plan_startup(previous.as_ref(), &sample);
                carry_out(&connection, &changes);
                storage.begin_monitoring(&sample).unwrap();
            }
            1 => {
                let planned = plan_stop(previous.as_ref(), &sample, "signal");
                let stopped = storage.mark_stopped(&sample, "signal");
                assert_eq!(planned.is_ok(), stopped.is_ok());
                if let Ok(changes) = planned {
                    carry_out(&connection, &changes);
                }
            }
            _ => {
                let planned = plan_heartbeat(previous.as_ref(), &sample, 1_000, 3);
                let emitted = storage.heartbeat(&sample, 1_000, 3);
                match planned {
                    Ok((kinds, changes)) => {
                        carry_out(&connection, &changes);
                        assert_eq!(emitted, Ok(kinds));
                    }
                    Err(error) => assert_eq!(emitted, Err(error)),
                }
            }
        }
        compare(&connection, &storage);
    }
    compare_listings(&connection, &storage);
    assert!(storage.tables().events.len() > 20);
    assert!(storage.tables().last_event_id > storage.tables().events.len() as i64);
}

#[test]
fn sqlite_runs_out_of_numbers_where_the_tables_do() {
    let connection = connect();
    let mut storage = Storage::open_or_create(0, None).unwrap();
    storage.begin_monitoring(&SystemSample::new("boot-a", 1, 1)).unwrap();
    storage.begin_monitoring(&SystemSample::new("boot-b", 2, 1)).unwrap();
    let insert = "INSERT INTO events (fingerprint, kind, detected_at_ms, current_boot_id)
                  VALUES ('boot:boot-a:boot-b', 'boot_changed', 2, 'boot-b')
                  ON CONFLICT(fingerprint) DO NOTHING";
    connection.execute(insert, []).unwrap();
    connection
        .execute("UPDATE sqlite_sequence SET seq = 9223372036854775807", [])
        .unwrap();
    let mut tables = storage.tables().clone();
    tables.last_event_id = i64::MAX;
    // The event is in the log already, and still no number is left for it.
    let error = connection.execute(insert, []).unwrap_err();
    let mut full = Storage::open_or_create(1, Some(tables)).unwrap();
    full.begin_monitoring(&SystemSample::new("boot-b", 3, 2)).unwrap_err();
    let refused = full.begin_monitoring(&SystemSample::new("boot-c", 3, 2)).unwrap_err();
    assert_eq!(error.to_string(), refused.message());
}

#[test]
fn sqlite_refuses_to_write_where_the_storage_does() {
    let connection = connect();
    connection.execute_batch("PRAGMA query_only = ON;").unwrap();
    let error = connection
        .execute("UPDATE boot_sessions SET last_seen_at_ms = 1 WHERE boot_id = 'boot-a'", [])
        .unwrap_err();
    let mut reader = Storage::open_read_only(1, Some(Tables::empty())).unwrap();
    let refused = reader.begin_monitoring(&SystemSample::new("boot-a", 1, 1)).unwrap_err();
    assert_eq!(error.to_string(), refused.message());
}

#[test]
fn sqlite_does_not_create_tables_twice() {
    let connection = connect();
    let error = connection.execute_batch(SCHEMA).unwrap_err();
    let refused = Storage::open_or_create(0, Some(Tables::empty())).unwrap_err();
    assert!(error.to_string().contains(&refused.message()));
}

#[test]
fn sqlite_misses_tables_where_the_storage_does() {
    let connection = Connection::open_in_memory().unwrap();
    let bare = Storage::open_read_only(1, None).unwrap();
    let state = connection.prepare("SELECT boot_id FROM current_state").unwrap_err();
    assert!(state.to_string().contains(&bare.status().unwrap_err().message()));
    let events = connection.prepare("SELECT id FROM events").unwrap_err();
    assert!(events
        .to_string()
        .contains(&bare.history(5, None).unwrap_err().message()));
}
