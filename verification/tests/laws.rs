use bootwitness::model::{EventKind, EventRecord, SystemSample};
use bootwitness::monitor::is_healthy_within;
use bootwitness::storage::plan::{plan_heartbeat, plan_startup, plan_stop};
use bootwitness::storage::rows::{insert_event, NewEvent, SessionChange, StateRow, StoredEvent, Tables};
use bootwitness::storage::{migrate, Migration, StartupDisposition, Storage, StorageError};

fn new_storage() -> Storage {
    Storage::open_or_create(0, None).unwrap()
}

fn sample(boot_id: &str, observed_at_ms: i64, boottime_ms: i64) -> SystemSample {
    SystemSample::new(boot_id, observed_at_ms, boottime_ms)
}

fn ids(events: &[EventRecord]) -> Vec<i64> {
    events.iter().map(|event| event.id).collect()
}

fn fingerprints(storage: &Storage) -> Vec<String> {
    storage
        .tables()
        .events
        .iter()
        .map(|event| event.fingerprint.clone())
        .collect()
}

fn state(boot_id: &str) -> StateRow {
    StateRow {
        boot_id: boot_id.to_owned(),
        boot_started_at_ms: 0,
        first_seen_at_ms: 1_000,
        last_seen_at_ms: 100_000,
        last_boottime_ms: 50_000,
        active: true,
        generation: 4,
        ended_at_ms: None,
        end_reason: None,
    }
}

#[test]
fn schema_versions_decide_how_a_database_is_opened() {
    assert_eq!(migrate(0), Ok(Migration::CreateTables));
    assert_eq!(migrate(1), Ok(Migration::UpToDate));
    let newer = Storage::open_or_create(2, Some(Tables::empty())).unwrap_err();
    assert_eq!(newer, StorageError::NewerSchema { version: 2 });
    assert_eq!(
        newer.message(),
        "database schema version 2 is newer than supported version 1"
    );
    let unsupported = Storage::open_read_only(0, Some(Tables::empty())).unwrap_err();
    assert_eq!(unsupported, StorageError::UnsupportedSchema { version: 0 });
    assert_eq!(
        unsupported.message(),
        "unsupported database schema version 0; expected 1"
    );
}

#[test]
fn a_log_out_of_order_is_refused() {
    let mut storage = new_storage();
    storage.begin_monitoring(&sample("boot-a", 1, 1)).unwrap();
    storage.begin_monitoring(&sample("boot-a", 2, 2)).unwrap();
    storage.begin_monitoring(&sample("boot-a", 3, 3)).unwrap();
    let mut tables = storage.tables().clone();
    tables.events.reverse();
    let error = Storage::open_read_only(1, Some(tables.clone())).unwrap_err();
    assert_eq!(error, StorageError::UnorderedLog);
    assert_eq!(error.message(), "the event log is not in order");
    assert_eq!(
        Storage::open_or_create(1, Some(tables)).unwrap_err(),
        StorageError::UnorderedLog
    );
}

#[test]
fn rows_of_an_older_run_are_taken_over() {
    let mut storage = new_storage();
    storage.begin_monitoring(&sample("boot-a", 1, 1)).unwrap();
    let mut reopened = Storage::open_or_create(1, Some(storage.tables().clone())).unwrap();
    let outcome = reopened.begin_monitoring(&sample("boot-a", 2, 2)).unwrap();
    assert_eq!(outcome.generation, 2);
}

#[test]
fn tables_are_not_created_over_rows() {
    let mut storage = new_storage();
    storage.begin_monitoring(&sample("boot-a", 1, 1)).unwrap();
    let error = Storage::open_or_create(0, Some(storage.tables().clone())).unwrap_err();
    assert_eq!(error, StorageError::TablesExist);
    assert_eq!(error.message(), "table boot_sessions already exists");
    assert_eq!(
        Storage::open_or_create(0, Some(Tables::empty())).unwrap_err(),
        StorageError::TablesExist
    );
}

#[test]
fn a_database_without_its_tables_refuses_every_operation() {
    let missing = |table: &str| StorageError::MissingTable {
        table: table.to_owned(),
    };
    let seen = sample("boot-a", 1, 1);
    let mut bare = Storage::open_or_create(1, None).unwrap();
    assert_eq!(bare.begin_monitoring(&seen), Err(missing("current_state")));
    assert_eq!(bare.heartbeat(&seen, 1_000, 3), Err(missing("current_state")));
    assert_eq!(bare.mark_stopped(&seen, "signal"), Err(missing("current_state")));
    assert_eq!(bare.status().unwrap_err(), missing("current_state"));
    assert_eq!(bare.history(5, None).unwrap_err(), missing("events"));
    assert_eq!(missing("events").message(), "no such table: events");
    let mut reader = Storage::open_read_only(1, None).unwrap();
    assert_eq!(reader.begin_monitoring(&seen), Err(missing("current_state")));
}

#[test]
fn a_storage_opened_for_reading_refuses_to_write() {
    let mut empty = Storage::open_read_only(1, Some(Tables::empty())).unwrap();
    let error = empty.begin_monitoring(&sample("boot-a", 1, 1)).unwrap_err();
    assert_eq!(error, StorageError::ReadOnly);
    assert_eq!(error.message(), "attempt to write a readonly database");
    assert!(empty.status().unwrap().is_none());
    assert!(empty.tables().sessions.is_empty());
    assert_eq!(
        empty.heartbeat(&sample("boot-a", 1, 1), 1_000, 3),
        Err(StorageError::NoBaseline)
    );

    let mut writer = new_storage();
    writer.begin_monitoring(&sample("boot-a", 100, 10)).unwrap();
    let mut reader = Storage::open_read_only(1, Some(writer.tables().clone())).unwrap();
    assert_eq!(
        reader.begin_monitoring(&sample("boot-b", 200, 10)),
        Err(StorageError::ReadOnly)
    );
    assert_eq!(
        reader.heartbeat(&sample("boot-a", 200, 110), 1_000, 3),
        Err(StorageError::ReadOnly)
    );
    assert_eq!(
        reader.mark_stopped(&sample("boot-a", 200, 110), "signal"),
        Err(StorageError::ReadOnly)
    );
    assert_eq!(
        reader.mark_stopped(&sample("boot-b", 200, 110), "signal"),
        Err(StorageError::DifferentBoot)
    );
    let status = reader.status().unwrap().unwrap();
    assert_eq!(status.boot_id, "boot-a");
    assert_eq!(status.last_heartbeat_at_ms, 100);
    assert!(status.monitor_active);
    assert_eq!(status.total_event_count, 0);
}

#[test]
fn heartbeats_and_stops_need_a_baseline() {
    let mut storage = new_storage();
    let error = storage
        .heartbeat(&sample("boot-a", 1, 1), 1_000, 3)
        .unwrap_err();
    assert_eq!(error, StorageError::NoBaseline);
    assert_eq!(
        error.message(),
        "database has no monitoring baseline; start the daemon first"
    );
    assert_eq!(
        storage.mark_stopped(&sample("boot-a", 1, 1), "signal"),
        Err(StorageError::NoBaseline)
    );
    assert!(storage.status().unwrap().is_none());
}

#[test]
fn refused_operations_change_nothing() {
    let mut storage = new_storage();
    storage
        .begin_monitoring(&sample("boot-a", 100_000, 10_000))
        .unwrap();
    let changed = storage
        .heartbeat(&sample("boot-b", 900_000, 900_000), 1_000, 3)
        .unwrap_err();
    assert_eq!(
        changed.message(),
        "boot ID changed while the daemon was running (boot-a -> boot-b); systemd should restart the daemon"
    );
    let refused = storage
        .mark_stopped(&sample("boot-b", 900_000, 900_000), "signal")
        .unwrap_err();
    assert_eq!(
        refused.message(),
        "refusing to mark a different boot as gracefully stopped"
    );
    let status = storage.status().unwrap().unwrap();
    assert_eq!(status.last_heartbeat_at_ms, 100_000);
    assert!(status.monitor_active);
    assert_eq!(status.total_event_count, 0);
}

#[test]
fn a_full_log_refuses_whole_transactions() {
    let mut tables = Tables::empty();
    tables.state = Some(state("boot-a"));
    tables.last_event_id = i64::MAX - 1;
    let mut storage = Storage::open_or_create(1, Some(tables)).unwrap();
    // Two events are needed, and one number is left.
    let error = storage
        .begin_monitoring(&sample("boot-b", 90_000, 50_000))
        .unwrap_err();
    assert_eq!(error, StorageError::LogFull);
    assert_eq!(error.message(), "database or disk is full");
    assert_eq!(storage.tables().events.len(), 0);
    assert_eq!(storage.tables().last_event_id, i64::MAX - 1);
    assert_eq!(storage.status().unwrap().unwrap().boot_id, "boot-a");
    storage
        .begin_monitoring(&sample("boot-a", 101_000, 51_000))
        .unwrap();
    assert_eq!(ids(&storage.history(5, None).unwrap()), vec![i64::MAX]);
    assert_eq!(
        storage.heartbeat(&sample("boot-a", 0, 0), 1_000, 3),
        Err(StorageError::LogFull)
    );
    storage
        .mark_stopped(&sample("boot-a", 102_000, 52_000), "signal")
        .unwrap();
}

#[test]
fn a_changed_boot_keeps_its_evidence() {
    let mut storage = new_storage();
    storage
        .begin_monitoring(&sample("boot-a", 100_000, 10_000))
        .unwrap();
    storage
        .begin_monitoring(&sample("boot-b", 150_000, 60_000))
        .unwrap();
    let events = storage.history(10, None).unwrap();
    assert_eq!(events.len(), 2);
    assert_eq!(events[0].kind, "clock_anomaly");
    assert_eq!(
        events[0].details.as_deref(),
        Some("wall clock moved backwards across boots")
    );
    assert_eq!(events[0].graceful, None);
    assert_eq!(events[1].kind, "boot_changed");
    assert_eq!(
        events[1].details.as_deref(),
        Some("wall clock overlap: the estimated new boot time is earlier than the previous heartbeat")
    );
    assert_eq!(events[1].window_start_ms, Some(100_000));
    assert_eq!(events[1].window_end_ms, Some(90_000));
    assert_eq!(events[1].detected_at_ms, 150_000);
    assert_eq!(
        fingerprints(&storage),
        vec!["boot:boot-a:boot-b", "clock:boot:boot-a:boot-b"]
    );
}

#[test]
fn a_boot_that_begins_with_the_last_heartbeat_is_no_overlap() {
    let mut storage = new_storage();
    storage
        .begin_monitoring(&sample("boot-a", 100_000, 10_000))
        .unwrap();
    storage
        .begin_monitoring(&sample("boot-b", 150_000, 50_000))
        .unwrap();
    let events = storage.history(10, None).unwrap();
    assert_eq!(events.len(), 1);
    assert_eq!(events[0].details, None);
}

#[test]
fn a_change_that_is_known_is_not_logged_again_but_spends_a_number() {
    let mut storage = new_storage();
    storage.begin_monitoring(&sample("boot-a", 1_000, 10)).unwrap();
    storage.begin_monitoring(&sample("boot-b", 2_000, 10)).unwrap();
    storage.begin_monitoring(&sample("boot-a", 3_000, 10)).unwrap();
    let again = storage.begin_monitoring(&sample("boot-b", 4_000, 10)).unwrap();
    assert_eq!(
        again.disposition,
        StartupDisposition::BootChanged { graceful: false }
    );
    assert_eq!(
        fingerprints(&storage),
        vec!["boot:boot-a:boot-b", "boot:boot-b:boot-a"]
    );
    assert_eq!(storage.tables().last_event_id, 3);
    storage.begin_monitoring(&sample("boot-c", 5_000, 10)).unwrap();
    assert_eq!(ids(&storage.history(10, None).unwrap()), vec![4, 2, 1]);
}

#[test]
fn a_reboot_to_a_fresh_kernel_adds_exactly_one_changed_boot() {
    let mut storage = new_storage();
    for (number, boot_id) in ["boot-a", "boot-b", "boot-c", "boot-d"].iter().enumerate() {
        let start = 100_000 * (number as i64 + 1);
        storage.begin_monitoring(&sample(boot_id, start, 10)).unwrap();
        storage
            .heartbeat(&sample(boot_id, start + 1_000, 1_010), 1_000, 3)
            .unwrap();
        let status = storage.status().unwrap().unwrap();
        assert_eq!(status.boot_change_count, number as i64);
        assert_eq!(status.total_event_count, number as i64);
    }
}

#[test]
fn every_restart_adds_exactly_one_restarted_monitor() {
    let mut storage = new_storage();
    storage.begin_monitoring(&sample("boot-a", 1_000, 10)).unwrap();
    for number in 1..5i64 {
        let outcome = storage
            .begin_monitoring(&sample("boot-a", 1_000 + number, 10 + number))
            .unwrap();
        assert_eq!(outcome.generation, number + 1);
        let listed = storage.history(50, Some("monitor_restarted")).unwrap();
        assert_eq!(listed.len() as i64, number);
    }
    let status = storage.status().unwrap().unwrap();
    assert_eq!(status.first_seen_at_ms, 1_000);
    assert_eq!(status.boot_change_count, 0);
    assert_eq!(storage.tables().sessions.len(), 1);
    assert_eq!(storage.tables().sessions[0].monitor_generations, 5);
    assert_eq!(
        fingerprints(&storage),
        vec![
            "monitor:boot-a:2",
            "monitor:boot-a:3",
            "monitor:boot-a:4",
            "monitor:boot-a:5"
        ]
    );
}

#[test]
fn restarts_say_how_the_monitor_ended() {
    let mut storage = new_storage();
    storage.begin_monitoring(&sample("boot-a", 1_000, 10)).unwrap();
    storage.begin_monitoring(&sample("boot-a", 2_000, 20)).unwrap();
    storage.mark_stopped(&sample("boot-a", 3_000, 30), "signal").unwrap();
    storage.begin_monitoring(&sample("boot-a", 4_000, 40)).unwrap();
    let events = storage.history(10, None).unwrap();
    assert_eq!(
        events[0].details.as_deref(),
        Some("monitor restarted after an observed graceful stop")
    );
    assert_eq!(
        events[1].details.as_deref(),
        Some("monitor restarted without an observed graceful stop")
    );
    assert_eq!(events[0].window_start_ms, Some(3_000));
    assert_eq!(events[0].window_end_ms, Some(4_000));
}

#[test]
fn a_gap_is_seen_only_beyond_the_threshold() {
    let previous = state("boot-a");
    let at = |boottime_ms: i64| {
        plan_heartbeat(Some(&previous), &sample("boot-a", 300_000, boottime_ms), 60_000, 3)
            .unwrap()
            .0
    };
    assert_eq!(at(230_000), vec![]);
    assert_eq!(at(230_001), vec![EventKind::HeartbeatGap]);
    let (_, changes) = plan_heartbeat(
        Some(&previous),
        &sample("boot-a", 300_000, 230_001),
        60_000,
        3,
    )
    .unwrap();
    assert_eq!(changes.events[0].fingerprint, "gap:boot-a:4:50000");
    assert_eq!(
        changes.events[0].details.as_deref(),
        Some("CLOCK_BOOTTIME advanced by 180001 ms; threshold was 180000 ms")
    );
    let (saturated, _) = plan_heartbeat(
        Some(&previous),
        &sample("boot-a", 300_000, i64::MAX),
        i64::MAX,
        i64::MAX,
    )
    .unwrap();
    assert_eq!(saturated, vec![]);
}

#[test]
fn any_clock_that_runs_back_is_an_anomaly() {
    let previous = state("boot-a");
    let at = |observed_at_ms: i64, boottime_ms: i64| {
        plan_heartbeat(Some(&previous), &sample("boot-a", observed_at_ms, boottime_ms), 60_000, 3)
            .unwrap()
            .0
    };
    assert_eq!(at(100_000, 50_000), vec![]);
    assert_eq!(at(99_999, 50_000), vec![EventKind::ClockAnomaly]);
    assert_eq!(at(98_999, 50_000), vec![EventKind::ClockAnomaly]);
    assert_eq!(at(100_000, 49_999), vec![EventKind::ClockAnomaly]);
    assert_eq!(
        at(98_999, 230_001),
        vec![EventKind::HeartbeatGap, EventKind::ClockAnomaly]
    );
    let (_, changes) =
        plan_heartbeat(Some(&previous), &sample("boot-a", 0, 50_000), 60_000, 3).unwrap();
    assert_eq!(changes.events[0].fingerprint, "clock:boot-a:4:50000");
    assert_eq!(
        changes.events[0].details.as_deref(),
        Some("wall clock or CLOCK_BOOTTIME moved backwards")
    );
}

#[test]
fn a_wall_clock_half_a_second_behind_is_logged() {
    let mut storage = new_storage();
    storage
        .begin_monitoring(&sample("boot-a", 1_000_000, 100_000))
        .unwrap();
    assert_eq!(
        storage.heartbeat(&sample("boot-a", 999_500, 100_500), 60_000, 3),
        Ok(vec![EventKind::ClockAnomaly])
    );
    assert_eq!(storage.history(50, Some("clock_anomaly")).unwrap().len(), 1);
}

#[test]
fn heartbeats_log_what_they_notice_once() {
    let mut storage = new_storage();
    storage
        .begin_monitoring(&sample("boot-a", 100_000, 10_000))
        .unwrap();
    let late = sample("boot-a", 99_000, 20_000);
    assert_eq!(
        storage.heartbeat(&late, 1_000, 3),
        Ok(vec![EventKind::HeartbeatGap, EventKind::ClockAnomaly])
    );
    assert_eq!(
        fingerprints(&storage),
        vec!["gap:boot-a:1:10000", "clock:boot-a:1:10000"]
    );
    storage
        .heartbeat(&sample("boot-a", 200_000, 10_000), 1_000, 3)
        .unwrap();
    // The boot clock is back where the first gap began, and what is noticed
    // then is in the log already.
    assert_eq!(
        storage.heartbeat(&sample("boot-a", 199_000, 20_000), 1_000, 3),
        Ok(vec![EventKind::HeartbeatGap, EventKind::ClockAnomaly])
    );
    assert_eq!(
        fingerprints(&storage),
        vec![
            "gap:boot-a:1:10000",
            "clock:boot-a:1:10000",
            "clock:boot-a:1:20000"
        ]
    );
}

#[test]
fn a_state_row_is_active_or_has_ended() {
    let mut storage = new_storage();
    let check = |storage: &Storage| {
        let state = storage.tables().state.clone().unwrap();
        assert_eq!(state.active, state.ended_at_ms.is_none());
        assert_eq!(state.active, state.end_reason.is_none());
        assert!(state.generation >= 1);
    };
    storage.begin_monitoring(&sample("boot-a", 1, 1)).unwrap();
    check(&storage);
    storage.mark_stopped(&sample("boot-a", 2, 2), "signal").unwrap();
    check(&storage);
    storage.heartbeat(&sample("boot-a", 3, 3), 1_000, 3).unwrap();
    check(&storage);
    storage.begin_monitoring(&sample("boot-a", 4, 4)).unwrap();
    check(&storage);
}

#[test]
fn steady_heartbeats_log_nothing() {
    let mut storage = new_storage();
    storage.begin_monitoring(&sample("boot-a", 0, 0)).unwrap();
    for beat in 1..10i64 {
        let emitted = storage
            .heartbeat(&sample("boot-a", beat * 60_000, beat * 60_000), 60_000, 3)
            .unwrap();
        assert!(emitted.is_empty());
    }
    let status = storage.status().unwrap().unwrap();
    assert_eq!(status.total_event_count, 0);
    assert_eq!(status.last_heartbeat_at_ms, 540_000);
    assert_eq!(storage.tables().last_event_id, 0);
}

#[test]
fn status_reads_what_was_written() {
    let mut storage = new_storage();
    storage
        .begin_monitoring(&sample("boot-a", 100_000, 10_000))
        .unwrap();
    storage
        .mark_stopped(&sample("boot-a", 125_000, 35_000), "signal")
        .unwrap();
    let stopped = storage.status().unwrap().unwrap();
    assert!(!stopped.monitor_active);
    assert_eq!(stopped.boot_started_at_ms, 90_000);
    assert_eq!(stopped.first_seen_at_ms, 100_000);
    assert_eq!(stopped.last_heartbeat_at_ms, 125_000);
    assert_eq!(stopped.last_boottime_ms, 35_000);
    assert_eq!(stopped.ended_at_ms, Some(125_000));
    assert_eq!(stopped.end_reason.as_deref(), Some("signal"));
    storage
        .heartbeat(&sample("boot-a", 126_000, 36_000), 1_000, 3)
        .unwrap();
    let alive = storage.status().unwrap().unwrap();
    assert!(alive.monitor_active);
    assert_eq!(alive.ended_at_ms, None);
    assert_eq!(alive.end_reason, None);
}

#[test]
fn health_follows_the_storage() {
    let mut storage = new_storage();
    let first = sample("boot-a", 100_000, 10_000);
    storage.begin_monitoring(&first).unwrap();
    assert_eq!(is_healthy_within(&storage.status().unwrap().unwrap(), &first, 0), Ok(()));
    let second = sample("boot-a", 101_000, 11_000);
    storage.heartbeat(&second, 1_000, 3).unwrap();
    assert_eq!(is_healthy_within(&storage.status().unwrap().unwrap(), &second, 0), Ok(()));
    assert!(is_healthy_within(&storage.status().unwrap().unwrap(), &sample("boot-b", 101_000, 0), 0).is_err());
    storage.mark_stopped(&second, "signal").unwrap();
    assert_eq!(
        is_healthy_within(&storage.status().unwrap().unwrap(), &second, 0),
        Err("monitor is marked as inactive".to_owned())
    );
}

#[test]
fn listings_are_newest_first_and_limited() {
    let mut storage = new_storage();
    storage.begin_monitoring(&sample("boot-a", 5_000, 10)).unwrap();
    storage.begin_monitoring(&sample("boot-a", 9_000, 20)).unwrap();
    storage.begin_monitoring(&sample("boot-a", 7_000, 30)).unwrap();
    storage.begin_monitoring(&sample("boot-a", 9_000, 40)).unwrap();
    storage.begin_monitoring(&sample("boot-b", 9_500, 10)).unwrap();
    assert_eq!(ids(&storage.history(50, None).unwrap()), vec![4, 3, 1, 2]);
    assert_eq!(ids(&storage.history(2, None).unwrap()), vec![4, 3]);
    assert_eq!(
        ids(&storage.history(2, Some("monitor_restarted")).unwrap()),
        vec![3, 1]
    );
    assert_eq!(ids(&storage.history(0, None).unwrap()), Vec::<i64>::new());
    assert_eq!(ids(&storage.history(5, Some("nothing")).unwrap()), Vec::<i64>::new());
}

#[test]
fn every_logged_event_is_listed_if_there_is_room() {
    let mut storage = new_storage();
    storage.begin_monitoring(&sample("boot-a", 5_000, 10)).unwrap();
    storage.begin_monitoring(&sample("boot-a", 9_000, 20)).unwrap();
    storage.begin_monitoring(&sample("boot-b", 4_000, 30)).unwrap();
    let listed = ids(&storage.history(3, None).unwrap());
    for event in &storage.tables().events {
        assert!(listed.contains(&event.record.id));
    }
    let changed = storage.history(1, Some("boot_changed")).unwrap();
    assert_eq!(changed.len(), 1);
    assert_eq!(changed[0].current_boot_id, "boot-b");
}

#[test]
fn listings_agree_with_each_other_and_with_the_status() {
    let mut storage = new_storage();
    storage.begin_monitoring(&sample("boot-a", 5_000, 10)).unwrap();
    storage.begin_monitoring(&sample("boot-a", 9_000, 20)).unwrap();
    storage.begin_monitoring(&sample("boot-b", 8_000, 30)).unwrap();
    storage.heartbeat(&sample("boot-b", 7_000, 40), 1_000, 3).unwrap();
    storage.begin_monitoring(&sample("boot-c", 9_000, 10)).unwrap();
    let every = storage.history(100, None).unwrap();
    for limit in 0..every.len() {
        let shorter = ids(&storage.history(limit, None).unwrap());
        assert_eq!(shorter[..], ids(&every)[..limit]);
    }
    for kind in ["boot_changed", "monitor_restarted", "heartbeat_gap", "clock_anomaly"] {
        let filtered: Vec<i64> = every
            .iter()
            .filter(|event| event.kind == kind)
            .map(|event| event.id)
            .collect();
        assert_eq!(ids(&storage.history(100, Some(kind)).unwrap()), filtered);
    }
    let status = storage.status().unwrap().unwrap();
    assert_eq!(every.len() as i64, status.total_event_count);
    assert_eq!(
        storage.history(100, Some("boot_changed")).unwrap().len() as i64,
        status.boot_change_count
    );
}

#[test]
fn an_event_is_logged_once_per_fingerprint() {
    let event = |fingerprint: &str, detected_at_ms: i64| NewEvent {
        fingerprint: fingerprint.to_owned(),
        kind: EventKind::HeartbeatGap,
        detected_at_ms,
        previous_boot_id: Some("p".to_owned()),
        current_boot_id: "c".to_owned(),
        window_start_ms: Some(1),
        window_end_ms: None,
        graceful: Some(true),
        details: Some("d".to_owned()),
    };
    let mut events: Vec<StoredEvent> = Vec::new();
    assert_eq!(insert_event(&mut events, 0, &event("x", 10)), Some(1));
    assert_eq!(insert_event(&mut events, 1, &event("x", 20)), Some(2));
    assert_eq!(insert_event(&mut events, 2, &event("y", 30)), Some(3));
    assert_eq!(insert_event(&mut events, i64::MAX, &event("z", 40)), None);
    assert_eq!(events.len(), 2);
    assert_eq!(events[0].fingerprint, "x");
    assert_eq!(events[0].record.id, 1);
    assert_eq!(events[0].record.kind, "heartbeat_gap");
    assert_eq!(events[0].record.detected_at_ms, 10);
    assert_eq!(events[0].record.previous_boot_id.as_deref(), Some("p"));
    assert_eq!(events[0].record.current_boot_id, "c");
    assert_eq!(events[0].record.window_start_ms, Some(1));
    assert_eq!(events[0].record.window_end_ms, None);
    assert_eq!(events[0].record.graceful, Some(true));
    assert_eq!(events[0].record.details.as_deref(), Some("d"));
    assert_eq!(events[1].record.id, 3);
}

#[test]
fn the_log_only_grows() {
    let mut storage = new_storage();
    let mut before: Vec<String> = Vec::new();
    let steps = vec![
        sample("boot-a", 1_000, 10),
        sample("boot-a", 2_000, 20),
        sample("boot-b", 3_000, 10),
        sample("boot-a", 4_000, 10),
        sample("boot-b", 5_000, 10),
        sample("boot-b", 500, 5),
    ];
    for step in steps {
        storage.begin_monitoring(&step).unwrap();
        storage.heartbeat(&step, 1, 2).unwrap();
        let after = fingerprints(&storage);
        assert_eq!(after[..before.len()], before[..]);
        before = after;
    }
}

#[test]
fn plans_change_one_session_and_the_state() {
    let (outcome, changes) = plan_startup(None, &sample("boot-a", 100, 10));
    assert_eq!(outcome.disposition, StartupDisposition::Baseline);
    assert!(changes.events.is_empty());
    assert!(matches!(
        changes.session,
        SessionChange::Open {
            generation: 1,
            seen_at_ms: 100,
            ..
        }
    ));
    assert_eq!(changes.state.boot_started_at_ms, 90);

    let previous = state("boot-a");
    let (outcome, changes) = plan_startup(Some(&previous), &sample("boot-a", 200, 20));
    assert_eq!(outcome.generation, 5);
    assert!(matches!(
        changes.session,
        SessionChange::Resume { generation: 5, .. }
    ));
    assert_eq!(changes.state.first_seen_at_ms, 1_000);

    let stop = plan_stop(Some(&previous), &sample("boot-a", 200, 20), "why").unwrap();
    assert!(stop.events.is_empty());
    assert!(matches!(stop.session, SessionChange::Close { .. }));
    assert_eq!(stop.state.end_reason.as_deref(), Some("why"));
    assert_eq!(stop.state.ended_at_ms, Some(200));
    assert!(!stop.state.active);
}

#[test]
fn generations_stop_counting_at_the_largest_number() {
    let mut previous = state("boot-a");
    previous.generation = i64::MAX;
    let (outcome, changes) = plan_startup(Some(&previous), &sample("boot-a", 200, 20));
    assert_eq!(outcome.generation, i64::MAX);
    assert_eq!(
        changes.events[0].fingerprint,
        "monitor:boot-a:9223372036854775807"
    );
}

#[test]
fn events_after_a_gap_in_the_numbers_go_on_from_the_last_one() {
    let mut tables = Tables::empty();
    tables.state = Some(state("boot-a"));
    tables.last_event_id = 3;
    tables.events.push(StoredEvent {
        fingerprint: "boot:x:y".to_owned(),
        record: EventRecord {
            id: 9,
            kind: "boot_changed".to_owned(),
            detected_at_ms: 1,
            previous_boot_id: None,
            current_boot_id: "y".to_owned(),
            window_start_ms: None,
            window_end_ms: None,
            graceful: None,
            details: None,
        },
    });
    let mut storage = Storage::open_or_create(1, Some(tables)).unwrap();
    storage.begin_monitoring(&sample("boot-a", 200, 20)).unwrap();
    assert_eq!(ids(&storage.history(5, None).unwrap()), vec![10, 9]);
    assert_eq!(storage.tables().last_event_id, 10);
}
