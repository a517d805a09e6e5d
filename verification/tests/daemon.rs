use std::path::PathBuf;
use std::time::Duration;

use bootwitness::daemon::{Action, Daemon, DaemonEvent, Phase};
use bootwitness::model::{EventKind, SystemSample};
use bootwitness::monitor::{stop_reason, ConfigError, DaemonConfig, HeartbeatLimits};
use bootwitness::storage::{StartupDisposition, StartupOutcome, Storage};

const SECOND: u64 = 1_000_000_000;

fn daemon() -> Daemon {
    Daemon::every(1_000_000_000, 3).unwrap()
}

fn seen(observed_at_ms: i64) -> SystemSample {
    SystemSample::new("boot-a", observed_at_ms, observed_at_ms)
}

fn began() -> DaemonEvent {
    DaemonEvent::Began {
        sample: seen(1_000),
        outcome: StartupOutcome {
            disposition: StartupDisposition::Baseline,
            generation: 1,
        },
    }
}

fn woken(stopping: bool, now_nanos: u64) -> DaemonEvent {
    DaemonEvent::Woken {
        stopping,
        now_nanos,
    }
}

fn beaten() -> DaemonEvent {
    DaemonEvent::Beaten {
        sample: seen(2_000),
        emitted: vec![EventKind::HeartbeatGap],
    }
}

fn recorded() -> DaemonEvent {
    DaemonEvent::StopRecorded {
        sample: seen(3_000),
    }
}

fn messages(daemon: &mut Daemon, event: DaemonEvent) -> (Action, Vec<String>) {
    let (action, reports) = daemon.handle(&event);
    let lines = reports
        .iter()
        .map(|report| format!("{} {}", report.level, report.message))
        .collect();
    (action, lines)
}

fn actions(events: Vec<DaemonEvent>) -> (Vec<Action>, Phase) {
    let mut daemon = daemon();
    let mut actions: Vec<Action> = Vec::new();
    for event in &events {
        actions.push(daemon.handle(event).0);
    }
    (actions, daemon.phase())
}

#[test]
fn a_daemon_runs_from_its_start_to_a_signal() {
    let limits = HeartbeatLimits {
        interval_ms: 1_000,
        gap_factor: 3,
    };
    let mut daemon = daemon();
    assert_eq!(daemon.phase(), Phase::NotBegun);
    assert_eq!(
        messages(&mut daemon, began()),
        (
            Action::Poll,
            vec!["info monitoring baseline created boot_id=boot-a generation=1".to_owned()]
        )
    );
    assert_eq!(
        messages(&mut daemon, woken(false, 7 * SECOND)),
        (Action::Sleep { nanos: 250_000_000 }, vec![])
    );
    assert_eq!(
        messages(&mut daemon, woken(false, 7 * SECOND + 900_000_000)),
        (Action::Sleep { nanos: 100_000_000 }, vec![])
    );
    assert_eq!(
        messages(&mut daemon, woken(false, 8 * SECOND)),
        (Action::Heartbeat { limits }, vec![])
    );
    assert_eq!(
        messages(&mut daemon, beaten()),
        (
            Action::Poll,
            vec!["warn heartbeat_gap detected boot_id=boot-a".to_owned()]
        )
    );
    assert_eq!(
        messages(&mut daemon, woken(false, 9 * SECOND)),
        (Action::Sleep { nanos: 250_000_000 }, vec![])
    );
    assert_eq!(
        messages(&mut daemon, woken(true, 20 * SECOND)),
        (Action::RecordStop, vec![])
    );
    assert_eq!(
        messages(&mut daemon, recorded()),
        (
            Action::Exit,
            vec!["info monitor stopped gracefully boot_id=boot-a".to_owned()]
        )
    );
    assert_eq!(daemon.phase(), Phase::Stopped);
}

#[test]
fn a_refused_configuration_makes_no_daemon() {
    let config = |interval: Duration, gap_factor: u64| DaemonConfig {
        database: PathBuf::from("db"),
        interval,
        gap_factor,
    };
    assert_eq!(
        Daemon::new(&config(Duration::from_secs(0), 3)),
        Err(ConfigError::IntervalTooShort)
    );
    assert_eq!(
        Daemon::new(&config(Duration::from_secs(86_401), 3)),
        Err(ConfigError::IntervalTooLong)
    );
    assert_eq!(
        Daemon::every(1_000_000_000, 1),
        Err(ConfigError::GapFactorTooSmall)
    );
    assert_eq!(
        Daemon::new(&config(Duration::from_secs(1), 3)),
        Daemon::every(1_000_000_000, 3)
    );
}

#[test]
fn a_stop_is_recorded_once_and_last() {
    let (taken, phase) = actions(vec![
        began(),
        woken(true, 0),
        recorded(),
        woken(true, SECOND),
        recorded(),
        beaten(),
    ]);
    assert_eq!(
        taken,
        vec![
            Action::Poll,
            Action::RecordStop,
            Action::Exit,
            Action::Exit,
            Action::Exit,
            Action::Exit
        ]
    );
    assert_eq!(phase, Phase::Stopped);
}

#[test]
fn a_failure_records_no_stop() {
    let (taken, phase) = actions(vec![
        began(),
        woken(false, 0),
        DaemonEvent::Failed,
        woken(true, SECOND),
        recorded(),
    ]);
    assert_eq!(taken[2..], [Action::Exit, Action::Exit, Action::Exit]);
    assert_eq!(phase, Phase::Failed);
    let (taken, phase) = actions(vec![began(), woken(true, 0), DaemonEvent::Failed, recorded()]);
    assert_eq!(taken[2..], [Action::Exit, Action::Exit]);
    assert_eq!(phase, Phase::Failed);
}

#[test]
fn nothing_is_done_before_the_start_and_no_start_is_made_twice() {
    let (taken, phase) = actions(vec![woken(true, 0), began(), recorded()]);
    assert_eq!(taken, vec![Action::Exit, Action::Exit, Action::Exit]);
    assert_eq!(phase, Phase::Failed);
    let (taken, phase) = actions(vec![began(), began()]);
    assert_eq!(taken, vec![Action::Poll, Action::Exit]);
    assert_eq!(phase, Phase::Failed);
}

#[test]
fn only_a_daemon_that_stopped_leaves_a_graceful_end() {
    for signalled in [true, false] {
        let mut storage = Storage::open_or_create(0, None).unwrap();
        let mut daemon = daemon();
        let mut action = Action::Begin;
        let mut turns: i64 = 0;
        while action != Action::Exit && turns < 20 {
            turns += 1;
            let sample = seen(1_000 * turns);
            let event = match action {
                Action::Begin => {
                    let outcome = storage.begin_monitoring(&sample).unwrap();
                    DaemonEvent::Began { sample, outcome }
                }
                Action::Heartbeat { limits } => {
                    let emitted = storage
                        .heartbeat(&sample, limits.interval_ms, limits.gap_factor)
                        .unwrap();
                    DaemonEvent::Beaten { sample, emitted }
                }
                Action::RecordStop => {
                    storage.mark_stopped(&sample, stop_reason()).unwrap();
                    DaemonEvent::StopRecorded { sample }
                }
                _ => woken(signalled && turns > 9, SECOND * turns as u64),
            };
            action = daemon.handle(&event).0;
        }
        assert_eq!(daemon.phase() == Phase::Stopped, signalled);
        let outcome = storage
            .begin_monitoring(&SystemSample::new("boot-b", 900_000, 1_000))
            .unwrap();
        assert_eq!(
            outcome.disposition,
            StartupDisposition::BootChanged {
                graceful: signalled
            }
        );
    }
}
