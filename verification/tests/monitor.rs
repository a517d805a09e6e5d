use std::path::PathBuf;
use std::time::Duration;

use bootwitness::model::{CurrentStatus, EventKind, SystemSample};
use bootwitness::monitor::{
    check_limits, duration_millis_i64, heartbeat_reports, is_healthy, is_healthy_within, limits_of,
    lock_path, log_line, nanos_to_millis, stamp_report, startup_report, stop_reason, stop_report, validate_config,
    ConfigError, DaemonConfig, HeartbeatLimits, Report, Schedule, Step,
};
use bootwitness::storage::{StartupDisposition, StartupOutcome};

fn config(interval: Duration, gap_factor: u64) -> DaemonConfig {
    DaemonConfig {
        database: PathBuf::from("/tmp/bootwitness.sqlite3"),
        interval,
        gap_factor,
    }
}

fn status(last_heartbeat_at_ms: i64) -> CurrentStatus {
    CurrentStatus {
        boot_id: "boot-a".to_owned(),
        boot_started_at_ms: 0,
        first_seen_at_ms: 0,
        last_heartbeat_at_ms,
        last_boottime_ms: 0,
        monitor_active: true,
        monitor_generation: 1,
        ended_at_ms: None,
        end_reason: None,
        boot_change_count: 0,
        total_event_count: 0,
    }
}

#[test]
fn intervals_from_a_second_to_a_day_are_accepted() {
    assert_eq!(validate_config(&config(Duration::from_secs(60), 3)), Ok(()));
    assert_eq!(validate_config(&config(Duration::from_secs(1), 2)), Ok(()));
    assert_eq!(
        validate_config(&config(Duration::from_secs(86_400), u64::MAX)),
        Ok(())
    );
}

#[test]
fn configurations_are_refused_in_order() {
    let short = validate_config(&config(Duration::from_nanos(999_999_999), 0)).unwrap_err();
    assert_eq!(short, ConfigError::IntervalTooShort);
    assert_eq!(short.message(), "heartbeat interval must be at least 1 second");

    let long = validate_config(&config(
        Duration::from_secs(86_400) + Duration::from_nanos(1),
        0,
    ))
    .unwrap_err();
    assert_eq!(long, ConfigError::IntervalTooLong);
    assert_eq!(long.message(), "heartbeat interval must not exceed 24 hours");

    let factor = validate_config(&config(Duration::from_secs(1), 1)).unwrap_err();
    assert_eq!(factor, ConfigError::GapFactorTooSmall);
    assert_eq!(factor.message(), "heartbeat gap factor must be at least 2");

    assert_eq!(
        check_limits(999_999_999, 2),
        Err(ConfigError::IntervalTooShort)
    );
}

#[test]
fn durations_are_cut_to_whole_milliseconds() {
    assert_eq!(duration_millis_i64(Duration::from_nanos(1_999_999)), Ok(1));
    assert_eq!(duration_millis_i64(Duration::from_secs(60)), Ok(60_000));
    let long = duration_millis_i64(Duration::MAX).unwrap_err();
    assert_eq!(long, ConfigError::DurationTooLong);
    assert_eq!(long.message(), "duration does not fit in i64 milliseconds");
    assert_eq!(
        nanos_to_millis(9_223_372_036_854_775_807_999_999),
        Ok(i64::MAX)
    );
    assert_eq!(
        nanos_to_millis(9_223_372_036_854_775_808_000_000),
        Err(ConfigError::DurationTooLong)
    );
}

#[test]
fn an_accepted_configuration_has_limits() {
    let beat = |interval: Duration, gap_factor: u64| {
        Schedule::start(&config(interval, gap_factor), 0)
            .unwrap()
            .poll(false, u64::MAX)
    };
    assert_eq!(
        beat(Duration::from_secs(60), 3),
        Step::Heartbeat {
            limits: HeartbeatLimits {
                interval_ms: 60_000,
                gap_factor: 3
            }
        }
    );
    assert_eq!(
        beat(Duration::from_nanos(1_500_999_999), u64::MAX),
        Step::Heartbeat {
            limits: HeartbeatLimits {
                interval_ms: 1_500,
                gap_factor: i64::MAX
            }
        }
    );
    assert_eq!(limits_of(u128::MAX, 2), Err(ConfigError::DurationTooLong));
}

#[test]
fn the_daemon_sleeps_in_short_steps_until_a_heartbeat_is_due() {
    let mut schedule = Schedule::start(&config(Duration::from_secs(1), 3), 5_000_000_000).unwrap();
    assert_eq!(
        schedule.poll(false, 5_000_000_000),
        Step::Sleep { nanos: 250_000_000 }
    );
    assert_eq!(
        schedule.poll(false, 5_750_000_000),
        Step::Sleep { nanos: 250_000_000 }
    );
    assert_eq!(
        schedule.poll(false, 5_750_000_001),
        Step::Sleep { nanos: 249_999_999 }
    );
    assert_eq!(
        schedule.poll(false, 5_999_999_999),
        Step::Sleep { nanos: 1 }
    );
    let limits = HeartbeatLimits {
        interval_ms: 1_000,
        gap_factor: 3,
    };
    assert_eq!(schedule.poll(false, 6_000_000_000), Step::Heartbeat { limits });
    schedule.rearm(6_100_000_000);
    assert_eq!(
        schedule.poll(false, 7_099_999_999),
        Step::Sleep { nanos: 1 }
    );
    assert_eq!(schedule.poll(false, 7_100_000_000), Step::Heartbeat { limits });
}

#[test]
fn a_signal_comes_before_a_due_heartbeat() {
    let schedule = Schedule::every(1_000_000_000, 2, 0).unwrap();
    assert_eq!(schedule.poll(true, 0), Step::Stop);
    assert_eq!(schedule.poll(true, 2_000_000_000), Step::Stop);
}

#[test]
fn a_refused_configuration_has_no_schedule() {
    assert_eq!(
        Schedule::start(&config(Duration::from_secs(0), 3), 0),
        Err(ConfigError::IntervalTooShort)
    );
    assert_eq!(
        Schedule::every(1_000_000_000, 1, 0),
        Err(ConfigError::GapFactorTooSmall)
    );
}

#[test]
fn a_start_is_reported() {
    let baseline = startup_report(
        &StartupOutcome {
            disposition: StartupDisposition::Baseline,
            generation: 1,
        },
        "boot-a",
    );
    assert_eq!(baseline.level, "info");
    assert_eq!(
        baseline.message,
        "monitoring baseline created boot_id=boot-a generation=1"
    );
    let changed = startup_report(
        &StartupOutcome {
            disposition: StartupDisposition::BootChanged { graceful: false },
            generation: 1,
        },
        "boot-b",
    );
    assert_eq!(changed.level, "warn");
    assert_eq!(
        changed.message,
        "boot continuity change detected boot_id=boot-b graceful=false generation=1"
    );
    let restarted = startup_report(
        &StartupOutcome {
            disposition: StartupDisposition::MonitorRestarted { graceful: true },
            generation: 12,
        },
        "boot-b",
    );
    assert_eq!(restarted.level, "warn");
    assert_eq!(
        restarted.message,
        "monitor process restarted boot_id=boot-b graceful=true generation=12"
    );
}

#[test]
fn heartbeat_events_are_reported_in_order() {
    let reports = heartbeat_reports(
        &vec![EventKind::HeartbeatGap, EventKind::ClockAnomaly],
        "boot-a",
    );
    assert_eq!(reports.len(), 2);
    assert_eq!(reports[0].level, "warn");
    assert_eq!(
        reports[0].message,
        "heartbeat_gap detected boot_id=boot-a"
    );
    assert_eq!(
        reports[1].message,
        "clock_anomaly detected boot_id=boot-a"
    );
    assert!(heartbeat_reports(&vec![], "boot-a").is_empty());
}

#[test]
fn a_stop_is_reported() {
    assert_eq!(stop_reason(), "signal");
    let report = stop_report("boot-a");
    assert_eq!(report.level, "info");
    assert_eq!(report.message, "monitor stopped gracefully boot_id=boot-a");
}

#[test]
fn journal_lines_carry_the_time_if_it_is_known() {
    let report = Report {
        level: "warn".to_owned(),
        message: "something happened".to_owned(),
    };
    assert_eq!(
        log_line(Some(Duration::from_millis(1_500)), &report),
        "1970-01-01T00:00:01.500Z level=warn something happened"
    );
    assert_eq!(
        log_line(None, &report),
        "unknown-time level=warn something happened"
    );
    assert_eq!(
        log_line(Some(Duration::MAX), &report),
        "unknown-time level=warn something happened"
    );
    assert_eq!(
        stamp_report("now", &report),
        "now level=warn something happened"
    );
}

#[test]
fn the_lock_stands_beside_the_database() {
    assert_eq!(lock_path(b"/var/db.sqlite3"), b"/var/db.sqlite3.lock".to_vec());
    assert_eq!(lock_path(b""), b".lock".to_vec());
    assert_ne!(lock_path(b"a"), lock_path(b"b"));
}

#[test]
fn health_is_refused_with_a_reason() {
    let running = SystemSample::new("boot-a", 125_000, 35_000);
    let other = SystemSample::new("boot-b", 125_000, 35_000);
    assert_eq!(
        is_healthy_within(&status(120_000), &other, 10_000),
        Err("database boot ID boot-a does not match running kernel boot-b".to_owned())
    );
    let mut stopped = status(120_000);
    stopped.monitor_active = false;
    assert_eq!(
        is_healthy_within(&stopped, &running, 10_000),
        Err("monitor is marked as inactive".to_owned())
    );
    assert_eq!(
        is_healthy_within(&status(120_000), &running, 4_999),
        Err("last heartbeat is 5000 ms old (limit 4999 ms)".to_owned())
    );
    assert_eq!(
        is_healthy_within(&status(126_001), &running, 10_000),
        Err("last heartbeat is 1001 ms in the future".to_owned())
    );
    assert_eq!(
        is_healthy_within(&status(i64::MAX), &SystemSample::new("boot-a", i64::MIN, 0), 10),
        Err("last heartbeat is 9223372036854775807 ms in the future".to_owned())
    );
}

#[test]
fn health_holds_up_to_the_limit_and_a_second_ahead() {
    let running = SystemSample::new("boot-a", 125_000, 35_000);
    assert_eq!(is_healthy_within(&status(120_000), &running, 5_000), Ok(()));
    assert_eq!(is_healthy_within(&status(120_000), &running, 9_000), Ok(()));
    assert_eq!(is_healthy_within(&status(126_000), &running, 5_000), Ok(()));
    assert_eq!(
        is_healthy(&status(i64::MIN), &running, Duration::MAX),
        Ok(())
    );
    assert_eq!(
        is_healthy(&status(120_000), &running, Duration::from_nanos(4_999_999_999)),
        Err("last heartbeat is 5000 ms old (limit 4999 ms)".to_owned())
    );
}
