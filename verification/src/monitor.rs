//! The daemon: its configuration, its timing, what it reports, and whether
//! what it left behind is healthy.

use std::path::PathBuf;
use std::time::Duration;

use vstd::prelude::*;
use vstd::string::StringExecFns;

use crate::external::{duration_nanos, whole_nanos};
use crate::model::{
    format_timestamp, kind_name, timestamp_text, CurrentStatus, EventKind, SampleView, StatusView, SystemSample,
};
use crate::numeric::{clamp_i64, fit_i64, saturating_difference};
use crate::storage::plan::{heartbeat_changes, is_current, startup_changes, stop_changes};
use crate::storage::rows::{commit, TablesView};
use crate::storage::{status_of, StartupDisposition, StartupOutcome};
use crate::text::{append_decimal, decimal};

verus! {

// ---------------------------------------------------------------------------
// Configuration
// ---------------------------------------------------------------------------

/// How the daemon is to run.
#[derive(Debug)]
pub struct DaemonConfig {
    pub database: PathBuf,
    pub interval: Duration,
    pub gap_factor: u64,
}

/// Nanoseconds in a second.
pub const SECOND_NANOS: u128 = 1_000_000_000;

/// Nanoseconds in a day.
pub const DAY_NANOS: u128 = 86_400_000_000_000;

/// Nanoseconds in a millisecond.
pub const MILLI_NANOS: u128 = 1_000_000;

/// Why a configuration is refused.
#[derive(Clone, Copy, Debug, PartialEq, Eq, Structural)]
pub enum ConfigError {
    IntervalTooShort,
    IntervalTooLong,
    GapFactorTooSmall,
    DurationTooLong,
}

/// What is said of a refused configuration.
pub open spec fn config_message(error: ConfigError) -> Seq<char> {
    match error {
        ConfigError::IntervalTooShort => "heartbeat interval must be at least 1 second"@,
        ConfigError::IntervalTooLong => "heartbeat interval must not exceed 24 hours"@,
        ConfigError::GapFactorTooSmall => "heartbeat gap factor must be at least 2"@,
        ConfigError::DurationTooLong => "duration does not fit in i64 milliseconds"@,
    }
}

impl ConfigError {
    pub fn message(&self) -> (message: &'static str)
        ensures
            message@ == config_message(*self),
    {
        match self {
            ConfigError::IntervalTooShort => "heartbeat interval must be at least 1 second",
            ConfigError::IntervalTooLong => "heartbeat interval must not exceed 24 hours",
            ConfigError::GapFactorTooSmall => "heartbeat gap factor must be at least 2",
            ConfigError::DurationTooLong => "duration does not fit in i64 milliseconds",
        }
    }
}

/// Why an interval and a gap factor are refused, if they are.
pub open spec fn config_refusal(interval_nanos: u128, gap_factor: u64) -> Option<ConfigError> {
    if interval_nanos < SECOND_NANOS {
        Some(ConfigError::IntervalTooShort)
    } else if interval_nanos > DAY_NANOS {
        Some(ConfigError::IntervalTooLong)
    } else if gap_factor < 2 {
        Some(ConfigError::GapFactorTooSmall)
    } else {
        None
    }
}

/// Checks an interval, in nanoseconds, and a gap factor.
pub fn check_limits(interval_nanos: u128, gap_factor: u64) -> (checked: Result<(), ConfigError>)
    ensures
        match config_refusal(interval_nanos, gap_factor) {
            Some(error) => checked == Err::<(), _>(error),
            None => checked is Ok,
        },
{
    if interval_nanos < SECOND_NANOS {
        Err(ConfigError::IntervalTooShort)
    } else if interval_nanos > DAY_NANOS {
        Err(ConfigError::IntervalTooLong)
    } else if gap_factor < 2 {
        Err(ConfigError::GapFactorTooSmall)
    } else {
        Ok(())
    }
}

/// Checks a configuration.
pub fn validate_config(config: &DaemonConfig) -> (checked: Result<(), ConfigError>)
    ensures
        match config_refusal(duration_nanos(config.interval), config.gap_factor) {
            Some(error) => checked == Err::<(), _>(error),
            None => checked is Ok,
        },
{
    check_limits(whole_nanos(config.interval), config.gap_factor)
}

/// The whole milliseconds in a number of nanoseconds, where they fit.
pub fn nanos_to_millis(nanos: u128) -> (millis: Result<i64, ConfigError>)
    ensures
        match millis {
            Ok(millis) => millis == nanos / MILLI_NANOS,
            Err(error) => nanos / MILLI_NANOS > i64::MAX && error is DurationTooLong,
        },
{
    match fit_i64(nanos / MILLI_NANOS) {
        Some(millis) => Ok(millis),
        None => Err(ConfigError::DurationTooLong),
    }
}

/// The whole milliseconds in a duration, where they fit.
pub fn duration_millis_i64(duration: Duration) -> (millis: Result<i64, ConfigError>)
    ensures
        match millis {
            Ok(millis) => millis == duration_nanos(duration) / MILLI_NANOS,
            Err(error) => duration_nanos(duration) / MILLI_NANOS > i64::MAX && error is DurationTooLong,
        },
{
    nanos_to_millis(whole_nanos(duration))
}

/// What a heartbeat is measured by: the interval in milliseconds and the
/// factor by which one may be late.
#[derive(Clone, Copy, Debug, PartialEq, Eq, Structural)]
pub struct HeartbeatLimits {
    pub interval_ms: i64,
    pub gap_factor: i64,
}

/// The limits that an interval and a gap factor stand for. A factor beyond the
/// largest number counts as the largest number.
pub fn limits_of(interval_nanos: u128, gap_factor: u64) -> (limits: Result<HeartbeatLimits, ConfigError>)
    ensures
        match limits {
            Ok(limits) => {
                &&& limits.interval_ms == interval_nanos / MILLI_NANOS
                &&& limits.gap_factor == clamp_i64(gap_factor as int)
            },
            Err(error) => interval_nanos / MILLI_NANOS > i64::MAX && error is DurationTooLong,
        },
{
    let factor: i64 = match fit_i64(gap_factor as u128) {
        Some(factor) => factor,
        None => i64::MAX,
    };
    match nanos_to_millis(interval_nanos) {
        Ok(interval_ms) => Ok(HeartbeatLimits { interval_ms, gap_factor: factor }),
        Err(error) => Err(error),
    }
}

/// An accepted configuration always has limits: an interval between a second
/// and a day, and a factor of two or more.
pub proof fn law_accepted_config_has_limits(interval_nanos: u128, gap_factor: u64)
    requires
        config_refusal(interval_nanos, gap_factor) is None,
    ensures
        1_000 <= interval_nanos / MILLI_NANOS <= 86_400_000,
        2 <= clamp_i64(gap_factor as int),
{
}

// ---------------------------------------------------------------------------
// Timing
// ---------------------------------------------------------------------------

/// How long the daemon sleeps at most before it looks for a signal again.
pub const POLL_NANOS: u128 = 250_000_000;

/// What the daemon does next.
#[derive(Clone, Copy, Debug, PartialEq, Eq, Structural)]
pub enum Step {
    /// A signal arrived: record the stop.
    Stop,
    /// Nothing is due: sleep, then ask again.
    Sleep { nanos: u64 },
    /// A heartbeat is due, and is measured by these limits.
    Heartbeat { limits: HeartbeatLimits },
}

/// The step at `now_nanos` if a heartbeat is due at `due_nanos`.
pub open spec fn next_step(stopping: bool, now_nanos: int, due_nanos: int, limits: HeartbeatLimits) -> Step {
    if stopping {
        Step::Stop
    } else if now_nanos >= due_nanos {
        Step::Heartbeat { limits }
    } else if due_nanos - now_nanos < POLL_NANOS {
        Step::Sleep { nanos: (due_nanos - now_nanos) as u64 }
    } else {
        Step::Sleep { nanos: POLL_NANOS as u64 }
    }
}

/// The course of a running daemon: when its next heartbeat is due, on a clock
/// that counts nanoseconds and never runs backwards, and what heartbeats are
/// measured by.
#[derive(Clone, Copy, Debug, PartialEq, Eq, Structural)]
pub struct Schedule {
    interval_nanos: u128,
    due_nanos: u128,
    limits: HeartbeatLimits,
}

impl Schedule {
    /// The time between two heartbeats.
    pub closed spec fn interval(&self) -> int {
        self.interval_nanos as int
    }

    /// When the next heartbeat is due.
    pub closed spec fn due(&self) -> int {
        self.due_nanos as int
    }

    /// What heartbeats are measured by.
    pub closed spec fn measure(&self) -> HeartbeatLimits {
        self.limits
    }

    /// The interval is one that a configuration may have.
    pub open spec fn wf(&self) -> bool {
        SECOND_NANOS <= self.interval() <= DAY_NANOS
    }

    /// The course of a daemon that starts now with an interval and a gap
    /// factor, if they are accepted: the first heartbeat is one interval from
    /// now.
    pub fn every(interval_nanos: u128, gap_factor: u64, now_nanos: u64) -> (schedule: Result<Self, ConfigError>)
        ensures
            match config_refusal(interval_nanos, gap_factor) {
                Some(error) => schedule matches Err(refusal) && refusal == error,
                None => schedule matches Ok(schedule) && {
                    &&& schedule.wf()
                    &&& schedule.interval() == interval_nanos
                    &&& schedule.due() == now_nanos + interval_nanos
                    &&& schedule.measure().interval_ms == interval_nanos / MILLI_NANOS
                    &&& schedule.measure().gap_factor == clamp_i64(gap_factor as int)
                },
            },
    {
        match check_limits(interval_nanos, gap_factor) {
            Ok(()) => match limits_of(interval_nanos, gap_factor) {
                Ok(limits) => Ok(
                    Schedule { interval_nanos, due_nanos: now_nanos as u128 + interval_nanos, limits },
                ),
                Err(error) => Err(error),
            },
            Err(error) => Err(error),
        }
    }

    /// The course of a daemon that starts now, if its configuration is
    /// accepted.
    pub fn start(config: &DaemonConfig, now_nanos: u64) -> (schedule: Result<Self, ConfigError>)
        ensures
            match config_refusal(duration_nanos(config.interval), config.gap_factor) {
                Some(error) => schedule matches Err(refusal) && refusal == error,
                None => schedule matches Ok(schedule) && {
                    &&& schedule.wf()
                    &&& schedule.interval() == duration_nanos(config.interval)
                    &&& schedule.due() == now_nanos + duration_nanos(config.interval)
                    &&& schedule.measure().interval_ms == duration_nanos(config.interval) / MILLI_NANOS
                    &&& schedule.measure().gap_factor == clamp_i64(config.gap_factor as int)
                },
            },
    {
        Schedule::every(whole_nanos(config.interval), config.gap_factor, now_nanos)
    }

    /// What to do now.
    pub fn poll(&self, stopping: bool, now_nanos: u64) -> (step: Step)
        ensures
            step == next_step(stopping, now_nanos as int, self.due(), self.measure()),
    {
        if stopping {
            return Step::Stop;
        }
        let now: u128 = now_nanos as u128;
        if now >= self.due_nanos {
            return Step::Heartbeat { limits: self.limits };
        }
        let rest: u128 = self.due_nanos - now;
        if rest < POLL_NANOS {
            Step::Sleep { nanos: rest as u64 }
        } else {
            Step::Sleep { nanos: POLL_NANOS as u64 }
        }
    }

    /// Puts the next heartbeat one interval from now.
    pub fn rearm(&mut self, now_nanos: u64)
        requires
            old(self).wf(),
        ensures
            final(self).wf(),
            final(self).interval() == old(self).interval(),
            final(self).measure() == old(self).measure(),
            final(self).due() == now_nanos + old(self).interval(),
    {
        self.due_nanos = now_nanos as u128 + self.interval_nanos;
    }
}

/// A signal is acted on before anything else.
pub proof fn law_signal_comes_first(now_nanos: int, due_nanos: int, limits: HeartbeatLimits)
    ensures
        next_step(true, now_nanos, due_nanos, limits) is Stop,
{
}

/// A sleep is never empty, never goes on past the next heartbeat, and never
/// keeps a signal waiting for longer than the poll interval.
pub proof fn law_sleep_is_short(stopping: bool, now_nanos: int, due_nanos: int, limits: HeartbeatLimits)
    ensures
        next_step(stopping, now_nanos, due_nanos, limits) matches Step::Sleep { nanos } ==> {
            &&& !stopping
            &&& 0 < nanos <= POLL_NANOS
            &&& now_nanos + nanos <= due_nanos
        },
{
}

/// Without a signal a heartbeat comes exactly when it is due: none within an
/// interval of the last one, and none is passed over afterwards.
pub proof fn law_heartbeats_keep_the_interval(
    last_nanos: int,
    interval_nanos: int,
    now_nanos: int,
    limits: HeartbeatLimits,
)
    ensures
        next_step(false, now_nanos, last_nanos + interval_nanos, limits) is Heartbeat <==> now_nanos - last_nanos
            >= interval_nanos,
{
}

// ---------------------------------------------------------------------------
// Reports
// ---------------------------------------------------------------------------

/// A line for the journal.
#[derive(Clone, Debug)]
pub struct Report {
    pub level: String,
    pub message: String,
}

/// A line for the journal as characters.
#[verifier::ext_equal]
pub struct ReportView {
    pub level: Seq<char>,
    pub message: Seq<char>,
}

impl View for Report {
    type V = ReportView;

    open spec fn view(&self) -> ReportView {
        ReportView { level: self.level@, message: self.message@ }
    }
}

/// The text of a truth value.
pub open spec fn truth(value: bool) -> Seq<char> {
    if value {
        "true"@
    } else {
        "false"@
    }
}

/// Writes a truth value.
pub fn truth_text(value: bool) -> (text: &'static str)
    ensures
        text@ == truth(value),
{
    if value {
        "true"
    } else {
        "false"
    }
}

/// What is reported of a start.
pub open spec fn startup_line(outcome: StartupOutcome, boot_id: Seq<char>) -> ReportView {
    match outcome.disposition {
        StartupDisposition::Baseline => ReportView {
            level: "info"@,
            message: "monitoring baseline created boot_id="@ + boot_id + " generation="@ + decimal(
                outcome.generation as int,
            ),
        },
        StartupDisposition::BootChanged { graceful } => ReportView {
            level: "warn"@,
            message: "boot continuity change detected boot_id="@ + boot_id + " graceful="@ + truth(graceful)
                + " generation="@ + decimal(outcome.generation as int),
        },
        StartupDisposition::MonitorRestarted { graceful } => ReportView {
            level: "warn"@,
            message: "monitor process restarted boot_id="@ + boot_id + " graceful="@ + truth(graceful)
                + " generation="@ + decimal(outcome.generation as int),
        },
    }
}

/// Reports a start on the boot `boot_id`.
pub fn startup_report(outcome: &StartupOutcome, boot_id: &str) -> (report: Report)
    ensures
        report@ == startup_line(*outcome, boot_id@),
{
    let level: &str;
    let mut message: String;
    match outcome.disposition {
        StartupDisposition::Baseline => {
            level = "info";
            message = "monitoring baseline created boot_id=".to_owned();
            message.append(boot_id);
        },
        StartupDisposition::BootChanged { graceful } => {
            level = "warn";
            message = "boot continuity change detected boot_id=".to_owned();
            message.append(boot_id);
            message.append(" graceful=");
            message.append(truth_text(graceful));
        },
        StartupDisposition::MonitorRestarted { graceful } => {
            level = "warn";
            message = "monitor process restarted boot_id=".to_owned();
            message.append(boot_id);
            message.append(" graceful=");
            message.append(truth_text(graceful));
        },
    }
    message.append(" generation=");
    append_decimal(&mut message, outcome.generation);
    Report { level: level.to_owned(), message }
}

/// What is reported of an event that a heartbeat noticed.
pub open spec fn event_line(kind: EventKind, boot_id: Seq<char>) -> ReportView {
    ReportView { level: "warn"@, message: kind_name(kind) + " detected boot_id="@ + boot_id }
}

/// Reports each event that a heartbeat noticed, in their order.
pub fn heartbeat_reports(emitted: &Vec<EventKind>, boot_id: &str) -> (reports: Vec<Report>)
    ensures
        reports@.map_values(|report: Report| report@) == emitted@.map_values(
            |kind: EventKind| event_line(kind, boot_id@),
        ),
{
    let mut reports: Vec<Report> = Vec::new();
    let mut i: usize = 0;
    while i < emitted.len()
        invariant
            i <= emitted.len(),
            reports@.len() == i,
            forall|j: int| 0 <= j < i ==> (#[trigger] reports@[j])@ == event_line(emitted@[j], boot_id@),
        decreases emitted.len() - i,
    {
        let mut message: String = emitted[i].as_str().to_owned();
        message.append(" detected boot_id=");
        message.append(boot_id);
        reports.push(Report { level: "warn".to_owned(), message });
        i += 1;
    }
    assert(reports@.map_values(|report: Report| report@) =~= emitted@.map_values(
        |kind: EventKind| event_line(kind, boot_id@),
    ));
    reports
}

/// The reason that is recorded when a signal stops the monitor.
pub fn stop_reason() -> (reason: &'static str)
    ensures
        reason@ == "signal"@,
{
    "signal"
}

/// What is reported of an orderly stop.
pub open spec fn stop_line(boot_id: Seq<char>) -> ReportView {
    ReportView { level: "info"@, message: "monitor stopped gracefully boot_id="@ + boot_id }
}

/// Reports that the monitor stopped in an orderly way.
pub fn stop_report(boot_id: &str) -> (report: Report)
    ensures
        report@ == stop_line(boot_id@),
{
    let mut message: String = "monitor stopped gracefully boot_id=".to_owned();
    message.append(boot_id);
    Report { level: "info".to_owned(), message }
}

/// The journal line of a report.
pub open spec fn journal_line(timestamp: Seq<char>, report: ReportView) -> Seq<char> {
    timestamp + " level="@ + report.level + " "@ + report.message
}

/// The text of the time that has passed since the Unix epoch, if it is known
/// and fits.
pub open spec fn clock_text(since_epoch_nanos: Option<u128>) -> Seq<char> {
    match since_epoch_nanos {
        Some(nanos) if nanos / MILLI_NANOS <= i64::MAX => timestamp_text((nanos / MILLI_NANOS) as i64),
        _ => "unknown-time"@,
    }
}

/// Writes the journal line of a report under a given time text.
pub fn stamp_report(timestamp: &str, report: &Report) -> (line: String)
    ensures
        line@ == journal_line(timestamp@, report@),
{
    let mut line: String = timestamp.to_owned();
    line.append(" level=");
    line.append(report.level.as_str());
    line.append(" ");
    line.append(report.message.as_str());
    line
}

/// The length of an optional duration.
pub open spec fn optional_nanos(duration: Option<Duration>) -> Option<u128> {
    match duration {
        Some(duration) => Some(duration_nanos(duration)),
        None => None,
    }
}

/// Writes the journal line of a report. `since_epoch` is what the wall clock
/// shows, where it shows a time after the Unix epoch.
pub fn log_line(since_epoch: Option<Duration>, report: &Report) -> (line: String)
    ensures
        line@ == journal_line(clock_text(optional_nanos(since_epoch)), report@),
{
    let shown: Option<i64> = match since_epoch {
        Some(duration) => fit_i64(whole_nanos(duration) / MILLI_NANOS),
        None => None,
    };
    match shown {
        Some(unix_ms) => stamp_report(format_timestamp(unix_ms).as_str(), report),
        None => stamp_report("unknown-time", report),
    }
}

// ---------------------------------------------------------------------------
// The lock
// ---------------------------------------------------------------------------

/// The bytes of `.lock`.
pub open spec fn lock_suffix() -> Seq<u8> {
    seq![0x2eu8, 0x6cu8, 0x6fu8, 0x63u8, 0x6bu8]
}

/// The path of the lock file of a database, both as bytes: the path of the
/// database with `.lock` behind it.
pub fn lock_path(database: &[u8]) -> (path: Vec<u8>)
    ensures
        path@ == database@ + lock_suffix(),
{
    let mut path: Vec<u8> = Vec::new();
    let mut i: usize = 0;
    while i < database.len()
        invariant
            i <= database@.len(),
            path@ == database@.take(i as int),
        decreases database.len() - i,
    {
        path.push(database[i]);
        i += 1;
    }
    assert(database@.take(i as int) =~= database@);
    path.push(0x2e);
    path.push(0x6c);
    path.push(0x6f);
    path.push(0x63);
    path.push(0x6b);
    assert(path@ =~= database@ + lock_suffix());
    path
}

/// The lock file is never the database, and no two databases have one lock
/// file.
pub proof fn law_lock_paths_differ(left: Seq<u8>, right: Seq<u8>)
    ensures
        left + lock_suffix() != left,
        left + lock_suffix() == right + lock_suffix() ==> left == right,
{
    let left_lock = left + lock_suffix();
    let right_lock = right + lock_suffix();
    assert(left_lock.len() == left.len() + 5);
    assert(right_lock.len() == right.len() + 5);
    if left_lock == right_lock {
        assert(left_lock.take(left.len() as int) =~= left);
        assert(right_lock.take(right.len() as int) =~= right);
    }
}

// ---------------------------------------------------------------------------
// Health
// ---------------------------------------------------------------------------

/// How far in the future a heartbeat may lie.
pub const FUTURE_TOLERANCE_MS: i64 = 1_000;

/// The age of the last heartbeat.
pub open spec fn heartbeat_age(status: StatusView, sample: SampleView) -> i64 {
    clamp_i64(sample.observed_at_ms - status.last_heartbeat_at_ms)
}

/// Why a monitor is not healthy, if it is not.
pub open spec fn health_refusal(status: StatusView, sample: SampleView, max_age_ms: i64) -> Option<Seq<char>> {
    let age_ms = heartbeat_age(status, sample);
    if status.boot_id != sample.boot_id {
        Some("database boot ID "@ + status.boot_id + " does not match running kernel "@ + sample.boot_id)
    } else if !status.monitor_active {
        Some("monitor is marked as inactive"@)
    } else if age_ms < -FUTURE_TOLERANCE_MS {
        Some("last heartbeat is "@ + decimal(clamp_i64(-age_ms) as int) + " ms in the future"@)
    } else if age_ms > max_age_ms {
        Some(
            "last heartbeat is "@ + decimal(age_ms as int) + " ms old (limit "@ + decimal(max_age_ms as int)
                + " ms)"@,
        )
    } else {
        None
    }
}

/// Whether the monitor whose status was read watches the sampled kernel and
/// was alive at most `max_age_ms` ago; if not, why not.
pub fn is_healthy_within(
    status: &CurrentStatus,
    sample: &SystemSample,
    max_age_ms: i64,
) -> (health: Result<(), String>)
    ensures
        match health {
            Ok(()) => health_refusal(status@, sample@, max_age_ms) is None,
            Err(reason) => health_refusal(status@, sample@, max_age_ms) == Some(reason@),
        },
{
    if !(status.boot_id == sample.boot_id) {
        let mut reason: String = "database boot ID ".to_owned();
        reason.append(status.boot_id.as_str());
        reason.append(" does not match running kernel ");
        reason.append(sample.boot_id.as_str());
        return Err(reason);
    }
    if !status.monitor_active {
        return Err("monitor is marked as inactive".to_owned());
    }
    let age_ms: i64 = saturating_difference(sample.observed_at_ms, status.last_heartbeat_at_ms);
    if age_ms < -FUTURE_TOLERANCE_MS {
        let mut reason: String = "last heartbeat is ".to_owned();
        append_decimal(&mut reason, saturating_difference(0, age_ms));
        reason.append(" ms in the future");
        return Err(reason);
    }
    if age_ms > max_age_ms {
        let mut reason: String = "last heartbeat is ".to_owned();
        append_decimal(&mut reason, age_ms);
        reason.append(" ms old (limit ");
        append_decimal(&mut reason, max_age_ms);
        reason.append(" ms)");
        return Err(reason);
    }
    Ok(())
}

/// Whether the monitor whose status was read watches the sampled kernel and
/// was alive at most `max_heartbeat_age` ago; if not, why not.
pub fn is_healthy(
    status: &CurrentStatus,
    sample: &SystemSample,
    max_heartbeat_age: Duration,
) -> (health: Result<(), String>)
    ensures
        ({
            let max_age_ms = clamp_i64(duration_nanos(max_heartbeat_age) as int / MILLI_NANOS as int);
            match health {
                Ok(()) => health_refusal(status@, sample@, max_age_ms) is None,
                Err(reason) => health_refusal(status@, sample@, max_age_ms) == Some(reason@),
            }
        }),
{
    let max_age_ms: i64 = match fit_i64(whole_nanos(max_heartbeat_age) / MILLI_NANOS) {
        Some(millis) => millis,
        None => i64::MAX,
    };
    is_healthy_within(status, sample, max_age_ms)
}

/// A monitor is healthy exactly when the boot IDs agree, it is active, and its
/// last heartbeat is neither too old nor more than a second ahead.
pub proof fn law_health_conditions(status: StatusView, sample: SampleView, max_age_ms: i64)
    ensures
        health_refusal(status, sample, max_age_ms) is None <==> {
            &&& status.boot_id == sample.boot_id
            &&& status.monitor_active
            &&& sample.observed_at_ms - status.last_heartbeat_at_ms >= -FUTURE_TOLERANCE_MS
            &&& max_age_ms == i64::MAX || sample.observed_at_ms - status.last_heartbeat_at_ms <= max_age_ms
        },
{
}

/// A monitor that is healthy under one limit is healthy under any longer one.
pub proof fn law_health_grows_with_the_limit(
    status: StatusView,
    sample: SampleView,
    shorter_ms: i64,
    longer_ms: i64,
)
    requires
        shorter_ms <= longer_ms,
        health_refusal(status, sample, shorter_ms) is None,
    ensures
        health_refusal(status, sample, longer_ms) is None,
{
}

/// Right after a start or a heartbeat the monitor is healthy under any limit;
/// after an orderly stop it is inactive, and on another kernel it never is.
pub proof fn law_health_follows_the_storage(
    tables: TablesView,
    sample: SampleView,
    interval_ms: i64,
    gap_factor: i64,
    reason: Seq<char>,
    max_age_ms: i64,
    later: SampleView,
)
    requires
        0 <= max_age_ms,
        later.boot_id != sample.boot_id,
    ensures
        commit(tables, startup_changes(tables.state, sample)) matches Some(after) ==> {
            &&& health_refusal(status_of(after.state->0, after.events), sample, max_age_ms) is None
            &&& health_refusal(status_of(after.state->0, after.events), later, max_age_ms) is Some
        },
        is_current(tables.state, sample) ==> (commit(
            tables,
            heartbeat_changes(tables.state->0, sample, interval_ms, gap_factor),
        ) matches Some(after) ==> {
            &&& health_refusal(status_of(after.state->0, after.events), sample, max_age_ms) is None
            &&& health_refusal(status_of(after.state->0, after.events), later, max_age_ms) is Some
        }),
        is_current(tables.state, sample) ==> (commit(
            tables,
            stop_changes(tables.state->0, sample, reason),
        ) matches Some(after) && health_refusal(
            status_of(after.state->0, after.events),
            sample,
            max_age_ms,
        ) == Some("monitor is marked as inactive"@)),
{
}

// ---------------------------------------------------------------------------
// What the configuration, the reports and the reasons say
// ---------------------------------------------------------------------------

/// A configuration is accepted exactly if its interval lies between a second
/// and a day, both included, and its gap factor is two or more. Of several
/// faults the interval's comes first.
pub proof fn law_config_conditions(interval_nanos: u128, gap_factor: u64)
    ensures
        ({
            let refusal = config_refusal(interval_nanos, gap_factor);
            &&& refusal is None <==> 1_000_000_000 <= interval_nanos <= 86_400_000_000_000 && gap_factor >= 2
            &&& refusal == Some(ConfigError::IntervalTooShort) <==> interval_nanos < 1_000_000_000
            &&& refusal == Some(ConfigError::IntervalTooLong) <==> interval_nanos > 86_400_000_000_000
            &&& refusal == Some(ConfigError::GapFactorTooSmall) <==> 1_000_000_000 <= interval_nanos
                <= 86_400_000_000_000 && gap_factor < 2
            &&& refusal != Some(ConfigError::DurationTooLong)
        }),
{
}

/// What a step does at a time: a signal stops; a heartbeat that is due is
/// recorded by the limits given; and otherwise the sleep ends when the
/// heartbeat is due, or after a quarter of a second if that comes first.
pub proof fn law_step_at_a_time(stopping: bool, now_nanos: int, due_nanos: int, limits: HeartbeatLimits)
    ensures
        match next_step(stopping, now_nanos, due_nanos, limits) {
            Step::Stop => stopping,
            Step::Heartbeat { limits: measure } => !stopping && due_nanos <= now_nanos && measure == limits,
            Step::Sleep { nanos } => {
                &&& !stopping
                &&& now_nanos < due_nanos
                &&& nanos == 250_000_000 || now_nanos + nanos == due_nanos
                &&& nanos <= 250_000_000
                &&& now_nanos + nanos <= due_nanos
            },
        },
{
}

/// The report of a start is a warning exactly if something was interrupted. It
/// begins with what was found, names the boot, says whether the end before was
/// graceful if there was one, and ends with the number of the monitor process.
pub proof fn law_startup_report_tells_the_outcome(outcome: StartupOutcome, boot_id: Seq<char>)
    ensures
        ({
            let report = startup_line(outcome, boot_id);
            let found = match outcome.disposition {
                StartupDisposition::Baseline => "monitoring baseline created boot_id="@,
                StartupDisposition::BootChanged { .. } => "boot continuity change detected boot_id="@,
                StartupDisposition::MonitorRestarted { .. } => "monitor process restarted boot_id="@,
            };
            let graceful = match outcome.disposition {
                StartupDisposition::Baseline => ""@,
                StartupDisposition::BootChanged { graceful } => if graceful {
                    " graceful=true"@
                } else {
                    " graceful=false"@
                },
                StartupDisposition::MonitorRestarted { graceful } => if graceful {
                    " graceful=true"@
                } else {
                    " graceful=false"@
                },
            };
            let counted = " generation="@ + decimal(outcome.generation as int);
            &&& report.level == if outcome.disposition is Baseline {
                "info"@
            } else {
                "warn"@
            }
            &&& (found + boot_id).is_prefix_of(report.message)
            &&& (graceful + counted).is_suffix_of(report.message)
            &&& report.message.len() == found.len() + boot_id.len() + graceful.len() + counted.len()
        }),
{
    reveal_strlit("");
    reveal_strlit(" graceful=");
    reveal_strlit("true");
    reveal_strlit("false");
    reveal_strlit(" graceful=true");
    reveal_strlit(" graceful=false");
    assert(" graceful=true"@ =~= " graceful="@ + "true"@);
    assert(" graceful=false"@ =~= " graceful="@ + "false"@);
}

/// An event that a heartbeat noticed is reported as a warning that begins with
/// its name and ends with the boot; a stop is reported as information that
/// ends with the boot.
pub proof fn law_reports_name_the_boot(kind: EventKind, boot_id: Seq<char>)
    ensures
        ({
            let noticed = event_line(kind, boot_id);
            &&& noticed.level == "warn"@
            &&& kind_name(kind).is_prefix_of(noticed.message)
            &&& (" detected boot_id="@ + boot_id).is_suffix_of(noticed.message)
            &&& noticed.message.len() == kind_name(kind).len() + " detected boot_id="@.len() + boot_id.len()
        }),
        ({
            let stopped = stop_line(boot_id);
            &&& stopped.level == "info"@
            &&& "monitor stopped gracefully boot_id="@.is_prefix_of(stopped.message)
            &&& boot_id.is_suffix_of(stopped.message)
            &&& stopped.message.len() == "monitor stopped gracefully boot_id="@.len() + boot_id.len()
        }),
{
}

/// A journal line begins with the time and ends with the message, with the
/// level between them.
pub proof fn law_journal_line_parts(timestamp: Seq<char>, report: ReportView)
    ensures
        ({
            let line = journal_line(timestamp, report);
            &&& timestamp.is_prefix_of(line)
            &&& (" "@ + report.message).is_suffix_of(line)
            &&& line.subrange(
                timestamp.len() as int,
                line.len() - report.message.len() - " "@.len(),
            ) == " level="@ + report.level
        }),
{
    let line = journal_line(timestamp, report);
    assert(line.subrange(timestamp.len() as int, line.len() - report.message.len() - " "@.len())
        =~= " level="@ + report.level);
}

/// A known time is shown as the timestamp of its whole milliseconds, as long
/// as there is a number for them; otherwise the time is called unknown.
pub proof fn law_clock_shows_whole_milliseconds(nanos: u128, millis: i64)
    ensures
        clock_text(None) == "unknown-time"@,
        millis >= 0 && millis * 1_000_000 <= nanos < (millis + 1) * 1_000_000 ==> clock_text(Some(nanos))
            == timestamp_text(millis),
        nanos >= (i64::MAX + 1) * 1_000_000 ==> clock_text(Some(nanos)) == "unknown-time"@,
{
    if millis >= 0 && millis * 1_000_000 <= nanos < (millis + 1) * 1_000_000 {
        assert(nanos / MILLI_NANOS == millis);
    }
}

/// The path of a lock begins with the path of its database and ends in
/// `.lock`, with nothing between.
pub proof fn law_lock_path_parts(database: Seq<u8>)
    ensures
        ({
            let path = database + lock_suffix();
            &&& database.is_prefix_of(path)
            &&& path.len() == database.len() + 5
            &&& path[database.len() as int] == '.' as u8
            &&& path[(database.len() + 1) as int] == 'l' as u8
            &&& path[(database.len() + 2) as int] == 'o' as u8
            &&& path[(database.len() + 3) as int] == 'c' as u8
            &&& path[(database.len() + 4) as int] == 'k' as u8
        }),
{
    assert('.' as u8 == 0x2e && 'l' as u8 == 0x6c && 'o' as u8 == 0x6f && 'c' as u8 == 0x63 && 'k' as u8 == 0x6b);
}

/// A monitor is healthy exactly if it watches the sampled kernel, is active,
/// and was last alive neither longer ago than the limit nor more than a second
/// from now. The reason given is the first of these that fails, and tells what
/// was found: the two boots, that the monitor is inactive, or how far ahead or
/// how old the heartbeat is, and the limit.
pub proof fn law_health_reasons(status: StatusView, sample: SampleView, max_age_ms: i64)
    ensures
        ({
            let age = sample.observed_at_ms - status.last_heartbeat_at_ms;
            let refusal = health_refusal(status, sample, max_age_ms);
            if status.boot_id != sample.boot_id {
                &&& refusal matches Some(reason) && {
                    &&& ("database boot ID "@ + status.boot_id).is_prefix_of(reason)
                    &&& (" does not match running kernel "@ + sample.boot_id).is_suffix_of(reason)
                    &&& reason.len() == "database boot ID "@.len() + status.boot_id.len()
                        + " does not match running kernel "@.len() + sample.boot_id.len()
                }
            } else if !status.monitor_active {
                refusal == Some("monitor is marked as inactive"@)
            } else if age < -1_000 {
                let ahead = if -age > i64::MAX {
                    i64::MAX as int
                } else {
                    -age
                };
                refusal == Some("last heartbeat is "@ + decimal(ahead) + " ms in the future"@)
            } else if age > max_age_ms && max_age_ms < i64::MAX {
                let old = if age > i64::MAX {
                    i64::MAX as int
                } else {
                    age
                };
                refusal == Some(
                    "last heartbeat is "@ + decimal(old) + " ms old (limit "@ + decimal(max_age_ms as int)
                        + " ms)"@,
                )
            } else {
                refusal is None
            }
        }),
{
}

} // verus!
