//! What is sampled from the running kernel and what is reported of it.

use vstd::prelude::*;
use vstd::string::StringExecFns;

use crate::external::{rfc3339_millis, utc_text, MAX_UTC_MILLIS, MIN_UTC_MILLIS};
use crate::numeric::{clamp_i64, saturating_difference};
use crate::storage::fingerprints::lemma_decimal;
use crate::text::{append_decimal, decimal};

verus! {

/// The characters of an optional text.
pub open spec fn optional_text(text: Option<String>) -> Option<Seq<char>> {
    match text {
        Some(text) => Some(text@),
        None => None,
    }
}

/// One observation of the running kernel.
#[derive(Clone, Debug, PartialEq, Eq)]
pub struct SystemSample {
    pub boot_id: String,
    pub observed_at_ms: i64,
    pub boottime_ms: i64,
    pub boot_started_at_ms: i64,
}

/// A sample with its boot ID as characters.
#[verifier::ext_equal]
pub struct SampleView {
    pub boot_id: Seq<char>,
    pub observed_at_ms: i64,
    pub boottime_ms: i64,
    pub boot_started_at_ms: i64,
}

impl View for SystemSample {
    type V = SampleView;

    open spec fn view(&self) -> SampleView {
        SampleView {
            boot_id: self.boot_id@,
            observed_at_ms: self.observed_at_ms,
            boottime_ms: self.boottime_ms,
            boot_started_at_ms: self.boot_started_at_ms,
        }
    }
}

/// The sample of a kernel that has been up for `boottime_ms` at
/// `observed_at_ms`: its start is the one less the other.
pub open spec fn sample_of(boot_id: Seq<char>, observed_at_ms: i64, boottime_ms: i64) -> SampleView {
    SampleView {
        boot_id,
        observed_at_ms,
        boottime_ms,
        boot_started_at_ms: clamp_i64(observed_at_ms - boottime_ms),
    }
}

impl SystemSample {
    pub fn new(boot_id: &str, observed_at_ms: i64, boottime_ms: i64) -> (sample: Self)
        ensures
            sample@ == sample_of(boot_id@, observed_at_ms, boottime_ms),
    {
        SystemSample {
            boot_id: boot_id.to_owned(),
            observed_at_ms,
            boottime_ms,
            boot_started_at_ms: saturating_difference(observed_at_ms, boottime_ms),
        }
    }
}

/// What an event in the log says happened.
#[derive(Clone, Debug, PartialEq, Eq, Structural)]
pub enum EventKind {
    BootChanged,
    MonitorRestarted,
    HeartbeatGap,
    ClockAnomaly,
}

/// The name under which an event kind is stored and shown.
pub open spec fn kind_name(kind: EventKind) -> Seq<char> {
    match kind {
        EventKind::BootChanged => "boot_changed"@,
        EventKind::MonitorRestarted => "monitor_restarted"@,
        EventKind::HeartbeatGap => "heartbeat_gap"@,
        EventKind::ClockAnomaly => "clock_anomaly"@,
    }
}

impl EventKind {
    pub fn as_str(&self) -> (name: &'static str)
        ensures
            name@ == kind_name(*self),
    {
        match self {
            EventKind::BootChanged => "boot_changed",
            EventKind::MonitorRestarted => "monitor_restarted",
            EventKind::HeartbeatGap => "heartbeat_gap",
            EventKind::ClockAnomaly => "clock_anomaly",
        }
    }
}

/// The names of the event kinds differ from one another.
pub proof fn law_kind_names_distinct(left: EventKind, right: EventKind)
    ensures
        kind_name(left) == kind_name(right) ==> left == right,
{
    reveal_strlit("boot_changed");
    reveal_strlit("monitor_restarted");
    reveal_strlit("heartbeat_gap");
    reveal_strlit("clock_anomaly");
    if left != right {
        assert(kind_name(left).len() != kind_name(right).len() || kind_name(left)[0] != kind_name(right)[0]);
    }
}

/// An event as it is listed.
#[derive(Clone, Debug)]
pub struct EventRecord {
    pub id: i64,
    pub kind: String,
    pub detected_at_ms: i64,
    pub previous_boot_id: Option<String>,
    pub current_boot_id: String,
    pub window_start_ms: Option<i64>,
    pub window_end_ms: Option<i64>,
    pub graceful: Option<bool>,
    pub details: Option<String>,
}

/// A listed event with its texts as characters.
#[verifier::ext_equal]
pub struct RecordView {
    pub id: i64,
    pub kind: Seq<char>,
    pub detected_at_ms: i64,
    pub previous_boot_id: Option<Seq<char>>,
    pub current_boot_id: Seq<char>,
    pub window_start_ms: Option<i64>,
    pub window_end_ms: Option<i64>,
    pub graceful: Option<bool>,
    pub details: Option<Seq<char>>,
}

impl View for EventRecord {
    type V = RecordView;

    open spec fn view(&self) -> RecordView {
        RecordView {
            id: self.id,
            kind: self.kind@,
            detected_at_ms: self.detected_at_ms,
            previous_boot_id: optional_text(self.previous_boot_id),
            current_boot_id: self.current_boot_id@,
            window_start_ms: self.window_start_ms,
            window_end_ms: self.window_end_ms,
            graceful: self.graceful,
            details: optional_text(self.details),
        }
    }
}

/// The state of the monitor as it is reported.
#[derive(Clone, Debug)]
pub struct CurrentStatus {
    pub boot_id: String,
    pub boot_started_at_ms: i64,
    pub first_seen_at_ms: i64,
    pub last_heartbeat_at_ms: i64,
    pub last_boottime_ms: i64,
    pub monitor_active: bool,
    pub monitor_generation: i64,
    pub ended_at_ms: Option<i64>,
    pub end_reason: Option<String>,
    pub boot_change_count: i64,
    pub total_event_count: i64,
}

/// A reported state with its texts as characters.
#[verifier::ext_equal]
pub struct StatusView {
    pub boot_id: Seq<char>,
    pub boot_started_at_ms: i64,
    pub first_seen_at_ms: i64,
    pub last_heartbeat_at_ms: i64,
    pub last_boottime_ms: i64,
    pub monitor_active: bool,
    pub monitor_generation: i64,
    pub ended_at_ms: Option<i64>,
    pub end_reason: Option<Seq<char>>,
    pub boot_change_count: i64,
    pub total_event_count: i64,
}

impl View for CurrentStatus {
    type V = StatusView;

    open spec fn view(&self) -> StatusView {
        StatusView {
            boot_id: self.boot_id@,
            boot_started_at_ms: self.boot_started_at_ms,
            first_seen_at_ms: self.first_seen_at_ms,
            last_heartbeat_at_ms: self.last_heartbeat_at_ms,
            last_boottime_ms: self.last_boottime_ms,
            monitor_active: self.monitor_active,
            monitor_generation: self.monitor_generation,
            ended_at_ms: self.ended_at_ms,
            end_reason: optional_text(self.end_reason),
            boot_change_count: self.boot_change_count,
            total_event_count: self.total_event_count,
        }
    }
}

/// A copy of an optional text.
pub fn copy_text(text: &Option<String>) -> (copy: Option<String>)
    ensures
        optional_text(copy) == optional_text(*text),
{
    match text {
        Some(text) => Some(text.clone()),
        None => None,
    }
}

/// The text of a timestamp, given the date text of it where there is one.
pub open spec fn timestamp_or_invalid(written: Option<Seq<char>>, unix_ms: i64) -> Seq<char> {
    match written {
        Some(written) => written,
        None => "invalid("@ + decimal(unix_ms as int) + ")"@,
    }
}

/// The text of a timestamp: its date in UTC, or the number itself where the
/// calendar does not reach.
pub open spec fn timestamp_text(unix_ms: i64) -> Seq<char> {
    timestamp_or_invalid(
        if MIN_UTC_MILLIS <= unix_ms <= MAX_UTC_MILLIS {
            Some(rfc3339_millis(unix_ms))
        } else {
            None
        },
        unix_ms,
    )
}

/// Takes the date text of a timestamp, or writes the number in its place.
pub fn written_or_invalid(written: Option<String>, unix_ms: i64) -> (text: String)
    ensures
        text@ == timestamp_or_invalid(optional_text(written), unix_ms),
{
    match written {
        Some(written) => written,
        None => {
            let mut text = "invalid(".to_owned();
            append_decimal(&mut text, unix_ms);
            text.append(")");
            text
        },
    }
}

/// Writes a timestamp as RFC 3339 in UTC with milliseconds, or as
/// `invalid(<number>)` where no date can be given.
pub fn format_timestamp(unix_ms: i64) -> (text: String)
    ensures
        text@ == timestamp_text(unix_ms),
{
    written_or_invalid(utc_text(unix_ms), unix_ms)
}

/// A sample holds what was read, and its boot started as long before it was
/// taken as the kernel has been up, or at the nearest time that there is a
/// number for.
pub proof fn law_boot_start_lies_an_uptime_back(boot_id: Seq<char>, observed_at_ms: i64, boottime_ms: i64)
    ensures
        ({
            let sample = sample_of(boot_id, observed_at_ms, boottime_ms);
            &&& sample.boot_id == boot_id
            &&& sample.observed_at_ms == observed_at_ms
            &&& sample.boottime_ms == boottime_ms
            &&& i64::MIN <= observed_at_ms - boottime_ms <= i64::MAX ==> sample.boot_started_at_ms + boottime_ms
                == observed_at_ms
            &&& observed_at_ms - boottime_ms > i64::MAX ==> sample.boot_started_at_ms == i64::MAX
            &&& observed_at_ms - boottime_ms < i64::MIN ==> sample.boot_started_at_ms == i64::MIN
        }),
{
}

/// A timestamp that there is a date for is shown as that date and nothing
/// else; any other is shown as its number between `invalid(` and `)`, so that
/// no two of them are shown alike.
pub proof fn law_timestamps_are_told_apart(unix_ms: i64, other_ms: i64)
    ensures
        MIN_UTC_MILLIS <= unix_ms <= MAX_UTC_MILLIS ==> timestamp_text(unix_ms) == rfc3339_millis(unix_ms),
        !(MIN_UTC_MILLIS <= unix_ms <= MAX_UTC_MILLIS) ==> {
            let text = timestamp_text(unix_ms);
            &&& "invalid("@.is_prefix_of(text)
            &&& ")"@.is_suffix_of(text)
            &&& text.len() == 9 + decimal(unix_ms as int).len()
            &&& text.subrange(8, text.len() - 1) == decimal(unix_ms as int)
        },
        !(MIN_UTC_MILLIS <= unix_ms <= MAX_UTC_MILLIS) && !(MIN_UTC_MILLIS <= other_ms <= MAX_UTC_MILLIS)
            && timestamp_text(unix_ms) == timestamp_text(other_ms) ==> unix_ms == other_ms,
{
    reveal_strlit("invalid(");
    reveal_strlit(")");
    let text = timestamp_text(unix_ms);
    let other = timestamp_text(other_ms);
    if !(MIN_UTC_MILLIS <= unix_ms <= MAX_UTC_MILLIS) {
        assert(text.subrange(8, text.len() - 1) =~= decimal(unix_ms as int));
        assert(text.subrange(0, 8) =~= "invalid("@);
        if !(MIN_UTC_MILLIS <= other_ms <= MAX_UTC_MILLIS) && text == other {
            assert(other.subrange(8, other.len() - 1) =~= decimal(other_ms as int));
            lemma_decimal(unix_ms as int, other_ms as int);
        }
    }
}

} // verus!
