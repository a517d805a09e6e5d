//! What the command line asks for and what it shows.

use vstd::prelude::*;
use vstd::string::StringExecFns;

use crate::external::{debug_form, debug_text, json_string, json_string_text};
use crate::model::{
    format_timestamp, kind_name, law_kind_names_distinct, optional_text, timestamp_text, CurrentStatus, EventKind,
    EventRecord, RecordView, StatusView,
};
use crate::monitor::{truth, truth_text};
use crate::text::{append_decimal, append_nat, append_two_digits, decimal, decimal_nat, two_digits};

verus! {

// ---------------------------------------------------------------------------
// Requests
// ---------------------------------------------------------------------------

/// The most events that a listing may ask for.
pub const MAX_HISTORY_LIMIT: usize = 10_000;

/// Why a listing is refused.
#[derive(Clone, Debug)]
pub enum RequestError {
    LimitOutOfRange,
    InvalidKind { kind: String },
}

/// A request error with its text as characters.
#[verifier::ext_equal]
pub enum RequestErrorView {
    LimitOutOfRange,
    InvalidKind { kind: Seq<char> },
}

impl View for RequestError {
    type V = RequestErrorView;

    open spec fn view(&self) -> RequestErrorView {
        match *self {
            RequestError::LimitOutOfRange => RequestErrorView::LimitOutOfRange,
            RequestError::InvalidKind { kind } => RequestErrorView::InvalidKind { kind: kind@ },
        }
    }
}

/// What is said of a refused listing, given the quoted form of the kind.
pub open spec fn request_message_with(error: RequestErrorView, quoted: Seq<char>) -> Seq<char> {
    match error {
        RequestErrorView::LimitOutOfRange => "history limit must be between 1 and 10000"@,
        RequestErrorView::InvalidKind { kind } => "invalid event kind "@ + quoted
            + "; expected boot_changed, monitor_restarted, heartbeat_gap, or clock_anomaly"@,
    }
}

/// What is said of a refused listing.
pub open spec fn request_message(error: RequestErrorView) -> Seq<char> {
    match error {
        RequestErrorView::LimitOutOfRange => request_message_with(error, Seq::empty()),
        RequestErrorView::InvalidKind { kind } => request_message_with(error, debug_form(kind)),
    }
}

impl RequestError {
    /// Says why the listing is refused, given the quoted form of the kind.
    pub fn message_with(&self, quoted: &str) -> (message: String)
        ensures
            message@ == request_message_with(self@, quoted@),
    {
        match self {
            RequestError::LimitOutOfRange => "history limit must be between 1 and 10000".to_owned(),
            RequestError::InvalidKind { kind: _ } => {
                let mut message: String = "invalid event kind ".to_owned();
                message.append(quoted);
                message.append("; expected boot_changed, monitor_restarted, heartbeat_gap, or clock_anomaly");
                message
            },
        }
    }

    /// Says why the listing is refused.
    pub fn message(&self) -> (message: String)
        ensures
            message@ == request_message(self@),
    {
        match self {
            RequestError::LimitOutOfRange => self.message_with(""),
            RequestError::InvalidKind { kind } => self.message_with(debug_text(kind.as_str()).as_str()),
        }
    }
}

/// Whether a text names an event kind.
pub open spec fn is_kind_name(text: Seq<char>) -> bool {
    exists|kind: EventKind| text == #[trigger] kind_name(kind)
}

/// Checks that a text names an event kind.
pub fn validate_kind(kind: &str) -> (checked: Result<(), RequestError>)
    ensures
        match checked {
            Ok(()) => is_kind_name(kind@),
            Err(error) => !is_kind_name(kind@) && error@ == (RequestErrorView::InvalidKind { kind: kind@ }),
        },
{
    let given: String = kind.to_owned();
    let known: bool = given == EventKind::BootChanged.as_str().to_owned() || given
        == EventKind::MonitorRestarted.as_str().to_owned() || given == EventKind::HeartbeatGap.as_str().to_owned()
        || given == EventKind::ClockAnomaly.as_str().to_owned();
    if known {
        Ok(())
    } else {
        Err(RequestError::InvalidKind { kind: given })
    }
}

/// The kind that a text names, if it names one, is the only one.
pub proof fn law_kind_is_named_once(text: Seq<char>, left: EventKind, right: EventKind)
    requires
        text == kind_name(left),
        text == kind_name(right),
    ensures
        left == right,
        is_kind_name(text),
{
    law_kind_names_distinct(left, right);
}

/// Checks a request for a listing: the limit first, then the kind, if one is
/// asked for.
pub fn check_history_request(limit: usize, kind: Option<&str>) -> (checked: Result<(), RequestError>)
    ensures
        ({
            let in_range = 1 <= limit <= MAX_HISTORY_LIMIT;
            match checked {
                Ok(()) => in_range && (kind matches Some(kind) ==> is_kind_name(kind@)),
                Err(error) => match error@ {
                    RequestErrorView::LimitOutOfRange => !in_range,
                    RequestErrorView::InvalidKind { kind: named } => {
                        &&& in_range
                        &&& kind matches Some(kind) && named == kind@ && !is_kind_name(kind@)
                    },
                },
            }
        }),
{
    if limit < 1 || limit > MAX_HISTORY_LIMIT {
        return Err(RequestError::LimitOutOfRange);
    }
    match kind {
        Some(kind) => validate_kind(kind),
        None => Ok(()),
    }
}

// ---------------------------------------------------------------------------
// The status
// ---------------------------------------------------------------------------

/// The whole seconds of an uptime, none where it is negative.
pub open spec fn uptime_seconds(milliseconds: i64) -> nat {
    if milliseconds < 0 {
        0
    } else {
        milliseconds as nat / 1_000
    }
}

/// An uptime as days, hours, minutes and seconds.
pub open spec fn duration_text(milliseconds: i64) -> Seq<char> {
    let seconds = uptime_seconds(milliseconds);
    decimal_nat(seconds / 86_400) + "d "@ + two_digits(seconds % 86_400 / 3_600) + ":"@ + two_digits(
        seconds % 3_600 / 60,
    ) + ":"@ + two_digits(seconds % 60)
}

/// Writes an uptime as days, hours, minutes and seconds.
pub fn format_duration(milliseconds: i64) -> (text: String)
    ensures
        text@ == duration_text(milliseconds),
{
    let total_seconds: u64 = if milliseconds < 0 {
        0
    } else {
        milliseconds as u64 / 1_000
    };
    let mut text: String = "".to_owned();
    append_nat(&mut text, total_seconds / 86_400);
    proof {
        reveal_strlit("");
        assert(text@ =~= decimal_nat(total_seconds as nat / 86_400));
    }
    text.append("d ");
    append_two_digits(&mut text, total_seconds % 86_400 / 3_600);
    text.append(":");
    append_two_digits(&mut text, total_seconds % 3_600 / 60);
    text.append(":");
    append_two_digits(&mut text, total_seconds % 60);
    text
}

/// The parts of an uptime add up to it, and none of them overflows into the
/// next.
pub proof fn law_duration_parts_add_up(seconds: nat)
    ensures
        seconds == seconds / 86_400 * 86_400 + seconds % 86_400 / 3_600 * 3_600 + seconds % 3_600 / 60 * 60
            + seconds % 60,
        seconds % 86_400 / 3_600 < 24,
        seconds % 3_600 / 60 < 60,
        seconds % 60 < 60,
{
}

/// The characters of each line.
pub open spec fn line_views(lines: Seq<String>) -> Seq<Seq<char>> {
    lines.map_values(|line: String| line@)
}

/// The lines of a status, given the texts of its timestamps.
pub open spec fn status_lines_with(
    status: StatusView,
    started: Seq<char>,
    first_seen: Seq<char>,
    last_heartbeat: Seq<char>,
    ended: Option<Seq<char>>,
) -> Seq<Seq<char>> {
    seq![
        "monitor:            "@ + if status.monitor_active {
            "active"@
        } else {
            "inactive"@
        },
        "boot id:            "@ + status.boot_id,
        "boot started:       "@ + started,
        "first observed:     "@ + first_seen,
        "last heartbeat:     "@ + last_heartbeat,
        "kernel uptime:      "@ + duration_text(status.last_boottime_ms),
        "monitor generation: "@ + decimal(status.monitor_generation as int),
        "boot changes:       "@ + decimal(status.boot_change_count as int),
        "all events:         "@ + decimal(status.total_event_count as int),
    ] + match ended {
        Some(ended) => seq!["monitor ended:      "@ + ended],
        None => seq![],
    } + match status.end_reason {
        Some(reason) => seq!["end reason:         "@ + reason],
        None => seq![],
    }
}

/// The text of an optional timestamp.
pub open spec fn optional_timestamp(unix_ms: Option<i64>) -> Option<Seq<char>> {
    match unix_ms {
        Some(unix_ms) => Some(timestamp_text(unix_ms)),
        None => None,
    }
}

/// The lines of a status.
pub open spec fn status_lines(status: StatusView) -> Seq<Seq<char>> {
    status_lines_with(
        status,
        timestamp_text(status.boot_started_at_ms),
        timestamp_text(status.first_seen_at_ms),
        timestamp_text(status.last_heartbeat_at_ms),
        optional_timestamp(status.ended_at_ms),
    )
}

/// A label with a text behind it.
fn labelled(label: &str, text: &str) -> (line: String)
    ensures
        line@ == label@ + text@,
{
    let mut line: String = label.to_owned();
    line.append(text);
    line
}

/// A label with a number behind it.
fn numbered_line(label: &str, value: i64) -> (line: String)
    ensures
        line@ == label@ + decimal(value as int),
{
    let mut line: String = label.to_owned();
    append_decimal(&mut line, value);
    line
}

/// Lays a status out, given the texts of its timestamps.
pub fn render_status_with(
    status: &CurrentStatus,
    started: &str,
    first_seen: &str,
    last_heartbeat: &str,
    ended: &Option<String>,
) -> (lines: Vec<String>)
    ensures
        line_views(lines@) == status_lines_with(
            status@,
            started@,
            first_seen@,
            last_heartbeat@,
            optional_text(*ended),
        ),
{
    let activity: &str = if status.monitor_active {
        "active"
    } else {
        "inactive"
    };
    let mut lines: Vec<String> = Vec::new();
    lines.push(labelled("monitor:            ", activity));
    lines.push(labelled("boot id:            ", status.boot_id.as_str()));
    lines.push(labelled("boot started:       ", started));
    lines.push(labelled("first observed:     ", first_seen));
    lines.push(labelled("last heartbeat:     ", last_heartbeat));
    lines.push(labelled("kernel uptime:      ", format_duration(status.last_boottime_ms).as_str()));
    lines.push(numbered_line("monitor generation: ", status.monitor_generation));
    lines.push(numbered_line("boot changes:       ", status.boot_change_count));
    lines.push(numbered_line("all events:         ", status.total_event_count));
    if let Some(ended) = ended {
        lines.push(labelled("monitor ended:      ", ended.as_str()));
    }
    if let Some(reason) = &status.end_reason {
        lines.push(labelled("end reason:         ", reason.as_str()));
    }
    assert(line_views(lines@) =~= status_lines_with(
        status@,
        started@,
        first_seen@,
        last_heartbeat@,
        optional_text(*ended),
    ));
    lines
}

/// Lays a status out.
pub fn render_status(status: &CurrentStatus) -> (lines: Vec<String>)
    ensures
        line_views(lines@) == status_lines(status@),
{
    let started: String = format_timestamp(status.boot_started_at_ms);
    let first_seen: String = format_timestamp(status.first_seen_at_ms);
    let last_heartbeat: String = format_timestamp(status.last_heartbeat_at_ms);
    let ended: Option<String> = match status.ended_at_ms {
        Some(unix_ms) => Some(format_timestamp(unix_ms)),
        None => None,
    };
    render_status_with(status, started.as_str(), first_seen.as_str(), last_heartbeat.as_str(), &ended)
}

// ---------------------------------------------------------------------------
// The history
// ---------------------------------------------------------------------------

/// The texts of an event's timestamps: when it was detected, and the ends of
/// its evidence window where it has both.
pub struct EventTimes {
    pub detected: String,
    pub window: Option<(String, String)>,
}

/// The texts of an event's timestamps as characters.
#[verifier::ext_equal]
pub struct EventTimesView {
    pub detected: Seq<char>,
    pub window: Option<(Seq<char>, Seq<char>)>,
}

impl View for EventTimes {
    type V = EventTimesView;

    open spec fn view(&self) -> EventTimesView {
        EventTimesView {
            detected: self.detected@,
            window: match self.window {
                Some((start, end)) => Some((start@, end@)),
                None => None,
            },
        }
    }
}

/// Whether an event was graceful, where that is known.
pub open spec fn graceful_text(graceful: Option<bool>) -> Seq<char> {
    match graceful {
        Some(value) => truth(value),
        None => "unknown"@,
    }
}

/// The lines of an event, given the texts of its timestamps.
pub open spec fn event_lines_with(event: RecordView, times: EventTimesView) -> Seq<Seq<char>> {
    seq![
        "#"@ + decimal(event.id as int) + " "@ + event.kind + " detected="@ + times.detected + " graceful="@
            + graceful_text(event.graceful),
        match event.previous_boot_id {
            Some(previous) => "  boot: "@ + previous + " -> "@ + event.current_boot_id,
            None => "  boot: "@ + event.current_boot_id,
        },
    ] + match times.window {
        Some((start, end)) => seq!["  evidence window: "@ + start + " .. "@ + end],
        None => seq![],
    } + match event.details {
        Some(details) => seq!["  details: "@ + details],
        None => seq![],
    }
}

/// The texts of an event's timestamps.
pub open spec fn event_times(event: RecordView) -> EventTimesView {
    EventTimesView {
        detected: timestamp_text(event.detected_at_ms),
        window: match (event.window_start_ms, event.window_end_ms) {
            (Some(start), Some(end)) => Some((timestamp_text(start), timestamp_text(end))),
            _ => None,
        },
    }
}

/// The lines of events, one after the other.
pub open spec fn lines_of(events: Seq<RecordView>) -> Seq<Seq<char>>
    decreases events.len(),
{
    if events.len() == 0 {
        seq![]
    } else {
        lines_of(events.drop_last()) + event_lines_with(events.last(), event_times(events.last()))
    }
}

/// The lines of a listing.
pub open spec fn history_lines(events: Seq<RecordView>) -> Seq<Seq<char>> {
    if events.len() == 0 {
        seq!["no events"@]
    } else {
        lines_of(events)
    }
}

/// Lays an event out, given the texts of its timestamps.
pub fn render_event_with(event: &EventRecord, times: &EventTimes) -> (lines: Vec<String>)
    ensures
        line_views(lines@) == event_lines_with(event@, times@),
{
    let graceful: &str = match event.graceful {
        Some(value) => truth_text(value),
        None => "unknown",
    };
    let mut headline: String = "#".to_owned();
    append_decimal(&mut headline, event.id);
    headline.append(" ");
    headline.append(event.kind.as_str());
    headline.append(" detected=");
    headline.append(times.detected.as_str());
    headline.append(" graceful=");
    headline.append(graceful);
    let mut boot: String = "  boot: ".to_owned();
    if let Some(previous) = &event.previous_boot_id {
        boot.append(previous.as_str());
        boot.append(" -> ");
    }
    boot.append(event.current_boot_id.as_str());
    let mut lines: Vec<String> = Vec::new();
    lines.push(headline);
    lines.push(boot);
    if let Some((start, end)) = &times.window {
        let mut window: String = "  evidence window: ".to_owned();
        window.append(start.as_str());
        window.append(" .. ");
        window.append(end.as_str());
        lines.push(window);
    }
    if let Some(details) = &event.details {
        lines.push(labelled("  details: ", details.as_str()));
    }
    assert(line_views(lines@) =~= event_lines_with(event@, times@));
    lines
}

/// Writes the timestamps of an event.
fn format_event_times(event: &EventRecord) -> (times: EventTimes)
    ensures
        times@ == event_times(event@),
{
    EventTimes {
        detected: format_timestamp(event.detected_at_ms),
        window: match (event.window_start_ms, event.window_end_ms) {
            (Some(start), Some(end)) => Some((format_timestamp(start), format_timestamp(end))),
            _ => None,
        },
    }
}

/// Lays a listing out.
pub fn render_history(events: &Vec<EventRecord>) -> (lines: Vec<String>)
    ensures
        line_views(lines@) == history_lines(events@.map_values(|event: EventRecord| event@)),
{
    let ghost records = events@.map_values(|event: EventRecord| event@);
    let mut lines: Vec<String> = Vec::new();
    if events.len() == 0 {
        lines.push("no events".to_owned());
        assert(line_views(lines@) =~= seq!["no events"@]);
        return lines;
    }
    assert(line_views(lines@) =~= lines_of(records.take(0)));
    let mut i: usize = 0;
    while i < events.len()
        invariant
            i <= events.len(),
            records == events@.map_values(|event: EventRecord| event@),
            line_views(lines@) == lines_of(records.take(i as int)),
        decreases events.len() - i,
    {
        let ghost before = lines@;
        let mut further: Vec<String> = render_event_with(&events[i], &format_event_times(&events[i]));
        let ghost added = further@;
        lines.append(&mut further);
        proof {
            assert(records.take(i + 1).drop_last() =~= records.take(i as int));
            assert(records.take(i + 1).last() == events[i as int]@);
            assert(line_views(before + added) =~= line_views(before) + line_views(added));
        }
        i += 1;
    }
    assert(records.take(i as int) =~= records);
    lines
}

// ---------------------------------------------------------------------------
// The health check
// ---------------------------------------------------------------------------

/// The exit code of a command that succeeded.
pub const EXIT_HEALTHY: u8 = 0;

/// The exit code of a health check that failed.
pub const EXIT_UNHEALTHY: u8 = 1;

/// The exit code of a command that could not be carried out.
pub const EXIT_ERROR: u8 = 2;

/// What a health check prints, and its exit code.
pub struct CheckReport {
    pub line: String,
    pub exit_code: u8,
}

/// The line of a health check that found `refusal`.
pub open spec fn check_line(refusal: Option<Seq<char>>, json: bool) -> Seq<char> {
    match refusal {
        None => if json {
            "{\"healthy\":true,\"reason\":null}"@
        } else {
            "healthy"@
        },
        Some(reason) => if json {
            "{\"healthy\":false,\"reason\":"@ + json_string(reason) + "}"@
        } else {
            "unhealthy: "@ + reason
        },
    }
}

/// Reports a health check.
pub fn render_check(health: &Result<(), String>, json: bool) -> (report: CheckReport)
    ensures
        match *health {
            Ok(()) => report.line@ == check_line(None, json) && report.exit_code == EXIT_HEALTHY,
            Err(reason) => report.line@ == check_line(Some(reason@), json) && report.exit_code
                == EXIT_UNHEALTHY,
        },
{
    match health {
        Ok(()) => {
            let line: &str = if json {
                "{\"healthy\":true,\"reason\":null}"
            } else {
                "healthy"
            };
            CheckReport { line: line.to_owned(), exit_code: EXIT_HEALTHY }
        },
        Err(reason) => {
            let line: String = if json {
                let mut line: String = "{\"healthy\":false,\"reason\":".to_owned();
                line.append(json_string_text(reason.as_str()).as_str());
                line.append("}");
                line
            } else {
                labelled("unhealthy: ", reason.as_str())
            };
            CheckReport { line, exit_code: EXIT_UNHEALTHY }
        },
    }
}

// ---------------------------------------------------------------------------
// What the lines say
// ---------------------------------------------------------------------------

/// A text names an event kind exactly if it is one of the four names.
pub proof fn law_kind_names_are_four(text: Seq<char>)
    ensures
        is_kind_name(text) <==> {
            ||| text == "boot_changed"@
            ||| text == "monitor_restarted"@
            ||| text == "heartbeat_gap"@
            ||| text == "clock_anomaly"@
        },
{
    assert(kind_name(EventKind::BootChanged) == "boot_changed"@);
    assert(kind_name(EventKind::MonitorRestarted) == "monitor_restarted"@);
    assert(kind_name(EventKind::HeartbeatGap) == "heartbeat_gap"@);
    assert(kind_name(EventKind::ClockAnomaly) == "clock_anomaly"@);
}

/// A refused kind is shown, quoted, before the names that are accepted.
pub proof fn law_refused_kind_is_shown(kind: Seq<char>, quoted: Seq<char>)
    ensures
        ({
            let message = request_message_with(RequestErrorView::InvalidKind { kind }, quoted);
            let expected = "; expected boot_changed, monitor_restarted, heartbeat_gap, or clock_anomaly"@;
            &&& ("invalid event kind "@ + quoted).is_prefix_of(message)
            &&& expected.is_suffix_of(message)
            &&& message.len() == "invalid event kind "@.len() + quoted.len() + expected.len()
        }),
        request_message(RequestErrorView::InvalidKind { kind }) == request_message_with(
            RequestErrorView::InvalidKind { kind },
            debug_form(kind),
        ),
        request_message(RequestErrorView::LimitOutOfRange) == "history limit must be between 1 and 10000"@,
{
}

/// The seconds of an uptime are those that are over, and none where it is
/// negative.
pub proof fn law_uptime_counts_whole_seconds(milliseconds: i64)
    ensures
        milliseconds >= 0 ==> uptime_seconds(milliseconds) * 1_000 <= milliseconds < (uptime_seconds(
            milliseconds,
        ) + 1) * 1_000,
        milliseconds < 0 ==> uptime_seconds(milliseconds) == 0,
{
}

/// An uptime is written as days, and as hours, minutes and seconds of two
/// digits each, none of them overflowing into the next; together they are its
/// whole seconds.
pub proof fn law_uptime_reads_back(milliseconds: i64, days: nat, hours: nat, minutes: nat, seconds: nat)
    requires
        hours < 24,
        minutes < 60,
        seconds < 60,
        ({
            let total = (days * 86_400 + hours * 3_600 + minutes * 60 + seconds) * 1_000;
            total <= milliseconds < total + 1_000 || milliseconds < 0 && total == 0
        }),
    ensures
        duration_text(milliseconds) == decimal(days as int) + "d "@ + two_digits(hours) + ":"@ + two_digits(minutes)
            + ":"@ + two_digits(seconds),
{
    let total = uptime_seconds(milliseconds);
    assert(total == days * 86_400 + hours * 3_600 + minutes * 60 + seconds);
    assert(total / 86_400 == days);
    assert(total % 86_400 == hours * 3_600 + minutes * 60 + seconds);
    assert(total % 86_400 / 3_600 == hours);
    assert(total % 3_600 == minutes * 60 + seconds) by {
        assert(total == (days * 24 + hours) * 3_600 + (minutes * 60 + seconds));
    }
    assert(total % 3_600 / 60 == minutes);
    assert(total % 60 == seconds);
}

/// The status has a line for each thing that it says, in this order, and lines
/// for the end of the monitor and for its reason exactly where there are such.
/// Each line begins with its label and ends with what the status says.
pub proof fn law_status_lines_tell_the_status(status: StatusView)
    ensures
        ({
            let lines = status_lines(status);
            let ended = if status.ended_at_ms is Some {
                1int
            } else {
                0int
            };
            let reasoned = if status.end_reason is Some {
                1int
            } else {
                0int
            };
            &&& lines.len() == 9 + ended + reasoned
            &&& status.monitor_active ==> lines[0] == "monitor:            "@ + "active"@
            &&& !status.monitor_active ==> lines[0] == "monitor:            "@ + "inactive"@
            &&& lines[1] == "boot id:            "@ + status.boot_id
            &&& lines[2] == "boot started:       "@ + timestamp_text(status.boot_started_at_ms)
            &&& lines[3] == "first observed:     "@ + timestamp_text(status.first_seen_at_ms)
            &&& lines[4] == "last heartbeat:     "@ + timestamp_text(status.last_heartbeat_at_ms)
            &&& lines[5] == "kernel uptime:      "@ + duration_text(status.last_boottime_ms)
            &&& lines[6] == "monitor generation: "@ + decimal(status.monitor_generation as int)
            &&& lines[7] == "boot changes:       "@ + decimal(status.boot_change_count as int)
            &&& lines[8] == "all events:         "@ + decimal(status.total_event_count as int)
            &&& status.ended_at_ms matches Some(unix_ms) ==> lines[9] == "monitor ended:      "@
                + timestamp_text(unix_ms)
            &&& status.end_reason matches Some(reason) ==> lines[9 + ended] == "end reason:         "@ + reason
        }),
{
}

/// A status whose timestamps are given as texts shows them where the status
/// itself would show its timestamps.
pub proof fn law_status_lines_take_the_texts(
    status: StatusView,
    started: Seq<char>,
    first_seen: Seq<char>,
    last_heartbeat: Seq<char>,
    ended: Option<Seq<char>>,
)
    ensures
        ({
            let lines = status_lines_with(status, started, first_seen, last_heartbeat, ended);
            let shown = status_lines(status);
            &&& lines[2] == "boot started:       "@ + started
            &&& lines[3] == "first observed:     "@ + first_seen
            &&& lines[4] == "last heartbeat:     "@ + last_heartbeat
            &&& ended matches Some(text) ==> lines[9] == "monitor ended:      "@ + text
            &&& (ended is Some) == (status.ended_at_ms is Some) ==> lines.len() == shown.len() && forall|i: int|
                0 <= i < lines.len() && i != 2 && i != 3 && i != 4 && !(i == 9 && ended is Some)
                    ==> #[trigger] lines[i] == shown[i]
        }),
{
}

/// Whether `text` ends in `tail`.
pub open spec fn ends_in(text: Seq<char>, tail: Seq<char>) -> bool {
    tail.is_suffix_of(text)
}

/// The first line of an event tells whether it was graceful: it ends in
/// `graceful=true` exactly if it was, in `graceful=false` exactly if it was
/// not, and in `graceful=unknown` exactly if that is not known.
pub proof fn law_event_line_tells_graceful(event: RecordView, times: EventTimesView)
    ensures
        ({
            let line = event_lines_with(event, times)[0];
            &&& ends_in(line, " graceful=true"@) <==> event.graceful == Some(true)
            &&& ends_in(line, " graceful=false"@) <==> event.graceful == Some(false)
            &&& ends_in(line, " graceful=unknown"@) <==> event.graceful is None
        }),
{
    reveal_strlit(" graceful=");
    reveal_strlit("true");
    reveal_strlit("false");
    reveal_strlit("unknown");
    reveal_strlit(" graceful=true");
    reveal_strlit(" graceful=false");
    reveal_strlit(" graceful=unknown");
    let line = event_lines_with(event, times)[0];
    let head = "#"@ + decimal(event.id as int) + " "@ + event.kind + " detected="@ + times.detected;
    let tail = " graceful="@ + graceful_text(event.graceful);
    assert(line =~= head + tail);
    let yes = " graceful=true"@;
    let no = " graceful=false"@;
    let open = " graceful=unknown"@;
    assert(yes =~= " graceful="@ + "true"@);
    assert(no =~= " graceful="@ + "false"@);
    assert(open =~= " graceful="@ + "unknown"@);
    assert(tail.is_suffix_of(line));
    // The last character and the fourth from the end tell the three apart.
    assert(line.last() == tail.last());
    assert(line[line.len() - 4] == tail[tail.len() - 4]);
    if ends_in(line, yes) {
        assert(line.last() == yes.last());
        assert(line[line.len() - 4] == yes[yes.len() - 4]);
    }
    if ends_in(line, no) {
        assert(line.last() == no.last());
        assert(line[line.len() - 4] == no[no.len() - 4]);
    }
    if ends_in(line, open) {
        assert(line.last() == open.last());
    }
}

/// The lines of an event: a first one with its number, its kind and when it
/// was detected, then the boots, then the evidence window and the details
/// where there are such.
pub proof fn law_event_lines_tell_the_event(event: RecordView, times: EventTimesView)
    ensures
        ({
            let lines = event_lines_with(event, times);
            let windowed = if times.window is Some {
                1int
            } else {
                0int
            };
            let detailed = if event.details is Some {
                1int
            } else {
                0int
            };
            let head = "#"@ + decimal(event.id as int) + " "@ + event.kind + " detected="@ + times.detected;
            &&& lines.len() == 2 + windowed + detailed
            &&& head.is_prefix_of(lines[0])
            &&& lines[0].len() == head.len() + " graceful="@.len() + match event.graceful {
                Some(true) => "true"@.len(),
                Some(false) => "false"@.len(),
                None => "unknown"@.len(),
            }
            &&& "  boot: "@.is_prefix_of(lines[1])
            &&& event.current_boot_id.is_suffix_of(lines[1])
            &&& match event.previous_boot_id {
                Some(previous) => lines[1] == "  boot: "@ + previous + " -> "@ + event.current_boot_id,
                None => lines[1] == "  boot: "@ + event.current_boot_id,
            }
            &&& times.window matches Some((start, end)) ==> lines[2] == "  evidence window: "@ + start + " .. "@
                + end
            &&& event.details matches Some(details) ==> lines[2 + windowed] == "  details: "@ + details
        }),
{
    reveal_strlit("true");
    reveal_strlit("false");
    reveal_strlit("unknown");
    let lines = event_lines_with(event, times);
    let head = "#"@ + decimal(event.id as int) + " "@ + event.kind + " detected="@ + times.detected;
    assert(lines[0] =~= head + (" graceful="@ + graceful_text(event.graceful)));
}

/// The times shown of an event are when it was detected and, exactly where
/// both ends of its window are there, these ends in their order.
pub proof fn law_event_times_are_the_events(event: RecordView)
    ensures
        ({
            let times = event_times(event);
            &&& times.detected == timestamp_text(event.detected_at_ms)
            &&& times.window is Some <==> event.window_start_ms is Some && event.window_end_ms is Some
            &&& times.window matches Some((start, end)) ==> {
                &&& start == timestamp_text(event.window_start_ms->0)
                &&& end == timestamp_text(event.window_end_ms->0)
            }
        }),
{
}

/// A listing without events says so. Any other shows the lines of its events
/// one after the other: those of the events before, then those of the last.
pub proof fn law_history_shows_every_event(events: Seq<RecordView>, event: RecordView)
    ensures
        history_lines(Seq::empty()) == seq!["no events"@],
        history_lines(seq![event]) == event_lines_with(event, event_times(event)),
        events.len() > 0 ==> history_lines(events.push(event)) == history_lines(events) + history_lines(
            seq![event],
        ),
{
    assert(seq![event].drop_last() =~= Seq::<RecordView>::empty());
    assert(events.push(event).drop_last() =~= events);
    reveal_with_fuel(lines_of, 2);
    assert(lines_of(seq![event]) =~= event_lines_with(event, event_times(event)));
}

/// A health check says `healthy` exactly if nothing was found, and otherwise
/// `unhealthy` with the reason; as JSON it says whether the monitor is healthy
/// and gives the reason as a string, or null.
pub proof fn law_check_line_tells_the_health(reason: Seq<char>)
    ensures
        check_line(None, false) == "healthy"@,
        check_line(None, true) == "{\"healthy\":true,\"reason\":null}"@,
        ({
            let line = check_line(Some(reason), false);
            &&& "unhealthy: "@.is_prefix_of(line)
            &&& reason.is_suffix_of(line)
            &&& line.len() == "unhealthy: "@.len() + reason.len()
        }),
        ({
            let line = check_line(Some(reason), true);
            &&& "{\"healthy\":false,\"reason\":"@.is_prefix_of(line)
            &&& (json_string(reason) + "}"@).is_suffix_of(line)
            &&& line.len() == "{\"healthy\":false,\"reason\":"@.len() + json_string(reason).len() + "}"@.len()
        }),
{
}

} // verus!
