use bootwitness::cli::{
    check_history_request, format_duration, render_check, render_event_with, render_history, render_status,
    render_status_with, validate_kind, EventTimes, RequestError, EXIT_ERROR, EXIT_HEALTHY, EXIT_UNHEALTHY,
};
use bootwitness::model::{CurrentStatus, EventRecord};

fn status() -> CurrentStatus {
    CurrentStatus {
        boot_id: "boot-a".to_owned(),
        boot_started_at_ms: 0,
        first_seen_at_ms: 1_000,
        last_heartbeat_at_ms: 61_000,
        last_boottime_ms: 90_061_999,
        monitor_active: true,
        monitor_generation: 2,
        ended_at_ms: None,
        end_reason: None,
        boot_change_count: 3,
        total_event_count: 5,
    }
}

fn event() -> EventRecord {
    EventRecord {
        id: 7,
        kind: "boot_changed".to_owned(),
        detected_at_ms: 200_000,
        previous_boot_id: Some("boot-a".to_owned()),
        current_boot_id: "boot-b".to_owned(),
        window_start_ms: Some(120_000),
        window_end_ms: Some(190_000),
        graceful: Some(false),
        details: None,
    }
}

#[test]
fn exactly_the_kind_names_are_accepted() {
    assert!(validate_kind("boot_changed").is_ok());
    assert!(validate_kind("monitor_restarted").is_ok());
    assert!(validate_kind("heartbeat_gap").is_ok());
    assert!(validate_kind("clock_anomaly").is_ok());
    assert!(validate_kind("").is_err());
    assert!(validate_kind("Boot_changed").is_err());
    assert_eq!(
        validate_kind("re\"boot").unwrap_err().message(),
        "invalid event kind \"re\\\"boot\"; expected boot_changed, monitor_restarted, heartbeat_gap, or clock_anomaly"
    );
}

#[test]
fn listings_are_checked_limit_first() {
    assert!(check_history_request(1, None).is_ok());
    assert!(check_history_request(10_000, Some("heartbeat_gap")).is_ok());
    let limit = check_history_request(0, Some("nothing")).unwrap_err();
    assert!(matches!(limit, RequestError::LimitOutOfRange));
    assert_eq!(limit.message(), "history limit must be between 1 and 10000");
    assert!(matches!(
        check_history_request(10_001, None),
        Err(RequestError::LimitOutOfRange)
    ));
    let kind = check_history_request(50, Some("nothing")).unwrap_err();
    assert_eq!(
        kind.message_with("<quoted>"),
        "invalid event kind <quoted>; expected boot_changed, monitor_restarted, heartbeat_gap, or clock_anomaly"
    );
}

#[test]
fn uptimes_are_split_into_days_and_clock_time() {
    assert_eq!(format_duration(0), "0d 00:00:00");
    assert_eq!(format_duration(-5), "0d 00:00:00");
    assert_eq!(format_duration(999), "0d 00:00:00");
    assert_eq!(format_duration(90_061_999), "1d 01:01:01");
    assert_eq!(format_duration(86_399_000), "0d 23:59:59");
    assert_eq!(format_duration(i64::MAX), "106751991167d 07:12:55");
}

#[test]
fn a_status_is_laid_out_in_lines() {
    assert_eq!(
        render_status(&status()),
        vec![
            "monitor:            active",
            "boot id:            boot-a",
            "boot started:       1970-01-01T00:00:00.000Z",
            "first observed:     1970-01-01T00:00:01.000Z",
            "last heartbeat:     1970-01-01T00:01:01.000Z",
            "kernel uptime:      1d 01:01:01",
            "monitor generation: 2",
            "boot changes:       3",
            "all events:         5",
        ]
    );
}

#[test]
fn a_stopped_status_says_when_and_why() {
    let mut stopped = status();
    stopped.monitor_active = false;
    stopped.ended_at_ms = Some(62_500);
    stopped.end_reason = Some("signal".to_owned());
    let lines = render_status(&stopped);
    assert_eq!(lines.len(), 11);
    assert_eq!(lines[0], "monitor:            inactive");
    assert_eq!(lines[9], "monitor ended:      1970-01-01T00:01:02.500Z");
    assert_eq!(lines[10], "end reason:         signal");
    let given = render_status_with(&stopped, "s", "f", "l", &Some("e".to_owned()));
    assert_eq!(given[2], "boot started:       s");
    assert_eq!(given[3], "first observed:     f");
    assert_eq!(given[4], "last heartbeat:     l");
    assert_eq!(given[9], "monitor ended:      e");
}

#[test]
fn events_are_laid_out_in_lines() {
    assert_eq!(
        render_history(&vec![event()]),
        vec![
            "#7 boot_changed detected=1970-01-01T00:03:20.000Z graceful=false",
            "  boot: boot-a -> boot-b",
            "  evidence window: 1970-01-01T00:02:00.000Z .. 1970-01-01T00:03:10.000Z",
        ]
    );
}

#[test]
fn events_without_some_fields_have_fewer_lines() {
    let mut bare = event();
    bare.previous_boot_id = None;
    bare.window_end_ms = None;
    bare.graceful = None;
    bare.details = Some("why".to_owned());
    assert_eq!(
        render_history(&vec![bare.clone(), event()]),
        vec![
            "#7 boot_changed detected=1970-01-01T00:03:20.000Z graceful=unknown",
            "  boot: boot-b",
            "  details: why",
            "#7 boot_changed detected=1970-01-01T00:03:20.000Z graceful=false",
            "  boot: boot-a -> boot-b",
            "  evidence window: 1970-01-01T00:02:00.000Z .. 1970-01-01T00:03:10.000Z",
        ]
    );
    assert_eq!(
        render_event_with(
            &bare,
            &EventTimes {
                detected: "d".to_owned(),
                window: Some(("s".to_owned(), "e".to_owned())),
            }
        ),
        vec![
            "#7 boot_changed detected=d graceful=unknown",
            "  boot: boot-b",
            "  evidence window: s .. e",
            "  details: why",
        ]
    );
}

#[test]
fn an_empty_listing_says_so() {
    assert_eq!(render_history(&vec![]), vec!["no events"]);
}

#[test]
fn checks_report_health_with_an_exit_code() {
    let healthy = render_check(&Ok(()), false);
    assert_eq!(healthy.line, "healthy");
    assert_eq!(healthy.exit_code, EXIT_HEALTHY);
    let machine = render_check(&Ok(()), true);
    assert_eq!(machine.line, "{\"healthy\":true,\"reason\":null}");
    let unhealthy = render_check(&Err("too old".to_owned()), false);
    assert_eq!(unhealthy.line, "unhealthy: too old");
    assert_eq!(unhealthy.exit_code, EXIT_UNHEALTHY);
    assert_eq!((EXIT_HEALTHY, EXIT_UNHEALTHY, EXIT_ERROR), (0, 1, 2));
}

#[test]
fn unhealthy_reasons_are_quoted_as_json() {
    let report = render_check(&Err("a\"b\\c\n\t\u{1}\u{7f}\u{e9}".to_owned()), true);
    assert_eq!(
        report.line,
        "{\"healthy\":false,\"reason\":\"a\\\"b\\\\c\\n\\t\\u0001\u{7f}\u{e9}\"}"
    );
    assert_eq!(report.exit_code, EXIT_UNHEALTHY);
}

#[test]
fn every_json_line_can_be_read_back() {
    for code in 0..0x300u32 {
        if let Some(c) = char::from_u32(code) {
            let reason = format!("<{c}>");
            let line = render_check(&Err(reason.clone()), true).line;
            let value: serde_json::Value = serde_json::from_str(&line).unwrap();
            assert_eq!(value["healthy"], serde_json::Value::Bool(false));
            assert_eq!(value["reason"], serde_json::Value::String(reason));
        }
    }
}
