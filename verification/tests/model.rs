use bootwitness::model::{format_timestamp, written_or_invalid, EventKind, SystemSample};
use bootwitness::numeric::{fit_i64, saturating_difference, saturating_product, saturating_sum};
use bootwitness::text::{append_decimal, append_nat, append_two_digits};

#[test]
fn a_sample_knows_when_its_boot_started() {
    let sample = SystemSample::new("boot-a", 100_000, 10_000);
    assert_eq!(sample.boot_id, "boot-a");
    assert_eq!(sample.observed_at_ms, 100_000);
    assert_eq!(sample.boottime_ms, 10_000);
    assert_eq!(sample.boot_started_at_ms, 90_000);
    assert_eq!(
        SystemSample::new("b", i64::MIN, 1).boot_started_at_ms,
        i64::MIN
    );
    assert_eq!(
        SystemSample::new("b", i64::MAX, -1).boot_started_at_ms,
        i64::MAX
    );
}

#[test]
fn kinds_have_distinct_names() {
    let names = vec![
        EventKind::BootChanged.as_str(),
        EventKind::MonitorRestarted.as_str(),
        EventKind::HeartbeatGap.as_str(),
        EventKind::ClockAnomaly.as_str(),
    ];
    assert_eq!(
        names,
        vec![
            "boot_changed",
            "monitor_restarted",
            "heartbeat_gap",
            "clock_anomaly"
        ]
    );
    for left in 0..names.len() {
        for right in 0..left {
            assert_ne!(names[left], names[right]);
        }
    }
}

#[test]
fn timestamps_are_utc_with_milliseconds() {
    assert_eq!(format_timestamp(0), "1970-01-01T00:00:00.000Z");
    assert_eq!(
        format_timestamp(1_700_000_000_123),
        "2023-11-14T22:13:20.123Z"
    );
    assert_eq!(format_timestamp(-1), "1969-12-31T23:59:59.999Z");
}

#[test]
fn timestamps_beyond_the_calendar_are_shown_as_numbers() {
    assert_eq!(
        format_timestamp(i64::MAX),
        "invalid(9223372036854775807)"
    );
    assert_eq!(
        format_timestamp(i64::MIN),
        "invalid(-9223372036854775808)"
    );
    assert_eq!(written_or_invalid(None, -7), "invalid(-7)");
    assert_eq!(written_or_invalid(Some("then".to_owned()), -7), "then");
}

#[test]
fn the_calendar_ends_where_chrono_ends() {
    assert_eq!(
        format_timestamp(8_210_266_876_799_999),
        "+262142-12-31T23:59:59.999Z"
    );
    assert_eq!(
        format_timestamp(8_210_266_876_800_000),
        "invalid(8210266876800000)"
    );
    assert_eq!(
        format_timestamp(-8_334_601_228_800_000),
        "-262143-01-01T00:00:00.000Z"
    );
    assert_eq!(
        format_timestamp(-8_334_601_228_800_001),
        "invalid(-8334601228800001)"
    );
}

#[test]
fn arithmetic_saturates_as_in_std() {
    let values: Vec<i64> = vec![
        i64::MIN,
        i64::MIN + 1,
        -3_000_000_000_000,
        -1,
        0,
        1,
        2,
        1_000,
        4_000_000_000_000,
        i64::MAX - 1,
        i64::MAX,
    ];
    for left in &values {
        for right in &values {
            assert_eq!(saturating_sum(*left, *right), left.saturating_add(*right));
            assert_eq!(
                saturating_difference(*left, *right),
                left.saturating_sub(*right)
            );
            assert_eq!(
                saturating_product(*left, *right),
                left.saturating_mul(*right)
            );
        }
    }
    assert_eq!(fit_i64(7), Some(7));
    assert_eq!(fit_i64(9_223_372_036_854_775_807), Some(i64::MAX));
    assert_eq!(fit_i64(9_223_372_036_854_775_808), None);
}

#[test]
fn numbers_are_written_as_in_std() {
    let values: Vec<i64> = vec![i64::MIN, -1_000, -10, -1, 0, 7, 10, 99, 12_345, i64::MAX];
    for value in values {
        let mut written = "n=".to_owned();
        append_decimal(&mut written, value);
        assert_eq!(written, format!("n={value}"));
    }
    let mut largest = String::new();
    append_nat(&mut largest, u64::MAX);
    assert_eq!(largest, "18446744073709551615");
    for value in 0..120u64 {
        let mut padded = String::new();
        append_two_digits(&mut padded, value);
        assert_eq!(padded, format!("{value:02}"));
    }
}
