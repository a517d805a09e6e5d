use bootwitness::platform::{
    boottime_millis, trim_text, validate_boot_id, wall_clock_millis, ClockReading, ProbeError, RealSystemProbe,
    SystemProbe,
};

const BOOT_ID: &str = "0f3A5b7c-1234-4abc-8def-0123456789ab";

fn probe() -> RealSystemProbe {
    RealSystemProbe {
        boot_id_text: Ok(format!("{BOOT_ID}\n")),
        since_epoch_ms: Ok(1_700_000_000_000),
        boottime: Ok(ClockReading {
            seconds: 12,
            nanos: 345_999_999,
        }),
    }
}

fn failure(probe: &RealSystemProbe) -> String {
    probe.sample().unwrap_err().message()
}

#[test]
fn readings_make_up_a_sample() {
    let sample = probe().sample().unwrap();
    assert_eq!(sample.boot_id, BOOT_ID);
    assert_eq!(sample.observed_at_ms, 1_700_000_000_000);
    assert_eq!(sample.boottime_ms, 12_345);
    assert_eq!(sample.boot_started_at_ms, 1_699_999_987_655);
}

#[test]
fn the_first_failed_reading_decides() {
    let mut broken = RealSystemProbe {
        boot_id_text: Err("No such file or directory (os error 2)".to_owned()),
        since_epoch_ms: Err("second time provided was later than self".to_owned()),
        boottime: Err("Invalid argument (os error 22)".to_owned()),
    };
    assert_eq!(
        failure(&broken),
        "failed to read /proc/sys/kernel/random/boot_id: No such file or directory (os error 2)"
    );
    broken.boot_id_text = Ok(" not a boot ID \n".to_owned());
    assert_eq!(
        failure(&broken),
        "kernel returned an invalid boot ID: \"not a boot ID\""
    );
    broken.boot_id_text = Ok(BOOT_ID.to_owned());
    assert_eq!(
        failure(&broken),
        "system clock is earlier than the Unix epoch: second time provided was later than self"
    );
    broken.since_epoch_ms = Ok(u128::MAX);
    assert_eq!(
        failure(&broken),
        "system time does not fit in an i64 millisecond timestamp"
    );
    broken.since_epoch_ms = Ok(5);
    assert_eq!(
        failure(&broken),
        "CLOCK_BOOTTIME failed: Invalid argument (os error 22)"
    );
    broken.boottime = Ok(ClockReading {
        seconds: -1,
        nanos: 0,
    });
    assert_eq!(
        failure(&broken),
        "CLOCK_BOOTTIME returned a negative duration"
    );
    broken.boottime = Ok(ClockReading {
        seconds: i64::MAX,
        nanos: 0,
    });
    assert_eq!(failure(&broken), "CLOCK_BOOTTIME overflow");
}

#[test]
fn boot_ids_are_hexadecimal_with_hyphens() {
    assert!(validate_boot_id(BOOT_ID).is_ok());
    assert!(validate_boot_id("------------------------------------").is_ok());
    assert!(validate_boot_id(&BOOT_ID[1..]).is_err());
    assert!(validate_boot_id(&format!("{BOOT_ID}0")).is_err());
    assert!(validate_boot_id("0f3A5b7c-1234-4abc-8def-0123456789ag").is_err());
    assert!(validate_boot_id("0f3A5b7c-1234-4abc-8def-0123456789a\u{e9}").is_err());
    assert!(validate_boot_id("0f3A5b7c:1234:4abc:8def:0123456789ab").is_err());
    assert!(validate_boot_id("").is_err());
}

#[test]
fn invalid_boot_ids_are_quoted() {
    let error = validate_boot_id("a\"b\n").unwrap_err();
    assert_eq!(
        error.message(),
        "kernel returned an invalid boot ID: \"a\\\"b\\n\""
    );
    assert_eq!(
        error.message_with("<quoted>"),
        "kernel returned an invalid boot ID: <quoted>"
    );
    assert_eq!(
        ProbeError::WallClockOverflow.message_with("<quoted>"),
        "system time does not fit in an i64 millisecond timestamp"
    );
}

#[test]
fn texts_are_trimmed_as_in_std() {
    for code in 0..0x11_0000u32 {
        if let Some(c) = char::from_u32(code) {
            let given = format!("{c}x");
            if c.is_whitespace() {
                assert_eq!(trim_text(&given), "x");
            } else if code < 0x400 || (0x1600..0x1700).contains(&code) || (0x1f00..0x3100).contains(&code) {
                assert_eq!(trim_text(&given), given);
            }
        }
    }
    assert_eq!(trim_text(""), "");
    assert_eq!(trim_text(" \t\n\u{3000}"), "");
    assert_eq!(trim_text("\u{a0} a b\u{2028}\r\n"), "a b");
    assert_eq!(trim_text("plain"), "plain");
}

#[test]
fn boot_clock_readings_are_cut_to_milliseconds() {
    let reading = |seconds: i64, nanos: i64| boottime_millis(ClockReading { seconds, nanos });
    assert_eq!(reading(0, 999_999).unwrap(), 0);
    assert_eq!(reading(1, 1_000_000).unwrap(), 1_001);
    assert_eq!(reading(9_223_372_036_854_775, 807_000_000).unwrap(), i64::MAX);
    assert!(matches!(
        reading(9_223_372_036_854_775, 808_000_000),
        Err(ProbeError::BootClockOverflow)
    ));
    assert!(matches!(
        reading(9_223_372_036_854_776, 0),
        Err(ProbeError::BootClockOverflow)
    ));
    assert!(matches!(
        reading(0, -1),
        Err(ProbeError::NegativeBootClock)
    ));
}

#[test]
fn wall_clock_readings_have_to_fit() {
    assert_eq!(
        wall_clock_millis(9_223_372_036_854_775_807).unwrap(),
        i64::MAX
    );
    assert!(matches!(
        wall_clock_millis(9_223_372_036_854_775_808),
        Err(ProbeError::WallClockOverflow)
    ));
}
