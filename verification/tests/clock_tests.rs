use standby_core::clock::{clock_from_parts, countdown_text, Clock, CountdownState};
use standby_core::timestamp::{parse_timestamp, DateParts};

const TARGET: &str = "2025-12-31T23:59:59";

fn parts(s: &str) -> DateParts {
    parse_timestamp(s.as_bytes()).expect("timestamp should parse")
}

#[test]
fn parses_the_configured_target() {
    let p = parts(TARGET);
    assert_eq!(
        (p.year, p.month, p.day, p.hour, p.minute, p.second),
        (2025, 12, 31, 23, 59, 59)
    );
}

#[test]
fn rejects_malformed_timestamps() {
    for bad in [
        "",
        "2025-12-31",
        "2025-12-31 23:59:59",
        "2025/12/31T23:59:59",
        "2025-13-01T00:00:00",
        "2025-00-10T00:00:00",
        "2025-12-32T00:00:00",
        "2025-12-00T00:00:00",
        "2025-12-31T24:00:00",
        "2025-12-31T23:60:00",
        "2025-12-31T23:59:60",
        "2025-02-29T12:00:00",
        "202X-12-31T23:59:59",
        "2025-12-31T23:59:5",
        "2025-12-31T23:59:590",
    ] {
        assert!(parse_timestamp(bad.as_bytes()).is_none(), "accepted {bad:?}");
    }
}

#[test]
fn accepts_leap_day_only_in_leap_years() {
    assert!(parse_timestamp(b"2024-02-29T00:00:00").is_some());
    assert!(parse_timestamp(b"2000-02-29T00:00:00").is_some());
    assert!(parse_timestamp(b"1900-02-29T00:00:00").is_none());
    assert!(parse_timestamp(b"2025-02-29T00:00:00").is_none());
    assert!(parse_timestamp(b"2024-04-31T00:00:00").is_none());
}

#[test]
fn ten_minutes_out_reads_ten_zero_zero() {
    let target: i64 = 1_700_000_000_000_000;
    let current = target - 600 * 1_000_000;
    let (text, state) = countdown_text(target, current);
    assert_eq!(text, "10:00");
    assert_eq!(state, CountdownState::Counting);
}

#[test]
fn past_target_reads_live_not_negative() {
    let target: i64 = 1_700_000_000_000_000;
    let (text, state) = countdown_text(target, target + 1_000_000);
    assert_eq!(text, "LIVE");
    assert_eq!(state, CountdownState::Live);
}

#[test]
fn countdown_formatting_edges() {
    let t: i64 = 1_700_000_000_000_000;
    assert_eq!(countdown_text(t, t).0, "00:00");
    assert_eq!(countdown_text(t, t - 59 * 1_000_000).0, "00:59");
    assert_eq!(countdown_text(t, t - 60 * 1_000_000).0, "01:00");
    assert_eq!(countdown_text(t, t - 3_661 * 1_000_000).0, "01:01");
    // Minutes wrap each hour, as on a station clock face.
    assert_eq!(countdown_text(t, t - 3_600 * 1_000_000).0, "00:00");
    // A fraction of a second before the target still reads 00:00,
    // not LIVE: seconds truncate toward zero.
    let (text, state) = countdown_text(t, t - 500_000);
    assert_eq!(text, "00:00");
    assert_eq!(state, CountdownState::Counting);
}

#[test]
fn paused_or_frozen_clock_never_moves() {
    let mut paused = Clock::new(1_000_000, None, 1000, true).unwrap();
    let mut frozen = Clock::new(1_000_000, None, 0, false).unwrap();
    let before = paused.current_micros;
    for _ in 0..100 {
        paused.advance(123_456);
        frozen.advance(123_456);
    }
    assert_eq!(paused.current_micros, before);
    assert_eq!(frozen.current_micros, before);
}

#[test]
fn advance_scales_with_speed() {
    let mut c = Clock::new(10_000_000, Some(0), 1000, false).unwrap();
    c.advance(250_000);
    assert_eq!(c.current_micros, 250_000);
    let mut fast = Clock::new(10_000_000, Some(0), 2000, false).unwrap();
    fast.advance(250_000);
    assert_eq!(fast.current_micros, 500_000);
    let mut slow = Clock::new(10_000_000, Some(0), 500, false).unwrap();
    slow.advance(250_001);
    // 250001 * 500 / 1000, truncated.
    assert_eq!(slow.current_micros, 125_000);
}

#[test]
fn default_start_is_ten_minutes_before_target() {
    let c = Clock::new(1_700_000_000_000_000, None, 1000, false).unwrap();
    assert_eq!(c.target_micros - c.current_micros, 600_000_000);
    assert_eq!(c.remaining_micros(), 600_000_000);
}

#[test]
fn clock_from_parsed_config_counts_down_ten_minutes() {
    // This runs the chrono-backed local-time conversion: both instants
    // sit in the same local day, so their distance is exact.
    let target = parts(TARGET);
    let start = parts("2025-12-31T23:49:59");
    let clock = clock_from_parts(&target, Some(&start), 1000, false)
        .expect("local timezone should place both instants");
    assert_eq!(clock.remaining_micros(), 600_000_000);
    let (text, state) = countdown_text(clock.target_micros, clock.current_micros);
    assert_eq!(text, "10:00");
    assert_eq!(state, CountdownState::Counting);
}

#[test]
fn clock_from_parts_without_start_uses_the_lead() {
    let target = parts(TARGET);
    let clock = clock_from_parts(&target, None, 1000, false)
        .expect("local timezone should place the target");
    assert_eq!(clock.remaining_micros(), 600_000_000);
    assert!(!clock.paused);
    assert_eq!(clock.speed_milli, 1000);
}

#[test]
fn simulated_run_reaches_live() {
    let target = parts(TARGET);
    let mut clock = clock_from_parts(&target, None, 1000, false).unwrap();
    // Ten minutes of 16 ms frames, then two more seconds.
    for _ in 0..37_500 {
        clock.advance(16_000);
    }
    assert_eq!(clock.remaining_micros(), 0);
    clock.advance(2_000_000);
    assert_eq!(clock.remaining_micros(), -2_000_000);
    let (text, state) = countdown_text(clock.target_micros, clock.current_micros);
    assert_eq!(state, CountdownState::Live);
    assert_eq!(text, "LIVE");
}
