use chrono::{DateTime, Duration, FixedOffset, Utc};
use github_notifications::time::{clock, due, due_at, now_utc, parse_time, passed, Timestamp, CLOCK_SPAN};

#[test]
fn due_respects_interval() {
    assert!(due(&None, 60));
    assert!(due(&Some("not-a-date".into()), 60));
    let recent = now_utc();
    assert!(!due(&Some(recent), 60));
}

#[test]
fn due_at_compares_with_the_interval() {
    let now = parse_time("2026-01-01T00:10:00Z").expect("time");
    let last = Some("2026-01-01T00:00:00Z".to_string());
    assert!(due_at(&now, &last, 600));
    assert!(!due_at(&now, &last, 601));
    assert!(due_at(&now, &None, u64::MAX));
    assert!(!due_at(&now, &last, u64::MAX));
    assert!(passed(&now, &now, 0));
}

#[test]
fn nothing_is_older_than_a_very_long_interval() {
    for last in ["2000-01-01T00:00:00Z", "0000-01-01T00:00:00+23:59"] {
        let last = Some(last.to_string());
        assert!(due(&last, 60));
        for interval in [CLOCK_SPAN, 9_223_372_036_854_776, 1 << 63, u64::MAX] {
            assert!(!due(&last, interval));
        }
    }
    assert!(due(&None, u64::MAX));
    assert!(due(&Some("not-a-date".into()), u64::MAX));
}

#[test]
fn the_clock_stays_in_range() {
    let last = DateTime::<Utc>::MAX_UTC.timestamp();
    assert_eq!(last, 8_210_266_876_799);
    let now = clock();
    assert!(0 <= now.secs && now.secs <= last && now.nanos < 2_000_000_000);
    for (text, secs) in [
        ("0000-01-01T00:00:00+23:59", -62_167_305_540),
        ("9999-12-31T23:59:60-23:59", 253_402_387_139),
    ] {
        assert_eq!(parse_time(text).expect("time").secs, secs);
    }
}

#[test]
fn times_are_read_in_any_offset() {
    assert_eq!(
        parse_time("1970-01-01T01:00:00.5+01:00"),
        Some(Timestamp {
            secs: 0,
            nanos: 500_000_000
        })
    );
    assert_eq!(parse_time("1970-01-01"), None);
    assert_eq!(parse_time(""), None);
}

#[test]
fn now_reads_back() {
    let text = now_utc();
    assert_eq!(text.len(), 24);
    assert!(text.ends_with('Z'));
    assert!(parse_time(&text).expect("time").secs > 1_700_000_000);
}

fn outside(t: &str) -> DateTime<FixedOffset> {
    DateTime::parse_from_rfc3339(t).expect("time")
}

#[test]
fn arithmetic_agrees_with_chrono() {
    let samples = [
        "2016-12-31T23:59:59Z",
        "2016-12-31T23:59:60Z",
        "2016-12-31T23:59:60.75Z",
        "2017-01-01T00:00:00Z",
        "2017-01-01T00:14:59.25Z",
        "2017-01-01T00:15:00Z",
        "2016-12-31T23:44:59.999999999Z",
        "2016-12-31T23:45:00Z",
        "1969-12-31T12:00:00.1Z",
        "0000-01-01T00:00:00Z",
        "9999-12-31T23:59:60.5Z",
    ];
    for a in samples {
        for b in samples {
            let (x, y) = (parse_time(a).expect("a"), parse_time(b).expect("b"));
            let (dx, dy) = (outside(a), outside(b));
            let apart = dx - dy;
            let nanos =
                apart.num_seconds() as i128 * 1_000_000_000 + apart.subsec_nanos() as i128;
            assert_eq!(x.nanos_since(&y), nanos, "{a} - {b}");
            for delta in [-900i64, 0, 300] {
                let step = dy + Duration::seconds(delta);
                assert_eq!(x.before_step(&y, delta), dx < step, "{a} < {b} + {delta}");
                assert_eq!(x.after_step(&y, delta), dx > step, "{a} > {b} + {delta}");
            }
            for secs in [0u64, 1, 900, 86_400] {
                assert_eq!(
                    passed(&x, &y, secs),
                    apart >= Duration::seconds(secs as i64),
                    "{a} - {b} >= {secs}"
                );
            }
        }
    }
}
