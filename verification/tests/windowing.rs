use chrono::TimeZone;
use goesdown::duration::DurationError;
use goesdown::sequence::sequence;
use goesdown::time::TimePoint;
use goesdown::window::{resolve_window, ResolvedWindow, ValidationError};

fn utc_secs(y: i32, mo: u32, d: u32, h: u32, mi: u32, s: u32) -> i64 {
    chrono::Utc
        .with_ymd_and_hms(y, mo, d, h, mi, s)
        .unwrap()
        .timestamp()
}

#[test]
fn absolute_start_with_duration() {
    // start 08:00, 20 minutes, stride 10 -> snapshots 08:00, 08:10, 08:20.
    let now = TimePoint {
        secs: utc_secs(2024, 11, 30, 10, 25, 0),
    };
    let w = resolve_window(
        &Some("2024-11-30T08:00:00Z".to_string()),
        &None,
        &Some("20m".to_string()),
        10,
        now,
    )
    .unwrap();
    assert_eq!(w.start.secs, utc_secs(2024, 11, 30, 8, 0, 0));
    assert_eq!(w.end.secs, utc_secs(2024, 11, 30, 8, 20, 0));
    assert_eq!(w.stride_minutes, 10);
    let times = sequence(&w);
    let secs: Vec<i64> = times.iter().map(|t| t.secs).collect();
    assert_eq!(
        secs,
        vec![
            utc_secs(2024, 11, 30, 8, 0, 0),
            utc_secs(2024, 11, 30, 8, 10, 0),
            utc_secs(2024, 11, 30, 8, 20, 0),
        ]
    );
}

#[test]
fn ago_offset_aligns_start() {
    // 2h30m before 10:25:00 is 07:55:00, aligned down to 07:50:00;
    // the end is now aligned down separately, 10:20:00.
    let now = TimePoint {
        secs: utc_secs(2024, 11, 30, 10, 25, 0),
    };
    let w = resolve_window(&None, &Some("2h30m".to_string()), &None, 10, now).unwrap();
    assert_eq!(w.start.secs, utc_secs(2024, 11, 30, 7, 50, 0));
    assert_eq!(w.end.secs, utc_secs(2024, 11, 30, 10, 20, 0));
}

#[test]
fn unaligned_absolute_start_aligns_down() {
    // 08:05:23 rounds down to 08:00:00, so the start never exceeds
    // the end even for a zero-length window.
    let now = TimePoint {
        secs: utc_secs(2024, 11, 30, 10, 25, 0),
    };
    let w = resolve_window(
        &Some("2024-11-30T08:05:23Z".to_string()),
        &None,
        &Some("0m".to_string()),
        10,
        now,
    )
    .unwrap();
    assert_eq!(w.start.secs, utc_secs(2024, 11, 30, 8, 0, 0));
    assert_eq!(w.end.secs, utc_secs(2024, 11, 30, 8, 0, 0));
    assert_eq!(sequence(&w).len(), 1);

    let w = resolve_window(
        &Some("2024-11-30T08:05:23Z".to_string()),
        &None,
        &None,
        10,
        now,
    )
    .unwrap();
    assert_eq!(w.start.secs, utc_secs(2024, 11, 30, 8, 0, 0));
    assert_eq!(w.end.secs, utc_secs(2024, 11, 30, 10, 20, 0));
}

#[test]
fn ambiguous_start_rejected() {
    let now = TimePoint {
        secs: utc_secs(2024, 11, 30, 10, 25, 0),
    };
    assert_eq!(
        resolve_window(&None, &None, &None, 10, now),
        Err(ValidationError::AmbiguousStart)
    );
    assert_eq!(
        resolve_window(
            &Some("2024-11-30T08:00:00Z".to_string()),
            &Some("2h".to_string()),
            &None,
            10,
            now
        ),
        Err(ValidationError::AmbiguousStart)
    );
}

#[test]
fn bad_start_format_rejected() {
    let now = TimePoint {
        secs: utc_secs(2024, 11, 30, 10, 25, 0),
    };
    assert_eq!(
        resolve_window(&Some("yesterday".to_string()), &None, &None, 10, now),
        Err(ValidationError::BadStartFormat)
    );
}

#[test]
fn range_too_large_rejected() {
    let now = TimePoint {
        secs: utc_secs(2024, 11, 30, 10, 25, 0),
    };
    assert_eq!(
        resolve_window(&None, &Some("6d".to_string()), &None, 10, now),
        Err(ValidationError::RangeTooLarge)
    );
    assert_eq!(
        resolve_window(
            &Some("2024-11-20T08:00:00Z".to_string()),
            &None,
            &None,
            10,
            now
        ),
        Err(ValidationError::RangeTooLarge)
    );
}

#[test]
fn end_in_future_rejected() {
    let now = TimePoint {
        secs: utc_secs(2024, 11, 30, 10, 25, 0),
    };
    assert_eq!(
        resolve_window(
            &Some("2024-11-30T10:00:00Z".to_string()),
            &None,
            &Some("2h".to_string()),
            10,
            now
        ),
        Err(ValidationError::EndInFuture)
    );
}

#[test]
fn bad_stride_rejected() {
    let now = TimePoint {
        secs: utc_secs(2024, 11, 30, 10, 25, 0),
    };
    let start = Some("2024-11-30T08:00:00Z".to_string());
    assert_eq!(
        resolve_window(&start, &None, &None, 15, now),
        Err(ValidationError::BadStride)
    );
    assert_eq!(
        resolve_window(&start, &None, &None, 0, now),
        Err(ValidationError::BadStride)
    );
    assert_eq!(
        resolve_window(&start, &None, &None, -10, now),
        Err(ValidationError::BadStride)
    );
}

#[test]
fn invalid_duration_propagates() {
    let now = TimePoint {
        secs: utc_secs(2024, 11, 30, 10, 25, 0),
    };
    assert_eq!(
        resolve_window(&None, &Some("2x".to_string()), &None, 10, now),
        Err(ValidationError::InvalidDuration(
            DurationError::UnsupportedUnit
        ))
    );
    assert_eq!(
        resolve_window(
            &Some("2024-11-30T08:00:00Z".to_string()),
            &None,
            &Some("15m".to_string()),
            10,
            now
        ),
        Err(ValidationError::InvalidDuration(
            DurationError::NotMultipleOfTen
        ))
    );
}

#[test]
fn sequence_is_empty_when_start_after_end() {
    let w = ResolvedWindow {
        start: TimePoint { secs: 600 },
        end: TimePoint { secs: 0 },
        stride_minutes: 10,
    };
    assert_eq!(sequence(&w).len(), 0);
}

#[test]
fn sequence_counts_and_spacing() {
    let w = ResolvedWindow {
        start: TimePoint { secs: 0 },
        end: TimePoint { secs: 3600 },
        stride_minutes: 10,
    };
    let times = sequence(&w);
    assert_eq!(times.len(), 7);
    for (i, t) in times.iter().enumerate() {
        assert_eq!(t.secs, 600 * i as i64);
    }

    let w = ResolvedWindow {
        start: TimePoint { secs: 0 },
        end: TimePoint { secs: 3600 },
        stride_minutes: 20,
    };
    let secs: Vec<i64> = sequence(&w).iter().map(|t| t.secs).collect();
    assert_eq!(secs, vec![0, 1200, 2400, 3600]);

    // A stride larger than the window still yields the start itself.
    let w = ResolvedWindow {
        start: TimePoint { secs: 0 },
        end: TimePoint { secs: 3600 },
        stride_minutes: 100,
    };
    let secs: Vec<i64> = sequence(&w).iter().map(|t| t.secs).collect();
    assert_eq!(secs, vec![0]);
}

#[test]
fn align_rounds_down() {
    let t = TimePoint {
        secs: utc_secs(2024, 11, 30, 10, 25, 37),
    };
    assert_eq!(
        t.align_down_10_minutes().secs,
        utc_secs(2024, 11, 30, 10, 20, 0)
    );
    // Negative instants (before the epoch) still round downward.
    let t = TimePoint { secs: -1 };
    assert_eq!(t.align_down_10_minutes().secs, -600);
}
