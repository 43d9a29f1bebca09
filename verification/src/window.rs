//! Resolving a requested time range into an aligned `(start, end,
//! stride)` window, validated against the current time.

use crate::duration::{parse_duration, parse_duration_spec, lemma_parse_duration_range,
    DurationError};
use crate::time::{align600, is_aligned600, iso_utc_secs, lemma_align600_add_multiple,
    lemma_align600_bounds, lemma_align600_idempotent, lemma_align600_monotone, parse_iso_utc,
    TimePoint, TS_MIN_SECS};
use vstd::prelude::*;

verus! {

/// How far back a window may start: 5 days, in seconds.
pub const MAX_LOOKBACK_SECS: i64 = 432_000;

/// Why a requested window was rejected.
#[derive(Clone, Copy, PartialEq, Eq, Structural, Debug)]
pub enum ValidationError {
    /// Both or neither of the absolute start and the `ago` offset were
    /// given; exactly one is required.
    AmbiguousStart,
    /// The absolute start did not parse as an ISO-8601 UTC timestamp.
    BadStartFormat,
    /// A duration expression did not parse.
    InvalidDuration(DurationError),
    /// The start lies more than 5 days before `now`.
    RangeTooLarge,
    /// The end lies after `now`.
    EndInFuture,
    /// The stride is not a positive multiple of 10 minutes.
    BadStride,
}

/// A validated window: fetch one snapshot every `stride_minutes`
/// minutes from `start` through `end`.
#[derive(Clone, Copy, PartialEq, Eq, Structural, Debug)]
pub struct ResolvedWindow {
    pub start: TimePoint,
    pub end: TimePoint,
    pub stride_minutes: i64,
}

impl ResolvedWindow {
    /// Both instants are in range and the stride is a positive
    /// multiple of 10 minutes.
    pub open spec fn wf(self) -> bool {
        &&& self.start.wf()
        &&& self.end.wf()
        &&& self.stride_minutes > 0
        &&& self.stride_minutes % 10 == 0
    }
}

/// The `(start, end)` instants `resolve_window` derives, or the error
/// it rejects the request with, as a function of its inputs.
///
/// The start is the parsed absolute start, or `now` minus the `ago`
/// offset, either way aligned down to a 10-minute boundary; it must
/// not lie more than 5 days before `now`. The end is the start plus
/// the given duration, or `now` when none is given, aligned down the
/// same way; it must not lie after `now`. The stride must be a
/// positive multiple of 10.
pub open spec fn resolve_window_spec(
    start_expr: Option<Seq<char>>,
    ago_expr: Option<Seq<char>>,
    duration_expr: Option<Seq<char>>,
    stride_minutes: int,
    now: int,
) -> Result<(int, int), ValidationError> {
    if (start_expr is Some) == (ago_expr is Some) {
        Err(ValidationError::AmbiguousStart)
    } else {
        let start_r: Result<int, ValidationError> = if start_expr is Some {
            match iso_utc_secs(start_expr->0) {
                Some(t) => Ok(align600(t)),
                None => Err(ValidationError::BadStartFormat),
            }
        } else {
            match parse_duration_spec(ago_expr->0) {
                Ok(mins) => Ok(align600(now - mins * 60)),
                Err(e) => Err(ValidationError::InvalidDuration(e)),
            }
        };
        match start_r {
            Err(e) => Err(e),
            Ok(start) => if now - start > MAX_LOOKBACK_SECS {
                Err(ValidationError::RangeTooLarge)
            } else {
                let end_r: Result<int, ValidationError> = match duration_expr {
                    Some(d) => match parse_duration_spec(d) {
                        Ok(mins) => Ok(align600(start + mins * 60)),
                        Err(e) => Err(ValidationError::InvalidDuration(e)),
                    },
                    None => Ok(align600(now)),
                };
                match end_r {
                    Err(e) => Err(e),
                    Ok(end) => if end > now {
                        Err(ValidationError::EndInFuture)
                    } else if stride_minutes <= 0 || stride_minutes % 10 != 0 {
                        Err(ValidationError::BadStride)
                    } else {
                        Ok((start, end))
                    },
                }
            },
        }
    }
}

/// Resolves the requested range into a validated window.
///
/// Exactly one of `start_expr` (absolute ISO-8601 UTC start) and
/// `ago_expr` (offset back from `now`) must be given. The result is
/// exactly what `resolve_window_spec` states, and a returned window is
/// well-formed.
pub fn resolve_window(
    start_expr: &Option<String>,
    ago_expr: &Option<String>,
    duration_expr: &Option<String>,
    stride_minutes: i64,
    now: TimePoint,
) -> (r: Result<ResolvedWindow, ValidationError>)
    requires
        now.wf(),
        now.secs >= TS_MIN_SECS + 433_200,
    ensures
        match resolve_window_spec(
            start_expr.deep_view(),
            ago_expr.deep_view(),
            duration_expr.deep_view(),
            stride_minutes as int,
            now.secs as int,
        ) {
            Ok(se) => r is Ok && r->Ok_0.start.secs == se.0 && r->Ok_0.end.secs == se.1
                && r->Ok_0.stride_minutes == stride_minutes && r->Ok_0.wf(),
            Err(e) => r is Err && r->Err_0 == e,
        },
{
    let start: TimePoint = match (start_expr, ago_expr) {
        (Some(s), None) => {
            match parse_iso_utc(s.as_str()) {
                Ok(t) => t.align_down_10_minutes(),
                Err(_) => {
                    return Err(ValidationError::BadStartFormat);
                },
            }
        },
        (None, Some(a)) => {
            let mins = match parse_duration(a.as_str()) {
                Ok(m) => m,
                Err(e) => {
                    return Err(ValidationError::InvalidDuration(e));
                },
            };
            proof {
                lemma_parse_duration_range(a@);
            }
            if mins > 7200 {
                proof {
                    lemma_align600_bounds(now.secs - mins * 60);
                }
                return Err(ValidationError::RangeTooLarge);
            }
            TimePoint { secs: now.secs - mins * 60 }.align_down_10_minutes()
        },
        _ => {
            return Err(ValidationError::AmbiguousStart);
        },
    };
    if now.secs - start.secs > MAX_LOOKBACK_SECS {
        return Err(ValidationError::RangeTooLarge);
    }
    let end: TimePoint = match duration_expr {
        Some(d) => {
            let mins = match parse_duration(d.as_str()) {
                Ok(m) => m,
                Err(e) => {
                    return Err(ValidationError::InvalidDuration(e));
                },
            };
            proof {
                lemma_parse_duration_range(d@);
            }
            if mins > 7200 {
                proof {
                    lemma_align600_bounds(start.secs + mins * 60);
                }
                return Err(ValidationError::EndInFuture);
            }
            TimePoint { secs: start.secs + mins * 60 }.align_down_10_minutes()
        },
        None => now.align_down_10_minutes(),
    };
    if end.secs > now.secs {
        return Err(ValidationError::EndInFuture);
    }
    if stride_minutes <= 0 {
        return Err(ValidationError::BadStride);
    }
    if stride_minutes % 10 != 0 {
        return Err(ValidationError::BadStride);
    }
    Ok(ResolvedWindow { start, end, stride_minutes })
}

/// Law: a window that `resolve_window` accepts has both ends aligned
/// to a 10-minute boundary, an end no later than `now`, a start no
/// more than 5 days before `now`, and a positive stride that is a
/// multiple of 10 minutes. The start never exceeds the end when a
/// duration was given, nor when the start does not lie after `now`;
/// only an absolute start after `now` with no duration escapes this,
/// and the sequencer returns no timestamps for such a window.
pub proof fn lemma_resolved_window_valid(
    start_expr: Option<Seq<char>>,
    ago_expr: Option<Seq<char>>,
    duration_expr: Option<Seq<char>>,
    stride_minutes: int,
    now: int,
    start: int,
    end: int,
)
    requires
        resolve_window_spec(start_expr, ago_expr, duration_expr, stride_minutes, now) == Ok::<
            (int, int),
            ValidationError,
        >((start, end)),
    ensures
        is_aligned600(start),
        is_aligned600(end),
        end <= now,
        now - start <= MAX_LOOKBACK_SECS,
        stride_minutes > 0,
        stride_minutes % 10 == 0,
        duration_expr is Some ==> start <= end,
        start <= now ==> start <= end,
{
    if ago_expr is Some {
        let mins = parse_duration_spec(ago_expr->0)->Ok_0;
        lemma_align600_idempotent(now - mins * 60);
    } else {
        lemma_align600_idempotent(iso_utc_secs(start_expr->0)->0);
    }
    match duration_expr {
        Some(d) => {
            let mins = parse_duration_spec(d)->Ok_0;
            lemma_parse_duration_range(d);
            lemma_align600_idempotent(start + mins * 60);
            assert(mins * 60 == 600 * (mins / 10)) by (nonlinear_arith)
                requires
                    mins % 10 == 0,
            ;
            lemma_align600_add_multiple(start, mins / 10);
            assert(mins * 60 >= 0) by (nonlinear_arith)
                requires
                    mins >= 0,
            ;
        },
        None => {
            lemma_align600_idempotent(now);
            if start <= now {
                lemma_align600_monotone(start, now);
            }
        },
    }
}

} // verus!
