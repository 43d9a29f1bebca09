//! Instants in UTC with minute-resolution semantics, and alignment to
//! 10-minute boundaries.

use core::str::FromStr;
use vstd::prelude::*;
use vstd::arithmetic::div_mod::{
    lemma_fundamental_div_mod, lemma_mod_multiples_vanish, lemma_mod_bound, lemma_div_is_ordered,
};

verus! {

/// The text chrono renders for the instant `t` under `%Y%m%dT%H%M%S`
/// (compact UTC timestamp, e.g. `20241130T083000`).
pub uninterp spec fn compact_utc_of(t: int) -> Seq<char>;

/// The text chrono renders for the instant `t` under `%Y%j%H%M`
/// (year, day of year, hour, minute, e.g. `20243350830`).
pub uninterp spec fn url_datetime_of(t: int) -> Seq<char>;

/// The instant, in whole seconds since the Unix epoch, that chrono
/// parses out of the text `s` as an ISO-8601 UTC timestamp; `None`
/// where chrono rejects the text.
pub uninterp spec fn iso_utc_secs(s: Seq<char>) -> Option<int>;

/// Earliest instant (seconds since the Unix epoch) this library works with:
/// 00:00:00 on January 1 of year -262143, the earliest calendar date a
/// `chrono::DateTime` can hold.
pub const TS_MIN_SECS: i64 = -8_334_601_228_800;

/// Latest instant (seconds since the Unix epoch) this library works with:
/// 23:59:59 on December 31 of year 262142, the latest calendar date a
/// `chrono::DateTime` can hold.
pub const TS_MAX_SECS: i64 = 8_210_266_876_799;

/// An instant in UTC, stored as whole seconds since the Unix epoch.
/// Immutable once produced.
#[derive(Clone, Copy, PartialEq, Eq, Structural, Debug)]
pub struct TimePoint {
    pub secs: i64,
}

/// `t` rounded down to the nearest 10-minute boundary.
pub open spec fn align600(t: int) -> int {
    600 * (t / 600)
}

/// `t` lies on a 10-minute boundary.
pub open spec fn is_aligned600(t: int) -> bool {
    t == align600(t)
}

impl TimePoint {
    /// The instant is inside the range this library handles.
    pub open spec fn wf(self) -> bool {
        TS_MIN_SECS <= self.secs <= TS_MAX_SECS
    }

    /// Alignment: zero the seconds and round the minute down to the
    /// largest multiple of 10 not above it; equivalently, round the
    /// epoch-second count down to a multiple of 600.
    pub fn align_down_10_minutes(self) -> (r: TimePoint)
        requires
            -8_400_000_000_000 <= self.secs <= 8_400_000_000_000,
        ensures
            r.secs == align600(self.secs as int),
            r.secs <= self.secs,
            self.secs - 600 < r.secs,
            is_aligned600(r.secs as int),
    {
        proof {
            lemma_mod_multiples_vanish(14_000_000_000, self.secs as int, 600);
            lemma_fundamental_div_mod(self.secs as int, 600);
            lemma_mod_bound(self.secs as int, 600);
            lemma_fundamental_div_mod(self.secs as int + 8_400_000_000_000, 600);
            lemma_mod_bound(self.secs as int + 8_400_000_000_000, 600);
            lemma_align600_idempotent(self.secs as int);
        }
        let shifted: u64 = (self.secs + 8_400_000_000_000) as u64;
        let rem: u64 = shifted % 600;
        TimePoint { secs: self.secs - (rem as i64) }
    }
}

/// Relies on `chrono::DateTime::<Utc>::from_timestamp` and
/// `DateTime::format("%Y%m%dT%H%M%S")`: the rendering is a function of
/// the instant alone, and every instant between `TS_MIN_SECS` and
/// `TS_MAX_SECS` is a representable `DateTime`.
#[verifier::external_body]
pub(crate) fn format_compact_utc(t: &TimePoint) -> (r: String)
    requires
        t.wf(),
    ensures
        r@ == compact_utc_of(t.secs as int),
{
    let dt = chrono::DateTime::<chrono::Utc>::from_timestamp(t.secs, 0).unwrap();
    dt.format("%Y%m%dT%H%M%S").to_string()
}

/// Relies on `chrono::DateTime::<Utc>::from_timestamp` and
/// `DateTime::format("%Y%j%H%M")`: the rendering is a function of the
/// instant alone, and every instant between `TS_MIN_SECS` and
/// `TS_MAX_SECS` is a representable `DateTime`.
#[verifier::external_body]
pub(crate) fn format_url_datetime(t: &TimePoint) -> (r: String)
    requires
        t.wf(),
    ensures
        r@ == url_datetime_of(t.secs as int),
{
    let dt = chrono::DateTime::<chrono::Utc>::from_timestamp(t.secs, 0).unwrap();
    dt.format("%Y%j%H%M").to_string()
}

/// Relies on `chrono::DateTime::<Utc>::from_str`: what it accepts and
/// the instant it returns depend on the text alone, and every
/// `DateTime` it can return lies between `TS_MIN_SECS` and
/// `TS_MAX_SECS` (the timestamps of chrono's earliest and latest
/// calendar dates). Sub-second precision is dropped.
#[verifier::external_body]
pub(crate) fn parse_iso_utc(s: &str) -> (r: Result<TimePoint, String>)
    ensures
        match r {
            Ok(t) => iso_utc_secs(s@) == Some(t.secs as int) && t.wf(),
            Err(_) => iso_utc_secs(s@) is None,
        },
{
    match chrono::DateTime::<chrono::Utc>::from_str(s) {
        Ok(dt) => Ok(TimePoint { secs: dt.timestamp() }),
        Err(e) => Err(format!("{}", e)),
    }
}

/// Aligning never moves an instant forward, moves it back less than ten
/// minutes, and lands on a boundary.
pub proof fn lemma_align600_bounds(t: int)
    ensures
        align600(t) <= t,
        t - 600 < align600(t),
        is_aligned600(align600(t)),
{
    lemma_fundamental_div_mod(t, 600);
    lemma_mod_bound(t, 600);
    lemma_align600_idempotent(t);
}

/// A boundary is a fixed point of alignment.
pub proof fn lemma_align600_idempotent(t: int)
    ensures
        align600(align600(t)) == align600(t),
{
    let q = t / 600;
    lemma_fundamental_div_mod(600 * q, 600);
    lemma_mod_multiples_vanish(q, 0, 600);
    lemma_fundamental_div_mod(0, 600);
}

/// Alignment is monotone.
pub proof fn lemma_align600_monotone(t1: int, t2: int)
    requires
        t1 <= t2,
    ensures
        align600(t1) <= align600(t2),
{
    lemma_div_is_ordered(t1, t2, 600);
}

/// Adding a multiple of ten minutes commutes with alignment.
pub proof fn lemma_align600_add_multiple(t: int, k: int)
    ensures
        align600(t + 600 * k) == align600(t) + 600 * k,
{
    lemma_fundamental_div_mod(t, 600);
    lemma_mod_bound(t, 600);
    lemma_fundamental_div_mod(t + 600 * k, 600);
    lemma_mod_bound(t + 600 * k, 600);
    lemma_mod_multiples_vanish(k, t, 600);
    assert((t + 600 * k) % 600 == t % 600);
    let q1 = t / 600;
    let q2 = (t + 600 * k) / 600;
    assert(600 * q2 == 600 * q1 + 600 * k) by {
        assert(t == 600 * q1 + t % 600);
        assert(t + 600 * k == 600 * q2 + t % 600);
    }
}

} // verus!
