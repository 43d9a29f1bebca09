//! Parser for compact duration expressions such as `"2d12h20m"`: a
//! sequence of non-negative decimal numbers, each followed by a unit
//! (`m` for minutes, `h` for hours, `d` for days), whose accumulated
//! total must be a non-negative multiple of 10 minutes.

use vstd::prelude::*;

verus! {

/// Why a duration expression was rejected.
#[derive(Clone, Copy, PartialEq, Eq, Structural, Debug)]
pub enum DurationError {
    /// The input was empty.
    Empty,
    /// A number was missing where one was expected, digits were left
    /// without a unit at the end of the input, or a number was too
    /// large to represent.
    Malformed,
    /// A unit other than `m`, `h` or `d` followed a number.
    UnsupportedUnit,
    /// The accumulated total was not a multiple of 10 minutes.
    NotMultipleOfTen,
}

pub open spec fn is_digit_char(c: char) -> bool {
    48 <= c as int <= 57
}

pub open spec fn digit_val(c: char) -> int {
    c as int - 48
}

pub open spec fn is_unit_char(c: char) -> bool {
    c == 'm' || c == 'h' || c == 'd'
}

/// Minutes per unit: `m` is 1, `h` is 60, `d` is 1440.
pub open spec fn unit_mult(c: char) -> int {
    if c == 'm' {
        1
    } else if c == 'h' {
        60
    } else {
        1440
    }
}

/// One left-to-right scan of the input from position `i`, with `buf`
/// the value of the digits read since the last unit (`None` when no
/// digit is pending) and `total` the minutes accumulated so far.
/// Mirrors exactly what `parse_duration` computes.
pub open spec fn scan_duration(s: Seq<char>, i: int, buf: Option<int>, total: int) -> Result<
    int,
    DurationError,
>
    decreases s.len() - i,
{
    if i < 0 || i >= s.len() {
        if buf is Some {
            Err(DurationError::Malformed)
        } else if total % 10 != 0 {
            Err(DurationError::NotMultipleOfTen)
        } else {
            Ok(total)
        }
    } else {
        let c = s[i];
        if is_digit_char(c) {
            let v = (if buf is Some {
                buf->0
            } else {
                0
            }) * 10 + digit_val(c);
            if v > i64::MAX as int {
                Err(DurationError::Malformed)
            } else {
                scan_duration(s, i + 1, Some(v), total)
            }
        } else if buf is None {
            Err(DurationError::Malformed)
        } else if !is_unit_char(c) {
            Err(DurationError::UnsupportedUnit)
        } else {
            let t = total + buf->0 * unit_mult(c);
            if t > i64::MAX as int {
                Err(DurationError::Malformed)
            } else {
                scan_duration(s, i + 1, None, t)
            }
        }
    }
}

/// What `parse_duration` returns, as a function of the input text.
pub open spec fn parse_duration_spec(s: Seq<char>) -> Result<int, DurationError> {
    if s.len() == 0 {
        Err(DurationError::Empty)
    } else {
        scan_duration(s, 0, None, 0)
    }
}

/// The value a successful scan returns is at least the total already
/// accumulated, fits in an `i64`, and is a multiple of 10.
pub proof fn lemma_scan_result_range(s: Seq<char>, i: int, buf: Option<int>, total: int)
    requires
        0 <= total <= i64::MAX,
        buf is Some ==> buf->0 >= 0,
        scan_duration(s, i, buf, total) is Ok,
    ensures
        scan_duration(s, i, buf, total)->Ok_0 >= total,
        scan_duration(s, i, buf, total)->Ok_0 <= i64::MAX,
        scan_duration(s, i, buf, total)->Ok_0 % 10 == 0,
    decreases s.len() - i,
{
    if i < 0 || i >= s.len() {
    } else {
        let c = s[i];
        if is_digit_char(c) {
            let v = (if buf is Some {
                buf->0
            } else {
                0
            }) * 10 + digit_val(c);
            lemma_scan_result_range(s, i + 1, Some(v), total);
        } else {
            let t = total + buf->0 * unit_mult(c);
            if c == 'm' {
                assert(t == total + buf->0);
            } else if c == 'h' {
                assert(t == total + buf->0 * 60);
                assert(buf->0 * 60 >= 0) by (nonlinear_arith)
                    requires
                        buf->0 >= 0,
                ;
            } else {
                assert(t == total + buf->0 * 1440);
                assert(buf->0 * 1440 >= 0) by (nonlinear_arith)
                    requires
                        buf->0 >= 0,
                ;
            }
            lemma_scan_result_range(s, i + 1, None, t);
        }
    }
}

/// A successful parse yields a non-negative multiple of 10 that fits
/// in an `i64`.
pub proof fn lemma_parse_duration_range(s: Seq<char>)
    requires
        parse_duration_spec(s) is Ok,
    ensures
        0 <= parse_duration_spec(s)->Ok_0 <= i64::MAX,
        parse_duration_spec(s)->Ok_0 % 10 == 0,
{
    lemma_scan_result_range(s, 0, None, 0);
}

/// How many consecutive digit characters stand at and after position
/// `i`.
pub open spec fn digits_count(s: Seq<char>, i: int) -> int
    decreases s.len() - i,
{
    if i < 0 || i >= s.len() || !is_digit_char(s[i]) {
        0
    } else {
        1 + digits_count(s, i + 1)
    }
}

/// The value of the digit run `s[i..j)`, read left to right starting
/// from an already-accumulated value `v`.
pub open spec fn run_value(s: Seq<char>, v: int, i: int, j: int) -> int
    decreases j - i,
{
    if i >= j {
        v
    } else {
        run_value(s, v * 10 + digit_val(s[i]), i + 1, j)
    }
}

/// The input from position `i` on is a sequence of chunks, each a
/// non-empty digit run followed by one of the units `m`, `h`, `d`.
pub open spec fn well_formed_from(s: Seq<char>, i: int) -> bool
    decreases s.len() - i,
{
    if i >= s.len() {
        true
    } else {
        let k = digits_count(s, i);
        if k >= 1 && i + k < s.len() {
            is_unit_char(s[i + k]) && well_formed_from(s, i + k + 1)
        } else {
            false
        }
    }
}

/// The total minutes of a well-formed input from position `i` on:
/// each chunk contributes its number times its unit's minutes.
pub open spec fn total_from(s: Seq<char>, i: int) -> int
    decreases s.len() - i,
{
    if i >= s.len() {
        0
    } else {
        let k = digits_count(s, i);
        if k >= 1 && i + k < s.len() {
            run_value(s, 0, i, i + k) * unit_mult(s[i + k]) + total_from(s, i + k + 1)
        } else {
            0
        }
    }
}

proof fn lemma_digits_count_facts(s: Seq<char>, i: int)
    requires
        0 <= i <= s.len(),
    ensures
        0 <= digits_count(s, i),
        i + digits_count(s, i) <= s.len(),
        forall|m: int| i <= m < i + digits_count(s, i) ==> is_digit_char(s[m]),
    decreases s.len() - i,
{
    if i < s.len() && is_digit_char(s[i]) {
        lemma_digits_count_facts(s, i + 1);
    }
}

proof fn lemma_run_value_grows(s: Seq<char>, v: int, i: int, j: int)
    requires
        0 <= v,
        i <= j,
        forall|m: int| i <= m < j ==> is_digit_char(s[m]),
    ensures
        run_value(s, v, i, j) >= v,
    decreases j - i,
{
    if i < j {
        lemma_run_value_grows(s, v * 10 + digit_val(s[i]), i + 1, j);
    }
}

proof fn lemma_unit_contribution_bounds(v: int, c: char)
    requires
        0 <= v,
        is_unit_char(c),
    ensures
        v <= v * unit_mult(c),
        0 <= v * unit_mult(c),
    decreases 0int,
{
    if c == 'm' {
        assert(v * unit_mult(c) == v);
    } else if c == 'h' {
        assert(v * 60 >= v) by (nonlinear_arith)
            requires
                v >= 0,
        ;
        assert(v * unit_mult(c) == v * 60);
    } else {
        assert(v * 1440 >= v) by (nonlinear_arith)
            requires
                v >= 0,
        ;
        assert(v * unit_mult(c) == v * 1440);
    }
}

proof fn lemma_total_from_nonneg(s: Seq<char>, i: int)
    requires
        0 <= i <= s.len(),
    ensures
        total_from(s, i) >= 0,
    decreases s.len() - i,
{
    if i < s.len() {
        let k = digits_count(s, i);
        lemma_digits_count_facts(s, i);
        if k >= 1 && i + k < s.len() {
            lemma_run_value_grows(s, 0, i, i + k);
            if is_unit_char(s[i + k]) {
                lemma_unit_contribution_bounds(run_value(s, 0, i, i + k), s[i + k]);
            }
            lemma_total_from_nonneg(s, i + k + 1);
        }
    }
}

proof fn lemma_scan_digit_run(s: Seq<char>, i: int, j: int, v: int, total: int)
    requires
        0 <= i <= j <= s.len(),
        forall|m: int| i <= m < j ==> is_digit_char(s[m]),
        0 <= v,
        0 <= total,
        run_value(s, v, i, j) <= i64::MAX,
    ensures
        scan_duration(s, i, Some(v), total) == scan_duration(s, j, Some(run_value(s, v, i, j)), total),
    decreases j - i,
{
    if i < j {
        let v2 = v * 10 + digit_val(s[i]);
        lemma_run_value_grows(s, v2, i + 1, j);
        lemma_scan_digit_run(s, i + 1, j, v2, total);
    }
}

proof fn lemma_scan_of_well_formed(s: Seq<char>, i: int, total: int)
    requires
        0 <= i <= s.len(),
        well_formed_from(s, i),
        0 <= total,
        total + total_from(s, i) <= i64::MAX,
    ensures
        scan_duration(s, i, None, total) == (if (total + total_from(s, i)) % 10 == 0 {
            Ok::<int, DurationError>(total + total_from(s, i))
        } else {
            Err::<int, DurationError>(DurationError::NotMultipleOfTen)
        }),
    decreases s.len() - i,
{
    if i < s.len() {
        let k = digits_count(s, i);
        lemma_digits_count_facts(s, i);
        let u = s[i + k];
        let num = run_value(s, 0, i, i + k);
        let rest = total_from(s, i + k + 1);
        lemma_total_from_nonneg(s, i + k + 1);
        lemma_run_value_grows(s, 0, i, i + k);
        lemma_unit_contribution_bounds(num, u);
        // The first digit opens the pending number.
        let d = digit_val(s[i]);
        assert(num == run_value(s, d, i + 1, i + k));
        lemma_run_value_grows(s, d, i + 1, i + k);
        lemma_scan_digit_run(s, i + 1, i + k, d, total);
        // The unit closes it and adds its minutes.
        let t2 = total + num * unit_mult(u);
        assert(scan_duration(s, i + k, Some(num), total) == scan_duration(s, i + k + 1, None, t2));
        lemma_scan_of_well_formed(s, i + k + 1, t2);
    }
}

proof fn lemma_scan_ok_well_formed(s: Seq<char>, i: int, buf: Option<int>, total: int)
    requires
        0 <= i <= s.len(),
        0 <= total <= i64::MAX,
        buf is Some ==> buf->0 >= 0,
        scan_duration(s, i, buf, total) is Ok,
    ensures
        buf is None ==> well_formed_from(s, i) && total + total_from(s, i) <= i64::MAX,
        buf is Some ==> {
            let k = digits_count(s, i);
            &&& i + k < s.len()
            &&& is_unit_char(s[i + k])
            &&& well_formed_from(s, i + k + 1)
            &&& total + run_value(s, buf->0, i, i + k) * unit_mult(s[i + k]) + total_from(
                s,
                i + k + 1,
            ) <= i64::MAX
        },
    decreases s.len() - i,
{
    lemma_digits_count_facts(s, i);
    if i >= s.len() {
        assert(buf is None);
        assert(total_from(s, i) == 0);
    } else {
        let c = s[i];
        if is_digit_char(c) {
            let v = (if buf is Some {
                buf->0
            } else {
                0
            }) * 10 + digit_val(c);
            assert(v <= i64::MAX);
            lemma_scan_ok_well_formed(s, i + 1, Some(v), total);
            let k1 = digits_count(s, i + 1);
            assert(digits_count(s, i) == 1 + k1);
            assert(run_value(s, v, i + 1, i + 1 + k1) == run_value(
                s,
                (if buf is Some {
                    buf->0
                } else {
                    0
                }),
                i,
                i + 1 + k1,
            ));
            if buf is None {
                assert(run_value(s, 0, i, i + digits_count(s, i)) == run_value(
                    s,
                    v,
                    i + 1,
                    i + 1 + k1,
                ));
            }
        } else if buf is Some && is_unit_char(c) {
            assert(digits_count(s, i) == 0);
            let t = total + buf->0 * unit_mult(c);
            assert(t <= i64::MAX);
            lemma_unit_contribution_bounds(buf->0, c);
            lemma_scan_ok_well_formed(s, i + 1, None, t);
            assert(run_value(s, buf->0, i, i) == buf->0);
        }
    }
}

/// Law (completeness): a non-empty input made of non-negative numbers
/// each followed by `m`, `h` or `d`, whose total fits and is a
/// multiple of 10, parses to exactly that total of minutes; a
/// well-formed total that is not a multiple of 10 is rejected as
/// such.
pub proof fn lemma_parse_duration_complete(s: Seq<char>)
    requires
        s.len() > 0,
        well_formed_from(s, 0),
        total_from(s, 0) <= i64::MAX,
    ensures
        total_from(s, 0) % 10 == 0 ==> parse_duration_spec(s) == Ok::<int, DurationError>(
            total_from(s, 0),
        ),
        total_from(s, 0) % 10 != 0 ==> parse_duration_spec(s) == Err::<int, DurationError>(
            DurationError::NotMultipleOfTen,
        ),
{
    lemma_total_from_nonneg(s, 0);
    lemma_scan_of_well_formed(s, 0, 0);
}

/// Law (soundness): any input the parser accepts is well formed —
/// numbers each followed by `m`, `h` or `d` — and the parsed value is
/// exactly the total of its chunks. Contrapositive: an input with a
/// unit outside `{m, h, d}`, a missing number, or trailing digits
/// never parses.
pub proof fn lemma_parse_duration_sound(s: Seq<char>)
    requires
        parse_duration_spec(s) is Ok,
    ensures
        s.len() > 0,
        well_formed_from(s, 0),
        parse_duration_spec(s)->Ok_0 == total_from(s, 0),
        total_from(s, 0) % 10 == 0,
{
    lemma_scan_ok_well_formed(s, 0, None, 0);
    lemma_total_from_nonneg(s, 0);
    lemma_scan_of_well_formed(s, 0, 0);
}

/// Parses a compact duration expression into a count of minutes.
///
/// The scan accumulates digits into a pending number; each unit
/// character closes the pending number and adds its minutes to the
/// total. The total must come out a multiple of 10. A number that
/// does not fit in an `i64`, a missing number, or trailing digits
/// without a unit are `Malformed`; a unit outside `{m, h, d}` is
/// `UnsupportedUnit`; empty input is `Empty`.
pub fn parse_duration(input: &str) -> (r: Result<i64, DurationError>)
    ensures
        match parse_duration_spec(input@) {
            Ok(t) => r is Ok && r->Ok_0 == t,
            Err(e) => r is Err && r->Err_0 == e,
        },
{
    let n = input.unicode_len();
    if n == 0 {
        return Err(DurationError::Empty);
    }
    let mut i: usize = 0;
    let mut buf: Option<i64> = None;
    let mut total: i64 = 0;
    while i < n
        invariant
            0 <= i <= n,
            n == input@.len(),
            total >= 0,
            buf is Some ==> buf->0 >= 0,
            scan_duration(input@, 0, None, 0) == scan_duration(
                input@,
                i as int,
                match buf {
                    Some(v) => Some(v as int),
                    None => None,
                },
                total as int,
            ),
        decreases n - i,
    {
        let c = input.get_char(i);
        let u = c as u32;
        if 48 <= u && u <= 57 {
            let d = (u - 48) as i64;
            let bufv: i64 = match buf {
                Some(v) => v,
                None => 0,
            };
            if bufv > 922_337_203_685_477_580 {
                return Err(DurationError::Malformed);
            }
            let v10 = bufv * 10;
            if v10 > i64::MAX - d {
                return Err(DurationError::Malformed);
            }
            buf = Some(v10 + d);
        } else {
            let bufv: i64 = match buf {
                Some(v) => v,
                None => {
                    return Err(DurationError::Malformed);
                },
            };
            let minutes: i64 = if c == 'm' {
                bufv
            } else if c == 'h' {
                if bufv > 153_722_867_280_912_930 {
                    return Err(DurationError::Malformed);
                }
                bufv * 60
            } else if c == 'd' {
                if bufv > 6_405_119_470_038_038 {
                    return Err(DurationError::Malformed);
                }
                bufv * 1440
            } else {
                return Err(DurationError::UnsupportedUnit);
            };
            if total > i64::MAX - minutes {
                return Err(DurationError::Malformed);
            }
            total = total + minutes;
            buf = None;
        }
        i = i + 1;
    }
    if buf.is_some() {
        return Err(DurationError::Malformed);
    }
    if total % 10 != 0 {
        return Err(DurationError::NotMultipleOfTen);
    }
    Ok(total)
}

} // verus!
