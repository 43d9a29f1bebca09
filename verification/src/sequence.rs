//! Enumerating the snapshot timestamps of a resolved window: the
//! inclusive, stride-spaced sequence from `start` while it stays at or
//! before `end`.

use crate::time::TimePoint;
use crate::window::ResolvedWindow;
use vstd::prelude::*;
use vstd::arithmetic::div_mod::lemma_fundamental_div_mod_converse;

verus! {

/// The timestamps of a window, in order: element `i` is `start` plus
/// `i` strides, empty exactly when `start > end`, and otherwise
/// `floor((end - start) / stride) + 1` elements long, so the last
/// element is the largest one not after `end`.
pub fn sequence(w: &ResolvedWindow) -> (r: Vec<TimePoint>)
    requires
        w.wf(),
    ensures
        w.start.secs > w.end.secs ==> r@.len() == 0,
        w.start.secs <= w.end.secs ==> r@.len() == (w.end.secs - w.start.secs) / (
        w.stride_minutes * 60) + 1,
        forall|i: int|
            0 <= i < r@.len() ==> r@[i].secs == w.start.secs + i * (w.stride_minutes * 60),
        forall|i: int| 0 <= i < r@.len() ==> w.start.secs <= #[trigger] r@[i].secs <= w.end.secs,
        forall|i: int| 0 <= i < r@.len() ==> r@[i].wf(),
        r@.len() > 0 ==> r@[0].secs == w.start.secs,
{
    let mut out: Vec<TimePoint> = Vec::new();
    if w.start.secs > w.end.secs {
        return out;
    }
    let span = w.end.secs - w.start.secs;
    out.push(w.start);
    assert(out@[0].secs == w.start.secs + 0 * (w.stride_minutes * 60));
    proof {
        vstd::arithmetic::div_mod::lemma_fundamental_div_mod(span as int, 60);
        vstd::arithmetic::div_mod::lemma_mod_bound(span as int, 60);
    }
    if w.stride_minutes > span / 60 {
        // A single stride overshoots the window: one element.
        proof {
            let step = w.stride_minutes * 60;
            assert(60 * (w.stride_minutes as int) >= 60 * (span / 60) + 60);
            assert(step > span);
            lemma_fundamental_div_mod_converse(span as int, step, 0, span as int);
        }
        return out;
    }
    assert(60 * (w.stride_minutes as int) <= 60 * (span / 60));
    let step = w.stride_minutes * 60;
    assert(step <= span);
    let mut t: i64 = w.start.secs;
    while w.end.secs - t >= step
        invariant
            w.wf(),
            step == w.stride_minutes * 60,
            0 < step <= span,
            span == w.end.secs - w.start.secs,
            span >= 0,
            w.start.secs <= t <= w.end.secs,
            out@.len() >= 1,
            t == w.start.secs + (out@.len() - 1) * step,
            forall|i: int| 0 <= i < out@.len() ==> out@[i].secs == w.start.secs + i * step,
            forall|i: int| 0 <= i < out@.len() ==> w.start.secs <= #[trigger] out@[i].secs <= w.end.secs,
        decreases w.end.secs - t,
    {
        let ghost n = out@.len() as int;
        t = t + step;
        out.push(TimePoint { secs: t });
        proof {
            assert(t == w.start.secs + n * step) by (nonlinear_arith)
                requires
                    t - step == w.start.secs + (n - 1) * step,
            {}
        }
    }
    proof {
        let n = out@.len() as int;
        let step_i = w.stride_minutes * 60;
        assert(span == (n - 1) * step_i + (w.end.secs - t));
        lemma_fundamental_div_mod_converse(span as int, step_i, n - 1, w.end.secs - t);
    }
    out
}

} // verus!
