//! Partitions a sample sequence into a fixed number of non-overlapping
//! windows and derives one (min, max) pair per window through a running
//! extrema scheme that only ever widens its bounds: each window starts its
//! accumulators at `(0, 0)` (not at the window's first sample), a sample
//! tightens at most one bound per step, and the pair reached after each step
//! is summed, so the window's result is the truncated average of the running
//! extrema rather than a true per-window minimum and maximum.

use vstd::prelude::*;
use vstd::arithmetic::div_mod::{
    lemma_basic_div, lemma_div_by_multiple, lemma_div_is_ordered, lemma_div_nonincreasing,
    lemma_div_pos_is_pos, lemma_fundamental_div_mod, lemma_multiply_divide_le,
};
use vstd::arithmetic::mul::lemma_mul_inequality;
use crate::numfmt::spec_tdiv;
use crate::{MinMax, WaveError};

verus! {

/// The running minimum after the first `n` samples of a window: starts at 0
/// and is lowered to each sample that falls below it.
pub open spec fn spec_running_min(win: Seq<i16>, n: nat) -> int
    recommends
        n <= win.len(),
    decreases n,
{
    if n == 0 {
        0
    } else {
        let prev = spec_running_min(win, (n - 1) as nat);
        if win[n - 1] < prev {
            win[n - 1] as int
        } else {
            prev
        }
    }
}

/// The running maximum after the first `n` samples of a window: starts at 0
/// and is raised to each sample that exceeds it, but only when that sample
/// did not lower the running minimum in the same step.
pub open spec fn spec_running_max(win: Seq<i16>, n: nat) -> int
    recommends
        n <= win.len(),
    decreases n,
{
    if n == 0 {
        0
    } else {
        let pmin = spec_running_min(win, (n - 1) as nat);
        let pmax = spec_running_max(win, (n - 1) as nat);
        if win[n - 1] < pmin {
            pmax
        } else if win[n - 1] > pmax {
            win[n - 1] as int
        } else {
            pmax
        }
    }
}

/// The sum of the running minima observed after each of the first `n` steps.
pub open spec fn spec_sum_min(win: Seq<i16>, n: nat) -> int
    recommends
        n <= win.len(),
    decreases n,
{
    if n == 0 {
        0
    } else {
        spec_sum_min(win, (n - 1) as nat) + spec_running_min(win, n)
    }
}

/// The sum of the running maxima observed after each of the first `n` steps.
pub open spec fn spec_sum_max(win: Seq<i16>, n: nat) -> int
    recommends
        n <= win.len(),
    decreases n,
{
    if n == 0 {
        0
    } else {
        spec_sum_max(win, (n - 1) as nat) + spec_running_max(win, n)
    }
}

/// Window `i` of width `w`: the samples at indices `[i*w, i*w + w)`.
pub open spec fn spec_window(s: Seq<i16>, w: nat, i: nat) -> Seq<i16>
    recommends
        (i + 1) * w <= s.len(),
{
    s.subrange((i * w) as int, (i * w + w) as int)
}

/// The output minimum of a window: the truncated average of its running
/// minima.
pub open spec fn spec_peak_min(win: Seq<i16>) -> int
    recommends
        win.len() >= 1,
{
    spec_tdiv(spec_sum_min(win, win.len()), win.len() as int)
}

/// The output maximum of a window: the truncated average of its running
/// maxima.
pub open spec fn spec_peak_max(win: Seq<i16>) -> int
    recommends
        win.len() >= 1,
{
    spec_tdiv(spec_sum_max(win, win.len()), win.len() as int)
}

/// Whether one produced pair carries exactly the peaks of one window.
pub open spec fn spec_peak_of(p: MinMax<i16>, win: Seq<i16>) -> bool {
    p.min == spec_peak_min(win) && p.max == spec_peak_max(win)
}

/// The running extrema never leave `[-32768, 0]` and `[0, 32767]`: they start
/// at zero and only ever widen toward the sample range's ends.
pub proof fn lemma_running_bounds(win: Seq<i16>, n: nat)
    requires
        n <= win.len(),
    ensures
        -32768 <= spec_running_min(win, n) <= 0,
        0 <= spec_running_max(win, n) <= 32767,
    decreases n,
{
    if n > 0 {
        lemma_running_bounds(win, (n - 1) as nat);
    }
}

/// The accumulated sums after `n` steps lie within `n` times the running
/// extrema's ranges.
pub proof fn lemma_sum_bounds(win: Seq<i16>, n: nat)
    requires
        n <= win.len(),
    ensures
        -32768 * n <= spec_sum_min(win, n) <= 0,
        0 <= spec_sum_max(win, n) <= 32767 * n,
    decreases n,
{
    if n > 0 {
        lemma_sum_bounds(win, (n - 1) as nat);
        lemma_running_bounds(win, n);
    }
}

/// Each output peak component lies within the signed 16-bit sample range;
/// more precisely, the output minimum is never positive and the output
/// maximum never negative.
pub proof fn lemma_peak_in_range(win: Seq<i16>)
    requires
        win.len() >= 1,
    ensures
        -32768 <= spec_peak_min(win) <= 0,
        0 <= spec_peak_max(win) <= 32767,
{
    let w = win.len() as int;
    let sm = spec_sum_min(win, win.len());
    let sx = spec_sum_max(win, win.len());
    lemma_sum_bounds(win, win.len());
    lemma_div_pos_is_pos(-sm, w);
    lemma_multiply_divide_le(-sm, w, 32768);
    assert(-sm <= w * 32768) by (nonlinear_arith)
        requires
            -sm <= 32768 * w,
    ;
    lemma_div_pos_is_pos(sx, w);
    lemma_multiply_divide_le(sx, w, 32767);
    assert(sx <= w * 32767) by (nonlinear_arith)
        requires
            sx <= 32767 * w,
    ;
}

/// Downsampling reads only the first `count * (len / count)` samples: cutting
/// the sequence to that prefix changes neither the window width nor any
/// window's contents, so the trailing `len % count` samples never matter.
pub proof fn lemma_tail_discarded(s: Seq<i16>, count: nat, i: nat)
    requires
        count > 0,
        s.len() / count >= 1,
        i < count,
    ensures
        s.take(((s.len() / count) * count) as int).len() / count == s.len() / count,
        spec_window(s.take(((s.len() / count) * count) as int), s.len() / count, i) == spec_window(
            s,
            s.len() / count,
            i,
        ),
{
    let w = s.len() / count;
    lemma_fundamental_div_mod(s.len() as int, count as int);
    assert(w * count <= s.len()) by (nonlinear_arith)
        requires
            s.len() as int == count * w + (s.len() as int) % (count as int),
            (s.len() as int) % (count as int) >= 0,
    ;
    let t = s.take((w * count) as int);
    lemma_div_by_multiple(w as int, count as int);
    assert(t.len() / count == w);
    assert((i + 1) * w <= count * w) by (nonlinear_arith)
        requires
            i + 1 <= count,
            w >= 0,
    ;
    assert(w * count == count * w) by (nonlinear_arith);
    assert((i + 1) * w == i * w + w) by (nonlinear_arith);
    assert(spec_window(t, w, i) =~= spec_window(s, w, i));
}

/// Partitions `samples` into `output_count` windows of width
/// `W = len / output_count` and produces the running-extrema average pair of
/// each window, in window order.
///
/// With `output_count == 0` it succeeds with no output whatever the input;
/// with fewer samples than requested windows (`W == 0`) it fails with
/// `InsufficientData`; otherwise it yields exactly `output_count` pairs and
/// the trailing `len % output_count` samples are never read.
///
/// The caller keeps the input shorter than `2^48` samples: a window can be as
/// wide as the whole input, and the per-window sums of 16-bit values must fit
/// the signed 64-bit accumulators.
pub fn downsample(samples: &Vec<i16>, output_count: usize) -> (r: Result<
    Vec<MinMax<i16>>,
    WaveError,
>)
    requires
        samples@.len() < 0x1000000000000,
    ensures
        output_count == 0 ==> (r matches Ok(v) && v@.len() == 0),
        output_count > 0 && samples@.len() < output_count ==> (r matches Err(e) && e
            == WaveError::InsufficientData),
        output_count > 0 && samples@.len() >= output_count ==> (r matches Ok(v) && v@.len()
            == output_count && forall|i: int|
            0 <= i < output_count ==> spec_peak_of(
                v@[i],
                spec_window(samples@, samples@.len() / output_count as nat, i as nat),
            )),
{
    if output_count == 0 {
        return Ok(Vec::new());
    }
    let total = samples.len();
    let w = total / output_count;
    proof {
        if total < output_count {
            lemma_basic_div(total as int, output_count as int);
        } else {
            lemma_div_is_ordered(output_count as int, total as int, output_count as int);
            lemma_div_by_multiple(1, output_count as int);
        }
    }
    if w == 0 {
        return Err(WaveError::InsufficientData);
    }
    proof {
        lemma_fundamental_div_mod(total as int, output_count as int);
        lemma_div_nonincreasing(total as int, output_count as int);
    }
    let mut out: Vec<MinMax<i16>> = Vec::new();
    let mut i: usize = 0;
    while i < output_count
        invariant
            0 < output_count,
            samples@.len() <= usize::MAX,
            samples@.len() < 0x1000000000000,
            w == samples@.len() / output_count as nat,
            1 <= w < 0x1000000000000,
            output_count * w <= samples@.len(),
            i <= output_count,
            out@.len() == i,
            forall|ii: int|
                0 <= ii < i ==> spec_peak_of(out@[ii], spec_window(samples@, w as nat, ii as nat)),
        decreases output_count - i,
    {
        proof {
            lemma_mul_inequality(i + 1, output_count as int, w as int);
            assert((i + 1) * w == i * w + w) by (nonlinear_arith);
        }
        let base = i * w;
        let ghost win = spec_window(samples@, w as nat, i as nat);
        proof {
            assert(win.len() == w);
        }
        let mut local_min: i16 = 0;
        let mut local_max: i16 = 0;
        let mut total_min: i64 = 0;
        let mut total_max: i64 = 0;
        let mut j: usize = 0;
        while j < w
            invariant
                base == i * w,
                base + w <= samples@.len(),
                samples@.len() <= usize::MAX,
                samples@.len() < 0x1000000000000,
                1 <= w < 0x1000000000000,
                j <= w,
                win == spec_window(samples@, w as nat, i as nat),
                win.len() == w,
                local_min == spec_running_min(win, j as nat),
                local_max == spec_running_max(win, j as nat),
                local_min <= 0,
                local_max >= 0,
                total_min == spec_sum_min(win, j as nat),
                total_max == spec_sum_max(win, j as nat),
                -32768 * j <= total_min <= 0,
                0 <= total_max <= 32767 * j,
            decreases w - j,
        {
            let sample = samples[base + j];
            proof {
                assert(sample == win[j as int]);
            }
            if sample < local_min {
                local_min = sample;
            } else if sample > local_max {
                local_max = sample;
            }
            total_min = total_min + local_min as i64;
            total_max = total_max + local_max as i64;
            j += 1;
        }
        let q_min: i64 = crate::numfmt::tdiv_i64(total_min, w as i64);
        let q_max: i64 = crate::numfmt::tdiv_i64(total_max, w as i64);
        proof {
            lemma_peak_in_range(win);
        }
        out.push(MinMax::new(q_min as i16, q_max as i16));
        i += 1;
    }
    Ok(out)
}

} // verus!

