//! Windowed sums over the history, each ending at the cursor.
use vstd::prelude::*;

use crate::history::{History, HistoryView, HISTORY_SIZE};

verus! {

/// Bound on the product of two samples.
pub open spec fn product_bound() -> int {
    0x4000_0000
}

/// Bound on the square of the difference of two samples.
pub open spec fn square_bound() -> int {
    0x1_0000_0000
}

/// Sum of `at(i) * at(i + delay + extra)` for `i` in `[0, k)`.
pub open spec fn autocorrelation_sum(h: HistoryView, delay: int, extra: int, k: int) -> int
    decreases k,
{
    if k <= 0 {
        0
    } else {
        autocorrelation_sum(h, delay, extra, k - 1) + h.at(k - 1) * h.at(k - 1 + delay + extra)
    }
}

/// Sum of `(at(i) - at(i + lag))^2` for `i` in `[0, k)`.
pub open spec fn squared_difference_sum(h: HistoryView, lag: int, k: int) -> int
    decreases k,
{
    if k <= 0 {
        0
    } else {
        let d = h.at(k - 1) - h.at(k - 1 + lag);
        squared_difference_sum(h, lag, k - 1) + d * d
    }
}

/// Sum of `at(i)^2` for `i` in `[0, k)`.
pub open spec fn energy_sum(h: HistoryView, k: int) -> int
    decreases k,
{
    if k <= 0 {
        0
    } else {
        energy_sum(h, k - 1) + h.at(k - 1) * h.at(k - 1)
    }
}

proof fn lemma_product_bound(a: int, b: int)
    requires
        -32768 <= a <= 32767,
        -32768 <= b <= 32767,
    ensures
        -product_bound() <= a * b <= product_bound(),
        0 <= a * a <= product_bound(),
        0 <= (a - b) * (a - b) < square_bound(),
{
    assert(-product_bound() <= a * b <= product_bound()) by (nonlinear_arith)
        requires
            -32768 <= a <= 32767,
            -32768 <= b <= 32767,
    ;
    assert(0 <= a * a <= product_bound()) by (nonlinear_arith)
        requires
            -32768 <= a <= 32767,
    ;
    let d = a - b;
    assert(0 <= d * d < square_bound()) by (nonlinear_arith)
        requires
            -65535 <= d <= 65535,
    ;
}

/// An energy is never negative and grows with the window.
pub proof fn lemma_energy_bounds(h: HistoryView, k: int)
    requires
        h.wf(),
        0 <= k,
    ensures
        0 <= energy_sum(h, k) <= k * product_bound(),
    decreases k,
{
    if k > 0 {
        lemma_energy_bounds(h, k - 1);
        let a = h.at(k - 1);
        lemma_product_bound(a, a);
    }
}

/// Correlation of the `delay` newest samples with those `delay + extra` further back.
pub fn autocorrelation(h: &History, delay: usize, extra: usize) -> (r: i64)
    requires
        h.wf(),
        2 * delay + extra <= HISTORY_SIZE,
    ensures
        r as int == autocorrelation_sum(h@, delay as int, extra as int, delay as int),
        -0x200_0000_0000 <= r <= 0x200_0000_0000,
{
    let mut acc: i64 = 0;
    let mut i: usize = 0;
    while i < delay
        invariant
            h.wf(),
            2 * delay + extra <= HISTORY_SIZE,
            i <= delay,
            acc as int == autocorrelation_sum(h@, delay as int, extra as int, i as int),
            -(i as int) * product_bound() <= acc <= (i as int) * product_bound(),
        decreases delay - i,
    {
        let a = h.at(i) as i64;
        let b = h.at(i + delay + extra) as i64;
        proof {
            lemma_product_bound(a as int, b as int);
        }
        acc = acc + a * b;
        i = i + 1;
    }
    proof {
        assert(-0x200_0000_0000 <= acc <= 0x200_0000_0000) by (nonlinear_arith)
            requires
                -(delay as int) * 0x4000_0000 <= acc <= (delay as int) * 0x4000_0000,
                delay <= 2048,
        ;
    }
    acc
}

/// Dissimilarity of the `window` newest samples and those `lag` further back.
pub fn squared_difference(h: &History, window: usize, lag: usize) -> (r: u64)
    requires
        h.wf(),
        window + lag <= HISTORY_SIZE,
    ensures
        r as int == squared_difference_sum(h@, lag as int, window as int),
{
    let mut acc: u64 = 0;
    let mut i: usize = 0;
    while i < window
        invariant
            h.wf(),
            window + lag <= HISTORY_SIZE,
            i <= window,
            acc as int == squared_difference_sum(h@, lag as int, i as int),
            0 <= acc <= (i as int) * square_bound(),
        decreases window - i,
    {
        let a = h.at(i) as i64;
        let b = h.at(i + lag) as i64;
        proof {
            lemma_product_bound(a as int, b as int);
        }
        let d = a - b;
        acc = acc + (d * d) as u64;
        i = i + 1;
    }
    acc
}

/// Power of the `window` newest samples.
pub fn energy(h: &History, window: usize) -> (r: u64)
    requires
        h.wf(),
        window <= HISTORY_SIZE,
    ensures
        r as int == energy_sum(h@, window as int),
{
    let mut acc: u64 = 0;
    let mut i: usize = 0;
    while i < window
        invariant
            h.wf(),
            window <= HISTORY_SIZE,
            i <= window,
            acc as int == energy_sum(h@, i as int),
            0 <= acc <= (i as int) * product_bound(),
        decreases window - i,
    {
        let a = h.at(i) as i64;
        proof {
            lemma_product_bound(a as int, a as int);
        }
        acc = acc + (a * a) as u64;
        i = i + 1;
    }
    acc
}

} // verus!
