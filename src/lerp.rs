//! Linear interpolation between two neighbouring samples.
use vstd::prelude::*;

verus! {

/// Where the line through `(0, y0)` and `(1, y1)` crosses zero, as the
/// fraction `n / d` of one step: `(n, d)`. There is no crossing when
/// `d == 0`.
pub open spec fn crossing(y0: int, y1: int) -> (int, int) {
    (-y0, y1 - y0)
}

/// Where the line through `(0, y0)` and `(1, y1)` crosses zero, as the
/// exact fraction `r.0 / r.1` of one step (no crossing when `r.1 == 0`).
pub fn lerp_zero(y0: i16, y1: i16) -> (r: (i32, i32))
    ensures
        (r.0 as int, r.1 as int) == crossing(y0 as int, y1 as int),
{
    (-(y0 as i32), y1 as i32 - y0 as i32)
}

/// Samples on either side of zero put the crossing within the step: the
/// fraction lies in `[0, 1]`, and its denominator is not zero.
pub proof fn lemma_crossing_within_step(y0: i16, y1: i16)
    requires
        y0 != y1,
        (y0 <= 0 && 0 <= y1) || (y1 <= 0 && 0 <= y0),
    ensures
        ({
            let (n, d) = crossing(y0 as int, y1 as int);
            (0 < d && 0 <= n <= d) || (d < 0 && d <= n <= 0)
        }),
{
}

/// A sample exactly on zero pins the crossing to that sample: to `0` when
/// it is the first, to `1` when it is the second.
pub proof fn lemma_crossing_at_zero_sample(y0: i16, y1: i16)
    requires
        y0 != y1,
        y0 == 0 || y1 == 0,
    ensures
        ({
            let (n, d) = crossing(y0 as int, y1 as int);
            &&& d != 0
            &&& y0 == 0 ==> n == 0
            &&& y1 == 0 ==> n == d
        }),
{
}

/// Equal samples give no crossing.
pub proof fn lemma_equal_samples_no_crossing(y: i16)
    ensures
        crossing(y as int, y as int).1 == 0,
{
}

/// Scaling both samples by the same nonzero factor (flipping both signs
/// is the factor `-1`) gives the same crossing.
pub proof fn lemma_crossing_scale_invariant(y0: i16, y1: i16, z0: i16, z1: i16, k: int)
    requires
        k != 0,
        z0 == k * y0,
        z1 == k * y1,
    ensures
        ({
            let (n, d) = crossing(y0 as int, y1 as int);
            let (m, e) = crossing(z0 as int, z1 as int);
            &&& (d == 0 <==> e == 0)
            &&& m * d == n * e
        }),
{
    let a = y0 as int;
    let b = y1 as int;
    assert(k * b - k * a == k * (b - a)) by (nonlinear_arith);
    assert((-(k * a)) * (b - a) == (-a) * (k * (b - a))) by (nonlinear_arith);
    assert(k * (b - a) == 0 <==> b - a == 0) by (nonlinear_arith)
        requires
            k != 0,
    ;
}

} // verus!
