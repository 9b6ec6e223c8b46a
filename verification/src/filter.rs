//! Exponential low-pass filter over the 3-axis accelerometer stream, with
//! the squared-magnitude alarm threshold.
//!
//! Readings are kept in milli-g, so the arithmetic is exact integer work:
//! the smoothing weight is a rational `w_num / w_den` (0.8 is 4/5), and one
//! update computes `(w_num * new + (w_den - w_num) * prev) / w_den` rounded
//! down. The alarm compares the squared magnitude of the filtered vector,
//! in milli-g squared, against 2.5 g squared.

use vstd::prelude::*;
use vstd::arithmetic::div_mod::{lemma_div_is_ordered, lemma_div_multiples_vanish};
use vstd::arithmetic::mul::lemma_mul_inequality;

verus! {

/// Largest axis reading, in milli-g, that the filter accepts. The physical
/// sensor saturates at 16 g = 16000 milli-g, far inside this bound; it is
/// here so every intermediate product provably fits in an `i64`.
pub const AXIS_LIMIT_MG: i64 = 1_000_000;

/// Alarm threshold: 2.5 g squared, in milli-g squared.
pub const ALARM_THRESHOLD_MG2: i64 = 2_500_000;

/// One filter update: `(n * x + (d - n) * p) / d`, rounded toward negative
/// infinity, where `p` is the previous filtered value, `x` the new sample
/// and `n / d` the smoothing weight.
pub open spec fn filter_step_spec(p: int, x: int, n: int, d: int) -> int {
    (n * x + (d - n) * p) / d
}

/// The filtered value after `k` updates with the constant sample `x`,
/// starting from `p`.
pub open spec fn filter_iter_spec(p: int, x: int, n: int, d: int, k: nat) -> int
    decreases k,
{
    if k == 0 {
        p
    } else {
        filter_step_spec(filter_iter_spec(p, x, n, d, (k - 1) as nat), x, n, d)
    }
}

/// One filter update lands between the previous value and the new sample:
/// the filter moves toward the sample and never overshoots it.
pub proof fn lemma_filter_step_between(p: int, x: int, n: int, d: int)
    requires
        0 < n <= d,
    ensures
        p <= x ==> p <= filter_step_spec(p, x, n, d) <= x,
        x <= p ==> x <= filter_step_spec(p, x, n, d) <= p,
{
    let num = n * x + (d - n) * p;
    if p <= x {
        lemma_mul_inequality(p, x, n);
        lemma_mul_inequality(p, x, d - n);
        assert(d * p == n * p + (d - n) * p) by (nonlinear_arith);
        assert(d * x == n * x + (d - n) * x) by (nonlinear_arith);
        lemma_div_is_ordered(d * p, num, d);
        lemma_div_is_ordered(num, d * x, d);
        lemma_div_multiples_vanish(p, d);
        lemma_div_multiples_vanish(x, d);
    } else {
        lemma_mul_inequality(x, p, n);
        lemma_mul_inequality(x, p, d - n);
        assert(d * p == n * p + (d - n) * p) by (nonlinear_arith);
        assert(d * x == n * x + (d - n) * x) by (nonlinear_arith);
        lemma_div_is_ordered(d * x, num, d);
        lemma_div_is_ordered(num, d * p, d);
        lemma_div_multiples_vanish(p, d);
        lemma_div_multiples_vanish(x, d);
    }
}

/// Fed the constant sample `x` forever, the filtered value approaches `x`
/// monotonically and never passes it: each update moves no further from `x`
/// than the last, stays on the starting side of `x`, and stays within the
/// interval between the start value and `x`.
pub proof fn lemma_filter_converges(p: int, x: int, n: int, d: int, k: nat)
    requires
        0 < n <= d,
    ensures
        p <= x ==> p <= filter_iter_spec(p, x, n, d, k) <= filter_iter_spec(
            p,
            x,
            n,
            d,
            k + 1,
        ) <= x,
        x <= p ==> x <= filter_iter_spec(p, x, n, d, k + 1) <= filter_iter_spec(
            p,
            x,
            n,
            d,
            k,
        ) <= p,
    decreases k,
{
    if k == 0 {
        lemma_filter_step_between(p, x, n, d);
    } else {
        lemma_filter_converges(p, x, n, d, (k - 1) as nat);
        let fk = filter_iter_spec(p, x, n, d, k);
        lemma_filter_step_between(fk, x, n, d);
    }
}

/// Running averages of the three axes, in milli-g, with the fixed smoothing
/// weight `w_num / w_den`. Starts from zero on all axes.
pub struct Filter {
    pub fx: i64,
    pub fy: i64,
    pub fz: i64,
    pub w_num: i64,
    pub w_den: i64,
}

impl Filter {
    /// The weight is a rational in (0, 1] with a bounded denominator, and
    /// the three averages stay within the axis bound.
    pub open spec fn wf(&self) -> bool {
        0 < self.w_num <= self.w_den <= AXIS_LIMIT_MG
            && -AXIS_LIMIT_MG <= self.fx <= AXIS_LIMIT_MG
            && -AXIS_LIMIT_MG <= self.fy <= AXIS_LIMIT_MG
            && -AXIS_LIMIT_MG <= self.fz <= AXIS_LIMIT_MG
    }

    /// A fresh filter with the weight `w_num / w_den` and all axes at zero.
    pub fn new(w_num: i64, w_den: i64) -> (f: Filter)
        requires
            0 < w_num <= w_den <= AXIS_LIMIT_MG,
        ensures
            f.wf(),
            f.fx == 0 && f.fy == 0 && f.fz == 0,
            f.w_num == w_num && f.w_den == w_den,
    {
        Filter { fx: 0, fy: 0, fz: 0, w_num, w_den }
    }

    /// Update all three axes with the fresh sample `(x, y, z)` in milli-g
    /// and return the filtered triple.
    pub fn sample(&mut self, x: i64, y: i64, z: i64) -> (out: (i64, i64, i64))
        requires
            old(self).wf(),
            -AXIS_LIMIT_MG <= x <= AXIS_LIMIT_MG,
            -AXIS_LIMIT_MG <= y <= AXIS_LIMIT_MG,
            -AXIS_LIMIT_MG <= z <= AXIS_LIMIT_MG,
        ensures
            final(self).wf(),
            final(self).w_num == old(self).w_num && final(self).w_den == old(self).w_den,
            final(self).fx == filter_step_spec(old(self).fx as int, x as int, old(self).w_num as int, old(self).w_den as int),
            final(self).fy == filter_step_spec(old(self).fy as int, y as int, old(self).w_num as int, old(self).w_den as int),
            final(self).fz == filter_step_spec(old(self).fz as int, z as int, old(self).w_num as int, old(self).w_den as int),
            out.0 == final(self).fx && out.1 == final(self).fy && out.2 == final(self).fz,
    {
        self.fx = axis_update(self.fx, x, self.w_num, self.w_den);
        self.fy = axis_update(self.fy, y, self.w_num, self.w_den);
        self.fz = axis_update(self.fz, z, self.w_num, self.w_den);
        (self.fx, self.fy, self.fz)
    }

    /// The squared magnitude of the filtered vector, in milli-g squared.
    pub fn magnitude_sq(&self) -> (m: i64)
        requires
            self.wf(),
        ensures
            m == self.fx * self.fx + self.fy * self.fy + self.fz * self.fz,
    {
        proof {
            lemma_square_bound(self.fx as int, AXIS_LIMIT_MG as int);
            lemma_square_bound(self.fy as int, AXIS_LIMIT_MG as int);
            lemma_square_bound(self.fz as int, AXIS_LIMIT_MG as int);
        }
        self.fx * self.fx + self.fy * self.fy + self.fz * self.fz
    }

    /// True exactly when the filtered vector's squared magnitude exceeds
    /// the alarm threshold of 2.5 g squared.
    pub fn alarm(&self) -> (b: bool)
        requires
            self.wf(),
        ensures
            b == (self.fx * self.fx + self.fy * self.fy + self.fz * self.fz
                > ALARM_THRESHOLD_MG2),
    {
        self.magnitude_sq() > ALARM_THRESHOLD_MG2
    }
}

/// One exponential-average update of a single axis.
fn axis_update(p: i64, x: i64, n: i64, d: i64) -> (r: i64)
    requires
        0 < n <= d <= AXIS_LIMIT_MG,
        -AXIS_LIMIT_MG <= p <= AXIS_LIMIT_MG,
        -AXIS_LIMIT_MG <= x <= AXIS_LIMIT_MG,
    ensures
        r == filter_step_spec(p as int, x as int, n as int, d as int),
        -AXIS_LIMIT_MG <= r <= AXIS_LIMIT_MG,
{
    proof {
        lemma_mul_bound(n as int, x as int, AXIS_LIMIT_MG as int);
        lemma_mul_bound((d - n) as int, p as int, AXIS_LIMIT_MG as int);
        lemma_filter_step_between(p as int, x as int, n as int, d as int);
    }
    let num: i64 = n * x + (d - n) * p;
    let r = match num.checked_div_euclid(d) {
        Some(q) => q,
        None => 0,
    };
    r
}

/// `|a| <= bound` gives `0 <= a * a <= bound * bound`.
proof fn lemma_square_bound(a: int, bound: int)
    requires
        -bound <= a <= bound,
    ensures
        0 <= a * a <= bound * bound,
{
    assert(0 <= a * a <= bound * bound) by (nonlinear_arith)
        requires
            -bound <= a <= bound,
    ;
}

/// `|a| <= bound` and `0 <= b <= bound` give `|b * a| <= bound * bound`.
proof fn lemma_mul_bound(b: int, a: int, bound: int)
    requires
        0 <= b <= bound,
        -bound <= a <= bound,
    ensures
        -(bound * bound) <= b * a <= bound * bound,
{
    lemma_mul_inequality(a, bound, b);
    lemma_mul_inequality(-bound, a, b);
    assert(b * bound <= bound * bound) by (nonlinear_arith)
        requires
            0 <= b <= bound,
    ;
    assert(b * -bound >= -(bound * bound)) by (nonlinear_arith)
        requires
            0 <= b <= bound,
    ;
}

} // verus!
