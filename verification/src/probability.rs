//! The Metropolis acceptance rule.
//!
//! The flip probability for an energy change `dE` at temperature `T` with
//! thermal constant `K` is `exp(-dE / (K * T))`. The exponential of a
//! rational argument is irrational, so the probability is carried exactly by
//! its exponent: a `FlipProbability` holds the rational `q = dE / (K * T)`
//! and denotes `exp(-q)`. Since `exp` is strictly increasing, the order of
//! two probabilities is exactly the reverse order of their exponents, and a
//! probability is at least one exactly when its exponent is at most zero;
//! both are stated below as spec functions over the exponents alone.
//!
//! For sampling, `acceptance_threshold` maps a probability to a fixed-point
//! integer threshold against a uniform draw below `ACCEPT_SCALE`: a draw
//! below the threshold accepts the flip. A certain probability (exponent at
//! most zero) yields the full scale, so it accepts every draw; any strictly
//! positive exponent yields a threshold strictly below the scale.

use vstd::prelude::*;

verus! {

/// Denominator of the acceptance draw: draws are uniform in
/// `[0, ACCEPT_SCALE)`, and a flip with threshold `t` is accepted exactly
/// when the draw is below `t`. The value is `2^32`.
pub const ACCEPT_SCALE: u64 = 4294967296;

/// Steps of repeated squaring in `acceptance_threshold`; the approximation
/// computed is `(1 + q / 2^16)^(-2^16)`, with `2^16 = ACCEPT_HALVINGS`
/// squarings of a linear first segment.
pub const ACCEPT_HALVINGS: usize = 16;

/// The flip probability `exp(-(exp_num / exp_den))`, held exactly by its
/// exponent.
#[derive(Clone, Copy, PartialEq, Eq, Structural, Debug)]
pub struct FlipProbability {
    /// Numerator of the exponent `q`.
    pub exp_num: i64,
    /// Denominator of the exponent `q`; positive when well-formed.
    pub exp_den: i64,
}

impl FlipProbability {
    /// Well-formedness: a positive denominator, within the magnitudes that
    /// the configuration bounds admit.
    pub open spec fn wf(self) -> bool {
        &&& 0 < self.exp_den <= 10000000000i64
        &&& -800000000 <= self.exp_num <= 800000000
    }

    /// The probability is at least one: `exp(-q) >= 1` exactly when
    /// `q <= 0`, and such a flip is accepted unconditionally.
    pub open spec fn is_certain(self) -> bool {
        self.exp_num <= 0
    }

    /// This probability is strictly greater than `other`: `exp` is strictly
    /// increasing, so `exp(-q1) > exp(-q2)` exactly when `q1 < q2`.
    pub open spec fn gt(self, other: FlipProbability) -> bool {
        self.exp_num * other.exp_den < other.exp_num * self.exp_den
    }

    /// Checks `is_certain` at run time.
    pub fn certain(&self) -> (r: bool)
        ensures
            r == self.is_certain(),
    {
        self.exp_num <= 0
    }
}

/// The exponent `q = dE / (K * T)` of `flip_probability`, as a spec-level
/// value.
pub open spec fn flip_probability_spec(e_diff_milli: i64, t_milli: i64, k_milli: i64)
    -> FlipProbability {
    FlipProbability {
        exp_num: (e_diff_milli * 1000) as i64,
        exp_den: (k_milli * t_milli) as i64,
    }
}

/// The flip probability `exp(-dE / (K * T))` for an energy change of
/// `e_diff_milli` milli-units at temperature `t_milli` milli-units with
/// thermal constant `k_milli` milli-units: with `dE = e/1000`, `T = t/1000`
/// and `K = k/1000`, the exponent is exactly `1000 e / (k t)`.
pub fn flip_probability(e_diff_milli: i64, t_milli: i64, k_milli: i64) -> (r: FlipProbability)
    requires
        -800000 <= e_diff_milli <= 800000,
        0 < t_milli <= 100000,
        0 < k_milli <= 100000,
    ensures
        r == flip_probability_spec(e_diff_milli, t_milli, k_milli),
        r.wf(),
        r.is_certain() <==> e_diff_milli <= 0,
{
    assert(0 < k_milli * t_milli <= 10000000000i64) by (nonlinear_arith)
        requires
            0 < t_milli <= 100000,
            0 < k_milli <= 100000,
    ;
    let num = e_diff_milli * 1000;
    let den = k_milli * t_milli;
    assert(num <= 0 <==> e_diff_milli <= 0);
    FlipProbability { exp_num: num, exp_den: den }
}

/// A non-increasing move is accepted unconditionally: for `dE <= 0` the flip
/// probability is at least one, for every `T > 0` and `K > 0`.
pub proof fn lemma_certain_for_nonincreasing(e_diff_milli: i64, t_milli: i64, k_milli: i64)
    requires
        -800000 <= e_diff_milli <= 800000,
        e_diff_milli <= 0,
        0 < t_milli <= 100000,
        0 < k_milli <= 100000,
    ensures
        flip_probability_spec(e_diff_milli, t_milli, k_milli).is_certain(),
{
}

/// The flip probability is strictly decreasing in the energy change, for
/// fixed `T > 0` and `K > 0`: a smaller `dE` gives a strictly greater
/// probability.
pub proof fn lemma_strictly_decreasing(
    e_lo_milli: i64,
    e_hi_milli: i64,
    t_milli: i64,
    k_milli: i64,
)
    requires
        -800000 <= e_lo_milli <= 800000,
        -800000 <= e_hi_milli <= 800000,
        e_lo_milli < e_hi_milli,
        0 < t_milli <= 100000,
        0 < k_milli <= 100000,
    ensures
        flip_probability_spec(e_lo_milli, t_milli, k_milli).gt(
            flip_probability_spec(e_hi_milli, t_milli, k_milli),
        ),
{
    let d: int = k_milli as int * t_milli as int;
    assert(0 < d <= 10000000000) by (nonlinear_arith)
        requires
            0 < t_milli <= 100000,
            0 < k_milli <= 100000,
            d == k_milli as int * t_milli as int,
    ;
    assert((e_lo_milli as int * 1000) * d < (e_hi_milli as int * 1000) * d) by (nonlinear_arith)
        requires
            e_lo_milli < e_hi_milli,
            0 < d,
    ;
    assert(((e_lo_milli * 1000) as i64) == e_lo_milli as int * 1000);
    assert(((e_hi_milli * 1000) as i64) == e_hi_milli as int * 1000);
    assert(((k_milli * t_milli) as i64) == d);
}

/// The value of `t` after `steps` squarings in fixed point at the acceptance
/// scale.
pub open spec fn squared_down(t: int, steps: nat) -> int
    decreases steps,
{
    if steps == 0 {
        t
    } else {
        squared_down((t * t) / (ACCEPT_SCALE as int), (steps - 1) as nat)
    }
}

/// The exact value `acceptance_threshold` returns: the full scale for a
/// certain probability; otherwise the fixed-point first segment of
/// `1 / (1 + q / 2^16)` (rounded so that it sits strictly below the scale),
/// squared `ACCEPT_HALVINGS` times.
pub open spec fn acceptance_threshold_spec(p: FlipProbability) -> int {
    if p.exp_num <= 0 {
        ACCEPT_SCALE as int
    } else {
        let scale = ACCEPT_SCALE as int;
        let base = scale + 1 + (p.exp_num * scale) / (p.exp_den * 65536);
        squared_down((scale * scale) / base, ACCEPT_HALVINGS as nat)
    }
}

/// The fixed-point acceptance threshold of a probability: an approximation
/// of `ACCEPT_SCALE * exp(-q)` computed as `(1 + q / 2^16)^(-2^16)` in
/// integer arithmetic, pinned exactly by `acceptance_threshold_spec`. A
/// certain probability maps to the full scale (every draw accepted); any
/// strictly positive exponent maps strictly below the scale, and never below
/// zero.
pub fn acceptance_threshold(p: &FlipProbability) -> (r: u64)
    requires
        p.wf(),
    ensures
        r == acceptance_threshold_spec(*p),
        r <= ACCEPT_SCALE,
        p.is_certain() ==> r == ACCEPT_SCALE,
        !p.is_certain() ==> r < ACCEPT_SCALE,
{
    if p.exp_num <= 0 {
        return ACCEPT_SCALE;
    }
    let scale: i128 = ACCEPT_SCALE as i128;
    let num: i128 = p.exp_num as i128;
    let den: i128 = p.exp_den as i128;
    // 1 + q / 2^16 in fixed point, rounded up so that it exceeds the scale
    // whenever q > 0.
    let grow: i128 = num * scale;
    assert(0 < grow <= 800000000i128 * 4294967296i128) by (nonlinear_arith)
        requires
            grow == num * scale,
            0 < num <= 800000000i128,
            scale == 4294967296i128,
    ;
    let step: i128 = den * 65536;
    assert(0 < step <= 10000000000i128 * 65536) by (nonlinear_arith)
        requires
            step == den * 65536,
            0 < den <= 10000000000i128,
    ;
    let base: i128 = scale + 1 + grow / step;
    assert(0 <= grow / step <= grow) by (nonlinear_arith)
        requires
            0 < grow,
            0 < step,
    ;
    assert(0 <= (scale as int * scale as int) / (base as int) < scale) by (nonlinear_arith)
        requires
            scale == 4294967296i128,
            base > scale,
    ;
    let mut t: i128 = (scale * scale) / base;
    assert(squared_down(t as int, (ACCEPT_HALVINGS - 0) as nat) == acceptance_threshold_spec(*p));
    let mut i: usize = 0;
    while i < ACCEPT_HALVINGS
        invariant
            0 <= t < scale,
            scale == 4294967296i128,
            i <= ACCEPT_HALVINGS,
            squared_down(t as int, (ACCEPT_HALVINGS - i) as nat) == acceptance_threshold_spec(*p),
        decreases ACCEPT_HALVINGS - i,
    {
        assert(0 <= t as int * t as int && (t as int * t as int) / (scale as int) < scale)
            by (nonlinear_arith)
            requires
                0 <= t < scale,
                scale == 4294967296i128,
        ;
        let sq: i128 = t * t;
        t = sq / scale;
        i = i + 1;
    }
    t as u64
}

} // verus!
