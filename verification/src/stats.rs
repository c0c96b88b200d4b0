//! Reduction of one temperature's samples into its output record.
//!
//! For samples with energies `E_k` (in real units) and order parameters
//! `I_k`, taken at temperature `T` with thermal constant `K`:
//! - `I` is the arithmetic mean of the `I_k`;
//! - `dE` is the fluctuation-based specific-heat-like quantity
//!   `Var(E) / (K * T^2)`, with `Var` the population variance;
//! - `X` is the susceptibility-like quantity `Var(series) / (K * T)`, where
//!   the series is selectable: the energies or the order parameters.
//!
//! Samples carry integer units (energy in coupling units `u_k`, order as the
//! spin-sum magnitude `o_k` over a grid of `n^2` cells), and parameters are
//! milli-units, so each observable is an exact rational. With
//! `F = len * sum(u^2) - sum(u)^2` (so that `Var(E) = J^2 F / (n^4 len^2)`
//! in real units, J taken in milli-units along with K and T):
//! - `I = sum(o) / (len * n^2)`
//! - `dE = 1000 * J^2 * F / (n^4 * len^2 * K * T^2)`
//! - `X(energy) = J^2 * F / (n^4 * len^2 * K * T)`
//! - `X(order) = 1000000 * G / (n^4 * len^2 * K * T)` with
//!   `G = len * sum(o^2) - sum(o)^2`.

use vstd::prelude::*;

use crate::config::XSource;
use crate::cycle::{sample_wf, Sample};
use crate::rational::Rational;

verus! {

/// Sum of the energy units of the first `k` samples.
pub open spec fn sum_energy(s: Seq<Sample>, k: nat) -> int
    decreases k,
{
    if k == 0 {
        0
    } else {
        sum_energy(s, (k - 1) as nat) + s[k - 1].energy_units
    }
}

/// Sum of the squared energy units of the first `k` samples.
pub open spec fn sum_energy_sq(s: Seq<Sample>, k: nat) -> int
    decreases k,
{
    if k == 0 {
        0
    } else {
        sum_energy_sq(s, (k - 1) as nat) + s[k - 1].energy_units * s[k - 1].energy_units
    }
}

/// Sum of the order units of the first `k` samples.
pub open spec fn sum_order(s: Seq<Sample>, k: nat) -> int
    decreases k,
{
    if k == 0 {
        0
    } else {
        sum_order(s, (k - 1) as nat) + s[k - 1].order_units
    }
}

/// Sum of the squared order units of the first `k` samples.
pub open spec fn sum_order_sq(s: Seq<Sample>, k: nat) -> int
    decreases k,
{
    if k == 0 {
        0
    } else {
        sum_order_sq(s, (k - 1) as nat) + s[k - 1].order_units * s[k - 1].order_units
    }
}

/// The unnormalised population fluctuation of the energy series:
/// `len^2` times its population variance.
pub open spec fn energy_fluctuation(s: Seq<Sample>) -> int {
    s.len() * sum_energy_sq(s, s.len()) - sum_energy(s, s.len()) * sum_energy(s, s.len())
}

/// The unnormalised population fluctuation of the order series.
pub open spec fn order_fluctuation(s: Seq<Sample>) -> int {
    s.len() * sum_order_sq(s, s.len()) - sum_order(s, s.len()) * sum_order(s, s.len())
}

/// Common denominator core of the variance-based observables:
/// `n^4 * len^2`.
pub open spec fn obs_den_core(n: int, len: int) -> int {
    ((n * n) * (n * n)) * (len * len)
}

/// Numerator of `dE`.
pub open spec fn de_num_of(s: Seq<Sample>, j: int) -> int {
    ((j * j) * energy_fluctuation(s)) * 1000
}

/// Denominator of `dE`.
pub open spec fn de_den_of(n: int, len: int, k: int, t: int) -> int {
    obs_den_core(n, len) * ((k * t) * t)
}

/// Numerator of `X` from the energy series.
pub open spec fn x_energy_num_of(s: Seq<Sample>, j: int) -> int {
    (j * j) * energy_fluctuation(s)
}

/// Numerator of `X` from the order series.
pub open spec fn x_order_num_of(s: Seq<Sample>) -> int {
    order_fluctuation(s) * 1000000
}

/// Denominator of `X`, for either series.
pub open spec fn x_den_of(n: int, len: int, k: int, t: int) -> int {
    obs_den_core(n, len) * (k * t)
}

/// Numerator of the mean order parameter `I`.
pub open spec fn mean_num_of(s: Seq<Sample>) -> int {
    sum_order(s, s.len())
}

/// Denominator of `I`.
pub open spec fn mean_den_of(n: int, len: int) -> int {
    len * (n * n)
}

/// One row of final output: the temperature and its derived observables.
#[derive(Clone, Copy, PartialEq, Eq, Structural, Debug)]
pub struct Record {
    /// Temperature in milli-units.
    pub t_milli: i64,
    /// Specific-heat-like quantity `Var(E) / (K * T^2)`.
    pub de: Rational,
    /// Mean order parameter.
    pub i_mean: Rational,
    /// Susceptibility-like quantity `Var(series) / (K * T)`.
    pub x: Rational,
}

impl Record {
    /// Well-formedness: all three observables are well-formed rationals.
    pub open spec fn wf(self) -> bool {
        &&& self.de.wf()
        &&& self.i_mean.wf()
        &&& self.x.wf()
    }
}

/// The order units of well-formed samples sum within `[0, k * n^2]`.
pub proof fn lemma_sum_order_bounds(s: Seq<Sample>, n: int, k: nat)
    requires
        forall|i: int| 0 <= i < s.len() ==> sample_wf(#[trigger] s[i], n),
        k <= s.len(),
    ensures
        0 <= sum_order(s, k) <= k * (n * n),
    decreases k,
{
    if k > 0 {
        lemma_sum_order_bounds(s, n, (k - 1) as nat);
        assert(sample_wf(s[k - 1], n));
        assert(0 <= s[k - 1].order_units <= n * n);
        assert(sum_order(s, k) == sum_order(s, (k - 1) as nat) + s[k - 1].order_units);
        assert(k * (n * n) == ((k - 1) as nat) * (n * n) + (n * n)) by (nonlinear_arith)
            requires
                k >= 1,
        ;
    } else {
        assert(k * (n * n) == 0) by (nonlinear_arith)
            requires
                k == 0,
        ;
    }
}

/// The record was reduced, with these parameters, from some well-formed
/// series of exactly `len` samples: the denominators are the deterministic
/// ones of the formulas, the mean order parameter lies in `[0, 1]`, and the
/// numerators are the formulas' values on that series.
pub open spec fn record_reflects(
    rec: Record,
    n: int,
    len: int,
    j: int,
    k: int,
    x_source: XSource,
) -> bool {
    &&& rec.de.den == de_den_of(n, len, k, rec.t_milli as int)
    &&& rec.x.den == x_den_of(n, len, k, rec.t_milli as int)
    &&& rec.i_mean.den == mean_den_of(n, len)
    &&& 0 <= rec.i_mean.num <= rec.i_mean.den
    &&& exists|s: Seq<Sample>|
        #![auto]
        {
            &&& s.len() == len
            &&& (forall|i: int| 0 <= i < s.len() ==> sample_wf(#[trigger] s[i], n))
            &&& rec.de.num == de_num_of(s, j)
            &&& rec.i_mean.num == mean_num_of(s)
            &&& rec.x.num == (match x_source {
                XSource::Energy => x_energy_num_of(s, j),
                XSource::OrderParameter => x_order_num_of(s),
            })
        }
}

/// A series of one sample has zero fluctuation: no variance-based quantity
/// can be measured from a single observation.
pub proof fn lemma_single_sample_no_fluctuation(s: Seq<Sample>)
    requires
        s.len() == 1,
    ensures
        energy_fluctuation(s) == 0,
        order_fluctuation(s) == 0,
{
    assert(sum_energy(s, 0) == 0 && sum_energy_sq(s, 0) == 0 && sum_order(s, 0) == 0
        && sum_order_sq(s, 0) == 0);
    assert(sum_energy(s, 1) == s[0].energy_units);
    assert(sum_energy_sq(s, 1) == s[0].energy_units * s[0].energy_units);
    assert(sum_order(s, 1) == s[0].order_units);
    assert(sum_order_sq(s, 1) == s[0].order_units * s[0].order_units);
}

/// Reduces one temperature's samples into its record, with every observable
/// an exact rational given by the formulas above.
pub fn reduce(
    t_milli: i64,
    samples: &Vec<Sample>,
    lattice_size: usize,
    j_milli: i64,
    k_milli: i64,
    x_source: XSource,
) -> (r: Record)
    requires
        1 <= samples@.len() <= 65536,
        1 <= lattice_size <= 128,
        forall|i: int|
            0 <= i < samples@.len() ==> sample_wf(
                #[trigger] samples@[i],
                lattice_size as int,
            ),
        0 < t_milli <= 100000,
        0 < k_milli <= 100000,
        -100000 <= j_milli <= 100000,
    ensures
        r.wf(),
        r.t_milli == t_milli,
        r.i_mean.num == mean_num_of(samples@),
        r.i_mean.den == mean_den_of(lattice_size as int, samples@.len() as int),
        r.de.num == de_num_of(samples@, j_milli as int),
        r.de.den == de_den_of(
            lattice_size as int,
            samples@.len() as int,
            k_milli as int,
            t_milli as int,
        ),
        r.x.num == match x_source {
            XSource::Energy => x_energy_num_of(samples@, j_milli as int),
            XSource::OrderParameter => x_order_num_of(samples@),
        },
        r.x.den == x_den_of(
            lattice_size as int,
            samples@.len() as int,
            k_milli as int,
            t_milli as int,
        ),
        samples@.len() == 1 ==> r.de.num == 0 && r.x.num == 0,
        0 <= r.i_mean.num <= r.i_mean.den,
        record_reflects(
            r,
            lattice_size as int,
            samples@.len() as int,
            j_milli as int,
            k_milli as int,
            x_source,
        ),
{
    let len: usize = samples.len();
    proof {
        crate::lattice::lemma_cells_bound(lattice_size as int);
    }
    let mut s1e: i128 = 0;
    let mut s2e: i128 = 0;
    let mut s1o: i128 = 0;
    let mut s2o: i128 = 0;
    let mut i: usize = 0;
    while i < len
        invariant
            i <= len,
            len == samples@.len(),
            len <= 65536,
            1 <= lattice_size <= 128,
            forall|m: int|
                0 <= m < samples@.len() ==> sample_wf(
                    #[trigger] samples@[m],
                    lattice_size as int,
                ),
            s1e == sum_energy(samples@, i as nat),
            s2e == sum_energy_sq(samples@, i as nat),
            s1o == sum_order(samples@, i as nat),
            s2o == sum_order_sq(samples@, i as nat),
            -(i as int) * 32768 <= s1e <= i as int * 32768,
            0 <= s2e <= i as int * 1073741824,
            0 <= s1o <= i as int * 16384,
            0 <= s2o <= i as int * 268435456,
        decreases len - i,
    {
        let sample = samples[i];
        let e: i128 = sample.energy_units as i128;
        let o: i128 = sample.order_units as i128;
        proof {
            crate::lattice::lemma_cells_bound(lattice_size as int);
        }
        assert(sample_wf(samples@[i as int], lattice_size as int));
        assert(-32768 <= e <= 32768 && 0 <= o <= 16384);
        assert(0 <= e as int * e as int <= 1073741824 && 0 <= o as int * o as int <= 268435456)
            by (nonlinear_arith)
            requires
                -32768 <= e as int <= 32768,
                0 <= o as int <= 16384,
        ;
        s1e = s1e + e;
        s2e = s2e + e * e;
        s1o = s1o + o;
        s2o = s2o + o * o;
        i = i + 1;
    }
    let leni: i128 = len as i128;
    assert(0 <= leni as int * s2e as int <= 65536 * (65536 * 1073741824)
        && 0 <= s1e as int * s1e as int <= (65536 * 32768) * (65536 * 32768)) by (nonlinear_arith)
        requires
            1 <= leni as int <= 65536,
            0 <= s2e as int <= 65536 * 1073741824,
            -(65536 * 32768) <= s1e as int <= 65536 * 32768,
    ;
    let fe: i128 = leni * s2e - s1e * s1e;
    assert(0 <= leni as int * s2o as int <= 65536 * (65536 * 268435456)) by (nonlinear_arith)
        requires
            1 <= leni as int <= 65536,
            0 <= s2o as int <= 65536 * 268435456,
    ;
    let fo_a: i128 = leni * s2o;
    assert(0 <= s1o <= 1073741824);
    assert(0 <= s1o as int * s1o as int <= 1152921504606846976) by (nonlinear_arith)
        requires
            0 <= s1o as int <= 1073741824,
    ;
    let fo_b: i128 = s1o * s1o;
    let fo: i128 = fo_a - fo_b;
    assert(-1152921504606846976 <= fo <= 1152921504606846976);
    assert(fe == energy_fluctuation(samples@) && fo == order_fluctuation(samples@));

    let j: i128 = j_milli as i128;
    let k: i128 = k_milli as i128;
    let t: i128 = t_milli as i128;
    let n: i128 = lattice_size as i128;
    assert(0 <= j as int * j as int <= 10000000000) by (nonlinear_arith)
        requires
            -100000 <= j as int <= 100000,
    ;
    let jj: i128 = j * j;
    let fe_bound: i128 = 9223372036854775807;
    assert(-fe_bound <= fe <= fe_bound);
    assert(-(10000000000i128 as int) * (fe_bound as int) <= jj as int * fe as int <= (
    10000000000i128 as int) * (fe_bound as int)) by (nonlinear_arith)
        requires
            0 <= jj as int <= 10000000000,
            -(fe_bound as int) <= fe as int <= fe_bound as int,
    ;
    let jjfe: i128 = jj * fe;
    let de_num: i128 = jjfe * 1000;

    let cells: i128 = n * n;
    assert(1 <= cells <= 16384);
    assert(1 <= cells as int * cells as int <= 268435456) by (nonlinear_arith)
        requires
            1 <= cells as int <= 16384,
    ;
    let n4: i128 = cells * cells;
    assert(1 <= leni as int * leni as int <= 4294967296) by (nonlinear_arith)
        requires
            1 <= leni as int <= 65536,
    ;
    let l2: i128 = leni * leni;
    assert(1 <= n4 as int * l2 as int <= 268435456 * 4294967296) by (nonlinear_arith)
        requires
            1 <= n4 as int <= 268435456,
            1 <= l2 as int <= 4294967296,
    ;
    let core: i128 = n4 * l2;
    assert(0 < k as int * t as int <= 10000000000) by (nonlinear_arith)
        requires
            0 < k as int <= 100000,
            0 < t as int <= 100000,
    ;
    let kt: i128 = k * t;
    assert(0 < kt as int * t as int <= 10000000000 * 100000) by (nonlinear_arith)
        requires
            0 < kt as int <= 10000000000,
            0 < t as int <= 100000,
    ;
    let ktt: i128 = kt * t;
    let core_bound: i128 = 1152921504606846976;
    assert(core <= core_bound);
    assert(0 < core as int * ktt as int <= (core_bound as int) * (10000000000 * 100000))
        by (nonlinear_arith)
        requires
            0 < core as int <= core_bound as int,
            0 < ktt as int <= 10000000000 * 100000,
    ;
    let de_den: i128 = core * ktt;
    assert(0 < core as int * kt as int <= (core_bound as int) * 10000000000) by (nonlinear_arith)
        requires
            0 < core as int <= core_bound as int,
            0 < kt as int <= 10000000000,
    ;
    let x_den: i128 = core * kt;

    let x_num: i128 = match x_source {
        XSource::Energy => jjfe,
        XSource::OrderParameter => fo * 1000000,
    };

    assert(0 < leni as int * cells as int <= 65536 * 16384) by (nonlinear_arith)
        requires
            1 <= leni as int <= 65536,
            1 <= cells as int <= 16384,
    ;
    let mean_den: i128 = leni * cells;

    if len == 1 {
        proof {
            lemma_single_sample_no_fluctuation(samples@);
        }
        assert(de_num == 0 && x_num == 0) by (nonlinear_arith)
            requires
                fe == 0,
                fo == 0,
                de_num == (jj as int * fe as int) * 1000,
                jjfe == jj as int * fe as int,
                x_num == jjfe || x_num == fo as int * 1000000,
        ;
    }

    let r = Record {
        t_milli,
        de: Rational { num: de_num, den: de_den },
        i_mean: Rational { num: s1o, den: mean_den },
        x: Rational { num: x_num, den: x_den },
    };
    proof {
        lemma_sum_order_bounds(samples@, lattice_size as int, samples@.len());
        let ghost witness = samples@;
        assert(witness.len() == samples@.len() && r.de.num == de_num_of(witness, j_milli as int)
            && r.i_mean.num == mean_num_of(witness) && r.x.num == (match x_source {
            XSource::Energy => x_energy_num_of(witness, j_milli as int),
            XSource::OrderParameter => x_order_num_of(witness),
        }));
    }
    r
}

} // verus!
