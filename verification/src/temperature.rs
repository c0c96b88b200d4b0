//! The temperature sweep sequence.
//!
//! An ordered, finite, deterministic sequence of temperatures generated from
//! (min, max, step), all in milli-units: the points start at `min`, are
//! spaced `step` apart, end at or just below `max`, and number exactly
//! `(max - min) / step + 1`.

use vstd::prelude::*;

use crate::config::MAX_PARAM_MILLI;

verus! {

/// Number of points of the sweep from `min` to `max` in steps of `step`.
pub open spec fn temp_count(min: int, max: int, step: int) -> int {
    (max - min) / step + 1
}

/// The ascending sequence of temperatures of one sweep, in milli-units.
pub struct TemperatureSequence {
    /// The temperatures, ascending.
    pub points_milli: Vec<i64>,
}

impl TemperatureSequence {
    /// Well-formedness of a sweep built from `(min, max, step)`: the points
    /// start at `min`, are spaced `step` apart, stay within `(0, max]`, and
    /// number exactly `(max - min) / step + 1`.
    pub open spec fn wf(self, min: int, max: int, step: int) -> bool {
        &&& self.points_milli@.len() == temp_count(min, max, step)
        &&& forall|i: int|
            0 <= i < self.points_milli@.len() ==> #[trigger] self.points_milli@[i] == min + i
                * step
        &&& forall|i: int|
            0 <= i < self.points_milli@.len() ==> 0 < #[trigger] self.points_milli@[i] <= max
    }

    /// Builds the sweep: `min, min + step, ...`, up to and including the last
    /// point at or below `max`.
    pub fn new_step(min_milli: i64, max_milli: i64, step_milli: i64) -> (r: TemperatureSequence)
        requires
            0 < min_milli <= max_milli <= MAX_PARAM_MILLI,
            0 < step_milli <= MAX_PARAM_MILLI,
        ensures
            r.wf(min_milli as int, max_milli as int, step_milli as int),
            r.points_milli@.len() >= 1,
            r.points_milli@[0] == min_milli,
    {
        let mut points: Vec<i64> = Vec::new();
        let mut t: i64 = min_milli;
        let mut i: usize = 0;
        while t <= max_milli
            invariant
                0 < min_milli <= max_milli <= MAX_PARAM_MILLI,
                0 < step_milli <= MAX_PARAM_MILLI,
                t == min_milli + i * step_milli,
                min_milli <= t <= max_milli + step_milli,
                i <= 2 * MAX_PARAM_MILLI,
                points@.len() == i,
                forall|j: int|
                    0 <= j < i ==> #[trigger] points@[j] == min_milli + j * step_milli,
                forall|j: int| 0 <= j < i ==> 0 < #[trigger] points@[j] <= max_milli,
            decreases max_milli + step_milli - t,
        {
            points.push(t);
            proof {
                assert((i + 1) * step_milli == i * step_milli + step_milli) by (nonlinear_arith);
                assert(i as int * step_milli as int <= (max_milli - min_milli) as int);
                assert(i as int <= (max_milli - min_milli) as int) by (nonlinear_arith)
                    requires
                        i as int * step_milli as int <= (max_milli - min_milli) as int,
                        step_milli as int >= 1,
                        i as int >= 0,
                ;
            }
            t = t + step_milli;
            i = i + 1;
        }
        proof {
            let d = (max_milli - min_milli) as int;
            let s = step_milli as int;
            let q = i - 1;
            assert(i >= 1) by {
                if i == 0 {
                    assert(t == min_milli + 0 * step_milli);
                    assert(t <= max_milli);
                }
            }
            assert(q * s == i * s - s) by (nonlinear_arith)
                requires
                    q == i - 1,
            ;
            assert(points@[q] == min_milli + q * step_milli);
            assert(points@[q] <= max_milli);
            assert(0 <= d - q * s < s);
            vstd::arithmetic::div_mod::lemma_fundamental_div_mod_converse(d, s, q, d - q * s);
            assert(points@.len() == temp_count(min_milli as int, max_milli as int, s));
        }
        assert(points@[0] == min_milli + 0 * step_milli);
        TemperatureSequence { points_milli: points }
    }

    /// Number of temperatures in the sweep.
    pub fn len(&self) -> (r: usize)
        ensures
            r == self.points_milli@.len(),
    {
        self.points_milli.len()
    }

    /// The temperature at position `i`, in milli-units.
    pub fn point(&self, i: usize) -> (r: i64)
        requires
            i < self.points_milli@.len(),
        ensures
            r == self.points_milli@[i as int],
    {
        self.points_milli[i]
    }
}

} // verus!
