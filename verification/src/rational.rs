//! Exact rational numbers used to report derived observables.
//!
//! The engine never needs rational arithmetic at run time: every observable is
//! assembled directly from integer numerators and denominators whose exact
//! values are stated in the producing function's contract. The type here is a
//! plain carrier with a well-formedness invariant (positive denominator) and
//! spec-level comparisons.

use vstd::prelude::*;

verus! {

/// An exact rational number `num / den`. Well-formed values have `den > 0`.
#[derive(Clone, Copy, PartialEq, Eq, Structural, Debug)]
pub struct Rational {
    pub num: i128,
    pub den: i128,
}

impl Rational {
    /// Well-formedness: the denominator is positive, so the represented value
    /// is `num / den` with its sign carried by `num`.
    pub open spec fn wf(self) -> bool {
        self.den > 0
    }

    /// Builds the rational `num / den`.
    pub fn new(num: i128, den: i128) -> (r: Rational)
        requires
            den > 0,
        ensures
            r == (Rational { num, den }),
            r.wf(),
    {
        Rational { num, den }
    }
}

} // verus!
