//! The immutable simulation configuration.
//!
//! Real-valued parameters (temperature bounds and step, coupling constant J,
//! thermal constant K) are held exactly in thousandths: a field `t_min_milli`
//! of 200 means a minimum temperature of 0.2. The bounds in `valid` keep every
//! intermediate product of the observable reductions inside `i128`.

use vstd::prelude::*;

verus! {

/// Largest lattice side length the engine accepts.
pub const MAX_LATTICE_SIZE: usize = 128;

/// Largest number of measurements per temperature the engine accepts.
pub const MAX_MEASUREMENTS: usize = 65536;

/// Largest magnitude, in milli-units, of T, J and K (that is, 100.0).
pub const MAX_PARAM_MILLI: i64 = 100000;

/// Largest number of flip slots in either phase.
pub const MAX_SLOTS: usize = 100000000;

/// Which sample series feeds the susceptibility-like quantity X.
#[derive(Clone, Copy, PartialEq, Eq, Structural, Debug)]
pub enum XSource {
    /// Fluctuation of the sampled energies.
    Energy,
    /// Fluctuation of the sampled order parameters.
    OrderParameter,
}

/// All simulation parameters; read-only for the whole run.
#[derive(Clone, Copy, PartialEq, Eq, Structural, Debug)]
pub struct Config {
    /// Lowest temperature of the sweep, in thousandths.
    pub t_min_milli: i64,
    /// Highest temperature of the sweep, in thousandths.
    pub t_max_milli: i64,
    /// Spacing between consecutive temperatures, in thousandths.
    pub t_step_milli: i64,
    /// Flip slots run and discarded before measuring (equilibration length).
    pub flips_to_skip: usize,
    /// Samples taken at each temperature.
    pub measurements_per_t: usize,
    /// Flip slots run before each sample.
    pub flips_per_measurement: usize,
    /// Bound on proposals within one flip slot.
    pub attempts_per_flip: usize,
    /// Side length of the square lattice.
    pub lattice_size: usize,
    /// Coupling constant J, in thousandths.
    pub j_milli: i64,
    /// Thermal constant K, in thousandths.
    pub k_milli: i64,
    /// Sample series that feeds X.
    pub x_source: XSource,
    /// Base seed; worker `i` draws from a source seeded with `base_seed + i`.
    pub base_seed: u64,
}

impl Config {
    /// A configuration the engine is total over: positive temperatures,
    /// positive step, positive K, at least one measurement and one attempt
    /// per slot, a non-empty lattice, and magnitudes within the bounds that
    /// rule out overflow.
    pub open spec fn valid(self) -> bool {
        &&& 0 < self.t_min_milli <= self.t_max_milli <= MAX_PARAM_MILLI as int
        &&& 0 < self.t_step_milli <= MAX_PARAM_MILLI as int
        &&& 1 <= self.lattice_size <= MAX_LATTICE_SIZE as int
        &&& 1 <= self.measurements_per_t <= MAX_MEASUREMENTS as int
        &&& self.flips_to_skip <= MAX_SLOTS as int
        &&& self.flips_per_measurement <= MAX_SLOTS as int
        &&& 1 <= self.attempts_per_flip <= MAX_SLOTS as int
        &&& 0 < self.k_milli <= MAX_PARAM_MILLI as int
        &&& -(MAX_PARAM_MILLI as int) <= self.j_milli <= MAX_PARAM_MILLI as int
    }

    /// Checks `valid` at run time, so that contract violations are rejected
    /// before any worker starts.
    pub fn validate(&self) -> (r: bool)
        ensures
            r == self.valid(),
    {
        &&& 0 < self.t_min_milli && self.t_min_milli <= self.t_max_milli
        &&& self.t_max_milli <= MAX_PARAM_MILLI
        &&& 0 < self.t_step_milli && self.t_step_milli <= MAX_PARAM_MILLI
        &&& 1 <= self.lattice_size && self.lattice_size <= MAX_LATTICE_SIZE
        &&& 1 <= self.measurements_per_t && self.measurements_per_t <= MAX_MEASUREMENTS
        &&& self.flips_to_skip <= MAX_SLOTS
        &&& self.flips_per_measurement <= MAX_SLOTS
        &&& 1 <= self.attempts_per_flip && self.attempts_per_flip <= MAX_SLOTS
        &&& 0 < self.k_milli && self.k_milli <= MAX_PARAM_MILLI
        &&& -MAX_PARAM_MILLI <= self.j_milli && self.j_milli <= MAX_PARAM_MILLI
    }
}

} // verus!
