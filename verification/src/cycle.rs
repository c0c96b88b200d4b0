//! The per-temperature equilibration and measurement cycle.
//!
//! One cycle owns one lattice and drives bounded-attempt flip slots: within a
//! slot, up to `attempts_per_flip` proposals are drawn; each proposal picks a
//! random cell, evaluates the flip probability of its energy change, and
//! accepts or rejects it against a uniform draw; the first accepted proposal
//! is applied and ends the slot, and a slot with no accepted proposal ends
//! with no flip. The cycle runs `flips_to_skip` slots while equilibrating
//! (their samples are discarded), then, for each of `measurements_per_t`
//! measurements, runs `flips_per_measurement` slots, records one sample, and
//! emits one progress signal. After the last measurement the cycle is done.

use vstd::prelude::*;

use crate::config::Config;
use crate::lattice::{
    abs_int, delta_units, energy_units, flipped, spin_ok, spin_total, Lattice,
};
use crate::probability::{acceptance_threshold, flip_probability, ACCEPT_SCALE};
use crate::progress::ProgressAggregator;
use crate::rng::rng_below;

verus! {

/// One measurement: the lattice's total energy, in coupling units, and the
/// magnitude of its spin sum, taken at the same instant.
#[derive(Clone, Copy, PartialEq, Eq, Structural, Debug)]
pub struct Sample {
    /// Total energy in coupling units (the energy is J times this).
    pub energy_units: i64,
    /// Magnitude of the spin sum, in `[0, n^2]`.
    pub order_units: i64,
}

/// A sample is within the ranges a grid of side `n` can produce.
pub open spec fn sample_wf(s: Sample, n: int) -> bool {
    &&& -(2 * (n * n)) <= s.energy_units <= 2 * (n * n)
    &&& 0 <= s.order_units <= n * n
}

/// The sample a given lattice yields.
pub open spec fn sample_of(l: Lattice) -> Sample {
    Sample {
        energy_units: energy_units(l.spins@, l.size as int) as i64,
        order_units: abs_int(spin_total(l.spins@)) as i64,
    }
}

/// Phase of one per-temperature cycle.
#[derive(Clone, Copy, PartialEq, Eq, Structural, Debug)]
pub enum Phase {
    /// Running discarded flip slots to reach equilibrium.
    Equilibrating,
    /// Recording samples.
    Measuring,
    /// All samples recorded; terminal.
    Done,
}

/// Every cell's proposed flip is non-increasing in energy. The Metropolis
/// rule then leaves no choice: the first proposal of a slot is accepted with
/// certainty and applied.
pub open spec fn all_moves_nonincreasing(l: Lattice, j_milli: i64) -> bool {
    forall|ix: int|
        0 <= ix < l.cells() ==> j_milli * #[trigger] delta_units(l.spins@, l.size as int, ix)
            <= 0
}

/// Runs one bounded-attempt flip slot: up to `attempts` proposals, applying
/// the first accepted one. The lattice either keeps its exact state or has
/// exactly one cell flipped; and where every possible proposal is
/// non-increasing in energy (so each is certainly accepted), a slot with at
/// least one attempt always flips.
pub fn flip_slot(
    lattice: &mut Lattice,
    rng: &mut rand::rngs::StdRng,
    t_milli: i64,
    j_milli: i64,
    k_milli: i64,
    attempts: usize,
)
    requires
        old(lattice).wf(),
        0 < t_milli <= 100000,
        0 < k_milli <= 100000,
        -100000 <= j_milli <= 100000,
    ensures
        final(lattice).wf(),
        final(lattice).size == old(lattice).size,
        final(lattice).spins@ == old(lattice).spins@ || exists|ix: int|
            0 <= ix < old(lattice).cells() && final(lattice).spins@ == #[trigger] flipped(
                old(lattice).spins@,
                ix,
            ),
        attempts >= 1 && all_moves_nonincreasing(*old(lattice), j_milli)
            ==> final(lattice).spins@ != old(lattice).spins@,
{
    let mut a: usize = 0;
    while a < attempts
        invariant
            lattice.wf(),
            lattice.size == old(lattice).size,
            lattice.spins@ == old(lattice).spins@,
            0 < t_milli <= 100000,
            0 < k_milli <= 100000,
            -100000 <= j_milli <= 100000,
            a >= 1 ==> !all_moves_nonincreasing(*old(lattice), j_milli),
        decreases attempts - a,
    {
        let ix = lattice.gen_random_index(rng);
        let e_diff = lattice.measure_e_diff(ix, j_milli);
        let p = flip_probability(e_diff, t_milli, k_milli);
        let threshold = acceptance_threshold(&p);
        let draw = rng_below(rng, ACCEPT_SCALE);
        if draw < threshold {
            proof {
                assert(spin_ok(old(lattice).spins@[ix as int]));
            }
            lattice.flip_spin(ix);
            assert(lattice.spins@ == flipped(old(lattice).spins@, ix as int));
            assert(lattice.spins@[ix as int] != old(lattice).spins@[ix as int]);
            return ;
        }
        proof {
            // The draw was rejected, so the threshold sat below the scale:
            // this proposal was not certain, and its energy change positive.
            assert(threshold < ACCEPT_SCALE);
            assert(!p.is_certain());
            assert(j_milli * delta_units(
                old(lattice).spins@,
                old(lattice).size as int,
                ix as int,
            ) > 0);
            assert(!all_moves_nonincreasing(*old(lattice), j_milli));
        }
        a = a + 1;
    }
}

/// The per-temperature cycle: a state machine over `Phase`.
pub struct Cycle {
    /// The lattice this cycle owns.
    pub lattice: Lattice,
    /// Current phase.
    pub phase: Phase,
    /// Equilibration slots completed; meaningful while equilibrating.
    pub slots_done: usize,
    /// Samples recorded so far.
    pub measurements_done: usize,
    /// The recorded samples, in temporal order.
    pub samples: Vec<Sample>,
}

impl Cycle {
    /// Well-formedness with respect to the configuration the cycle runs
    /// under.
    pub open spec fn wf(self, cfg: Config) -> bool {
        &&& cfg.valid()
        &&& self.lattice.wf()
        &&& self.lattice.size == cfg.lattice_size
        &&& self.samples@.len() == self.measurements_done
        &&& forall|i: int|
            0 <= i < self.samples@.len() ==> sample_wf(
                #[trigger] self.samples@[i],
                cfg.lattice_size as int,
            )
        &&& match self.phase {
            Phase::Equilibrating => self.slots_done < cfg.flips_to_skip
                && self.measurements_done == 0,
            Phase::Measuring => self.measurements_done < cfg.measurements_per_t,
            Phase::Done => self.measurements_done == cfg.measurements_per_t,
        }
    }

    /// Steps left until the cycle is done; strictly decreased by `step`.
    pub open spec fn remaining(self, cfg: Config) -> int {
        match self.phase {
            Phase::Equilibrating => (cfg.flips_to_skip - self.slots_done)
                + cfg.measurements_per_t,
            Phase::Measuring => cfg.measurements_per_t - self.measurements_done,
            Phase::Done => 0,
        }
    }

    /// Starts a cycle on the given lattice: equilibrating if any slots are to
    /// be skipped, else measuring at once.
    pub fn new(lattice: Lattice, cfg: &Config) -> (r: Cycle)
        requires
            cfg.valid(),
            lattice.wf(),
            lattice.size == cfg.lattice_size,
        ensures
            r.wf(*cfg),
            r.lattice == lattice,
            r.measurements_done == 0,
            r.samples@.len() == 0,
            !(r.phase is Done),
            cfg.flips_to_skip == 0 ==> r.phase is Measuring,
    {
        let phase = if cfg.flips_to_skip > 0 {
            Phase::Equilibrating
        } else {
            Phase::Measuring
        };
        Cycle { lattice, phase, slots_done: 0, measurements_done: 0, samples: Vec::new() }
    }

    /// Whether the cycle has recorded all its samples.
    pub fn is_done(&self) -> (r: bool)
        ensures
            r == (self.phase is Done),
    {
        match self.phase {
            Phase::Done => true,
            _ => false,
        }
    }

    /// Advances the state machine by one step. While equilibrating, one step
    /// is one discarded flip slot. While measuring, one step is one full
    /// measurement: `flips_per_measurement` slots, one recorded sample, one
    /// progress signal. The transition to `Measuring` happens after
    /// `flips_to_skip` slots, the transition to `Done` with the last sample.
    pub fn step(
        &mut self,
        cfg: &Config,
        t_milli: i64,
        rng: &mut rand::rngs::StdRng,
        agg: &mut ProgressAggregator,
    )
        requires
            old(self).wf(*cfg),
            !(old(self).phase is Done),
            0 < t_milli <= 100000,
            old(agg).wf(),
            old(self).phase is Measuring ==> old(agg).received < old(agg).expected,
        ensures
            final(self).wf(*cfg),
            final(self).lattice.size == old(self).lattice.size,
            final(self).remaining(*cfg) == old(self).remaining(*cfg) - 1,
            final(agg).wf(),
            final(agg).expected == old(agg).expected,
            old(self).phase is Equilibrating ==> {
                &&& final(self).samples@ == old(self).samples@
                &&& final(self).measurements_done == 0
                &&& *final(agg) == *old(agg)
                &&& !(final(self).phase is Done)
            },
            old(self).phase is Measuring ==> {
                &&& final(self).samples@ == old(self).samples@.push(sample_of(final(self).lattice))
                &&& final(self).measurements_done == old(self).measurements_done + 1
                &&& final(agg).received == old(agg).received + 1
                &&& (final(self).phase is Done <==> old(self).measurements_done + 1
                    == cfg.measurements_per_t)
                &&& (cfg.flips_per_measurement == 0 ==> final(self).lattice.spins@ == old(
                    self,
                ).lattice.spins@)
            },
    {
        match self.phase {
            Phase::Equilibrating => {
                flip_slot(
                    &mut self.lattice,
                    rng,
                    t_milli,
                    cfg.j_milli,
                    cfg.k_milli,
                    cfg.attempts_per_flip,
                );
                self.slots_done = self.slots_done + 1;
                if self.slots_done == cfg.flips_to_skip {
                    self.phase = Phase::Measuring;
                }
            },
            Phase::Measuring => {
                let mut f: usize = 0;
                while f < cfg.flips_per_measurement
                    invariant
                        self.lattice.wf(),
                        self.lattice.size == cfg.lattice_size,
                        cfg.valid(),
                        0 < t_milli <= 100000,
                        cfg.flips_per_measurement == 0 ==> self.lattice.spins@ == old(
                            self,
                        ).lattice.spins@,
                        self.samples@ == old(self).samples@,
                        self.measurements_done == old(self).measurements_done,
                        self.phase == old(self).phase,
                        self.slots_done == old(self).slots_done,
                        old(self).wf(*cfg),
                        old(self).phase is Measuring,
                    decreases cfg.flips_per_measurement - f,
                {
                    flip_slot(
                        &mut self.lattice,
                        rng,
                        t_milli,
                        cfg.j_milli,
                        cfg.k_milli,
                        cfg.attempts_per_flip,
                    );
                    f = f + 1;
                }
                proof {
                    crate::lattice::lemma_cells_bound(cfg.lattice_size as int);
                }
                let e = self.lattice.energy_units();
                let o = self.lattice.order_units();
                let sample = Sample { energy_units: e, order_units: o };
                assert(sample == sample_of(self.lattice));
                assert(sample_wf(sample, cfg.lattice_size as int));
                self.samples.push(sample);
                self.measurements_done = self.measurements_done + 1;
                agg.record_signal();
                if self.measurements_done == cfg.measurements_per_t {
                    self.phase = Phase::Done;
                }
            },
            Phase::Done => {
                proof {
                    assert(false);
                }
            },
        }
    }
}

} // verus!
