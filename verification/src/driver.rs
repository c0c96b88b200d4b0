//! The temperature sweep driver.
//!
//! The driver builds the temperature sequence from the configuration and, for
//! each temperature, runs one worker that owns its own lattice and its own
//! independently seeded random source, then reduces that worker's samples
//! into one record. `run` executes the workers one after another; the records
//! come out one per configured temperature, ascending in temperature, and the
//! progress aggregator has received exactly `measurements_per_t` signals per
//! temperature. A concurrent host can instead run `run_worker` once per
//! temperature on its own tasks, collect the records in completion order, and
//! order them with `sort_records_by_t`; milli-unit temperatures are plain
//! integers, totally ordered, so no incomparable values can arise in the
//! sort.

use vstd::prelude::*;
use vstd::seq_lib::group_to_multiset_ensures;

use crate::config::Config;
use crate::cycle::Cycle;
use crate::lattice::Lattice;
use crate::progress::ProgressAggregator;
use crate::rng::rng_from_seed;
use crate::stats::{record_reflects, reduce, Record};
use crate::temperature::{temp_count, TemperatureSequence};

verus! {

/// The records are ascending in temperature.
pub open spec fn sorted_by_t(s: Seq<Record>) -> bool {
    forall|i: int, j: int| 0 <= i < j < s.len() ==> s[i].t_milli <= s[j].t_milli
}

/// The seed of the worker at position `index` of the sweep: the base seed
/// plus the index, wrapping.
pub open spec fn worker_seed_spec(base: u64, index: u64) -> u64 {
    if base + index > u64::MAX {
        (base + index - 0x10000000000000000) as u64
    } else {
        (base + index) as u64
    }
}

/// Computes `worker_seed_spec`: each worker draws from its own source,
/// seeded deterministically from the base seed and its position.
pub fn worker_seed(base: u64, index: u64) -> (r: u64)
    ensures
        r == worker_seed_spec(base, index),
{
    base.wrapping_add(index)
}

/// Runs the full cycle of one temperature: builds the worker's own lattice
/// from its own seeded random source, equilibrates, measures (sending one
/// progress signal per measurement), and reduces the samples to the
/// temperature's record.
pub fn run_worker(cfg: &Config, t_milli: i64, seed: u64, agg: &mut ProgressAggregator) -> (r:
    Record)
    requires
        cfg.valid(),
        0 < t_milli <= 100000,
        old(agg).wf(),
        old(agg).received + cfg.measurements_per_t <= old(agg).expected,
    ensures
        final(agg).wf(),
        final(agg).expected == old(agg).expected,
        final(agg).received == old(agg).received + cfg.measurements_per_t,
        r.wf(),
        r.t_milli == t_milli,
        cfg.measurements_per_t == 1 ==> r.de.num == 0 && r.x.num == 0,
        record_reflects(
            r,
            cfg.lattice_size as int,
            cfg.measurements_per_t as int,
            cfg.j_milli as int,
            cfg.k_milli as int,
            cfg.x_source,
        ),
{
    let mut rng = rng_from_seed(seed);
    let lattice = Lattice::new(cfg.lattice_size, &mut rng);
    let mut cycle = Cycle::new(lattice, cfg);
    while !cycle.is_done()
        invariant
            cfg.valid(),
            0 < t_milli <= 100000,
            cycle.wf(*cfg),
            agg.wf(),
            agg.expected == old(agg).expected,
            agg.received == old(agg).received + cycle.measurements_done,
            old(agg).received + cfg.measurements_per_t <= old(agg).expected,
        decreases cycle.remaining(*cfg),
    {
        cycle.step(cfg, t_milli, &mut rng, agg);
    }
    reduce(t_milli, &cycle.samples, cfg.lattice_size, cfg.j_milli, cfg.k_milli, cfg.x_source)
}

/// Runs the whole sweep: one worker per configured temperature, in ascending
/// temperature order. Returns exactly one record per temperature, ascending
/// in temperature, together with the progress aggregator, which has received
/// exactly `measurements_per_t` signals per temperature and is complete.
pub fn run(cfg: &Config) -> (r: (Vec<Record>, ProgressAggregator))
    requires
        cfg.valid(),
    ensures
        r.0@.len() == temp_count(
            cfg.t_min_milli as int,
            cfg.t_max_milli as int,
            cfg.t_step_milli as int,
        ),
        forall|i: int|
            0 <= i < r.0@.len() ==> (#[trigger] r.0@[i]).t_milli == cfg.t_min_milli + i
                * cfg.t_step_milli,
        forall|i: int| 0 <= i < r.0@.len() ==> (#[trigger] r.0@[i]).wf(),
        forall|i: int|
            0 <= i < r.0@.len() ==> record_reflects(
                #[trigger] r.0@[i],
                cfg.lattice_size as int,
                cfg.measurements_per_t as int,
                cfg.j_milli as int,
                cfg.k_milli as int,
                cfg.x_source,
            ),
        sorted_by_t(r.0@),
        r.1.expected == cfg.measurements_per_t * r.0@.len(),
        r.1.received == r.1.expected,
        cfg.measurements_per_t == 1 ==> forall|i: int|
            0 <= i < r.0@.len() ==> (#[trigger] r.0@[i]).de.num == 0 && r.0@[i].x.num == 0,
{
    let temps = TemperatureSequence::new_step(cfg.t_min_milli, cfg.t_max_milli, cfg.t_step_milli);
    let n_temps = temps.len();
    assert(n_temps as int <= (cfg.t_max_milli - cfg.t_min_milli) as int / cfg.t_step_milli as int
        + 1);
    assert((cfg.t_max_milli - cfg.t_min_milli) as int / cfg.t_step_milli as int <= (cfg.t_max_milli
        - cfg.t_min_milli) as int) by (nonlinear_arith)
        requires
            0 <= (cfg.t_max_milli - cfg.t_min_milli) as int,
            1 <= cfg.t_step_milli as int,
    ;
    assert(cfg.measurements_per_t as int * n_temps as int <= 65536 * 100001) by (nonlinear_arith)
        requires
            1 <= cfg.measurements_per_t as int <= 65536,
            1 <= n_temps as int <= 100001,
    ;
    let expected: u64 = (cfg.measurements_per_t as u64) * (n_temps as u64);
    let mut agg = ProgressAggregator::new(expected);
    let mut records: Vec<Record> = Vec::new();
    let mut w: usize = 0;
    while w < n_temps
        invariant
            cfg.valid(),
            w <= n_temps,
            n_temps == temps.points_milli@.len(),
            temps.wf(cfg.t_min_milli as int, cfg.t_max_milli as int, cfg.t_step_milli as int),
            records@.len() == w,
            forall|i: int|
                0 <= i < w ==> (#[trigger] records@[i]).t_milli == temps.points_milli@[i],
            forall|i: int| 0 <= i < w ==> (#[trigger] records@[i]).wf(),
            forall|i: int|
                0 <= i < w ==> record_reflects(
                    #[trigger] records@[i],
                    cfg.lattice_size as int,
                    cfg.measurements_per_t as int,
                    cfg.j_milli as int,
                    cfg.k_milli as int,
                    cfg.x_source,
                ),
            cfg.measurements_per_t == 1 ==> forall|i: int|
                0 <= i < w ==> (#[trigger] records@[i]).de.num == 0 && records@[i].x.num == 0,
            agg.expected == expected,
            expected == cfg.measurements_per_t * n_temps,
            agg.received == cfg.measurements_per_t * w,
        decreases n_temps - w,
    {
        let t_milli = temps.point(w);
        let seed = worker_seed(cfg.base_seed, w as u64);
        proof {
            assert(cfg.measurements_per_t * (w + 1) <= cfg.measurements_per_t * n_temps)
                by (nonlinear_arith)
                requires
                    0 <= cfg.measurements_per_t,
                    w + 1 <= n_temps,
            ;
            assert(cfg.measurements_per_t * (w + 1) == cfg.measurements_per_t * w
                + cfg.measurements_per_t) by (nonlinear_arith);
        }
        let record = run_worker(cfg, t_milli, seed, &mut agg);
        records.push(record);
        w = w + 1;
    }
    proof {
        assert forall|i: int, j: int| 0 <= i < j < records@.len() implies records@[i].t_milli
            <= records@[j].t_milli by {
            assert(records@[i].t_milli == cfg.t_min_milli + i * cfg.t_step_milli);
            assert(records@[j].t_milli == cfg.t_min_milli + j * cfg.t_step_milli);
            assert(i * cfg.t_step_milli <= j * cfg.t_step_milli) by (nonlinear_arith)
                requires
                    i <= j,
                    0 <= cfg.t_step_milli,
            ;
        }
    }
    (records, agg)
}

/// Sorts records ascending by temperature, preserving the collection as a
/// multiset. Milli-unit temperatures are totally ordered integers, so every
/// pair of records is comparable.
pub fn sort_records_by_t(records: Vec<Record>) -> (r: Vec<Record>)
    ensures
        r@.len() == records@.len(),
        r@.to_multiset() == records@.to_multiset(),
        sorted_by_t(r@),
{
    broadcast use group_to_multiset_ensures;

    let mut work = records;
    let mut out: Vec<Record> = Vec::new();
    while work.len() > 0
        invariant
            out@.len() + work@.len() == records@.len(),
            out@.to_multiset().add(work@.to_multiset()) == records@.to_multiset(),
            sorted_by_t(out@),
            forall|a: int, b: int|
                0 <= a < out@.len() && 0 <= b < work@.len() ==> (#[trigger] out@[a]).t_milli <= (
                #[trigger] work@[b]).t_milli,
        decreases work@.len(),
    {
        let mut m: usize = 0;
        let mut b: usize = 1;
        while b < work.len()
            invariant
                work@.len() > 0,
                m < work@.len(),
                b <= work@.len(),
                forall|c: int| 0 <= c < b ==> work@[m as int].t_milli <= (#[trigger] work@[c]).t_milli,
            decreases work@.len() - b,
        {
            if work[b].t_milli < work[m].t_milli {
                m = b;
            }
            b = b + 1;
        }
        let ghost old_work = work@;
        let ghost old_out = out@;
        let rec = work.remove(m);
        out.push(rec);
        proof {
            old_work.to_multiset_ensures();
            old_out.to_multiset_ensures();
            assert(work@.to_multiset() =~= old_work.to_multiset().remove(old_work[m as int]));
            assert(out@.to_multiset() =~= old_out.to_multiset().insert(rec));
            assert(old_work.to_multiset().count(rec) > 0) by {
                assert(old_work.contains(rec));
            }
            assert(out@.to_multiset().add(work@.to_multiset()) =~= records@.to_multiset());
            assert forall|a: int, bb: int|
                0 <= a < out@.len() && 0 <= bb < work@.len() implies (#[trigger] out@[a]).t_milli
                <= (#[trigger] work@[bb]).t_milli by {
                if a < out@.len() - 1 {
                    assert(old_out[a].t_milli <= rec.t_milli);
                }
                if bb < m {
                    assert(work@[bb] == old_work[bb]);
                } else {
                    assert(work@[bb] == old_work[bb + 1]);
                }
            }
        }
    }
    out
}

} // verus!
