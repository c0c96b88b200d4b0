use rand::SeedableRng;

use ising_mc::config::{Config, XSource};
use ising_mc::cycle::{flip_slot, Cycle, Sample};
use ising_mc::driver::{run, sort_records_by_t, worker_seed};
use ising_mc::lattice::Lattice;
use ising_mc::probability::{acceptance_threshold, flip_probability, ACCEPT_SCALE};
use ising_mc::progress::ProgressAggregator;
use ising_mc::rational::Rational;
use ising_mc::stats::{reduce, Record};
use ising_mc::temperature::TemperatureSequence;

fn test_config() -> Config {
    Config {
        t_min_milli: 1000,
        t_max_milli: 2000,
        t_step_milli: 250,
        flips_to_skip: 3,
        measurements_per_t: 2,
        flips_per_measurement: 2,
        attempts_per_flip: 3,
        lattice_size: 4,
        j_milli: 1000,
        k_milli: 1000,
        x_source: XSource::Energy,
        base_seed: 7,
    }
}

#[test]
fn spins_remain_valid_after_flips() {
    let mut rng = rand::rngs::StdRng::seed_from_u64(11);
    let mut lattice = Lattice::new(5, &mut rng);
    for _ in 0..200 {
        let ix = lattice.gen_random_index(&mut rng);
        lattice.flip_spin(ix);
        for k in 0..25 {
            let s = lattice.spin_at(k);
            assert!(s == 1 || s == -1);
        }
    }
}

#[test]
fn flip_twice_restores_cell_and_energy() {
    let mut rng = rand::rngs::StdRng::seed_from_u64(3);
    let mut lattice = Lattice::new(4, &mut rng);
    let spins_before: Vec<i64> = (0..16).map(|k| lattice.spin_at(k)).collect();
    let energy_before = lattice.energy_units();
    lattice.flip_spin(5);
    lattice.flip_spin(5);
    let spins_after: Vec<i64> = (0..16).map(|k| lattice.spin_at(k)).collect();
    assert_eq!(spins_before, spins_after);
    assert_eq!(energy_before, lattice.energy_units());
}

#[test]
fn uniform_spins_energy_and_order() {
    let lattice = Lattice { size: 2, spins: vec![1, 1, 1, 1] };
    assert_eq!(lattice.energy_units(), -8);
    assert_eq!(lattice.order_units(), 4);
    let e = lattice.total_energy_per_site(1000);
    assert_eq!(e, Rational { num: -8000, den: 4000 });
    let i = lattice.order_parameter();
    assert_eq!(i, Rational { num: 4, den: 4 });
    // Flipping any cell of the aligned grid raises the energy by 8 J.
    assert_eq!(lattice.measure_e_diff(0, 1000), 8000);
}

#[test]
fn checkerboard_spins_energy_and_order() {
    let lattice = Lattice { size: 2, spins: vec![1, -1, -1, 1] };
    assert_eq!(lattice.energy_units(), 8);
    assert_eq!(lattice.order_units(), 0);
    assert_eq!(lattice.order_parameter(), Rational { num: 0, den: 4 });
}

#[test]
fn random_index_stays_in_range() {
    let mut rng = rand::rngs::StdRng::seed_from_u64(9);
    let lattice = Lattice::new(2, &mut rng);
    for _ in 0..500 {
        assert!(lattice.gen_random_index(&mut rng) < 4);
    }
}

#[test]
fn nonpositive_energy_change_is_certain() {
    let p = flip_probability(-5000, 1000, 1000);
    assert!(p.certain());
    assert_eq!(p.exp_num, -5000000);
    assert_eq!(p.exp_den, 1000000);
    let q = flip_probability(0, 500, 2000);
    assert!(q.certain());
    let r = flip_probability(1, 1000, 1000);
    assert!(!r.certain());
}

#[test]
fn probability_strictly_decreasing_in_energy_change() {
    let lo = flip_probability(1000, 1000, 1000);
    let hi = flip_probability(2000, 1000, 1000);
    // lo denotes exp(-1), hi denotes exp(-2): lo is the greater probability,
    // which on the exponents reads lo.q < hi.q.
    assert!(
        (lo.exp_num as i128) * (hi.exp_den as i128)
            < (hi.exp_num as i128) * (lo.exp_den as i128)
    );
    assert!(acceptance_threshold(&lo) > acceptance_threshold(&hi));
}

#[test]
fn acceptance_threshold_bounds() {
    let certain = flip_probability(-8000, 200, 1000);
    assert_eq!(acceptance_threshold(&certain), ACCEPT_SCALE);
    let unlikely = flip_probability(8000, 200, 1000);
    let t = acceptance_threshold(&unlikely);
    assert!(t < ACCEPT_SCALE);
    // exp(-40) is vanishingly small; the fixed-point threshold collapses.
    assert!(t < ACCEPT_SCALE / 1000000);
    let even = flip_probability(1000, 1000, 1000);
    let t_e = acceptance_threshold(&even);
    // exp(-1) ~ 0.36788 of the scale; the fixed-point threshold approximates
    // it to within one part in a thousand.
    let expected = 1580030168u64;
    assert!(t_e > expected - expected / 1000 && t_e <= expected);
}

#[test]
fn single_sample_yields_zero_fluctuation() {
    let samples = vec![Sample { energy_units: -8, order_units: 4 }];
    let r = reduce(1000, &samples, 2, 1000, 1000, XSource::Energy);
    assert_eq!(r.de.num, 0);
    assert_eq!(r.x.num, 0);
    assert_eq!(r.i_mean, Rational { num: 4, den: 4 });
    let r2 = reduce(1000, &samples, 2, 1000, 1000, XSource::OrderParameter);
    assert_eq!(r2.de.num, 0);
    assert_eq!(r2.x.num, 0);
}

#[test]
fn reduce_exact_two_samples() {
    let samples = vec![
        Sample { energy_units: -8, order_units: 4 },
        Sample { energy_units: 8, order_units: 0 },
    ];
    let r = reduce(1000, &samples, 2, 1000, 1000, XSource::Energy);
    // F = 2 * 128 - 0 = 256; de = 1000 * J^2 * F / (n^4 len^2 K T^2).
    assert_eq!(r.de, Rational { num: 256000000000, den: 64000000000 });
    assert_eq!(r.i_mean, Rational { num: 4, den: 8 });
    assert_eq!(r.x, Rational { num: 256000000, den: 64000000 });
    // G = 2 * 16 - 16 = 16; X(order) = 1000000 * G / (n^4 len^2 K T).
    let r2 = reduce(1000, &samples, 2, 1000, 1000, XSource::OrderParameter);
    assert_eq!(r2.x, Rational { num: 16000000, den: 64000000 });
}

#[test]
fn temperature_sequence_spacing_and_count() {
    let ts = TemperatureSequence::new_step(200, 4000, 100);
    assert_eq!(ts.len(), 39);
    assert_eq!(ts.point(0), 200);
    for i in 1..39 {
        assert_eq!(ts.point(i) - ts.point(i - 1), 100);
    }
    assert_eq!(ts.point(38), 4000);
    let uneven = TemperatureSequence::new_step(200, 450, 100);
    assert_eq!(uneven.len(), 3);
    assert_eq!(uneven.point(2), 400);
}

#[test]
fn driver_one_record_per_temperature_sorted() {
    let cfg = test_config();
    assert!(cfg.validate());
    let (records, agg) = run(&cfg);
    assert_eq!(records.len(), 5);
    let expected_ts = [1000, 1250, 1500, 1750, 2000];
    for (r, t) in records.iter().zip(expected_ts.iter()) {
        assert_eq!(r.t_milli, *t);
        assert!(r.de.den > 0 && r.i_mean.den > 0 && r.x.den > 0);
    }
    assert!(agg.is_complete());
    assert_eq!(agg.count(), 10);
}

#[test]
fn determinism_same_seed() {
    let cfg = test_config();
    let (a, _) = run(&cfg);
    let (b, _) = run(&cfg);
    assert_eq!(a, b);
}

#[test]
fn untouched_lattice_scenario() {
    let cfg = Config {
        t_min_milli: 1000,
        t_max_milli: 1000,
        t_step_milli: 1000,
        flips_to_skip: 0,
        measurements_per_t: 1,
        flips_per_measurement: 0,
        attempts_per_flip: 1,
        lattice_size: 2,
        j_milli: 1000,
        k_milli: 1000,
        x_source: XSource::Energy,
        base_seed: 42,
    };
    assert!(cfg.validate());
    let (records, _) = run(&cfg);
    assert_eq!(records.len(), 1);
    let record = &records[0];
    assert_eq!(record.de.num, 0);
    assert_eq!(record.x.num, 0);
    // The single sample is taken on the untouched initial lattice, which the
    // worker's seed reproduces exactly.
    let mut rng = rand::rngs::StdRng::seed_from_u64(worker_seed(42, 0));
    let lattice = Lattice::new(2, &mut rng);
    let expected = lattice.order_parameter();
    assert_eq!(record.i_mean, expected);
}

#[test]
fn progress_signals_equal_measurements_times_temperatures() {
    let cfg = Config { measurements_per_t: 3, ..test_config() };
    let (records, agg) = run(&cfg);
    assert_eq!(agg.count(), 3 * records.len() as u64);
    assert!(agg.is_complete());
}

#[test]
fn sort_orders_records_by_temperature() {
    fn rec(t: i64) -> Record {
        Record {
            t_milli: t,
            de: Rational { num: t as i128, den: 1 },
            i_mean: Rational { num: 0, den: 1 },
            x: Rational { num: 0, den: 1 },
        }
    }
    let records = vec![rec(1500), rec(200), rec(4000), rec(200), rec(900)];
    let sorted = sort_records_by_t(records);
    let ts: Vec<i64> = sorted.iter().map(|r| r.t_milli).collect();
    assert_eq!(ts, vec![200, 200, 900, 1500, 4000]);
    // The sort keeps the records themselves, not only their temperatures.
    assert_eq!(sorted[0].de.num, 200);
    assert_eq!(sorted[4].de.num, 4000);
}

#[test]
fn configuration_validation() {
    let good = test_config();
    assert!(good.validate());
    assert!(!Config { lattice_size: 0, ..good }.validate());
    assert!(!Config { t_min_milli: 0, ..good }.validate());
    assert!(!Config { t_min_milli: 3000, ..good }.validate());
    assert!(!Config { t_step_milli: 0, ..good }.validate());
    assert!(!Config { k_milli: 0, ..good }.validate());
    assert!(!Config { measurements_per_t: 0, ..good }.validate());
    assert!(!Config { attempts_per_flip: 0, ..good }.validate());
    assert!(!Config { lattice_size: 129, ..good }.validate());
}

#[test]
fn cycle_phases_and_signals() {
    let cfg = Config { flips_to_skip: 2, measurements_per_t: 3, ..test_config() };
    let mut rng = rand::rngs::StdRng::seed_from_u64(5);
    let lattice = Lattice::new(cfg.lattice_size, &mut rng);
    let mut agg = ProgressAggregator::new(cfg.measurements_per_t as u64);
    let mut cycle = Cycle::new(lattice, &cfg);
    let mut steps = 0usize;
    while !cycle.is_done() {
        cycle.step(&cfg, 1500, &mut rng, &mut agg);
        steps += 1;
    }
    // Two equilibration slots, then three measurements.
    assert_eq!(steps, 5);
    assert_eq!(cycle.samples.len(), 3);
    assert_eq!(agg.count(), 3);
    assert!(agg.is_complete());
    for s in cycle.samples.iter() {
        assert!(s.energy_units >= -32 && s.energy_units <= 32);
        assert!(s.order_units >= 0 && s.order_units <= 16);
    }
}

#[test]
fn aggregator_counts_to_completion() {
    let mut agg = ProgressAggregator::new(4);
    assert!(!agg.is_complete());
    for i in 0..4 {
        assert_eq!(agg.count(), i);
        agg.record_signal();
    }
    assert_eq!(agg.count(), 4);
    assert!(agg.is_complete());
}

#[test]
fn energy_delta_formula_matches_energy_change() {
    let mut rng = rand::rngs::StdRng::seed_from_u64(21);
    let mut lattice = Lattice::new(6, &mut rng);
    for _ in 0..50 {
        let ix = lattice.gen_random_index(&mut rng);
        let before = lattice.energy_units();
        let delta = lattice.measure_e_diff(ix, 1000);
        lattice.flip_spin(ix);
        let after = lattice.energy_units();
        assert_eq!((after - before) * 1000, delta);
    }
}

#[test]
fn slot_always_flips_when_every_move_is_nonincreasing() {
    // With J < 0 every cell of an aligned grid proposes a non-increasing
    // energy change, so the first proposal of a slot is certainly accepted.
    let mut rng = rand::rngs::StdRng::seed_from_u64(17);
    let mut lattice = Lattice { size: 2, spins: vec![1, 1, 1, 1] };
    flip_slot(&mut lattice, &mut rng, 1000, -1000, 1000, 1);
    let spins: Vec<i64> = (0..4).map(|k| lattice.spin_at(k)).collect();
    assert_ne!(spins, vec![1, 1, 1, 1]);
    assert_eq!(spins.iter().filter(|s| **s == -1).count(), 1);
}
