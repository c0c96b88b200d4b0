//! A Metropolis-Hastings Monte Carlo engine for a two-dimensional Ising-type
//! spin lattice.
//!
//! The engine samples the equilibrium behaviour of a periodic square grid of
//! two-state spins over a sweep of temperatures and reduces the samples into
//! thermodynamic observables (a specific-heat-like quantity, the mean order
//! parameter, and a susceptibility-like quantity).
//!
//! All real-valued inputs (temperature, coupling constant, thermal constant)
//! are taken in exact thousandths (milli-units), and all derived observables
//! are returned as exact rational numbers, so that every computation in this
//! crate is exact integer arithmetic and carries a proved contract.

pub mod config;
pub mod cycle;
pub mod driver;
pub mod lattice;
pub mod probability;
pub mod progress;
pub mod rational;
pub mod rng;
pub mod stats;
pub mod temperature;
