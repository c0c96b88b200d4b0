//! Progress aggregation.
//!
//! Workers report one signal per completed measurement; the aggregator is the
//! sole owner of the count and never touches simulation state. Completion is
//! observable only once every expected signal has been received, so output is
//! never produced while measurements are outstanding.

use vstd::prelude::*;

verus! {

/// Counts received measurement signals against an expected total.
#[derive(Clone, Copy, PartialEq, Eq, Structural, Debug)]
pub struct ProgressAggregator {
    /// Signals expected over the whole run.
    pub expected: u64,
    /// Signals received so far; never exceeds `expected`.
    pub received: u64,
}

impl ProgressAggregator {
    /// Well-formedness: the count never exceeds the expected total.
    pub open spec fn wf(self) -> bool {
        self.received <= self.expected
    }

    /// A fresh aggregator expecting `expected` signals.
    pub fn new(expected: u64) -> (r: ProgressAggregator)
        ensures
            r.wf(),
            r.expected == expected,
            r.received == 0,
    {
        ProgressAggregator { expected, received: 0 }
    }

    /// Receives one measurement signal, advancing the count by exactly one.
    pub fn record_signal(&mut self)
        requires
            old(self).wf(),
            old(self).received < old(self).expected,
        ensures
            final(self).wf(),
            final(self).expected == old(self).expected,
            final(self).received == old(self).received + 1,
    {
        self.received = self.received + 1;
    }

    /// Whether every expected signal has been received.
    pub fn is_complete(&self) -> (r: bool)
        ensures
            r == (self.received == self.expected),
    {
        self.received == self.expected
    }

    /// The count of received signals, for external display.
    pub fn count(&self) -> (r: u64)
        ensures
            r == self.received,
    {
        self.received
    }
}

} // verus!
