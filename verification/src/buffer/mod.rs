//! Real-time buffers: statistics counters, sequence numbers, and the ring,
//! pipe, fan-out, fan-in and delay buffers built on them.
use std::sync::atomic::{AtomicU64, AtomicUsize, Ordering};
use vstd::prelude::*;

pub mod delay;
pub mod fan;
pub mod pipe;
pub mod ring;

verus! {

/// Lock-free counters of buffer activity, safe to share between threads.
///
/// The counters are plain atomics updated with relaxed ordering; their values
/// depend on every thread that touches them, so no contract states them.
pub struct AtomicStats {
    writes: AtomicU64,
    reads: AtomicU64,
    underflows: AtomicU64,
    overflows: AtomicU64,
    peak_fill: AtomicUsize,
}

/// Counters of a buffer's traffic; also what an `AtomicStats` holds, read at
/// one moment.
#[derive(Debug, Clone, Copy, PartialEq, Eq, Structural)]
pub struct StatsCounts {
    /// Number of successful writes.
    pub writes: u64,
    /// Number of successful reads.
    pub reads: u64,
    /// Number of reads attempted on an empty buffer.
    pub underflows: u64,
    /// Number of writes attempted on a full buffer.
    pub overflows: u64,
    /// Highest fill level recorded since the last reset.
    pub peak_fill: usize,
}

/// `x` after one count, wrapping to zero past the largest value.
pub open spec fn bumped(x: u64) -> u64 {
    if x == u64::MAX {
        0
    } else {
        (x + 1) as u64
    }
}

/// `x` after `k` counts.
pub open spec fn bumped_by(x: u64, k: nat) -> u64
    decreases k,
{
    if k == 0 {
        x
    } else {
        bumped(bumped_by(x, (k - 1) as nat))
    }
}

impl StatsCounts {
    /// The counters after `k` successful writes that left the buffer holding
    /// `fill` items; the peak rises to `fill` when there was a write.
    pub open spec fn wrote(self, k: nat, fill: usize) -> StatsCounts {
        StatsCounts {
            writes: bumped_by(self.writes, k),
            reads: self.reads,
            underflows: self.underflows,
            overflows: self.overflows,
            peak_fill: if k > 0 && fill > self.peak_fill {
                fill
            } else {
                self.peak_fill
            },
        }
    }

    /// The counters after `k` successful reads.
    pub open spec fn read_back(self, k: nat) -> StatsCounts {
        StatsCounts { reads: bumped_by(self.reads, k), ..self }
    }

    /// The counters after a read on an empty buffer.
    pub open spec fn underflowed(self) -> StatsCounts {
        StatsCounts { underflows: bumped(self.underflows), ..self }
    }

    /// The counters after a write on a full buffer.
    pub open spec fn overflowed(self) -> StatsCounts {
        StatsCounts { overflows: bumped(self.overflows), ..self }
    }

    /// The counters with the peak raised to `fill` if it is higher.
    pub open spec fn peaked(self, fill: usize) -> StatsCounts {
        StatsCounts {
            peak_fill: if fill > self.peak_fill {
                fill
            } else {
                self.peak_fill
            },
            ..self
        }
    }

    /// All counters at zero.
    pub open spec fn zero() -> StatsCounts {
        StatsCounts { writes: 0, reads: 0, underflows: 0, overflows: 0, peak_fill: 0 }
    }

    /// All counters at zero.
    pub fn new() -> (s: Self)
        ensures
            s == StatsCounts::zero(),
    {
        StatsCounts { writes: 0, reads: 0, underflows: 0, overflows: 0, peak_fill: 0 }
    }

    /// Count a successful write.
    pub fn record_write(&mut self)
        ensures
            *final(self) == old(self).wrote(1, 0),
    {
        proof {
            reveal_with_fuel(bumped_by, 2);
        }
        self.writes = self.writes.wrapping_add(1);
    }

    /// Count a successful read.
    pub fn record_read(&mut self)
        ensures
            *final(self) == old(self).read_back(1),
    {
        proof {
            reveal_with_fuel(bumped_by, 2);
        }
        self.reads = self.reads.wrapping_add(1);
    }

    /// Count a read on an empty buffer.
    pub fn record_underflow(&mut self)
        ensures
            *final(self) == old(self).underflowed(),
    {
        self.underflows = self.underflows.wrapping_add(1);
    }

    /// Count a write on a full buffer.
    pub fn record_overflow(&mut self)
        ensures
            *final(self) == old(self).overflowed(),
    {
        self.overflows = self.overflows.wrapping_add(1);
    }

    /// Raise the peak fill level to `current_fill` if it is higher.
    pub fn update_peak(&mut self, current_fill: usize)
        ensures
            *final(self) == old(self).peaked(current_fill),
    {
        if current_fill > self.peak_fill {
            self.peak_fill = current_fill;
        }
    }

    /// Set every counter back to zero.
    pub fn reset(&mut self)
        ensures
            *final(self) == StatsCounts::zero(),
    {
        *self = StatsCounts::new();
    }

    /// The counters.
    pub fn counts(&self) -> (r: StatsCounts)
        ensures
            r == *self,
    {
        *self
    }
}

impl AtomicStats {
    /// Create new statistics with all counters at zero.
    pub fn new() -> Self {
        AtomicStats {
            writes: AtomicU64::new(0),
            reads: AtomicU64::new(0),
            underflows: AtomicU64::new(0),
            overflows: AtomicU64::new(0),
            peak_fill: AtomicUsize::new(0),
        }
    }

    /// Record a successful write operation.
    pub fn record_write(&self) {
        self.writes.fetch_add(1, Ordering::Relaxed);
    }

    /// Record a successful read operation.
    pub fn record_read(&self) {
        self.reads.fetch_add(1, Ordering::Relaxed);
    }

    /// Record an underflow event (read when empty).
    pub fn record_underflow(&self) {
        self.underflows.fetch_add(1, Ordering::Relaxed);
    }

    /// Record an overflow event (write when full).
    pub fn record_overflow(&self) {
        self.overflows.fetch_add(1, Ordering::Relaxed);
    }

    /// Raise the recorded peak fill level to `current_fill` if it is higher.
    pub fn update_peak(&self, current_fill: usize) {
        self.peak_fill.fetch_max(current_fill, Ordering::Relaxed);
    }

    /// Read the counters.
    pub fn counts(&self) -> StatsCounts {
        StatsCounts {
            writes: self.writes.load(Ordering::Relaxed),
            reads: self.reads.load(Ordering::Relaxed),
            underflows: self.underflows.load(Ordering::Relaxed),
            overflows: self.overflows.load(Ordering::Relaxed),
            peak_fill: self.peak_fill.load(Ordering::Relaxed),
        }
    }

    /// Reset all statistics to zero.
    pub fn reset(&self) {
        self.writes.store(0, Ordering::Relaxed);
        self.reads.store(0, Ordering::Relaxed);
        self.underflows.store(0, Ordering::Relaxed);
        self.overflows.store(0, Ordering::Relaxed);
        self.peak_fill.store(0, Ordering::Relaxed);
    }
}

/// Atomic sequence counter for lock-free coordination between threads.
///
/// Each operation is the corresponding operation of the underlying atomic;
/// the value seen depends on every thread that touches it.
pub struct Sequence(AtomicUsize);

impl Sequence {
    /// Create a new sequence starting at 0.
    pub fn new() -> Self {
        Sequence(AtomicUsize::new(0))
    }

    /// Load the current value.
    pub fn load(&self, order: Ordering) -> usize {
        self.0.load(order)
    }

    /// Store a new value.
    pub fn store(&self, val: usize, order: Ordering) {
        self.0.store(val, order)
    }

    /// Atomic fetch-and-add (wrapping on overflow); returns the previous value.
    pub fn fetch_add(&self, val: usize, order: Ordering) -> usize {
        self.0.fetch_add(val, order)
    }

    /// Atomic compare-and-exchange.
    pub fn compare_exchange(
        &self,
        current: usize,
        new: usize,
        success: Ordering,
        failure: Ordering,
    ) -> Result<usize, usize> {
        self.0.compare_exchange(current, new, success, failure)
    }
}

} // verus!
