//! Counters shared by every pipeline component: items received,
//! processed/sent and dropped, events received and processed, and bytes.
//!
//! Counters wrap on overflow like `AtomicU64::fetch_add`. They are plain
//! values updated through `&mut self`; a component that shares them between
//! tasks holds them behind a lock.

use vstd::prelude::*;
use crate::queue_accounting::wrap_add;

verus! {

/// Snapshot of counter values at a point in time
#[derive(Debug, Clone, Copy, PartialEq, Eq, Structural)]
pub struct CounterSnapshot {
    pub received: u64,
    pub processed: u64,
    pub dropped: u64,
    pub events_received: u64,
    pub events_processed: u64,
    pub bytes: u64,
}

impl Default for CounterSnapshot {
    fn default() -> (r: CounterSnapshot)
        ensures
            r == zero_snapshot(),
    {
        zero_counters_snapshot()
    }
}

/// All-zero counter values.
pub open spec fn zero_snapshot() -> CounterSnapshot {
    CounterSnapshot {
        received: 0,
        processed: 0,
        dropped: 0,
        events_received: 0,
        events_processed: 0,
        bytes: 0,
    }
}

fn zero_counters_snapshot() -> (r: CounterSnapshot)
    ensures
        r == zero_snapshot(),
{
    CounterSnapshot {
        received: 0,
        processed: 0,
        dropped: 0,
        events_received: 0,
        events_processed: 0,
        bytes: 0,
    }
}

/// Common counters used across all pipeline components.
#[derive(Debug)]
pub struct AtomicCounters {
    /// Batches/items received from upstream
    pub received: u64,
    /// Batches/items successfully processed/sent
    pub processed: u64,
    /// Batches/items dropped due to backpressure
    pub dropped: u64,
    /// Events received (sum of all events in batches)
    pub events_received: u64,
    /// Events processed/sent
    pub events_processed: u64,
    /// Bytes transferred
    pub bytes: u64,
}

impl AtomicCounters {
    /// The counter values as a snapshot.
    pub open spec fn values(&self) -> CounterSnapshot {
        CounterSnapshot {
            received: self.received,
            processed: self.processed,
            dropped: self.dropped,
            events_received: self.events_received,
            events_processed: self.events_processed,
            bytes: self.bytes,
        }
    }

    /// Create new zeroed counters
    pub fn new() -> (r: AtomicCounters)
        ensures
            r.values() == zero_snapshot(),
    {
        AtomicCounters {
            received: 0,
            processed: 0,
            dropped: 0,
            events_received: 0,
            events_processed: 0,
            bytes: 0,
        }
    }

    /// Increment received batch counter
    pub fn inc_received(&mut self)
        ensures
            final(self).values() == (CounterSnapshot { received: wrap_add(old(self).received, 1), ..old(self).values() }),
    {
        self.received = self.received.wrapping_add(1);
    }

    /// Increment received counter by n
    pub fn add_received(&mut self, n: u64)
        ensures
            final(self).values() == (CounterSnapshot { received: wrap_add(old(self).received, n), ..old(self).values() }),
    {
        self.received = self.received.wrapping_add(n);
    }

    /// Increment processed counter
    pub fn inc_processed(&mut self)
        ensures
            final(self).values() == (CounterSnapshot { processed: wrap_add(old(self).processed, 1), ..old(self).values() }),
    {
        self.processed = self.processed.wrapping_add(1);
    }

    /// Increment processed counter by n
    pub fn add_processed(&mut self, n: u64)
        ensures
            final(self).values() == (CounterSnapshot { processed: wrap_add(old(self).processed, n), ..old(self).values() }),
    {
        self.processed = self.processed.wrapping_add(n);
    }

    /// Increment dropped counter
    pub fn inc_dropped(&mut self)
        ensures
            final(self).values() == (CounterSnapshot { dropped: wrap_add(old(self).dropped, 1), ..old(self).values() }),
    {
        self.dropped = self.dropped.wrapping_add(1);
    }

    /// Add to events received
    pub fn add_events_received(&mut self, n: u64)
        ensures
            final(self).values() == (CounterSnapshot {
                events_received: wrap_add(old(self).events_received, n),
                ..old(self).values()
            }),
    {
        self.events_received = self.events_received.wrapping_add(n);
    }

    /// Add to events processed
    pub fn add_events_processed(&mut self, n: u64)
        ensures
            final(self).values() == (CounterSnapshot {
                events_processed: wrap_add(old(self).events_processed, n),
                ..old(self).values()
            }),
    {
        self.events_processed = self.events_processed.wrapping_add(n);
    }

    /// Add to bytes counter
    pub fn add_bytes(&mut self, n: u64)
        ensures
            final(self).values() == (CounterSnapshot { bytes: wrap_add(old(self).bytes, n), ..old(self).values() }),
    {
        self.bytes = self.bytes.wrapping_add(n);
    }

    /// Take a snapshot of current values
    pub fn snapshot(&self) -> (r: CounterSnapshot)
        ensures
            r == self.values(),
    {
        CounterSnapshot {
            received: self.received,
            processed: self.processed,
            dropped: self.dropped,
            events_received: self.events_received,
            events_processed: self.events_processed,
            bytes: self.bytes,
        }
    }

    /// Reset all counters to zero
    pub fn reset(&mut self)
        ensures
            final(self).values() == zero_snapshot(),
    {
        self.received = 0;
        self.processed = 0;
        self.dropped = 0;
        self.events_received = 0;
        self.events_processed = 0;
        self.bytes = 0;
    }
}

impl Default for AtomicCounters {
    fn default() -> (r: AtomicCounters)
        ensures
            r.values() == zero_snapshot(),
    {
        AtomicCounters::new()
    }
}

/// Adding `a` then `b` to a counter is adding `a + b` (modulo 2^64): the
/// counters are additive, whatever the split into calls.
pub proof fn lemma_counter_adds_compose(c: u64, a: u64, b: u64)
    ensures
        wrap_add(wrap_add(c, a), b) == wrap_add(c, wrap_add(a, b)),
{
    let m: int = 0x1_0000_0000_0000_0000;
    vstd::arithmetic::div_mod::lemma_add_mod_noop(c as int + a as int, b as int, m);
    vstd::arithmetic::div_mod::lemma_add_mod_noop(c as int, a as int + b as int, m);
    vstd::arithmetic::div_mod::lemma_small_mod(b as nat, m as nat);
    vstd::arithmetic::div_mod::lemma_small_mod(c as nat, m as nat);
    vstd::arithmetic::div_mod::lemma_mod_twice(c as int + a as int, m);
    vstd::arithmetic::div_mod::lemma_mod_twice(a as int + b as int, m);
}

} // verus!
