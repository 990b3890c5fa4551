//! Monitor bookkeeping: the key of a channel's histograms, the batch
//! counters of the monitor's receiver and histogram task, and the list of
//! channels a waveform query names.
//!
//! The histograms themselves hold floating-point bins and are kept by the
//! program around this library.

use vstd::prelude::*;
use vstd::string::*;
use crate::queue_accounting::wrap_add;
use crate::text::{decimal, u64_to_decimal};

verus! {

/// Key for identifying a channel histogram
#[derive(Debug, Clone, Copy, Hash, PartialEq, Eq, Structural)]
pub struct ChannelKey {
    pub module_id: u32,
    pub channel_id: u32,
}

impl ChannelKey {
    pub fn new(module_id: u32, channel_id: u32) -> (r: ChannelKey)
        ensures
            r == (ChannelKey { module_id, channel_id }),
    {
        ChannelKey { module_id, channel_id }
    }
}

/// Batch and event counters of the monitor.
#[derive(Debug, Clone, Copy, PartialEq, Eq, Structural)]
pub struct AtomicStats {
    pub received_batches: u64,
    pub processed_batches: u64,
    pub processed_events: u64,
    pub dropped_batches: u64,
}

/// All counters at zero.
pub open spec fn zero_monitor_stats() -> AtomicStats {
    AtomicStats { received_batches: 0, processed_batches: 0, processed_events: 0, dropped_batches: 0 }
}

impl AtomicStats {
    pub fn new() -> (r: AtomicStats)
        ensures
            r == zero_monitor_stats(),
    {
        AtomicStats { received_batches: 0, processed_batches: 0, processed_events: 0, dropped_batches: 0 }
    }

    pub fn record_received(&mut self)
        ensures
            *final(self) == (AtomicStats { received_batches: wrap_add(old(self).received_batches, 1), ..*old(self) }),
    {
        self.received_batches = self.received_batches.wrapping_add(1);
    }

    /// Count a processed batch of `event_count` events.
    pub fn record_processed(&mut self, event_count: u64)
        ensures
            *final(self) == (AtomicStats {
                processed_batches: wrap_add(old(self).processed_batches, 1),
                processed_events: wrap_add(old(self).processed_events, event_count),
                ..*old(self)
            }),
    {
        self.processed_batches = self.processed_batches.wrapping_add(1);
        self.processed_events = self.processed_events.wrapping_add(event_count);
    }

    pub fn record_drop(&mut self)
        ensures
            *final(self) == (AtomicStats { dropped_batches: wrap_add(old(self).dropped_batches, 1), ..*old(self) }),
    {
        self.dropped_batches = self.dropped_batches.wrapping_add(1);
    }

    pub fn reset(&mut self)
        ensures
            *final(self) == zero_monitor_stats(),
    {
        self.received_batches = 0;
        self.processed_batches = 0;
        self.processed_events = 0;
        self.dropped_batches = 0;
    }

    /// (received batches, processed events, dropped batches)
    pub fn snapshot(&self) -> (r: (u64, u64, u64))
        ensures
            r == (self.received_batches, self.processed_events, self.dropped_batches),
    {
        (self.received_batches, self.processed_events, self.dropped_batches)
    }

    /// `"Received: r, Processed: p, Dropped: d"`, the monitor's GetStatus
    /// details.
    pub fn status_details(&self) -> (r: String)
        ensures
            r@ == "Received: "@ + decimal(self.received_batches as nat) + ", Processed: "@
                + decimal(self.processed_events as nat) + ", Dropped: "@ + decimal(self.dropped_batches as nat),
    {
        let (recv, processed, dropped) = self.snapshot();
        let mut m = String::from_str("Received: ");
        m.append(u64_to_decimal(recv).as_str());
        m.append(", Processed: ");
        m.append(u64_to_decimal(processed).as_str());
        m.append(", Dropped: ");
        m.append(u64_to_decimal(dropped).as_str());
        m
    }
}

/// The registered channels that a waveform listing adds after the channels
/// with a waveform: each registered key that is neither among `live` nor
/// registered earlier, in registration order.
pub open spec fn registered_not_listed(live: Seq<ChannelKey>, registered: Seq<ChannelKey>) -> Seq<ChannelKey>
    decreases registered.len(),
{
    if registered.len() == 0 {
        Seq::empty()
    } else {
        let prev = registered_not_listed(live, registered.drop_last());
        let k = registered.last();
        if live.contains(k) || registered.drop_last().contains(k) {
            prev
        } else {
            prev.push(k)
        }
    }
}

/// Whether `k` is among `keys`.
fn key_listed(keys: &Vec<ChannelKey>, k: ChannelKey) -> (r: bool)
    ensures
        r == keys@.contains(k),
{
    let mut i: usize = 0;
    while i < keys.len()
        invariant
            i <= keys.len(),
            forall|j: int| 0 <= j < i ==> keys@[j] != k,
        decreases keys.len() - i,
    {
        if keys[i] == k {
            return true;
        }
        i = i + 1;
    }
    false
}

/// The channels a waveform listing names: every channel with a waveform
/// (`live`, in the order given), then every registered channel not already
/// listed, each once.
pub fn waveform_channel_keys(live: &Vec<ChannelKey>, registered: &Vec<ChannelKey>) -> (r: Vec<ChannelKey>)
    ensures
        r@ == live@ + registered_not_listed(live@, registered@),
{
    let mut out: Vec<ChannelKey> = Vec::new();
    let mut i: usize = 0;
    while i < live.len()
        invariant
            i <= live.len(),
            out@ == live@.take(i as int),
        decreases live.len() - i,
    {
        out.push(live[i]);
        proof {
            assert(live@.take(i + 1) == live@.take(i as int).push(live@[i as int]));
        }
        i = i + 1;
    }
    proof {
        assert(live@.take(live.len() as int) == live@);
        assert(registered@.take(0) == Seq::<ChannelKey>::empty());
    }
    let mut j: usize = 0;
    while j < registered.len()
        invariant
            j <= registered.len(),
            out@ == live@ + registered_not_listed(live@, registered@.take(j as int)),
            forall|k: ChannelKey| #[trigger] out@.contains(k) <==> (live@.contains(k) || registered@.take(j as int).contains(k)),
        decreases registered.len() - j,
    {
        let k = registered[j];
        let ghost pre = registered@.take(j as int);
        proof {
            assert(registered@.take(j + 1).drop_last() == pre);
            assert(registered@.take(j + 1).last() == k);
        }
        let ghost before = out@;
        let listed = key_listed(&out, k);
        if !listed {
            out.push(k);
        }
        proof {
            let post = registered@.take(j + 1);
            assert forall|x: ChannelKey| #[trigger] out@.contains(x) <==> (live@.contains(x) || post.contains(x)) by {
                assert(post.contains(x) <==> (pre.contains(x) || x == k)) by {
                    if post.contains(x) {
                        let m = choose|m: int| 0 <= m < post.len() && post[m] == x;
                        if m < j {
                            assert(pre[m] == x);
                        }
                    }
                    if pre.contains(x) {
                        let m = choose|m: int| 0 <= m < pre.len() && pre[m] == x;
                        assert(post[m] == x);
                    }
                    if x == k {
                        assert(post[j as int] == x);
                    }
                }
                if !listed {
                    assert(out@ == before.push(k));
                    assert(out@.contains(x) <==> (before.contains(x) || x == k)) by {
                        if out@.contains(x) {
                            let m = choose|m: int| 0 <= m < out@.len() && out@[m] == x;
                            if m < before.len() {
                                assert(before[m] == x);
                            }
                        }
                        if before.contains(x) {
                            let m = choose|m: int| 0 <= m < before.len() && before[m] == x;
                            assert(out@[m] == x);
                        }
                        if x == k {
                            assert(out@[before.len() as int] == x);
                        }
                    }
                }
            }
            assert(out@ == live@ + registered_not_listed(live@, post)) by {
                if !listed {
                    assert((live@ + registered_not_listed(live@, pre)).push(k) == live@ + registered_not_listed(live@, pre).push(k));
                }
            }
        }
        j = j + 1;
    }
    proof {
        assert(registered@.take(registered.len() as int) == registered@);
    }
    out
}

/// Histogram type a query that names none asks for.
pub fn default_histogram_type() -> (r: String)
    ensures
        r@ == "energy"@,
{
    String::from_str("energy")
}

} // verus!
