//! Data sink bookkeeping: per-source sequence and event tracking of the
//! subscriber that prints pipeline statistics, and its batch counters.
//!
//! The sink's receiver deserializes each message and hands the processor
//! the batch's source id, sequence number and event count; everything it
//! counts lives here.

use vstd::prelude::*;
use vstd::string::*;
use std::collections::HashMap;
use crate::merger::{classify, SeqEvent};
use crate::queue_accounting::wrap_add;
use crate::map_totals::{add_measure, lemma_iteration_lists, lemma_total_order_independent, lemma_wrap_step, map_total};
use crate::command::{EmulatorRuntimeConfig, RunConfig};
use crate::state::CommandHandlerExt;
use crate::text::{decimal, u64_to_decimal};
use vstd::std_specs::iter::IteratorSpec;

verus! {

broadcast use vstd::std_specs::hash::group_hash_axioms;

/// DataSink configuration
#[derive(Debug, Clone)]
pub struct DataSinkConfig {
    /// ZMQ connect address (e.g., "tcp://localhost:5555")
    pub address: String,
    /// ZMQ bind address for commands (e.g., "tcp://*:5580")
    pub command_address: String,
    /// Statistics output interval in seconds
    pub stats_interval_secs: u64,
    /// Internal channel capacity
    pub channel_capacity: usize,
}

impl Default for DataSinkConfig {
    fn default() -> (r: DataSinkConfig)
        ensures
            r.address@ == "tcp://localhost:5555"@,
            r.command_address@ == "tcp://*:5580"@,
            r.stats_interval_secs == 1,
            r.channel_capacity == 1000,
    {
        DataSinkConfig {
            address: String::from_str("tcp://localhost:5555"),
            command_address: String::from_str("tcp://*:5580"),
            stats_interval_secs: 1,
            channel_capacity: 1000,
        }
    }
}

/// Per-source statistics with sequence tracking
#[derive(Debug, Clone, Copy, PartialEq, Eq, Structural)]
pub struct SourceStats {
    pub last_sequence: Option<u64>,
    pub total_batches: u64,
    pub total_events: u64,
    pub gaps_detected: u64,
    pub total_gap_size: u64,
    pub restart_count: u32,
}

/// Statistics of a source no batch has been seen from.
pub open spec fn fresh_stats() -> SourceStats {
    SourceStats {
        last_sequence: None,
        total_batches: 0,
        total_events: 0,
        gaps_detected: 0,
        total_gap_size: 0,
        restart_count: 0,
    }
}

impl Default for SourceStats {
    fn default() -> (r: SourceStats)
        ensures
            r == fresh_stats(),
    {
        SourceStats {
            last_sequence: None,
            total_batches: 0,
            total_events: 0,
            gaps_detected: 0,
            total_gap_size: 0,
            restart_count: 0,
        }
    }
}

/// The statistics after a batch of `events` events with sequence number
/// `seq`.
pub open spec fn spec_source_update(s: SourceStats, seq: u64, events: u64) -> SourceStats {
    let base = SourceStats {
        last_sequence: Some(seq),
        total_batches: (s.total_batches + 1) as u64,
        total_events: (s.total_events + events) as u64,
        ..s
    };
    match classify(s.last_sequence, seq) {
        SeqEvent::Restart => SourceStats { restart_count: (s.restart_count + 1) as u32, ..base },
        SeqEvent::Gap(g) => SourceStats {
            gaps_detected: (s.gaps_detected + 1) as u64,
            total_gap_size: (s.total_gap_size + g) as u64,
            ..base
        },
        SeqEvent::InOrder => base,
    }
}

/// The update's counters fit their types.
pub open spec fn source_update_fits(s: SourceStats, seq: u64, events: u64) -> bool {
    &&& s.total_batches < u64::MAX
    &&& s.total_events + events <= u64::MAX
    &&& match s.last_sequence {
        Some(l) => (seq as int) >= l - 100 ==> l < u64::MAX,
        None => true,
    }
    &&& match classify(s.last_sequence, seq) {
        SeqEvent::Restart => s.restart_count < u32::MAX,
        SeqEvent::Gap(g) => s.gaps_detected < u64::MAX && s.total_gap_size + g <= u64::MAX,
        SeqEvent::InOrder => true,
    }
}

impl SourceStats {
    /// Whether a batch of `events` events with sequence number `seq` keeps
    /// every counter in range.
    pub fn fits(&self, seq: u64, events: u64) -> (r: bool)
        ensures
            r == source_update_fits(*self, seq, events),
    {
        if self.total_batches == u64::MAX || self.total_events > u64::MAX - events {
            return false;
        }
        match self.last_sequence {
            Some(last) => {
                if seq < last.saturating_sub(100) {
                    self.restart_count < u32::MAX
                } else if last == u64::MAX {
                    false
                } else if seq > last + 1 {
                    self.gaps_detected < u64::MAX && self.total_gap_size <= u64::MAX - (seq - last - 1)
                } else {
                    true
                }
            },
            None => true,
        }
    }

    /// Record a batch: its sequence number (a jump back by more than 100 is
    /// a restart, a jump forward by more than one a gap) and its events.
    pub fn update(&mut self, seq: u64, events: u64) -> (r: SeqEvent)
        requires
            source_update_fits(*old(self), seq, events),
        ensures
            r == classify(old(self).last_sequence, seq),
            *final(self) == spec_source_update(*old(self), seq, events),
    {
        let event = match self.last_sequence {
            Some(last) => {
                if seq < last.saturating_sub(100) {
                    self.restart_count = self.restart_count + 1;
                    SeqEvent::Restart
                } else {
                    let expected = last + 1;
                    if seq > expected {
                        let gap = seq - expected;
                        self.gaps_detected = self.gaps_detected + 1;
                        self.total_gap_size = self.total_gap_size + gap;
                        SeqEvent::Gap(gap)
                    } else {
                        SeqEvent::InOrder
                    }
                }
            },
            None => SeqEvent::InOrder,
        };
        self.last_sequence = Some(seq);
        self.total_batches = self.total_batches + 1;
        self.total_events = self.total_events + events;
        event
    }
}

/// Gap count of a source's statistics.
pub open spec fn sink_gaps() -> spec_fn(SourceStats) -> nat {
    |s: SourceStats| s.gaps_detected as nat
}

/// Missing-batch count of a source's statistics.
pub open spec fn sink_missing() -> spec_fn(SourceStats) -> nat {
    |s: SourceStats| s.total_gap_size as nat
}

/// Sum of `gaps_detected` over all sources of a map.
pub open spec fn sink_total_gaps(m: Map<u32, SourceStats>) -> nat {
    map_total(m, sink_gaps())
}

/// Sum of `total_gap_size` over all sources of a map.
pub open spec fn sink_total_missing(m: Map<u32, SourceStats>) -> nat {
    map_total(m, sink_missing())
}

/// Statistics tracker of the sink's processor.
#[derive(Debug, Clone)]
pub struct DataSinkStats {
    pub sources: HashMap<u32, SourceStats>,
    pub total_batches: u64,
    pub total_events: u64,
    pub eos_received: u64,
    /// Events since the last report.
    pub events_since_last_report: u64,
}

/// The source's statistics before its next batch.
pub open spec fn sink_current(m: Map<u32, SourceStats>, id: u32) -> SourceStats {
    if m.contains_key(id) { m[id] } else { fresh_stats() }
}

impl Default for DataSinkStats {
    fn default() -> (r: DataSinkStats)
        ensures
            r.sources@ == Map::<u32, SourceStats>::empty(),
            r.total_batches == 0,
            r.total_events == 0,
            r.eos_received == 0,
            r.events_since_last_report == 0,
    {
        DataSinkStats {
            sources: HashMap::new(),
            total_batches: 0,
            total_events: 0,
            eos_received: 0,
            events_since_last_report: 0,
        }
    }
}

impl DataSinkStats {
    /// Whether a batch of `events` events from `source_id` with sequence
    /// number `seq` keeps every counter in range.
    pub fn can_update(&self, source_id: u32, seq: u64, events: u64) -> (r: bool)
        ensures
            r == (source_update_fits(sink_current(self.sources@, source_id), seq, events)
                && self.total_batches < u64::MAX
                && self.total_events + events <= u64::MAX
                && self.events_since_last_report + events <= u64::MAX),
    {
        let cur = match self.sources.get(&source_id) {
            Some(s) => *s,
            None => SourceStats::default(),
        };
        cur.fits(seq, events) && self.total_batches < u64::MAX && self.total_events <= u64::MAX - events
            && self.events_since_last_report <= u64::MAX - events
    }

    /// Count a batch of `events` events from `source_id` with sequence
    /// number `seq`.
    pub fn update(&mut self, source_id: u32, seq: u64, events: u64) -> (r: SeqEvent)
        requires
            source_update_fits(sink_current(old(self).sources@, source_id), seq, events),
            old(self).total_batches < u64::MAX,
            old(self).total_events + events <= u64::MAX,
            old(self).events_since_last_report + events <= u64::MAX,
        ensures
            r == classify(sink_current(old(self).sources@, source_id).last_sequence, seq),
            final(self).sources@ == old(self).sources@.insert(
                source_id,
                spec_source_update(sink_current(old(self).sources@, source_id), seq, events),
            ),
            final(self).total_batches == old(self).total_batches + 1,
            final(self).total_events == old(self).total_events + events,
            final(self).events_since_last_report == old(self).events_since_last_report + events,
            final(self).eos_received == old(self).eos_received,
    {
        let mut cur = match self.sources.get(&source_id) {
            Some(s) => *s,
            None => SourceStats::default(),
        };
        let event = cur.update(seq, events);
        self.sources.insert(source_id, cur);
        self.total_batches = self.total_batches + 1;
        self.total_events = self.total_events + events;
        self.events_since_last_report = self.events_since_last_report + events;
        event
    }

    /// Count an EndOfStream.
    pub fn record_eos(&mut self)
        requires
            old(self).eos_received < u64::MAX,
        ensures
            final(self).eos_received == old(self).eos_received + 1,
            final(self).sources@ == old(self).sources@,
            final(self).total_batches == old(self).total_batches,
            final(self).total_events == old(self).total_events,
            final(self).events_since_last_report == old(self).events_since_last_report,
    {
        self.eos_received = self.eos_received + 1;
    }

    /// Close a report interval: the events counted since the last report,
    /// after which the interval count starts again from zero.
    pub fn take_interval_events(&mut self) -> (r: u64)
        ensures
            r == old(self).events_since_last_report,
            final(self).events_since_last_report == 0,
            final(self).sources@ == old(self).sources@,
            final(self).total_batches == old(self).total_batches,
            final(self).total_events == old(self).total_events,
            final(self).eos_received == old(self).eos_received,
    {
        let n = self.events_since_last_report;
        self.events_since_last_report = 0;
        n
    }

    /// Number of gaps over all sources, summed with `u64` wrap-around.
    pub fn total_gaps(&self) -> (r: u64)
        ensures
            r as nat == sink_total_gaps(self.sources@) % 0x1_0000_0000_0000_0000,
    {
        let mut acc: u64 = 0;
        let ghost f = add_measure(sink_gaps());
        let entries = self.sources.iter();
        let ghost all = entries.remaining();
        let ghost t = all.map_values(|e: (&u32, &SourceStats)| (*e.0, *e.1));
        proof {
            lemma_iteration_lists(&self.sources, all);
            lemma_total_order_independent(t, self.sources@, sink_gaps());
            assert(t.take(0) =~= Seq::<(u32, SourceStats)>::empty());
        }
        for e in it: entries
            invariant
                it.seq() == all,
                t == all.map_values(|e: (&u32, &SourceStats)| (*e.0, *e.1)),
                acc as nat == t.take(it.index()).fold_left(0nat, f) % 0x1_0000_0000_0000_0000,
                f == add_measure(sink_gaps()),
        {
            proof {
                let i = it.index();
                assert(t.take(i + 1).drop_last() == t.take(i));
                lemma_wrap_step(acc, t.take(i).fold_left(0nat, f), e.1.gaps_detected);
            }
            acc = acc.wrapping_add(e.1.gaps_detected);
        }
        proof {
            assert(t.take(t.len() as int) == t);
        }
        acc
    }

    /// Number of missing batches over all sources, summed with `u64`
    /// wrap-around.
    pub fn total_missing(&self) -> (r: u64)
        ensures
            r as nat == sink_total_missing(self.sources@) % 0x1_0000_0000_0000_0000,
    {
        let mut acc: u64 = 0;
        let ghost f = add_measure(sink_missing());
        let entries = self.sources.iter();
        let ghost all = entries.remaining();
        let ghost t = all.map_values(|e: (&u32, &SourceStats)| (*e.0, *e.1));
        proof {
            lemma_iteration_lists(&self.sources, all);
            lemma_total_order_independent(t, self.sources@, sink_missing());
            assert(t.take(0) =~= Seq::<(u32, SourceStats)>::empty());
        }
        for e in it: entries
            invariant
                it.seq() == all,
                t == all.map_values(|e: (&u32, &SourceStats)| (*e.0, *e.1)),
                acc as nat == t.take(it.index()).fold_left(0nat, f) % 0x1_0000_0000_0000_0000,
                f == add_measure(sink_missing()),
        {
            proof {
                let i = it.index();
                assert(t.take(i + 1).drop_last() == t.take(i));
                lemma_wrap_step(acc, t.take(i).fold_left(0nat, f), e.1.total_gap_size);
            }
            acc = acc.wrapping_add(e.1.total_gap_size);
        }
        proof {
            assert(t.take(t.len() as int) == t);
        }
        acc
    }
}

/// Batch counters of the sink's receiver and processor.
#[derive(Debug, Clone, Copy, PartialEq, Eq, Structural)]
pub struct AtomicStats {
    pub received_batches: u64,
    pub processed_batches: u64,
    pub dropped_batches: u64,
    pub eos_received: u64,
}

impl AtomicStats {
    /// Zeroed counters.
    pub fn new() -> (r: AtomicStats)
        ensures
            r == (AtomicStats { received_batches: 0, processed_batches: 0, dropped_batches: 0, eos_received: 0 }),
    {
        AtomicStats { received_batches: 0, processed_batches: 0, dropped_batches: 0, eos_received: 0 }
    }

    pub fn record_received(&mut self)
        ensures
            *final(self) == (AtomicStats { received_batches: wrap_add(old(self).received_batches, 1), ..*old(self) }),
    {
        self.received_batches = self.received_batches.wrapping_add(1);
    }

    pub fn record_processed(&mut self)
        ensures
            *final(self) == (AtomicStats { processed_batches: wrap_add(old(self).processed_batches, 1), ..*old(self) }),
    {
        self.processed_batches = self.processed_batches.wrapping_add(1);
    }

    pub fn record_drop(&mut self)
        ensures
            *final(self) == (AtomicStats { dropped_batches: wrap_add(old(self).dropped_batches, 1), ..*old(self) }),
    {
        self.dropped_batches = self.dropped_batches.wrapping_add(1);
    }

    pub fn record_eos(&mut self)
        ensures
            *final(self) == (AtomicStats { eos_received: wrap_add(old(self).eos_received, 1), ..*old(self) }),
    {
        self.eos_received = self.eos_received.wrapping_add(1);
    }

    /// (received, processed, dropped, eos)
    pub fn snapshot(&self) -> (r: (u64, u64, u64, u64))
        ensures
            r == (self.received_batches, self.processed_batches, self.dropped_batches, self.eos_received),
    {
        (self.received_batches, self.processed_batches, self.dropped_batches, self.eos_received)
    }
}

/// `"Received: r, Processed: p, Dropped: d, EOS: e"`.
pub open spec fn sink_status_text(s: AtomicStats) -> Seq<char> {
    "Received: "@ + decimal(s.received_batches as nat) + ", Processed: "@
        + decimal(s.processed_batches as nat) + ", Dropped: "@ + decimal(s.dropped_batches as nat)
        + ", EOS: "@ + decimal(s.eos_received as nat)
}

/// Command handler extension for the data sink: reports its counters in
/// GetStatus.
pub struct DataSinkCommandExt<'a> {
    pub atomic_stats: &'a AtomicStats,
}

impl<'a> CommandHandlerExt for DataSinkCommandExt<'a> {
    open spec fn details(&self) -> Option<Seq<char>> {
        Some(sink_status_text(*self.atomic_stats))
    }
    fn on_configure(&mut self, config: &RunConfig) -> (r: Result<(), String>) {
        Ok(())
    }

    fn on_arm(&mut self) -> (r: Result<(), String>) {
        Ok(())
    }

    fn on_start(&mut self, run_number: u32) -> (r: Result<(), String>) {
        Ok(())
    }

    fn on_stop(&mut self) -> (r: Result<(), String>) {
        Ok(())
    }

    fn on_reset(&mut self) -> (r: Result<(), String>) {
        Ok(())
    }

    fn on_update_emulator_config(&mut self, config: &EmulatorRuntimeConfig) -> (r: Result<(), String>) {
        Err(String::from_str("UpdateEmulatorConfig not supported by this component"))
    }

    fn component_name(&self) -> (r: &'static str)
        ensures
            r@ == "DataSink"@,
    {
        "DataSink"
    }

    fn status_details(&self) -> (r: Option<String>)
        ensures
            r is Some,
            r->0@ == sink_status_text(*self.atomic_stats),
    {
        let (recv, processed, dropped, eos) = self.atomic_stats.snapshot();
        let mut m = String::from_str("Received: ");
        m.append(u64_to_decimal(recv).as_str());
        m.append(", Processed: ");
        m.append(u64_to_decimal(processed).as_str());
        m.append(", Dropped: ");
        m.append(u64_to_decimal(dropped).as_str());
        m.append(", EOS: ");
        m.append(u64_to_decimal(eos).as_str());
        Some(m)
    }
}

/// How one batch changes a source's statistics in the sink: its sequence
/// number becomes the last one seen, whatever it showed (in order, a gap or
/// a restart); one more batch and its events are counted; a jump forward by
/// `k > 1` counts one gap of `k - 1` missing batches, a jump back by more
/// than 100 one restart, and anything else leaves the gap and restart
/// counters as they were.
pub proof fn lemma_sink_update_counts(s: SourceStats, seq: u64, events: u64)
    requires
        source_update_fits(s, seq, events),
    ensures
        spec_source_update(s, seq, events).last_sequence == Some(seq),
        spec_source_update(s, seq, events).total_batches == s.total_batches + 1,
        spec_source_update(s, seq, events).total_events == s.total_events + events,
        match s.last_sequence {
            Some(l) if seq + 100 < l => {
                &&& spec_source_update(s, seq, events).restart_count == s.restart_count + 1
                &&& spec_source_update(s, seq, events).gaps_detected == s.gaps_detected
                &&& spec_source_update(s, seq, events).total_gap_size == s.total_gap_size
            },
            Some(l) if seq > l + 1 => {
                &&& spec_source_update(s, seq, events).restart_count == s.restart_count
                &&& spec_source_update(s, seq, events).gaps_detected == s.gaps_detected + 1
                &&& spec_source_update(s, seq, events).total_gap_size == s.total_gap_size + (seq - l - 1)
            },
            _ => {
                &&& spec_source_update(s, seq, events).restart_count == s.restart_count
                &&& spec_source_update(s, seq, events).gaps_detected == s.gaps_detected
                &&& spec_source_update(s, seq, events).total_gap_size == s.total_gap_size
            },
        },
{
}

/// In the sink, a batch whose sequence number directly follows the
/// previous batch's never counts a gap or a restart, whatever the previous
/// batch showed.
pub proof fn lemma_sink_next_in_order(s: SourceStats, seq: u64, e1: u64, e2: u64)
    requires
        source_update_fits(s, seq, e1),
        seq < u64::MAX,
    ensures
        ({
            let t = spec_source_update(s, seq, e1);
            let u = spec_source_update(t, (seq + 1) as u64, e2);
            &&& u.gaps_detected == t.gaps_detected
            &&& u.total_gap_size == t.total_gap_size
            &&& u.restart_count == t.restart_count
            &&& u.last_sequence == Some((seq + 1) as u64)
        }),
{
    lemma_sink_update_counts(s, seq, e1);
}
} // verus!
