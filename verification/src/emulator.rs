//! Emulator data source bookkeeping: its configuration, the settings a
//! running emulator accepts at run time, its publish counters, and the
//! bit-packed digital probe traces of its simulated waveforms.
//!
//! The random event and pulse shapes themselves are floating point and are
//! drawn by the program around this library.

pub mod waveform_probes;

use vstd::prelude::*;
use vstd::string::*;
use crate::command::{EmulatorRuntimeConfig, RunConfig};
use crate::queue_accounting::wrap_add;
use crate::state::CommandHandlerExt;
use crate::text::{decimal, u64_to_decimal};

verus! {

/// Emulator configuration
#[derive(Debug, Clone)]
pub struct EmulatorConfig {
    /// ZMQ bind address for data (e.g., "tcp://*:5555")
    pub address: String,
    /// ZMQ bind address for commands (e.g., "tcp://*:5560")
    pub command_address: String,
    /// Source ID for this emulator instance
    pub source_id: u32,
    /// Number of events per batch
    pub events_per_batch: usize,
    /// Interval between batches in milliseconds
    pub batch_interval_ms: u64,
    /// Heartbeat interval in milliseconds (0 = disabled)
    pub heartbeat_interval_ms: u64,
    /// Number of modules to simulate
    pub num_modules: u8,
    /// Number of channels per module
    pub channels_per_module: u8,
    /// Enable waveform generation for all events
    pub enable_waveform: bool,
    /// Bitmask of enabled probes (see `waveform_probes`)
    pub waveform_probes: u8,
    /// Number of samples per waveform
    pub waveform_samples: usize,
}

impl Default for EmulatorConfig {
    fn default() -> (r: EmulatorConfig)
        ensures
            r.address@ == "tcp://*:5555"@,
            r.command_address@ == "tcp://*:5560"@,
            r.source_id == 0,
            r.events_per_batch == 100,
            r.batch_interval_ms == 100,
            r.heartbeat_interval_ms == 1000,
            r.num_modules == 1,
            r.channels_per_module == 16,
            !r.enable_waveform,
            r.waveform_probes == waveform_probes::ALL_ANALOG,
            r.waveform_samples == 512,
    {
        EmulatorConfig {
            address: String::from_str("tcp://*:5555"),
            command_address: String::from_str("tcp://*:5560"),
            source_id: 0,
            events_per_batch: 100,
            batch_interval_ms: 100,
            heartbeat_interval_ms: 1000,
            num_modules: 1,
            channels_per_module: 16,
            enable_waveform: false,
            waveform_probes: waveform_probes::ALL_ANALOG,
            waveform_samples: 512,
        }
    }
}

/// Publish counters of the emulator.
#[derive(Debug, Clone, Copy, PartialEq, Eq, Structural)]
pub struct AtomicStats {
    pub events_generated: u64,
    pub batches_published: u64,
    pub bytes_sent: u64,
}

impl AtomicStats {
    /// Zeroed counters.
    pub fn new() -> (r: AtomicStats)
        ensures
            r == (AtomicStats { events_generated: 0, batches_published: 0, bytes_sent: 0 }),
    {
        AtomicStats { events_generated: 0, batches_published: 0, bytes_sent: 0 }
    }

    /// Back to zero (at the start of a run).
    pub fn reset(&mut self)
        ensures
            *final(self) == (AtomicStats { events_generated: 0, batches_published: 0, bytes_sent: 0 }),
    {
        self.events_generated = 0;
        self.batches_published = 0;
        self.bytes_sent = 0;
    }

    /// Count a published data batch of `events` events and `bytes` bytes.
    pub fn record_batch(&mut self, events: u64, bytes: u64)
        ensures
            *final(self) == (AtomicStats {
                events_generated: wrap_add(old(self).events_generated, events),
                batches_published: wrap_add(old(self).batches_published, 1),
                bytes_sent: wrap_add(old(self).bytes_sent, bytes),
            }),
    {
        self.events_generated = self.events_generated.wrapping_add(events);
        self.batches_published = self.batches_published.wrapping_add(1);
        self.bytes_sent = self.bytes_sent.wrapping_add(bytes);
    }

    /// (events, batches, bytes)
    pub fn snapshot(&self) -> (r: (u64, u64, u64))
        ensures
            r == (self.events_generated, self.batches_published, self.bytes_sent),
    {
        (self.events_generated, self.batches_published, self.bytes_sent)
    }
}

impl Default for AtomicStats {
    fn default() -> (r: AtomicStats)
        ensures
            r == (AtomicStats { events_generated: 0, batches_published: 0, bytes_sent: 0 }),
    {
        AtomicStats::new()
    }
}

/// Settings that can be changed while the emulator runs.
#[derive(Debug, Clone, Copy, PartialEq, Eq, Structural)]
pub struct RuntimeSettings {
    pub events_per_batch: usize,
    pub batch_interval_ms: u64,
    pub enable_waveform: bool,
    pub waveform_probes: u8,
    pub waveform_samples: usize,
}

impl RuntimeSettings {
    /// The settings a configuration starts with.
    pub fn new(config: &EmulatorConfig) -> (r: RuntimeSettings)
        ensures
            r.events_per_batch == config.events_per_batch,
            r.batch_interval_ms == config.batch_interval_ms,
            r.enable_waveform == config.enable_waveform,
            r.waveform_probes == config.waveform_probes,
            r.waveform_samples == config.waveform_samples,
    {
        RuntimeSettings {
            events_per_batch: config.events_per_batch,
            batch_interval_ms: config.batch_interval_ms,
            enable_waveform: config.enable_waveform,
            waveform_probes: config.waveform_probes,
            waveform_samples: config.waveform_samples,
        }
    }

    /// Take over every setting of a runtime configuration.
    pub fn update(&mut self, config: &EmulatorRuntimeConfig)
        ensures
            final(self).events_per_batch == config.events_per_batch,
            final(self).batch_interval_ms == config.batch_interval_ms,
            final(self).enable_waveform == config.enable_waveform,
            final(self).waveform_probes == config.waveform_probes,
            final(self).waveform_samples == config.waveform_samples,
    {
        self.events_per_batch = config.events_per_batch as usize;
        self.batch_interval_ms = config.batch_interval_ms;
        self.enable_waveform = config.enable_waveform;
        self.waveform_probes = config.waveform_probes;
        self.waveform_samples = config.waveform_samples as usize;
    }

    pub fn events_per_batch(&self) -> (r: usize)
        ensures
            r == self.events_per_batch,
    {
        self.events_per_batch
    }

    pub fn batch_interval_ms(&self) -> (r: u64)
        ensures
            r == self.batch_interval_ms,
    {
        self.batch_interval_ms
    }

    pub fn enable_waveform(&self) -> (r: bool)
        ensures
            r == self.enable_waveform,
    {
        self.enable_waveform
    }

    pub fn waveform_probes(&self) -> (r: u8)
        ensures
            r == self.waveform_probes,
    {
        self.waveform_probes
    }

    pub fn waveform_samples(&self) -> (r: usize)
        ensures
            r == self.waveform_samples,
    {
        self.waveform_samples
    }
}

/// Whether sample `i` of a packed digital trace is high: bit `i % 8` of
/// byte `i / 8`.
pub open spec fn trace_bit(bits: Seq<u8>, i: int) -> bool {
    (bits[i / 8] >> ((i % 8) as u8)) & 1u8 == 1u8
}

/// Bytes needed for `n` one-bit samples.
pub open spec fn packed_len(n: nat) -> nat {
    if n % 8 == 0 { n / 8 } else { n / 8 + 1 }
}

/// Setting bit `s` of a byte changes that bit only.
proof fn lemma_set_bit(b: u8, s: u8, t: u8)
    requires
        s < 8,
        t < 8,
    ensures
        ((b | (1u8 << s)) >> t) & 1u8 == (if s == t { 1u8 } else { (b >> t) & 1u8 }),
{
    assert(s < 8 && t < 8 ==> ((b | (1u8 << s)) >> t) & 1u8 == (if s == t { 1u8 } else { (b >> t) & 1u8 }))
        by (bit_vector);
}

/// A zero byte has no bit set.
proof fn lemma_zero_byte(t: u8)
    requires
        t < 8,
    ensures
        (0u8 >> t) & 1u8 != 1u8,
{
    assert(t < 8 ==> (0u8 >> t) & 1u8 != 1u8) by (bit_vector);
}

/// A packed digital trace of `n` samples that is high exactly on the
/// samples `start .. min(start + width, n)` (a trigger or gate window).
pub fn gate_bits(n: usize, start: usize, width: usize) -> (r: Vec<u8>)
    requires
        start + width <= usize::MAX,
    ensures
        r@.len() == packed_len(n as nat),
        forall|i: int| 0 <= i < n ==> (#[trigger] trace_bit(r@, i) <==> start <= i < start + width),
        forall|i: int| n <= i < 8 * r@.len() ==> !#[trigger] trace_bit(r@, i),
{
    let len: usize = if n % 8 == 0 { n / 8 } else { n / 8 + 1 };
    let mut bits: Vec<u8> = Vec::new();
    let mut k: usize = 0;
    while k < len
        invariant
            k <= len,
            len == packed_len(n as nat),
            bits@.len() == k,
            forall|j: int| 0 <= j < k ==> bits@[j] == 0u8,
        decreases len - k,
    {
        bits.push(0u8);
        k = k + 1;
    }
    proof {
        assert forall|i: int| 0 <= i < 8 * bits@.len() implies !#[trigger] trace_bit(bits@, i) by {
            lemma_zero_byte((i % 8) as u8);
        }
    }
    let end: usize = if start + width < n { start + width } else { n };
    let mut i: usize = start;
    while i < end
        invariant
            start <= i,
            i <= end || i == start,
            end <= n,
            end == (if start + width < n { start + width } else { n as int }),
            bits@.len() == len,
            len == packed_len(n as nat),
            forall|j: int| 0 <= j < 8 * len ==> (#[trigger] trace_bit(bits@, j) <==> start <= j < i),
        decreases end - i,
    {
        let byte = i / 8;
        let shift = (i % 8) as u8;
        assert(byte < len);
        let old_bits = Ghost(bits@);
        bits.set(byte, bits[byte] | (1u8 << shift));
        proof {
            assert forall|j: int| 0 <= j < 8 * len implies (#[trigger] trace_bit(bits@, j) <==> start <= j < i + 1) by {
                lemma_set_bit(old_bits@[j / 8], shift, (j % 8) as u8);
                assert(trace_bit(old_bits@, j) <==> start <= j < i);
                if j / 8 == byte as int {
                    assert(bits@[j / 8] == old_bits@[j / 8] | (1u8 << shift));
                    assert(((j % 8) as u8 == shift) <==> j == i);
                } else {
                    assert(bits@[j / 8] == old_bits@[j / 8]);
                    assert(j != i);
                }
            }
        }
        i = i + 1;
    }
    proof {
        assert forall|j: int| 0 <= j < n implies (#[trigger] trace_bit(bits@, j) <==> start <= j < start + width) by {
            assert(j < 8 * len);
        }
        assert forall|j: int| n <= j < 8 * bits@.len() implies !#[trigger] trace_bit(bits@, j) by {
            assert(j < 8 * len);
        }
    }
    bits
}

/// `"Events: e, Batches: b, Bytes: y"`.
pub open spec fn emulator_status_text(s: AtomicStats) -> Seq<char> {
    "Events: "@ + decimal(s.events_generated as nat) + ", Batches: "@ + decimal(s.batches_published as nat)
        + ", Bytes: "@ + decimal(s.bytes_sent as nat)
}

/// Command handler extension for the emulator: zeroes its counters on
/// Start, reports them in GetStatus and takes runtime settings.
pub struct EmulatorCommandExt<'a> {
    pub stats: &'a mut AtomicStats,
    pub runtime_settings: &'a mut RuntimeSettings,
}

impl<'a> CommandHandlerExt for EmulatorCommandExt<'a> {
    open spec fn details(&self) -> Option<Seq<char>> {
        Some(emulator_status_text(*self.stats))
    }

    open spec fn update_answer(&self, config: EmulatorRuntimeConfig) -> Result<(), Seq<char>> {
        Ok(())
    }

    /// Start zeroes the counters and keeps the settings.
    open spec fn start_effect(&self, run_number: u32, post: Self) -> bool {
        &&& *post.stats == (AtomicStats { events_generated: 0, batches_published: 0, bytes_sent: 0 })
        &&& *post.runtime_settings == *self.runtime_settings
    }

    /// An update takes every setting of the configuration and keeps the
    /// counters.
    open spec fn update_effect(&self, config: EmulatorRuntimeConfig, post: Self) -> bool {
        &&& post.runtime_settings.events_per_batch == config.events_per_batch
        &&& post.runtime_settings.batch_interval_ms == config.batch_interval_ms
        &&& post.runtime_settings.enable_waveform == config.enable_waveform
        &&& post.runtime_settings.waveform_probes == config.waveform_probes
        &&& post.runtime_settings.waveform_samples == config.waveform_samples
        &&& *post.stats == *self.stats
    }

    fn on_configure(&mut self, config: &RunConfig) -> (r: Result<(), String>) {
        Ok(())
    }

    fn on_arm(&mut self) -> (r: Result<(), String>) {
        Ok(())
    }

    fn on_stop(&mut self) -> (r: Result<(), String>) {
        Ok(())
    }

    fn on_reset(&mut self) -> (r: Result<(), String>) {
        Ok(())
    }

    fn component_name(&self) -> (r: &'static str)
        ensures
            r@ == "Emulator"@,
    {
        "Emulator"
    }

    fn on_start(&mut self, run_number: u32) -> (r: Result<(), String>)
        ensures
            r is Ok,
            *final(self).stats == (AtomicStats { events_generated: 0, batches_published: 0, bytes_sent: 0 }),
            *final(self).runtime_settings == *old(self).runtime_settings,
    {
        self.stats.reset();
        Ok(())
    }

    fn status_details(&self) -> (r: Option<String>)
        ensures
            r is Some,
            r->0@ == emulator_status_text(*old(self.stats)),
    {
        let (events, batches, bytes) = self.stats.snapshot();
        let mut m = String::from_str("Events: ");
        m.append(u64_to_decimal(events).as_str());
        m.append(", Batches: ");
        m.append(u64_to_decimal(batches).as_str());
        m.append(", Bytes: ");
        m.append(u64_to_decimal(bytes).as_str());
        Some(m)
    }

    fn on_update_emulator_config(&mut self, config: &EmulatorRuntimeConfig) -> (r: Result<(), String>)
        ensures
            r is Ok,
            final(self).runtime_settings.events_per_batch == config.events_per_batch,
            final(self).runtime_settings.batch_interval_ms == config.batch_interval_ms,
            final(self).runtime_settings.enable_waveform == config.enable_waveform,
            final(self).runtime_settings.waveform_probes == config.waveform_probes,
            final(self).runtime_settings.waveform_samples == config.waveform_samples,
            *final(self).stats == *old(self).stats,
    {
        self.runtime_settings.update(config);
        Ok(())
    }
}

} // verus!
