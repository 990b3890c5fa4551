//! Items shared by the pipeline components: the liveness heartbeat, event
//! flag bits and the probe-type sentinel.

pub mod error;
pub mod flags;

pub use error::PipelineError;

use vstd::prelude::*;

verus! {

/// The current Unix time in nanoseconds.
///
/// Reads `std::time::SystemTime::now()` and its distance from the Unix
/// epoch (zero when the clock is before the epoch), truncated to `u64`.
/// The value depends on the machine's clock, so nothing is claimed of it.
#[verifier::external_body]
fn unix_time_nanos() -> (r: u64) {
    std::time::SystemTime::now().duration_since(std::time::UNIX_EPOCH).unwrap_or_default().as_nanos() as u64
}

/// Heartbeat message for liveness detection
#[derive(Debug, Clone, Copy)]
pub struct Heartbeat {
    /// Source identifier
    pub source_id: u32,
    /// Unix timestamp in nanoseconds
    pub timestamp: u64,
    /// Monotonic counter
    pub counter: u64,
}

impl Heartbeat {
    /// Create a new heartbeat stamped with the current time.
    pub fn new(source_id: u32, counter: u64) -> (r: Heartbeat)
        ensures
            r.source_id == source_id,
            r.counter == counter,
    {
        Heartbeat { source_id, timestamp: unix_time_nanos(), counter }
    }
}

/// Sentinel value for "probe type unknown / not parsed". Firmware that does
/// not carry probe-type info on the wire emits it, so the UI falls back to a
/// generic label rather than claiming a specific probe identity.
pub const UNKNOWN_PROBE_TYPE: u8 = 0xFF;

/// Analog probe types of a waveform that carries none.
pub fn default_unknown_analog_probe_types() -> (r: [u8; 3])
    ensures
        forall|i: int| 0 <= i < 3 ==> r@[i] == UNKNOWN_PROBE_TYPE,
{
    [UNKNOWN_PROBE_TYPE; 3]
}

/// Digital probe types of a waveform that carries none.
pub fn default_unknown_digital_probe_types() -> (r: [u8; 16])
    ensures
        forall|i: int| 0 <= i < 16 ==> r@[i] == UNKNOWN_PROBE_TYPE,
{
    [UNKNOWN_PROBE_TYPE; 16]
}

} // verus!
