//! Waveform probe bit masks

use vstd::prelude::*;

verus! {

/// Analog probe 1
pub const ANALOG_PROBE1: u8 = 0b0000_0001;

/// Analog probe 2
pub const ANALOG_PROBE2: u8 = 0b0000_0010;

/// Digital probe 1
pub const DIGITAL_PROBE1: u8 = 0b0000_0100;

/// Digital probe 2
pub const DIGITAL_PROBE2: u8 = 0b0000_1000;

/// Digital probe 3
pub const DIGITAL_PROBE3: u8 = 0b0001_0000;

/// Digital probe 4
pub const DIGITAL_PROBE4: u8 = 0b0010_0000;

/// All analog probes
pub const ALL_ANALOG: u8 = ANALOG_PROBE1 | ANALOG_PROBE2;

/// All digital probes
pub const ALL_DIGITAL: u8 = DIGITAL_PROBE1 | DIGITAL_PROBE2 | DIGITAL_PROBE3 | DIGITAL_PROBE4;

/// All probes
pub const ALL: u8 = ALL_ANALOG | ALL_DIGITAL;

} // verus!
