//! Flag bit definitions for event status

use vstd::prelude::*;

verus! {

/// Pileup detected
pub const FLAG_PILEUP: u64 = 0x01;

/// Trigger lost
pub const FLAG_TRIGGER_LOST: u64 = 0x02;

/// Signal saturation (over range)
pub const FLAG_OVER_RANGE: u64 = 0x04;

/// 1024 trigger count
pub const FLAG_1024_TRIGGER: u64 = 0x08;

/// N lost triggers
pub const FLAG_N_LOST_TRIGGER: u64 = 0x10;

} // verus!
