//! CTBR: trigger and bus selection register fields.

use vstd::prelude::*;

verus! {

/// Trigger selection.
pub const TSEL_MASK: u32 = 0x3F;

/// Source bus is the AHB (TCM) bus.
pub const SBUS: u32 = 0x1_0000;

/// Destination bus is the AHB (TCM) bus.
pub const DBUS: u32 = 0x2_0000;

} // verus!
