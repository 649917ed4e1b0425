//! CISR: channel interrupt/status register bits.

use vstd::prelude::*;

verus! {

/// Transfer error interrupt flag.
pub const TEIF: u32 = 0x1;

/// Channel transfer complete interrupt flag.
pub const CTCIF: u32 = 0x2;

/// Block repeat transfer complete interrupt flag.
pub const BRTIF: u32 = 0x4;

/// Block transfer complete interrupt flag.
pub const BTIF: u32 = 0x8;

/// Buffer transfer complete interrupt flag.
pub const TCIF: u32 = 0x10;

/// Channel request active flag.
pub const CRQA: u32 = 0x1_0000;

} // verus!
