//! CBNDTR: block number of data register fields.

use vstd::prelude::*;

verus! {

/// Block number of data bytes to transfer.
pub const BNDT_MASK: u32 = 0x1_FFFF;

/// Block repeat source address update mode (decrement when set).
pub const BRSUM: u32 = 0x4_0000;

/// Block repeat destination address update mode (decrement when set).
pub const BRDUM: u32 = 0x8_0000;

/// Position of the block repeat count.
pub const BRC_SHIFT: u32 = 20;

/// Block repeat count field.
pub const BRC_MASK: u32 = 0xFFF0_0000;

} // verus!
