//! CIFCR: channel interrupt flag clear register bits.

use vstd::prelude::*;

verus! {

/// Clears the transfer error flag.
pub const CTEIF: u32 = 0x1;

/// Clears the channel transfer complete flag.
pub const CCTCIF: u32 = 0x2;

/// Clears the block repeat transfer complete flag.
pub const CBRTIF: u32 = 0x4;

/// Clears the block transfer complete flag.
pub const CBTIF: u32 = 0x8;

/// Clears the buffer transfer complete flag.
pub const CLTCIF: u32 = 0x10;

/// Clears every flag of the channel.
pub const ALL: u32 = 0x1F;

} // verus!
