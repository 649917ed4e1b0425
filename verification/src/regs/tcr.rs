//! CTCR: channel transfer configuration register fields.

use vstd::prelude::*;

verus! {

/// Source increment offset size.
pub const SINCOS_SHIFT: u32 = 0;

/// Source data size.
pub const SSIZE_SHIFT: u32 = 2;

/// Source increment mode.
pub const SINC_SHIFT: u32 = 4;

/// Destination increment offset size.
pub const DINCOS_SHIFT: u32 = 6;

/// Destination data size.
pub const DSIZE_SHIFT: u32 = 8;

/// Destination increment mode.
pub const DINC_SHIFT: u32 = 10;

/// Source burst transfer configuration.
pub const SBURST_SHIFT: u32 = 12;

/// Destination burst transfer configuration.
pub const DBURST_SHIFT: u32 = 15;

/// Buffer transfer length (number of bytes minus one).
pub const TLEN_SHIFT: u32 = 18;

/// Buffer transfer length field.
pub const TLEN_MASK: u32 = 0x01FC_0000;

/// Packing enable.
pub const PKE: u32 = 0x200_0000;

/// Padding/alignment mode.
pub const PAM_SHIFT: u32 = 26;

/// Trigger mode.
pub const TRGM_SHIFT: u32 = 28;

/// Software request only.
pub const SWRM: u32 = 0x4000_0000;

/// Bufferable write mode.
pub const BWM: u32 = 0x8000_0000;

} // verus!
