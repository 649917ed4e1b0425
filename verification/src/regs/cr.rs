//! CCR: channel control register bits.

use vstd::prelude::*;

verus! {

/// Channel enable.
pub const EN: u32 = 0x1;

/// Transfer error interrupt enable.
pub const TEIE: u32 = 0x2;

/// Channel transfer complete interrupt enable.
pub const CTCIE: u32 = 0x4;

/// Block repeat transfer complete interrupt enable.
pub const BRTIE: u32 = 0x8;

/// Block transfer complete interrupt enable.
pub const BTIE: u32 = 0x10;

/// Buffer transfer complete interrupt enable.
pub const TCIE: u32 = 0x20;

/// Position of the priority level field.
pub const PL_SHIFT: u32 = 6;

/// Priority level field.
pub const PL_MASK: u32 = 0xC0;

/// Byte endianness exchange.
pub const BEX: u32 = 0x1000;

/// Half-word endianness exchange.
pub const HEX: u32 = 0x2000;

/// Word endianness exchange.
pub const WEX: u32 = 0x4000;

/// Software request.
pub const SWRQ: u32 = 0x1_0000;

} // verus!
