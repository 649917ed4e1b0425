//! MDMA channel driver: transfer configuration, channel procedures and the
//! arithmetic that splits a transfer into blocks.
//!
//! Each channel procedure is returned as the ordered list of register
//! operations ([`ChannelOp`]) that carry it out on the controller.

use vstd::prelude::*;

use crate::regs;
use crate::regs::ChannelRegister;
use core::marker::PhantomData;

verus! {

// ============================================================================
// Enums and configuration types
// ============================================================================

/// MDMA hardware trigger request lines.
#[derive(Debug, Clone, Copy, PartialEq, Eq, Structural)]
pub enum HardwareTrigger {
    Dma1Tcif0,
    Dma1Tcif1,
    Dma1Tcif2,
    Dma1Tcif3,
    Dma1Tcif4,
    Dma1Tcif5,
    Dma1Tcif6,
    Dma1Tcif7,
    Dma2Tcif0,
    Dma2Tcif1,
    Dma2Tcif2,
    Dma2Tcif3,
    Dma2Tcif4,
    Dma2Tcif5,
    Dma2Tcif6,
    Dma2Tcif7,
    LtdcLineIt,
    JpegIft,
    JpegIfnt,
    JpegOft,
    JpegOfne,
    JpegOec,
    Xspi1Ft,
    Xspi1Tc,
    Dma2dClut,
    Dma2dTc,
    Dma2dTw,
    DsiTe,
    DsiEor,
    Sdmmc1DataEnd,
    Sdmmc1BuffEnd,
    Sdmmc1CmdEnd,
    Octospi2Ft,
    Octospi2Tc,
}

impl HardwareTrigger {
    /// The trigger selection (TSEL) number of the request line.
    pub open spec fn spec_bits(self) -> u32 {
        match self {
            HardwareTrigger::Dma1Tcif0 => 0,
            HardwareTrigger::Dma1Tcif1 => 1,
            HardwareTrigger::Dma1Tcif2 => 2,
            HardwareTrigger::Dma1Tcif3 => 3,
            HardwareTrigger::Dma1Tcif4 => 4,
            HardwareTrigger::Dma1Tcif5 => 5,
            HardwareTrigger::Dma1Tcif6 => 6,
            HardwareTrigger::Dma1Tcif7 => 7,
            HardwareTrigger::Dma2Tcif0 => 8,
            HardwareTrigger::Dma2Tcif1 => 9,
            HardwareTrigger::Dma2Tcif2 => 10,
            HardwareTrigger::Dma2Tcif3 => 11,
            HardwareTrigger::Dma2Tcif4 => 12,
            HardwareTrigger::Dma2Tcif5 => 13,
            HardwareTrigger::Dma2Tcif6 => 14,
            HardwareTrigger::Dma2Tcif7 => 15,
            HardwareTrigger::LtdcLineIt => 16,
            HardwareTrigger::JpegIft => 17,
            HardwareTrigger::JpegIfnt => 18,
            HardwareTrigger::JpegOft => 19,
            HardwareTrigger::JpegOfne => 20,
            HardwareTrigger::JpegOec => 21,
            HardwareTrigger::Xspi1Ft => 22,
            HardwareTrigger::Xspi1Tc => 23,
            HardwareTrigger::Dma2dClut => 24,
            HardwareTrigger::Dma2dTc => 25,
            HardwareTrigger::Dma2dTw => 26,
            HardwareTrigger::DsiTe => 27,
            HardwareTrigger::DsiEor => 28,
            HardwareTrigger::Sdmmc1DataEnd => 29,
            HardwareTrigger::Sdmmc1BuffEnd => 30,
            HardwareTrigger::Sdmmc1CmdEnd => 31,
            HardwareTrigger::Octospi2Ft => 32,
            HardwareTrigger::Octospi2Tc => 33,
        }
    }

    /// The trigger selection (TSEL) number of the request line.
    #[verifier::when_used_as_spec(spec_bits)]
    pub fn bits(self) -> (r: u32)
        ensures
            r == self.spec_bits(),
            r < 34,
    {
        match self {
            HardwareTrigger::Dma1Tcif0 => 0,
            HardwareTrigger::Dma1Tcif1 => 1,
            HardwareTrigger::Dma1Tcif2 => 2,
            HardwareTrigger::Dma1Tcif3 => 3,
            HardwareTrigger::Dma1Tcif4 => 4,
            HardwareTrigger::Dma1Tcif5 => 5,
            HardwareTrigger::Dma1Tcif6 => 6,
            HardwareTrigger::Dma1Tcif7 => 7,
            HardwareTrigger::Dma2Tcif0 => 8,
            HardwareTrigger::Dma2Tcif1 => 9,
            HardwareTrigger::Dma2Tcif2 => 10,
            HardwareTrigger::Dma2Tcif3 => 11,
            HardwareTrigger::Dma2Tcif4 => 12,
            HardwareTrigger::Dma2Tcif5 => 13,
            HardwareTrigger::Dma2Tcif6 => 14,
            HardwareTrigger::Dma2Tcif7 => 15,
            HardwareTrigger::LtdcLineIt => 16,
            HardwareTrigger::JpegIft => 17,
            HardwareTrigger::JpegIfnt => 18,
            HardwareTrigger::JpegOft => 19,
            HardwareTrigger::JpegOfne => 20,
            HardwareTrigger::JpegOec => 21,
            HardwareTrigger::Xspi1Ft => 22,
            HardwareTrigger::Xspi1Tc => 23,
            HardwareTrigger::Dma2dClut => 24,
            HardwareTrigger::Dma2dTc => 25,
            HardwareTrigger::Dma2dTw => 26,
            HardwareTrigger::DsiTe => 27,
            HardwareTrigger::DsiEor => 28,
            HardwareTrigger::Sdmmc1DataEnd => 29,
            HardwareTrigger::Sdmmc1BuffEnd => 30,
            HardwareTrigger::Sdmmc1CmdEnd => 31,
            HardwareTrigger::Octospi2Ft => 32,
            HardwareTrigger::Octospi2Tc => 33,
        }
    }
}

/// What starts each transfer request on a hardware-triggered channel.
#[derive(Debug, Clone, Copy, PartialEq, Eq, Structural)]
pub enum TriggerMode {
    /// Each request transfers one buffer.
    Buffer,
    /// Each request transfers one block.
    Block,
    /// Each request transfers one repeated block.
    RepeatedBlock,
    /// Each request transfers the whole linked list.
    LinkedList,
}

impl TriggerMode {
    /// The TRGM field value of the mode.
    pub open spec fn spec_bits(self) -> u32 {
        match self {
            TriggerMode::Buffer => 0b00,
            TriggerMode::Block => 0b01,
            TriggerMode::RepeatedBlock => 0b10,
            TriggerMode::LinkedList => 0b11,
        }
    }

    /// The TRGM field value of the mode.
    #[verifier::when_used_as_spec(spec_bits)]
    pub fn bits(self) -> (r: u32)
        ensures
            r == self.spec_bits(),
    {
        match self {
            TriggerMode::Buffer => 0b00,
            TriggerMode::Block => 0b01,
            TriggerMode::RepeatedBlock => 0b10,
            TriggerMode::LinkedList => 0b11,
        }
    }
}

impl Default for TriggerMode {
    fn default() -> (r: Self)
        ensures
            r == TriggerMode::Block,
    {
        TriggerMode::Block
    }
}

/// Channel priority level.
#[derive(Debug, Clone, Copy, PartialEq, Eq, Structural)]
pub enum Priority {
    Low,
    Medium,
    High,
    VeryHigh,
}

impl Priority {
    /// The PL field value of the priority.
    pub open spec fn spec_bits(self) -> u32 {
        match self {
            Priority::Low => 0b00,
            Priority::Medium => 0b01,
            Priority::High => 0b10,
            Priority::VeryHigh => 0b11,
        }
    }

    /// The PL field value of the priority.
    #[verifier::when_used_as_spec(spec_bits)]
    pub fn bits(self) -> (r: u32)
        ensures
            r == self.spec_bits(),
    {
        match self {
            Priority::Low => 0b00,
            Priority::Medium => 0b01,
            Priority::High => 0b10,
            Priority::VeryHigh => 0b11,
        }
    }
}

impl Default for Priority {
    fn default() -> (r: Self)
        ensures
            r == Priority::VeryHigh,
    {
        Priority::VeryHigh
    }
}

/// Size of one data item on the source or destination side.
#[derive(Debug, Clone, Copy, PartialEq, Eq, Structural)]
pub enum DataSize {
    Byte,
    HalfWord,
    Word,
    DoubleWord,
}

/// Whether `n` bytes is the size of a data item: 1, 2, 4 or 8.
pub open spec fn is_data_size_bytes(n: int) -> bool {
    n == 1 || n == 2 || n == 4 || n == 8
}

impl DataSize {
    /// The SSIZE/DSIZE field value of the size.
    pub open spec fn spec_bits(self) -> u32 {
        match self {
            DataSize::Byte => 0b00,
            DataSize::HalfWord => 0b01,
            DataSize::Word => 0b10,
            DataSize::DoubleWord => 0b11,
        }
    }

    /// The SSIZE/DSIZE field value of the size.
    #[verifier::when_used_as_spec(spec_bits)]
    pub fn bits(self) -> (r: u32)
        ensures
            r == self.spec_bits(),
    {
        match self {
            DataSize::Byte => 0b00,
            DataSize::HalfWord => 0b01,
            DataSize::Word => 0b10,
            DataSize::DoubleWord => 0b11,
        }
    }

    /// Number of bytes in one data item.
    pub open spec fn spec_bytes(self) -> usize {
        match self {
            DataSize::Byte => 1,
            DataSize::HalfWord => 2,
            DataSize::Word => 4,
            DataSize::DoubleWord => 8,
        }
    }

    /// Number of bytes in one data item.
    #[verifier::when_used_as_spec(spec_bytes)]
    pub fn bytes(self) -> (r: usize)
        ensures
            r == self.spec_bytes(),
            is_data_size_bytes(r as int),
    {
        match self {
            DataSize::Byte => 1,
            DataSize::HalfWord => 2,
            DataSize::Word => 4,
            DataSize::DoubleWord => 8,
        }
    }

    /// The data size whose items are `n` bytes long.
    pub open spec fn spec_from_bytes(n: usize) -> DataSize {
        if n == 1 {
            DataSize::Byte
        } else if n == 2 {
            DataSize::HalfWord
        } else if n == 4 {
            DataSize::Word
        } else {
            DataSize::DoubleWord
        }
    }

    /// The data size whose items are `n` bytes long; `n` must be 1, 2, 4 or 8.
    #[verifier::when_used_as_spec(spec_from_bytes)]
    pub fn from_bytes(n: usize) -> (r: Self)
        requires
            is_data_size_bytes(n as int),
        ensures
            r == Self::spec_from_bytes(n),
            r.spec_bytes() == n,
    {
        match n {
            1 => DataSize::Byte,
            2 => DataSize::HalfWord,
            4 => DataSize::Word,
            _ => DataSize::DoubleWord,
        }
    }
}

/// Converting a data size to its byte count and back gives the same size,
/// and converting a valid byte count to a size and back gives the same count.
pub proof fn lemma_data_size_round_trip(size: DataSize, n: usize)
    ensures
        DataSize::spec_from_bytes(size.spec_bytes()) == size,
        is_data_size_bytes(n as int) ==> DataSize::spec_from_bytes(n).spec_bytes() == n,
{
}

/// How an address moves after each data item.
#[derive(Debug, Clone, Copy, PartialEq, Eq, Structural)]
pub enum IncrementMode {
    /// The address stays.
    Fixed,
    /// The address grows by the item size.
    Increment,
    /// The address shrinks by the item size.
    Decrement,
}

impl IncrementMode {
    /// The SINC/DINC field value of the mode.
    pub open spec fn spec_bits(self) -> u32 {
        match self {
            IncrementMode::Fixed => 0b00,
            IncrementMode::Increment => 0b10,
            IncrementMode::Decrement => 0b11,
        }
    }

    /// The SINC/DINC field value of the mode.
    #[verifier::when_used_as_spec(spec_bits)]
    pub fn bits(self) -> (r: u32)
        ensures
            r == self.spec_bits(),
    {
        match self {
            IncrementMode::Fixed => 0b00,
            IncrementMode::Increment => 0b10,
            IncrementMode::Decrement => 0b11,
        }
    }
}

impl Default for IncrementMode {
    fn default() -> (r: Self)
        ensures
            r == IncrementMode::Increment,
    {
        IncrementMode::Increment
    }
}

/// How items of different source and destination sizes are packed.
#[derive(Debug, Clone, Copy, PartialEq, Eq, Structural)]
pub enum PackingAlignment {
    /// Pack or unpack items to the destination size.
    Pack,
    /// Right-align, pad with zeros.
    RightAlignZeroPad,
    /// Right-align, extend the sign.
    RightAlignSignExtend,
    /// Left-align, pad with zeros.
    LeftAlignZeroPad,
}

impl PackingAlignment {
    /// The packing enable (PKE) bit and padding/alignment (PAM) field of the mode.
    pub open spec fn spec_pke_pam(self) -> (bool, u32) {
        match self {
            PackingAlignment::Pack => (true, 0b00),
            PackingAlignment::RightAlignZeroPad => (false, 0b00),
            PackingAlignment::RightAlignSignExtend => (false, 0b10),
            PackingAlignment::LeftAlignZeroPad => (false, 0b01),
        }
    }

    /// The packing enable (PKE) bit and padding/alignment (PAM) field of the mode.
    #[verifier::when_used_as_spec(spec_pke_pam)]
    pub fn pke_pam(self) -> (r: (bool, u32))
        ensures
            r == self.spec_pke_pam(),
    {
        match self {
            PackingAlignment::Pack => (true, 0b00),
            PackingAlignment::RightAlignZeroPad => (false, 0b00),
            PackingAlignment::RightAlignSignExtend => (false, 0b10),
            PackingAlignment::LeftAlignZeroPad => (false, 0b01),
        }
    }
}

impl Default for PackingAlignment {
    fn default() -> (r: Self)
        ensures
            r == PackingAlignment::Pack,
    {
        PackingAlignment::Pack
    }
}

/// Options of one transfer.
#[derive(Debug, Clone, Copy)]
pub struct MdmaTransferOptions {
    pub priority: Priority,
    pub trigger: Option<HardwareTrigger>,
    pub trigger_mode: TriggerMode,
    pub buffer_length: u8,
    pub source_increment: IncrementMode,
    pub destination_increment: IncrementMode,
    pub packing: PackingAlignment,
    pub byte_swap: bool,
    pub half_word_swap: bool,
    pub word_swap: bool,
}

/// The default transfer options: very high priority, software triggered,
/// block trigger mode, 128-byte buffers, both addresses incrementing, packed,
/// no byte, half-word or word swap.
pub open spec fn default_transfer_options() -> MdmaTransferOptions {
    MdmaTransferOptions {
        priority: Priority::VeryHigh,
        trigger: None,
        trigger_mode: TriggerMode::Block,
        buffer_length: 128,
        source_increment: IncrementMode::Increment,
        destination_increment: IncrementMode::Increment,
        packing: PackingAlignment::Pack,
        byte_swap: false,
        half_word_swap: false,
        word_swap: false,
    }
}

impl Default for MdmaTransferOptions {
    fn default() -> (r: Self)
        ensures
            r == default_transfer_options(),
    {
        Self {
            priority: Priority::VeryHigh,
            trigger: None,
            trigger_mode: TriggerMode::Block,
            buffer_length: 128,
            source_increment: IncrementMode::Increment,
            destination_increment: IncrementMode::Increment,
            packing: PackingAlignment::Pack,
            byte_swap: false,
            half_word_swap: false,
            word_swap: false,
        }
    }
}

// ============================================================================
// Low-level helpers
// ============================================================================

/// Whether `address` lies in a tightly coupled memory (ITCM below
/// `0x0004_0000`, or DTCM in `0x2000_0000 .. 0x2002_0000`), which the MDMA
/// reaches over its AHB bus.
pub open spec fn spec_is_tcm_address(address: u32) -> bool {
    address < 0x0004_0000 || (0x2000_0000 <= address && address < 0x2002_0000)
}

/// Whether `address` lies in a tightly coupled memory.
#[verifier::when_used_as_spec(spec_is_tcm_address)]
pub fn is_tcm_address(address: u32) -> (r: bool)
    ensures
        r == spec_is_tcm_address(address),
{
    address < 0x0004_0000 || (0x2000_0000..0x2002_0000).contains(&address)
}

/// Number of MDMA channels.
pub const MDMA_CHANNEL_COUNT: usize = 16;

/// How a transfer failed.
#[derive(Debug, Clone, Copy, PartialEq, Eq, Structural)]
pub enum MdmaError {
    TransferError,
    BlockRepeatError,
}


// ============================================================================
// Arithmetic
// ============================================================================

/// Greatest common divisor, by Euclid's algorithm.
pub open spec fn spec_gcd(a: nat, b: nat) -> nat
    decreases b,
{
    if b == 0 {
        a
    } else {
        spec_gcd(b, a % b)
    }
}

/// The least common multiple computed as `a / gcd(a, b) * b`.
pub open spec fn spec_lcm(a: nat, b: nat) -> nat {
    a / spec_gcd(a, b) * b
}

/// Greatest common divisor of `a` and `b`.
pub fn gcd(a: usize, b: usize) -> (r: usize)
    ensures
        r == spec_gcd(a as nat, b as nat),
    decreases b,
{
    if b == 0 {
        a
    } else {
        gcd(b, a % b)
    }
}

/// Least common multiple of `a` and `b`, computed as `a / gcd(a, b) * b`.
pub fn lcm(a: usize, b: usize) -> (r: usize)
    requires
        a > 0 || b > 0,
        spec_lcm(a as nat, b as nat) <= usize::MAX,
    ensures
        r == spec_lcm(a as nat, b as nat),
{
    proof {
        lemma_gcd_divides(a as nat, b as nat);
    }
    (a / gcd(a, b)) * b
}

/// `spec_gcd(a, b)` is a common divisor of `a` and `b`, and is positive
/// unless both are zero.
pub proof fn lemma_gcd_divides(a: nat, b: nat)
    ensures
        (a > 0 || b > 0) ==> spec_gcd(a, b) > 0,
        spec_gcd(a, b) > 0 ==> a % spec_gcd(a, b) == 0 && b % spec_gcd(a, b) == 0,
    decreases b,
{
    if b == 0 {
        if a > 0 {
            vstd::arithmetic::div_mod::lemma_mod_self_0(a as int);
        }
    } else {
        let r = a % b;
        lemma_gcd_divides(b, r);
        let g = spec_gcd(a, b);
        assert(g == spec_gcd(b, r));
        if g > 0 {
            vstd::arithmetic::div_mod::lemma_fundamental_div_mod(a as int, b as int);
            vstd::arithmetic::div_mod::lemma_fundamental_div_mod(b as int, g as int);
            vstd::arithmetic::div_mod::lemma_fundamental_div_mod(r as int, g as int);
            let q = a / b;
            let kb = b / g;
            let kr = r / g;
            assert(a == g * (kb * q + kr)) by (nonlinear_arith)
                requires
                    a == b * q + r,
                    b == g * kb + 0,
                    r == g * kr + 0,
            ;
            vstd::arithmetic::div_mod::lemma_mod_multiples_basic((kb * q + kr) as int, g as int);
            assert(a % g == 0) by {
                assert((kb * q + kr) * g == g * (kb * q + kr)) by (nonlinear_arith);
            }
        }
    }
}

/// Every common divisor of `a` and `b` divides `spec_gcd(a, b)`.
pub proof fn lemma_gcd_greatest(a: nat, b: nat, d: nat)
    requires
        d > 0,
        a % d == 0,
        b % d == 0,
    ensures
        spec_gcd(a, b) % d == 0,
    decreases b,
{
    if b > 0 {
        let r = a % b;
        vstd::arithmetic::div_mod::lemma_fundamental_div_mod(a as int, b as int);
        vstd::arithmetic::div_mod::lemma_fundamental_div_mod(a as int, d as int);
        vstd::arithmetic::div_mod::lemma_fundamental_div_mod(b as int, d as int);
        let q = a / b;
        let ka = a / d;
        let kb = b / d;
        assert(r == d * (ka - kb * q)) by (nonlinear_arith)
            requires
                a == b * q + r,
                a == d * ka + 0,
                b == d * kb + 0,
        ;
        assert(ka - kb * q >= 0) by (nonlinear_arith)
            requires
                r == d * (ka - kb * q),
                r >= 0,
                d > 0,
        ;
        vstd::arithmetic::div_mod::lemma_mod_multiples_basic(ka - kb * q, d as int);
        assert((r as int) % (d as int) == 0) by {
            assert((ka - kb * q) * d == d * (ka - kb * q)) by (nonlinear_arith);
        }
        lemma_gcd_greatest(b, r, d);
    }
}

/// The least common multiple `spec_lcm(a, b)` is a multiple of both `a`
/// and `b`.
pub proof fn lemma_lcm_is_common_multiple(a: nat, b: nat)
    requires
        a > 0 || b > 0,
    ensures
        spec_lcm(a, b) % a == 0 || a == 0,
        spec_lcm(a, b) % b == 0 || b == 0,
{
    lemma_gcd_divides(a, b);
    let g = spec_gcd(a, b);
    vstd::arithmetic::div_mod::lemma_fundamental_div_mod(a as int, g as int);
    let k = a / g;
    // lcm = k * b, with a == g * k
    if b > 0 {
        vstd::arithmetic::div_mod::lemma_mod_multiples_basic(k as int, b as int);
        assert(((k * b) as int) % (b as int) == 0) by {
            assert(k * b == b * k) by (nonlinear_arith);
        }
    }
    if a > 0 {
        vstd::arithmetic::div_mod::lemma_fundamental_div_mod(b as int, g as int);
        let m = b / g;
        assert(k * b == a * m) by (nonlinear_arith)
            requires
                a == g * k + 0,
                b == g * m + 0,
        ;
        vstd::arithmetic::div_mod::lemma_mod_multiples_basic(m as int, a as int);
        assert(((a * m) as int) % (a as int) == 0) by {
            assert(a * m == m * a) by (nonlinear_arith);
        }
    }
}

/// Scaling both arguments scales the greatest common divisor.
proof fn lemma_gcd_scale(k: nat, a: nat, b: nat)
    ensures
        spec_gcd(k * a, k * b) == k * spec_gcd(a, b),
    decreases b,
{
    if b == 0 {
        assert(k * b == 0) by (nonlinear_arith)
            requires
                b == 0,
        ;
    } else if k == 0 {
        assert(k * a == 0 && k * b == 0 && k * spec_gcd(a, b) == 0) by (nonlinear_arith)
            requires
                k == 0,
        ;
        assert(spec_gcd(0, 0) == 0);
    } else {
        let r = a % b;
        let q = a / b;
        vstd::arithmetic::div_mod::lemma_fundamental_div_mod(a as int, b as int);
        assert(k * a == q * (k * b) + k * r && 0 <= k * r < k * b) by (nonlinear_arith)
            requires
                a == b * q + r,
                0 <= r < b,
                k > 0,
        ;
        vstd::arithmetic::div_mod::lemma_fundamental_div_mod_converse(
            (k * a) as int,
            (k * b) as int,
            q as int,
            (k * r) as int,
        );
        assert(k * b > 0) by (nonlinear_arith)
            requires
                k > 0,
                b > 0,
        ;
        assert(spec_gcd(k * a, k * b) == spec_gcd(k * b, k * r));
        lemma_gcd_scale(k, b, r);
    }
}

/// The least common multiple divides every common multiple of `a` and `b`.
pub proof fn lemma_lcm_divides_common_multiple(a: nat, b: nat, m: nat)
    requires
        a > 0,
        b > 0,
        m % a == 0,
        m % b == 0,
    ensures
        spec_lcm(a, b) > 0,
        m % spec_lcm(a, b) == 0,
{
    lemma_gcd_divides(a, b);
    let g = spec_gcd(a, b);
    vstd::arithmetic::div_mod::lemma_fundamental_div_mod(a as int, g as int);
    vstd::arithmetic::div_mod::lemma_fundamental_div_mod(m as int, a as int);
    vstd::arithmetic::div_mod::lemma_fundamental_div_mod(m as int, b as int);
    let a1 = a / g;
    let s = m / a;
    let t = m / b;
    let l = spec_lcm(a, b);
    assert(l == a1 * b);
    assert(a1 > 0) by (nonlinear_arith)
        requires
            a == g * a1 + 0,
            a > 0,
            g > 0,
    ;
    assert(l > 0) by (nonlinear_arith)
        requires
            l == a1 * b,
            a1 > 0,
            b > 0,
    ;
    // gcd(m * a, m * b) == m * g, and a * b divides both m * a and m * b.
    lemma_gcd_scale(m, a, b);
    let ab = a * b;
    assert(ab > 0) by (nonlinear_arith)
        requires
            ab == a * b,
            a > 0,
            b > 0,
    ;
    assert(m * a == t * ab && m * b == s * ab) by (nonlinear_arith)
        requires
            m == b * t + 0,
            m == a * s + 0,
            ab == a * b,
    ;
    vstd::arithmetic::div_mod::lemma_mod_multiples_basic(t as int, ab as int);
    vstd::arithmetic::div_mod::lemma_mod_multiples_basic(s as int, ab as int);
    lemma_gcd_greatest(m * a, m * b, ab);
    // So m * g == a * b * u == a1 * g * b * u, and m == a1 * b * u.
    vstd::arithmetic::div_mod::lemma_fundamental_div_mod((m * g) as int, ab as int);
    let u = (m * g) / ab;
    assert(m == l * u) by (nonlinear_arith)
        requires
            m * g == ab * u + 0,
            ab == a * b,
            a == g * a1,
            l == a1 * b,
            g > 0,
    ;
    vstd::arithmetic::div_mod::lemma_mod_multiples_basic(u as int, l as int);
    assert(m % l == 0) by {
        assert(u * l == l * u) by (nonlinear_arith);
    }
}

/// For two data sizes the least common multiple is the larger size.
pub proof fn lemma_data_size_lcm(s: DataSize, d: DataSize)
    ensures
        spec_lcm(s.spec_bytes() as nat, d.spec_bytes() as nat) == if s.spec_bytes() >= d.spec_bytes() {
            s.spec_bytes() as nat
        } else {
            d.spec_bytes() as nat
        },
{
    assert(spec_gcd(1, 0) == 1);
    assert(spec_gcd(1, 1) == 1);
    assert(spec_gcd(2, 1) == 1);
    assert(spec_gcd(1, 2) == 1);
    assert(spec_gcd(4, 1) == 1);
    assert(spec_gcd(1, 4) == 1);
    assert(spec_gcd(8, 1) == 1);
    assert(spec_gcd(1, 8) == 1);
    assert(spec_gcd(2, 0) == 2);
    assert(spec_gcd(2, 2) == 2);
    assert(spec_gcd(4, 2) == 2);
    assert(spec_gcd(2, 4) == 2);
    assert(spec_gcd(8, 2) == 2);
    assert(spec_gcd(2, 8) == 2);
    assert(spec_gcd(4, 0) == 4);
    assert(spec_gcd(4, 4) == 4);
    assert(spec_gcd(8, 4) == 4);
    assert(spec_gcd(4, 8) == 4);
    assert(spec_gcd(8, 0) == 8);
    assert(spec_gcd(8, 8) == 8);
    assert(spec_lcm(1, 1) == 1);
    assert(spec_lcm(1, 2) == 2);
    assert(spec_lcm(1, 4) == 4);
    assert(spec_lcm(1, 8) == 8);
    assert(spec_lcm(2, 1) == 2);
    assert(spec_lcm(2, 2) == 2);
    assert(spec_lcm(2, 4) == 4);
    assert(spec_lcm(2, 8) == 8);
    assert(spec_lcm(4, 1) == 4);
    assert(spec_lcm(4, 2) == 4);
    assert(spec_lcm(4, 4) == 4);
    assert(spec_lcm(4, 8) == 8);
    assert(spec_lcm(8, 1) == 8);
    assert(spec_lcm(8, 2) == 8);
    assert(spec_lcm(8, 4) == 8);
    assert(spec_lcm(8, 8) == 8);
}

/// `n / d` rounded up.
pub open spec fn ceil_div(n: int, d: int) -> int {
    n / d + if n % d == 0 {
        0int
    } else {
        1int
    }
}

/// The number of blocks that `factorize_transfer` tries first: the fewest
/// blocks of at most `max_block` bytes that can hold `total_bytes`.
pub open spec fn first_block_count(total_bytes: usize, max_block: usize) -> int {
    ceil_div(total_bytes as int, max_block as int)
}

/// Whether `factorize_transfer` finds a split of `total_bytes`: the transfer
/// fits in one block, or some divisor of `total_bytes` at least
/// `first_block_count` is that count itself or at most `max_blocks`.
pub open spec fn factorizable(total_bytes: usize, max_block: usize, max_blocks: usize) -> bool {
    total_bytes <= max_block || exists|c: int|
        #![trigger (total_bytes as int) % c]
        first_block_count(total_bytes, max_block) <= c && (c == first_block_count(
            total_bytes,
            max_block,
        ) || c <= max_blocks) && (total_bytes as int) % c == 0
}

/// What `factorize_transfer` returns when it succeeds: the transfer in one
/// block, or `total_bytes / c` bytes in each of `c` blocks, where `c` is the
/// first divisor of `total_bytes` at least `first_block_count`.
pub open spec fn is_transfer_split(
    total_bytes: usize,
    max_block: usize,
    block_size: usize,
    block_count: usize,
) -> bool {
    if total_bytes <= max_block {
        block_size == total_bytes && block_count == 1
    } else {
        &&& first_block_count(total_bytes, max_block) <= block_count
        &&& (total_bytes as int) % (block_count as int) == 0
        &&& block_size == total_bytes / block_count
        &&& forall|c: int|
            #![trigger (total_bytes as int) % c]
            first_block_count(total_bytes, max_block) <= c < block_count ==> (total_bytes as int) % c != 0
    }
}

/// The split that `factorize_transfer` returns, where there is one.
pub open spec fn transfer_split(total_bytes: usize, max_block: usize) -> (usize, usize) {
    choose|p: (usize, usize)| is_transfer_split(total_bytes, max_block, p.0, p.1)
}

/// There is at most one split that meets `is_transfer_split`, so it is
/// `transfer_split`.
pub proof fn lemma_transfer_split_unique(
    total_bytes: usize,
    max_block: usize,
    block_size: usize,
    block_count: usize,
)
    requires
        is_transfer_split(total_bytes, max_block, block_size, block_count),
    ensures
        transfer_split(total_bytes, max_block) == (block_size, block_count),
{
    let w = (block_size, block_count);
    assert(is_transfer_split(total_bytes, max_block, w.0, w.1));
    let p = transfer_split(total_bytes, max_block);
    assert(is_transfer_split(total_bytes, max_block, p.0, p.1));
    if total_bytes > max_block {
        if p.1 < block_count {
            assert((total_bytes as int) % (p.1 as int) != 0);
        } else if p.1 > block_count {
            assert((total_bytes as int) % (block_count as int) != 0);
        }
    }
}

/// Split a transfer of `total_bytes` into `block_count` blocks of
/// `block_size` bytes each, with blocks of at most `max_block` bytes, trying
/// block counts from the fewest upwards; `None` where the count would have
/// to pass `max_blocks`.
pub fn try_factorize_transfer(total_bytes: usize, max_block: usize, max_blocks: usize) -> (r: Option<
    (usize, usize),
>)
    requires
        total_bytes <= max_block || max_block > 0,
    ensures
        r.is_some() == factorizable(total_bytes, max_block, max_blocks),
        r matches Some((block_size, block_count)) ==> is_transfer_split(
            total_bytes,
            max_block,
            block_size,
            block_count,
        ),
{
    if total_bytes <= max_block {
        return Some((total_bytes, 1));
    }
    let whole_blocks = total_bytes / max_block;
    proof {
        if total_bytes % max_block != 0 {
            assert(whole_blocks < total_bytes) by (nonlinear_arith)
                requires
                    whole_blocks == total_bytes / max_block,
                    total_bytes > max_block,
                    max_block > 1,
            ;
        }
    }
    let mut block_count = whole_blocks + if total_bytes % max_block == 0 {
        0
    } else {
        1
    };
    let ghost bc0 = block_count as int;
    proof {
        assert(bc0 == first_block_count(total_bytes, max_block));
        assert(1 <= total_bytes / max_block) by (nonlinear_arith)
            requires
                total_bytes > max_block,
                max_block > 0,
        ;
        if max_block == 1 {
            assert(total_bytes % 1 == 0);
            assert(total_bytes / 1 == total_bytes);
        } else {
            assert(total_bytes / max_block < total_bytes) by (nonlinear_arith)
                requires
                    total_bytes > max_block,
                    max_block > 1,
            ;
        }
    }
    loop
        invariant
            max_block > 0,
            total_bytes > max_block,
            bc0 == first_block_count(total_bytes, max_block),
            1 <= bc0 <= block_count <= total_bytes,
            block_count == bc0 || block_count <= max_blocks,
            forall|c: int| #![trigger (total_bytes as int) % c] bc0 <= c < block_count ==> (total_bytes as int) % c != 0,
        decreases total_bytes - block_count,
    {
        if total_bytes % block_count == 0 {
            proof {
                assert((total_bytes as int) % (block_count as int) == 0);
            }
            return Some((total_bytes / block_count, block_count));
        }
        proof {
            // A transfer divides itself into blocks of one byte.
            if block_count == total_bytes {
                vstd::arithmetic::div_mod::lemma_mod_self_0(total_bytes as int);
            }
        }
        block_count += 1;
        if block_count > max_blocks {
            proof {
                assert forall|c: int|
                    #![trigger (total_bytes as int) % c]
                    bc0 <= c && (c == bc0 || c <= max_blocks) && (total_bytes as int) % c == 0 implies false by {}
            }
            return None;
        }
    }
}

/// Split a transfer of `total_bytes` into `(block_size, block_count)`: blocks
/// of at most `max_block` bytes, tried from the fewest blocks upwards. The
/// split must exist within `max_blocks` blocks.
pub fn factorize_transfer(total_bytes: usize, max_block: usize, max_blocks: usize) -> (r: (
    usize,
    usize,
))
    requires
        total_bytes <= max_block || max_block > 0,
        factorizable(total_bytes, max_block, max_blocks),
    ensures
        is_transfer_split(total_bytes, max_block, r.0, r.1),
        r == transfer_split(total_bytes, max_block),
{
    match try_factorize_transfer(total_bytes, max_block, max_blocks) {
        Some(split) => {
            proof {
                lemma_transfer_split_unique(total_bytes, max_block, split.0, split.1);
            }
            split
        },
        None => {
            assert(false);
            (0, 0)
        },
    }
}

/// A split that `factorize_transfer` returns moves exactly `total_bytes`
/// bytes, in blocks of at most `max_block` bytes.
pub proof fn lemma_transfer_split_covers_total(
    total_bytes: usize,
    max_block: usize,
    block_size: usize,
    block_count: usize,
)
    requires
        total_bytes <= max_block || max_block > 0,
        is_transfer_split(total_bytes, max_block, block_size, block_count),
    ensures
        block_size * block_count == total_bytes,
        block_size <= max_block,
        block_count >= 1,
{
    if total_bytes > max_block {
        let n = total_bytes as int;
        let m = max_block as int;
        let c = block_count as int;
        assert(1 <= n / m) by (nonlinear_arith)
            requires
                n > m,
                m > 0,
        ;
        vstd::arithmetic::div_mod::lemma_fundamental_div_mod(n, c);
        vstd::arithmetic::div_mod::lemma_fundamental_div_mod(n, m);
        // c >= ceil(n / m) gives c * m >= n.
        assert(c * m >= n) by (nonlinear_arith)
            requires
                c >= n / m + if n % m == 0 { 0int } else { 1int },
                n == m * (n / m) + n % m,
                0 <= n % m < m,
                m > 0,
        ;
        assert(n / c <= m) by (nonlinear_arith)
            requires
                c * m >= n,
                c > 0,
                n == c * (n / c) + 0,
        ;
        assert(block_size * block_count == total_bytes) by (nonlinear_arith)
            requires
                n == c * (n / c) + 0,
                block_size == n / c,
                c == block_count,
                n == total_bytes,
        ;
    }
}

/// A requested buffer length limited to the range `1 ..= 128` that the
/// hardware accepts.
pub open spec fn clamp_buffer_length(len: u8) -> u8 {
    if len > 128 {
        128
    } else if len == 0 {
        1
    } else {
        len
    }
}

/// The buffer length that a transfer uses: the largest multiple of the least
/// common multiple of both item sizes that fits in the clamped requested
/// length, or that multiple itself when none fits.
pub open spec fn spec_effective_buffer_length(buffer_length: u8, src: DataSize, dst: DataSize) -> u8 {
    let unit = spec_lcm(src.spec_bytes() as nat, dst.spec_bytes() as nat);
    let b = clamp_buffer_length(buffer_length) as nat / unit * unit;
    if b == 0 {
        unit as u8
    } else {
        b as u8
    }
}

/// The buffer length (bytes per buffer transfer) used for a transfer from
/// items of `src_data_size` to items of `dst_data_size`: a whole number of
/// items on both sides, between 1 and 128 bytes.
pub fn effective_buffer_length(buffer_length: u8, src_data_size: DataSize, dst_data_size: DataSize) -> (r: u8)
    ensures
        r == spec_effective_buffer_length(buffer_length, src_data_size, dst_data_size),
        1 <= r <= 128,
        r as int % src_data_size.spec_bytes() as int == 0,
        r as int % dst_data_size.spec_bytes() as int == 0,
        r <= clamp_buffer_length(buffer_length) || r == spec_lcm(src_data_size.spec_bytes() as nat, dst_data_size.spec_bytes() as nat),
{
    let buf_len = buffer_length.min(128).max(1);
    let s = src_data_size.bytes();
    let d = dst_data_size.bytes();
    proof {
        lemma_data_size_lcm(src_data_size, dst_data_size);
    }
    let lcm = lcm(s, d);
    let mut b = buf_len as usize;
    proof {
        assert((b / lcm) * lcm <= b) by (nonlinear_arith)
            requires
                lcm >= 1,
        ;
    }
    b = (b / lcm) * lcm;
    if b == 0 {
        b = lcm;
    }
    proof {
        assert(buf_len == clamp_buffer_length(buffer_length));
        assert(b <= 128) by (nonlinear_arith)
            requires
                b == (buf_len as int / lcm as int) * lcm || b == lcm,
                1 <= lcm <= 8,
                buf_len <= 128,
        ;
        assert(b <= buf_len || b == lcm) by (nonlinear_arith)
            requires
                b == (buf_len as int / lcm as int) * lcm || b == lcm,
                lcm >= 1,
        ;
        assert(b % lcm == 0) by (nonlinear_arith)
            requires
                b == (buf_len as int / lcm as int) * lcm || b == lcm,
                lcm >= 1,
        ;
        assert(b % s == 0 && b % d == 0) by {
            if lcm == 8 {
                assert(b % 8 == 0);
            } else if lcm == 4 {
                assert(b % 4 == 0);
            } else if lcm == 2 {
                assert(b % 2 == 0);
            }
        }
    }
    b.min(128) as u8
}

// ============================================================================
// Channel operations
// ============================================================================

/// One step of a channel procedure, performed on the channel's registers or
/// on the channel's completion state.
#[derive(Debug, Clone, Copy, PartialEq, Eq, Structural)]
pub enum ChannelOp {
    /// Set the channel's completion count and error flag to zero.
    ResetStatus,
    /// A full memory fence.
    Fence,
    /// Write `value` to `reg`.
    Write { reg: ChannelRegister, value: u32 },
    /// Read `reg`, clear the bits of `mask`, write the result back.
    ClearBits { reg: ChannelRegister, mask: u32 },
    /// Read `reg`, set the bits of `mask`, write the result back.
    SetBits { reg: ChannelRegister, mask: u32 },
    /// Read `reg` until none of the bits of `mask` is set.
    WaitUntilClear { reg: ChannelRegister, mask: u32 },
    /// Record that the channel's transfer failed.
    RecordError,
    /// Count one completed channel transfer.
    RecordCompletion,
    /// Wake the task that waits on the channel.
    Wake,
}

impl ChannelOp {
    /// The value that the operation leaves in its register, given the value
    /// `current` read from it: the written value, or `current` with the
    /// mask's bits cleared or set; `current` for the other operations.
    pub open spec fn spec_new_value(self, current: u32) -> u32 {
        match self {
            ChannelOp::Write { value, .. } => value,
            ChannelOp::ClearBits { mask, .. } => current & !mask,
            ChannelOp::SetBits { mask, .. } => current | mask,
            _ => current,
        }
    }

    /// The value that the operation leaves in its register, given the value
    /// `current` read from it.
    pub fn new_value(self, current: u32) -> (r: u32)
        ensures
            r == self.spec_new_value(current),
    {
        match self {
            ChannelOp::Write { value, .. } => value,
            ChannelOp::ClearBits { mask, .. } => current & !mask,
            ChannelOp::SetBits { mask, .. } => current | mask,
            _ => current,
        }
    }

    /// Whether a wait operation is over, given the value `current` read
    /// from its register: none of the mask's bits is set. Other operations
    /// do not wait.
    pub fn wait_finished(self, current: u32) -> (r: bool)
        ensures
            r == match self {
                ChannelOp::WaitUntilClear { mask, .. } => current & mask == 0,
                _ => true,
            },
    {
        match self {
            ChannelOp::WaitUntilClear { mask, .. } => current & mask == 0,
            _ => true,
        }
    }
}

/// The operations that stop a channel: clear EN, wait until the hardware
/// reports the channel disabled, then clear every interrupt flag.
pub open spec fn abort_ops() -> Seq<ChannelOp> {
    seq![
        ChannelOp::ClearBits { reg: ChannelRegister::Cr, mask: regs::cr::EN },
        ChannelOp::WaitUntilClear { reg: ChannelRegister::Cr, mask: regs::cr::EN },
        ChannelOp::Write { reg: ChannelRegister::Ifcr, value: regs::ifcr::ALL },
    ]
}

/// Whether a transfer of `total_bytes` is one that a channel accepts: not
/// empty, at most 4096 blocks of 64 KiB, and splittable into blocks of at
/// most 64 KiB within 4096 blocks.
pub open spec fn spec_transfer_size_supported(total_bytes: usize) -> bool {
    &&& total_bytes > 0
    &&& total_bytes <= 0x10000 * 0x1000
    &&& factorizable(total_bytes, 0x10000, 0x1000)
}

/// Whether a transfer of `total_bytes` is one that a channel accepts.
pub fn transfer_size_supported(total_bytes: usize) -> (r: bool)
    ensures
        r == spec_transfer_size_supported(total_bytes),
{
    total_bytes > 0 && total_bytes <= 0x10000 * 0x1000 && try_factorize_transfer(
        total_bytes,
        0x10000,
        0x1000,
    ).is_some()
}

/// The trigger selection of a transfer: the hardware request line, or 0
/// for a software-triggered transfer.
pub open spec fn trigger_select(options: MdmaTransferOptions) -> u32 {
    match options.trigger {
        Some(t) => t.spec_bits(),
        None => 0,
    }
}

/// The CTCR image of a transfer with the given buffer length.
pub open spec fn transfer_tcr(
    src_data_size: DataSize,
    dst_data_size: DataSize,
    options: MdmaTransferOptions,
    buffer_length: u8,
) -> u32 {
    let sw = options.trigger.is_none();
    regs::tcr_image(
        src_data_size.spec_bits(),
        src_data_size.spec_bits(),
        options.source_increment.spec_bits(),
        dst_data_size.spec_bits(),
        dst_data_size.spec_bits(),
        options.destination_increment.spec_bits(),
        0,
        0,
        (buffer_length - 1) as u32,
        options.packing.spec_pke_pam().0,
        options.packing.spec_pke_pam().1,
        if sw {
            0
        } else {
            options.trigger_mode.spec_bits()
        },
        sw,
    )
}

/// The CCR image that enables a channel with the transfer error and channel
/// transfer complete interrupts.
pub open spec fn transfer_cr(options: MdmaTransferOptions) -> u32 {
    regs::cr_image(
        options.priority.spec_bits(),
        true,
        true,
        false,
        false,
        false,
        options.byte_swap,
        options.half_word_swap,
        options.word_swap,
        true,
    )
}

/// The CBNDTR image of a transfer of `block_count` blocks of `block_size`
/// bytes.
pub open spec fn transfer_bndtr(block_size: usize, block_count: usize) -> u32 {
    regs::bndtr_image(
        block_size as u32,
        if block_count > 1 {
            (block_count - 1) as u32
        } else {
            0
        },
        false,
        false,
    )
}

/// The operations that start a transfer of `total_bytes` from `src` to `dst`.
pub open spec fn start_transfer_ops(
    src: u32,
    dst: u32,
    total_bytes: usize,
    src_data_size: DataSize,
    dst_data_size: DataSize,
    options: MdmaTransferOptions,
) -> Seq<ChannelOp> {
    let buffer = spec_effective_buffer_length(options.buffer_length, src_data_size, dst_data_size);
    let split = transfer_split(total_bytes, 0x10000);
    seq![ChannelOp::ResetStatus] + abort_ops() + seq![
        ChannelOp::Write { reg: ChannelRegister::Sar, value: src },
        ChannelOp::Write { reg: ChannelRegister::Dar, value: dst },
        ChannelOp::Write {
            reg: ChannelRegister::Tcr,
            value: transfer_tcr(src_data_size, dst_data_size, options, buffer),
        },
        ChannelOp::Write { reg: ChannelRegister::Bndtr, value: transfer_bndtr(split.0, split.1) },
        ChannelOp::Write { reg: ChannelRegister::Brur, value: 0 },
        ChannelOp::Write {
            reg: ChannelRegister::Tbr,
            value: regs::tbr_image(
                trigger_select(options),
                spec_is_tcm_address(src),
                spec_is_tcm_address(dst),
            ),
        },
        ChannelOp::Write { reg: ChannelRegister::Lar, value: 0 },
        ChannelOp::Write { reg: ChannelRegister::Mar, value: 0 },
        ChannelOp::Write { reg: ChannelRegister::Mdr, value: 0 },
        ChannelOp::Write { reg: ChannelRegister::Cr, value: transfer_cr(options) },
    ] + software_request_ops(options)
}

/// The software request that starts a transfer without a hardware trigger.
pub open spec fn software_request_ops(options: MdmaTransferOptions) -> Seq<ChannelOp> {
    if options.trigger.is_none() {
        seq![ChannelOp::SetBits { reg: ChannelRegister::Cr, mask: regs::cr::SWRQ }]
    } else {
        seq![]
    }
}

/// Transfer options with the given address increment modes.
pub open spec fn with_increments(
    options: MdmaTransferOptions,
    source_increment: IncrementMode,
    destination_increment: IncrementMode,
) -> MdmaTransferOptions {
    MdmaTransferOptions {
        priority: options.priority,
        trigger: options.trigger,
        trigger_mode: options.trigger_mode,
        buffer_length: options.buffer_length,
        source_increment,
        destination_increment,
        packing: options.packing,
        byte_swap: options.byte_swap,
        half_word_swap: options.half_word_swap,
        word_swap: options.word_swap,
    }
}

/// Whether `len` items of `elem_size` bytes form a transfer that a channel
/// accepts with that item size.
pub open spec fn slice_transfer_supported(len: usize, elem_size: nat) -> bool {
    &&& is_data_size_bytes(elem_size as int)
    &&& len * elem_size <= usize::MAX
    &&& spec_transfer_size_supported((len * elem_size) as usize)
}

/// The CTCR image of a transfer with the given buffer length.
fn transfer_tcr_value(
    src_data_size: DataSize,
    dst_data_size: DataSize,
    options: &MdmaTransferOptions,
    buffer_length: u8,
) -> (r: u32)
    requires
        1 <= buffer_length <= 128,
    ensures
        r == transfer_tcr(src_data_size, dst_data_size, *options, buffer_length),
{
    let is_sw_triggered = options.trigger.is_none();
    let (pke, pam) = options.packing.pke_pam();
    let trgm = if is_sw_triggered {
        0
    } else {
        options.trigger_mode.bits()
    };
    regs::build_tcr(
        src_data_size.bits(),
        src_data_size.bits(),
        options.source_increment.bits(),
        dst_data_size.bits(),
        dst_data_size.bits(),
        options.destination_increment.bits(),
        0,
        0,
        (buffer_length - 1) as u32,
        pke,
        pam,
        trgm,
        is_sw_triggered,
    )
}

/// The CBNDTR image of a transfer split into `block_count` blocks of
/// `block_size` bytes.
fn transfer_bndtr_value(total_bytes: usize, block_size: usize, block_count: usize) -> (r: u32)
    requires
        total_bytes <= 0x10000 * 0x1000,
        is_transfer_split(total_bytes, 0x10000, block_size, block_count),
    ensures
        r == transfer_bndtr(block_size, block_count),
{
    proof {
        lemma_transfer_split_covers_total(total_bytes, 0x10000, block_size, block_count);
    }
    regs::build_bndtr(
        block_size as u32,
        if block_count > 1 {
            (block_count - 1) as u32
        } else {
            0
        },
        false,
        false,
    )
}

/// The CCR image that enables a channel for a transfer.
fn transfer_cr_value(options: &MdmaTransferOptions) -> (r: u32)
    ensures
        r == transfer_cr(*options),
{
    regs::build_cr(
        options.priority.bits(),
        true,
        true,
        false,
        false,
        false,
        options.byte_swap,
        options.half_word_swap,
        options.word_swap,
        true,
    )
}

/// The driver of one MDMA channel.
pub struct MdmaChannel<'d> {
    channel: u8,
    _phantom: PhantomData<&'d ()>,
}

impl<'d> MdmaChannel<'d> {
    #[verifier::type_invariant]
    spec fn channel_in_range(self) -> bool {
        self.channel < MDMA_CHANNEL_COUNT
    }

    /// The channel number.
    pub closed spec fn index(self) -> nat {
        self.channel as nat
    }

    /// The driver of channel `channel`, which must be below 16.
    pub fn new(channel: u8) -> (r: Self)
        requires
            channel < MDMA_CHANNEL_COUNT,
        ensures
            r.index() == channel,
    {
        Self { channel, _phantom: PhantomData }
    }

    /// The channel number.
    pub fn ch(&self) -> (r: usize)
        ensures
            r == self.index(),
            r < MDMA_CHANNEL_COUNT,
    {
        proof {
            use_type_invariant(self);
        }
        self.channel as usize
    }

    /// The operations that stop the channel and clear its flags.
    pub fn abort(&self) -> (ops: Vec<ChannelOp>)
        ensures
            ops@ == abort_ops(),
    {
        let mut ops = vec![
            ChannelOp::ClearBits { reg: ChannelRegister::Cr, mask: regs::cr::EN },
            ChannelOp::WaitUntilClear { reg: ChannelRegister::Cr, mask: regs::cr::EN },
        ];
        ops.append(&mut self.clear_all_flags());
        ops
    }

    /// The operation that clears every interrupt flag of the channel.
    pub fn clear_all_flags(&self) -> (ops: Vec<ChannelOp>)
        ensures
            ops@ == seq![ChannelOp::Write { reg: ChannelRegister::Ifcr, value: regs::ifcr::ALL }],
    {
        vec![ChannelOp::Write { reg: ChannelRegister::Ifcr, value: regs::ifcr::ALL }]
    }

    /// The operations that start a transfer of `total_bytes` bytes from
    /// address `src` to address `dst` with the given item sizes and options.
    pub fn start_transfer(
        &self,
        src: u32,
        dst: u32,
        total_bytes: usize,
        src_data_size: DataSize,
        dst_data_size: DataSize,
        options: &MdmaTransferOptions,
    ) -> (ops: Vec<ChannelOp>)
        requires
            spec_transfer_size_supported(total_bytes),
        ensures
            ops@ == start_transfer_ops(src, dst, total_bytes, src_data_size, dst_data_size, *options),
    {
        let effective_buf = effective_buffer_length(options.buffer_length, src_data_size, dst_data_size);
        let (block_size, block_count) = factorize_transfer(total_bytes, 0x10000, 0x1000);
        let tcr = transfer_tcr_value(src_data_size, dst_data_size, options, effective_buf);
        let bndtr = transfer_bndtr_value(total_bytes, block_size, block_count);
        let tsel = match options.trigger {
            Some(t) => t.bits(),
            None => 0,
        };
        let tbr = regs::build_tbr(tsel, is_tcm_address(src), is_tcm_address(dst));
        let cr = transfer_cr_value(options);
        let mut ops = vec![
            ChannelOp::ResetStatus,
            ChannelOp::ClearBits { reg: ChannelRegister::Cr, mask: regs::cr::EN },
            ChannelOp::WaitUntilClear { reg: ChannelRegister::Cr, mask: regs::cr::EN },
            ChannelOp::Write { reg: ChannelRegister::Ifcr, value: regs::ifcr::ALL },
            ChannelOp::Write { reg: ChannelRegister::Sar, value: src },
            ChannelOp::Write { reg: ChannelRegister::Dar, value: dst },
            ChannelOp::Write { reg: ChannelRegister::Tcr, value: tcr },
            ChannelOp::Write { reg: ChannelRegister::Bndtr, value: bndtr },
            ChannelOp::Write { reg: ChannelRegister::Brur, value: 0 },
            ChannelOp::Write { reg: ChannelRegister::Tbr, value: tbr },
            ChannelOp::Write { reg: ChannelRegister::Lar, value: 0 },
            ChannelOp::Write { reg: ChannelRegister::Mar, value: 0 },
            ChannelOp::Write { reg: ChannelRegister::Mdr, value: 0 },
            ChannelOp::Write { reg: ChannelRegister::Cr, value: cr },
        ];
        if options.trigger.is_none() {
            ops.push(ChannelOp::SetBits { reg: ChannelRegister::Cr, mask: regs::cr::SWRQ });
        }
        assert(ops@ =~= start_transfer_ops(src, dst, total_bytes, src_data_size, dst_data_size, *options));
        ops
    }
}

// ============================================================================
// Completion polling
// ============================================================================

/// What a completion poll reads next.
#[derive(Debug, Clone, Copy, PartialEq, Eq, Structural)]
pub enum PollStage {
    /// The channel's error flag.
    Error,
    /// The channel's completion count.
    Completion,
    /// The channel's CCR register.
    Enabled,
    /// The channel's completion count, read again after the channel was
    /// found disabled.
    CompletionAfterDisable,
}

/// The outcome of one step of a completion poll.
#[derive(Debug, Clone, Copy, PartialEq, Eq)]
pub enum PollStep {
    /// Read what the stage names, and step again with the value.
    Read(PollStage),
    /// The transfer has finished with this result.
    Ready(Result<(), MdmaError>),
    /// The transfer is still running.
    Pending,
}

/// One step of a completion poll, which starts at `PollStage::Error`: an
/// error flag that is set fails the transfer; a nonzero completion count
/// finishes it; a channel that is still enabled is pending; a channel that
/// was disabled finished if its completion count, read again, is nonzero,
/// and failed otherwise.
pub open spec fn spec_poll_step(stage: PollStage, observed: usize) -> PollStep {
    match stage {
        PollStage::Error => if observed != 0 {
            PollStep::Ready(Err(MdmaError::TransferError))
        } else {
            PollStep::Read(PollStage::Completion)
        },
        PollStage::Completion => if observed != 0 {
            PollStep::Ready(Ok(()))
        } else {
            PollStep::Read(PollStage::Enabled)
        },
        PollStage::Enabled => if observed & (regs::cr::EN as usize) == 0 {
            PollStep::Read(PollStage::CompletionAfterDisable)
        } else {
            PollStep::Pending
        },
        PollStage::CompletionAfterDisable => if observed != 0 {
            PollStep::Ready(Ok(()))
        } else {
            PollStep::Ready(Err(MdmaError::TransferError))
        },
    }
}

impl<'d> MdmaChannel<'d> {
    /// One step of a completion poll: given the value read for `stage`, what
    /// to read next, or the poll's answer.
    pub fn poll_complete(&self, stage: PollStage, observed: usize) -> (r: PollStep)
        ensures
            r == spec_poll_step(stage, observed),
    {
        match stage {
            PollStage::Error => if observed != 0 {
                PollStep::Ready(Err(MdmaError::TransferError))
            } else {
                PollStep::Read(PollStage::Completion)
            },
            PollStage::Completion => if observed != 0 {
                PollStep::Ready(Ok(()))
            } else {
                PollStep::Read(PollStage::Enabled)
            },
            PollStage::Enabled => if observed & (regs::cr::EN as usize) == 0 {
                PollStep::Read(PollStage::CompletionAfterDisable)
            } else {
                PollStep::Pending
            },
            PollStage::CompletionAfterDisable => if observed != 0 {
                PollStep::Ready(Ok(()))
            } else {
                PollStep::Ready(Err(MdmaError::TransferError))
            },
        }
    }
}

/// The answer of a whole completion poll from the values that it reads, in
/// order: the error flag, the completion count, the CCR register, and the
/// completion count read again.
pub open spec fn poll_outcome(error: usize, completion: usize, cr: usize, completion_again: usize) -> PollStep {
    match spec_poll_step(PollStage::Error, error) {
        PollStep::Read(_) => match spec_poll_step(PollStage::Completion, completion) {
            PollStep::Read(_) => match spec_poll_step(PollStage::Enabled, cr) {
                PollStep::Read(_) => spec_poll_step(PollStage::CompletionAfterDisable, completion_again),
                other => other,
            },
            other => other,
        },
        other => other,
    }
}

/// A poll fails the transfer exactly when the error flag is set, or when
/// the channel is found disabled with no completion counted; it finishes the
/// transfer successfully exactly when no error is flagged and a completion is
/// counted before the channel is found still enabled; otherwise it is
/// pending. A poll always reaches an answer after at most four reads.
pub proof fn lemma_poll_outcome(error: usize, completion: usize, cr: usize, completion_again: usize)
    ensures
        poll_outcome(error, completion, cr, completion_again) == PollStep::Ready(Err(MdmaError::TransferError))
            <==> (error != 0 || (completion == 0 && cr & 1 == 0 && completion_again == 0)),
        poll_outcome(error, completion, cr, completion_again) == PollStep::Ready(Ok(()))
            <==> (error == 0 && (completion != 0 || (cr & 1 == 0 && completion_again != 0))),
        poll_outcome(error, completion, cr, completion_again) == PollStep::Pending
            <==> (error == 0 && completion == 0 && cr & 1 != 0),
        !(poll_outcome(error, completion, cr, completion_again) is Read),
{
}

// ============================================================================
// Interrupt handling
// ============================================================================

/// Whether bit `bit` of `v` is set.
pub open spec fn bit_set(v: u32, bit: nat) -> bool {
    v & (1u32 << bit as u32) != 0
}

/// The channels below `n`, in increasing order, whose bit is set in the
/// global interrupt status `gisr`.
pub open spec fn pending_channels_below(gisr: u32, n: nat) -> Seq<usize>
    decreases n,
{
    if n == 0 {
        seq![]
    } else {
        pending_channels_below(gisr, (n - 1) as nat) + if bit_set(gisr, (n - 1) as nat) {
            seq![(n - 1) as usize]
        } else {
            seq![]
        }
    }
}

/// The channels, in increasing order, that the global interrupt status
/// `gisr` reports pending.
pub fn pending_channels(gisr: u32) -> (r: Vec<usize>)
    ensures
        r@ == pending_channels_below(gisr, MDMA_CHANNEL_COUNT as nat),
{
    let mut r: Vec<usize> = Vec::new();
    let mut ch_idx: usize = 0;
    while ch_idx < MDMA_CHANNEL_COUNT
        invariant
            ch_idx <= MDMA_CHANNEL_COUNT,
            r@ == pending_channels_below(gisr, ch_idx as nat),
        decreases MDMA_CHANNEL_COUNT - ch_idx,
    {
        if gisr & (1u32 << (ch_idx as u32)) != 0 {
            r.push(ch_idx);
        }
        ch_idx += 1;
        proof {
            assert(pending_channels_below(gisr, ch_idx as nat) =~= pending_channels_below(
                gisr,
                (ch_idx - 1) as nat,
            ) + if bit_set(gisr, (ch_idx - 1) as nat) {
                seq![(ch_idx - 1) as usize]
            } else {
                seq![]
            });
        }
    }
    r
}

/// The interrupt handler visits each channel at most once, in increasing
/// order, and visits exactly the channels below 16 whose bit is set in the
/// global interrupt status.
pub proof fn lemma_pending_channels(gisr: u32, n: nat)
    requires
        n <= MDMA_CHANNEL_COUNT,
    ensures
        forall|i: int, j: int|
            0 <= i < j < pending_channels_below(gisr, n).len() ==> pending_channels_below(gisr, n)[i]
                < pending_channels_below(gisr, n)[j],
        forall|ch: usize|
            pending_channels_below(gisr, n).contains(ch) <==> (ch < n && bit_set(gisr, ch as nat)),
        forall|i: int| 0 <= i < pending_channels_below(gisr, n).len() ==> pending_channels_below(gisr, n)[i] < n,
    decreases n,
{
    if n > 0 {
        lemma_pending_channels(gisr, (n - 1) as nat);
        let prev = pending_channels_below(gisr, (n - 1) as nat);
        let cur = pending_channels_below(gisr, n);
        let last = (n - 1) as usize;
        let tail: Seq<usize> = if bit_set(gisr, (n - 1) as nat) {
            seq![last]
        } else {
            seq![]
        };
        assert(cur == prev + tail);
        assert forall|k: int| 0 <= k < prev.len() implies cur[k] == prev[k] && prev[k] < last by {}
        assert(tail.len() == 1 ==> cur[prev.len() as int] == last);
        assert forall|i: int, j: int| 0 <= i < j < cur.len() implies cur[i] < cur[j] by {
            if j < prev.len() {
                assert(prev[i] < prev[j]);
            }
        }
        assert forall|i: int| 0 <= i < cur.len() implies cur[i] < n by {}
        assert forall|ch: usize| cur.contains(ch) <==> (ch < n && bit_set(gisr, ch as nat)) by {
            if cur.contains(ch) {
                let k = choose|k: int| 0 <= k < cur.len() && cur[k] == ch;
                if k < prev.len() {
                    assert(prev.contains(ch));
                }
            }
            if ch < n && bit_set(gisr, ch as nat) {
                if ch < n - 1 {
                    assert(prev.contains(ch));
                    let k = choose|k: int| 0 <= k < prev.len() && prev[k] == ch;
                    assert(cur[k] == ch);
                } else {
                    assert(cur[prev.len() as int] == ch);
                }
            }
        }
    }
}

/// The operations that handle the interrupt status `isr` of one channel, in
/// order: a transfer error is cleared, disables the channel, is recorded and
/// wakes the waiter; a channel transfer completion is cleared, counted and
/// wakes the waiter; buffer, block and block-repeat completions are cleared
/// and wake the waiter.
pub open spec fn spec_channel_interrupt_ops(isr: u32) -> Seq<ChannelOp> {
    (if isr & regs::isr::TEIF != 0 {
        seq![
            ChannelOp::Write { reg: ChannelRegister::Ifcr, value: regs::ifcr::CTEIF },
            ChannelOp::ClearBits { reg: ChannelRegister::Cr, mask: regs::cr::EN },
            ChannelOp::RecordError,
            ChannelOp::Wake,
        ]
    } else {
        seq![]
    }) + (if isr & regs::isr::CTCIF != 0 {
        seq![
            ChannelOp::Write { reg: ChannelRegister::Ifcr, value: regs::ifcr::CCTCIF },
            ChannelOp::RecordCompletion,
            ChannelOp::Wake,
        ]
    } else {
        seq![]
    }) + (if isr & regs::isr::TCIF != 0 {
        seq![
            ChannelOp::Write { reg: ChannelRegister::Ifcr, value: regs::ifcr::CLTCIF },
            ChannelOp::Wake,
        ]
    } else {
        seq![]
    }) + (if isr & regs::isr::BTIF != 0 {
        seq![ChannelOp::Write { reg: ChannelRegister::Ifcr, value: regs::ifcr::CBTIF }, ChannelOp::Wake]
    } else {
        seq![]
    }) + (if isr & regs::isr::BRTIF != 0 {
        seq![ChannelOp::Write { reg: ChannelRegister::Ifcr, value: regs::ifcr::CBRTIF }, ChannelOp::Wake]
    } else {
        seq![]
    })
}

/// The operations that handle the interrupt status `isr` of one channel.
pub fn channel_interrupt_ops(isr: u32) -> (ops: Vec<ChannelOp>)
    ensures
        ops@ == spec_channel_interrupt_ops(isr),
{
    let mut ops: Vec<ChannelOp> = Vec::new();
    if isr & regs::isr::TEIF != 0 {
        ops.push(ChannelOp::Write { reg: ChannelRegister::Ifcr, value: regs::ifcr::CTEIF });
        ops.push(ChannelOp::ClearBits { reg: ChannelRegister::Cr, mask: regs::cr::EN });
        ops.push(ChannelOp::RecordError);
        ops.push(ChannelOp::Wake);
    }
    let ghost a = ops@;
    if isr & regs::isr::CTCIF != 0 {
        ops.push(ChannelOp::Write { reg: ChannelRegister::Ifcr, value: regs::ifcr::CCTCIF });
        ops.push(ChannelOp::RecordCompletion);
        ops.push(ChannelOp::Wake);
    }
    let ghost b = ops@;
    if isr & regs::isr::TCIF != 0 {
        ops.push(ChannelOp::Write { reg: ChannelRegister::Ifcr, value: regs::ifcr::CLTCIF });
        ops.push(ChannelOp::Wake);
    }
    let ghost c = ops@;
    if isr & regs::isr::BTIF != 0 {
        ops.push(ChannelOp::Write { reg: ChannelRegister::Ifcr, value: regs::ifcr::CBTIF });
        ops.push(ChannelOp::Wake);
    }
    let ghost d = ops@;
    if isr & regs::isr::BRTIF != 0 {
        ops.push(ChannelOp::Write { reg: ChannelRegister::Ifcr, value: regs::ifcr::CBRTIF });
        ops.push(ChannelOp::Wake);
    }
    assert(ops@ =~= spec_channel_interrupt_ops(isr));
    ops
}

/// An element lies in a concatenation exactly when it lies in one of the
/// two parts.
proof fn lemma_concat_contains(a: Seq<ChannelOp>, b: Seq<ChannelOp>, x: ChannelOp)
    ensures
        (a + b).contains(x) <==> (a.contains(x) || b.contains(x)),
{
    if a.contains(x) {
        let i = choose|i: int| 0 <= i < a.len() && a[i] == x;
        assert((a + b)[i] == x);
    }
    if b.contains(x) {
        let j = choose|j: int| 0 <= j < b.len() && b[j] == x;
        assert((a + b)[a.len() + j] == x);
    }
    if (a + b).contains(x) {
        let k = choose|k: int| 0 <= k < (a + b).len() && (a + b)[k] == x;
        if k < a.len() {
            assert(a[k] == x);
        } else {
            assert(b[k - a.len()] == x);
        }
    }
}

/// The operations of a block that runs only when `cond` holds.
proof fn lemma_block_contains(cond: bool, block: Seq<ChannelOp>, x: ChannelOp)
    ensures
        (if cond {
            block
        } else {
            seq![]
        }).contains(x) <==> (cond && block.contains(x)),
{
    if !cond {
        assert(!Seq::<ChannelOp>::empty().contains(x));
    }
}

/// How an interrupt is handled: each interrupt flag of CISR that is set —
/// transfer error (bit 0), channel transfer complete (bit 1), block repeat
/// transfer complete (bit 2), block transfer complete (bit 3), buffer
/// transfer complete (bit 4) — is cleared by a CIFCR write of that same bit,
/// and no flag that is clear is written; a completion is counted exactly when
/// the channel transfer complete flag is set; an error is recorded, and the
/// channel disabled, exactly when the transfer error flag is set; the waiting
/// task is woken exactly when one of the five flags is set; and no other
/// register is written.
#[verifier::spinoff_prover]
pub proof fn lemma_channel_interrupt_ops(isr: u32)
    ensures
        ({
            let ops = spec_channel_interrupt_ops(isr);
            &&& ops.contains(ChannelOp::Write { reg: ChannelRegister::Ifcr, value: 0x1 }) <==> isr & 0x1
                != 0
            &&& ops.contains(ChannelOp::Write { reg: ChannelRegister::Ifcr, value: 0x2 }) <==> isr & 0x2
                != 0
            &&& ops.contains(ChannelOp::Write { reg: ChannelRegister::Ifcr, value: 0x4 }) <==> isr & 0x4
                != 0
            &&& ops.contains(ChannelOp::Write { reg: ChannelRegister::Ifcr, value: 0x8 }) <==> isr & 0x8
                != 0
            &&& ops.contains(ChannelOp::Write { reg: ChannelRegister::Ifcr, value: 0x10 }) <==> isr
                & 0x10 != 0
            &&& ops.contains(ChannelOp::RecordCompletion) <==> isr & 0x2 != 0
            &&& ops.contains(ChannelOp::RecordError) <==> isr & 0x1 != 0
            &&& ops.contains(ChannelOp::ClearBits { reg: ChannelRegister::Cr, mask: 0x1 }) <==> isr & 0x1
                != 0
            &&& ops.contains(ChannelOp::Wake) <==> isr & 0x1F != 0
            &&& forall|i: int|
                0 <= i < ops.len() ==> match #[trigger] ops[i] {
                    ChannelOp::Write { reg, value } => reg == ChannelRegister::Ifcr && (value == 0x1
                        || value == 0x2 || value == 0x4 || value == 0x8 || value == 0x10),
                    ChannelOp::ClearBits { reg, mask } => reg == ChannelRegister::Cr && mask == 0x1,
                    ChannelOp::RecordError => true,
                    ChannelOp::RecordCompletion => true,
                    ChannelOp::Wake => true,
                    _ => false,
                }
        }),
{
    let te = isr & 0x1 != 0;
    let ctc = isr & 0x2 != 0;
    let tc = isr & 0x10 != 0;
    let bt = isr & 0x8 != 0;
    let brt = isr & 0x4 != 0;
    let ba = seq![
        ChannelOp::Write { reg: ChannelRegister::Ifcr, value: 0x1u32 },
        ChannelOp::ClearBits { reg: ChannelRegister::Cr, mask: 0x1u32 },
        ChannelOp::RecordError,
        ChannelOp::Wake,
    ];
    let bb = seq![
        ChannelOp::Write { reg: ChannelRegister::Ifcr, value: 0x2u32 },
        ChannelOp::RecordCompletion,
        ChannelOp::Wake,
    ];
    let bc = seq![ChannelOp::Write { reg: ChannelRegister::Ifcr, value: 0x10u32 }, ChannelOp::Wake];
    let bd = seq![ChannelOp::Write { reg: ChannelRegister::Ifcr, value: 0x8u32 }, ChannelOp::Wake];
    let be = seq![ChannelOp::Write { reg: ChannelRegister::Ifcr, value: 0x4u32 }, ChannelOp::Wake];
    let a: Seq<ChannelOp> = if te { ba } else { seq![] };
    let b: Seq<ChannelOp> = if ctc { bb } else { seq![] };
    let c: Seq<ChannelOp> = if tc { bc } else { seq![] };
    let d: Seq<ChannelOp> = if bt { bd } else { seq![] };
    let e: Seq<ChannelOp> = if brt { be } else { seq![] };
    let ops = spec_channel_interrupt_ops(isr);
    assert(ops == a + b + c + d + e);
    assert forall|x: ChannelOp| ops.contains(x) <==> ((te && ba.contains(x)) || (ctc && bb.contains(x)) || (
    tc && bc.contains(x)) || (bt && bd.contains(x)) || (brt && be.contains(x))) by {
        lemma_concat_contains(a + b + c + d, e, x);
        lemma_concat_contains(a + b + c, d, x);
        lemma_concat_contains(a + b, c, x);
        lemma_concat_contains(a, b, x);
        lemma_block_contains(te, ba, x);
        lemma_block_contains(ctc, bb, x);
        lemma_block_contains(tc, bc, x);
        lemma_block_contains(bt, bd, x);
        lemma_block_contains(brt, be, x);
    }
    assert forall|x: ChannelOp| #![auto] ba.contains(x) <==> (x == ba[0] || x == ba[1] || x == ba[2] || x == ba[3]) by {
        if ba.contains(x) {
            let k = choose|k: int| 0 <= k < ba.len() && ba[k] == x;
        }
        if x == ba[0] { assert(ba[0] == x); }
        if x == ba[1] { assert(ba[1] == x); }
        if x == ba[2] { assert(ba[2] == x); }
        if x == ba[3] { assert(ba[3] == x); }
    }
    assert forall|x: ChannelOp| #![auto] bb.contains(x) <==> (x == bb[0] || x == bb[1] || x == bb[2]) by {
        if bb.contains(x) {
            let k = choose|k: int| 0 <= k < bb.len() && bb[k] == x;
        }
        if x == bb[0] { assert(bb[0] == x); }
        if x == bb[1] { assert(bb[1] == x); }
        if x == bb[2] { assert(bb[2] == x); }
    }
    assert forall|x: ChannelOp| #![auto] bc.contains(x) <==> (x == bc[0] || x == bc[1]) by {
        if bc.contains(x) {
            let k = choose|k: int| 0 <= k < bc.len() && bc[k] == x;
        }
        if x == bc[0] { assert(bc[0] == x); }
        if x == bc[1] { assert(bc[1] == x); }
    }
    assert forall|x: ChannelOp| #![auto] bd.contains(x) <==> (x == bd[0] || x == bd[1]) by {
        if bd.contains(x) {
            let k = choose|k: int| 0 <= k < bd.len() && bd[k] == x;
        }
        if x == bd[0] { assert(bd[0] == x); }
        if x == bd[1] { assert(bd[1] == x); }
    }
    assert forall|x: ChannelOp| #![auto] be.contains(x) <==> (x == be[0] || x == be[1]) by {
        if be.contains(x) {
            let k = choose|k: int| 0 <= k < be.len() && be[k] == x;
        }
        if x == be[0] { assert(be[0] == x); }
        if x == be[1] { assert(be[1] == x); }
    }
    assert(isr & 0x1F != 0 <==> (te || ctc || tc || bt || brt)) by (bit_vector)
        requires
            te == (isr & 0x1 != 0),
            ctc == (isr & 0x2 != 0),
            tc == (isr & 0x10 != 0),
            bt == (isr & 0x8 != 0),
            brt == (isr & 0x4 != 0),
    ;
    assert forall|i: int|
        0 <= i < ops.len() implies match #[trigger] ops[i] {
            ChannelOp::Write { reg, value } => reg == ChannelRegister::Ifcr && (value == 0x1 || value
                == 0x2 || value == 0x4 || value == 0x8 || value == 0x10),
            ChannelOp::ClearBits { reg, mask } => reg == ChannelRegister::Cr && mask == 0x1,
            ChannelOp::RecordError => true,
            ChannelOp::RecordCompletion => true,
            ChannelOp::Wake => true,
            _ => false,
        } by {
        assert(ops.contains(ops[i]));
    }
}

// ============================================================================
// High-level transfers
// ============================================================================

/// The operations of a transfer of `total_bytes` bytes between `src` and
/// `dst` with the given item sizes, options and address increment modes: a
/// memory fence, then the start of the transfer.
pub open spec fn transfer_ops(
    src: usize,
    dst: usize,
    total_bytes: usize,
    src_data_size: DataSize,
    dst_data_size: DataSize,
    options: MdmaTransferOptions,
    source_increment: IncrementMode,
    destination_increment: IncrementMode,
) -> Seq<ChannelOp> {
    seq![ChannelOp::Fence] + start_transfer_ops(
        src as u32,
        dst as u32,
        total_bytes,
        src_data_size,
        dst_data_size,
        with_increments(options, source_increment, destination_increment),
    )
}

/// The item size of elements of type `T`.
pub open spec fn data_size_of<T>() -> DataSize {
    DataSize::spec_from_bytes(vstd::layout::size_of::<T>() as usize)
}

/// The number of bytes in `len` elements of type `T`.
pub open spec fn bytes_of<T>(len: usize) -> usize {
    (len * vstd::layout::size_of::<T>()) as usize
}

/// Transfer options with the given address increment modes.
fn options_with_increments(
    options: &MdmaTransferOptions,
    source_increment: IncrementMode,
    destination_increment: IncrementMode,
) -> (r: MdmaTransferOptions)
    ensures
        r == with_increments(*options, source_increment, destination_increment),
{
    MdmaTransferOptions {
        priority: options.priority,
        trigger: options.trigger,
        trigger_mode: options.trigger_mode,
        buffer_length: options.buffer_length,
        source_increment,
        destination_increment,
        packing: options.packing,
        byte_swap: options.byte_swap,
        half_word_swap: options.half_word_swap,
        word_swap: options.word_swap,
    }
}

impl<'d> MdmaChannel<'d> {
    /// The operations of a transfer of `total_bytes` bytes with the given
    /// increment modes.
    fn transfer(
        &self,
        src: usize,
        dst: usize,
        total_bytes: usize,
        src_data_size: DataSize,
        dst_data_size: DataSize,
        options: &MdmaTransferOptions,
        source_increment: IncrementMode,
        destination_increment: IncrementMode,
    ) -> (ops: Vec<ChannelOp>)
        requires
            spec_transfer_size_supported(total_bytes),
        ensures
            ops@ == transfer_ops(
                src,
                dst,
                total_bytes,
                src_data_size,
                dst_data_size,
                *options,
                source_increment,
                destination_increment,
            ),
    {
        let opts = options_with_increments(options, source_increment, destination_increment);
        let mut ops = vec![ChannelOp::Fence];
        let mut start = self.start_transfer(
            src as u32,
            dst as u32,
            total_bytes,
            src_data_size,
            dst_data_size,
            &opts,
        );
        ops.append(&mut start);
        ops
    }

    /// The operations of a memory-to-memory transfer of the `src_len`
    /// elements of type `T` at `src_addr` to `dst_addr`, both addresses
    /// incrementing.
    pub fn transfer_mem2mem<T>(
        &self,
        src_addr: usize,
        src_len: usize,
        dst_addr: usize,
        options: &MdmaTransferOptions,
    ) -> (ops: Vec<ChannelOp>)
        requires
            slice_transfer_supported(src_len, vstd::layout::size_of::<T>()),
        ensures
            ops@ == transfer_ops(
                src_addr,
                dst_addr,
                bytes_of::<T>(src_len),
                data_size_of::<T>(),
                data_size_of::<T>(),
                *options,
                IncrementMode::Increment,
                IncrementMode::Increment,
            ),
    {
        let data_size = DataSize::from_bytes(core::mem::size_of::<T>());
        let total_bytes = src_len * core::mem::size_of::<T>();
        self.transfer(
            src_addr,
            dst_addr,
            total_bytes,
            data_size,
            data_size,
            options,
            IncrementMode::Increment,
            IncrementMode::Increment,
        )
    }

    /// The operations that copy the `src_len` elements at `src_addr` into the
    /// `dst_len` elements at `dst_addr` with the default options; the
    /// destination must hold at least as many elements as the source.
    pub fn copy_slice<T: Copy>(&self, src_addr: usize, src_len: usize, dst_addr: usize, dst_len: usize) -> (ops:
        Vec<ChannelOp>)
        requires
            dst_len >= src_len,
            slice_transfer_supported(src_len, vstd::layout::size_of::<T>()),
        ensures
            ops@ == transfer_ops(
                src_addr,
                dst_addr,
                bytes_of::<T>(src_len),
                data_size_of::<T>(),
                data_size_of::<T>(),
                default_transfer_options(),
                IncrementMode::Increment,
                IncrementMode::Increment,
            ),
    {
        self.transfer_mem2mem::<T>(src_addr, src_len, dst_addr, &MdmaTransferOptions::default())
    }

    /// The operations that write the `src_len` elements at `src_addr` to the
    /// fixed peripheral register at `peri_addr`.
    pub fn write_to_peripheral<T>(
        &self,
        src_addr: usize,
        src_len: usize,
        peri_addr: usize,
        options: &MdmaTransferOptions,
    ) -> (ops: Vec<ChannelOp>)
        requires
            slice_transfer_supported(src_len, vstd::layout::size_of::<T>()),
        ensures
            ops@ == transfer_ops(
                src_addr,
                peri_addr,
                bytes_of::<T>(src_len),
                data_size_of::<T>(),
                data_size_of::<T>(),
                *options,
                IncrementMode::Increment,
                IncrementMode::Fixed,
            ),
    {
        let data_size = DataSize::from_bytes(core::mem::size_of::<T>());
        let total_bytes = src_len * core::mem::size_of::<T>();
        self.transfer(
            src_addr,
            peri_addr,
            total_bytes,
            data_size,
            data_size,
            options,
            IncrementMode::Increment,
            IncrementMode::Fixed,
        )
    }

    /// The operations that read from the fixed peripheral register at
    /// `peri_addr` into the `dst_len` elements at `dst_addr`.
    pub fn read_from_peripheral<T>(
        &self,
        peri_addr: usize,
        dst_addr: usize,
        dst_len: usize,
        options: &MdmaTransferOptions,
    ) -> (ops: Vec<ChannelOp>)
        requires
            slice_transfer_supported(dst_len, vstd::layout::size_of::<T>()),
        ensures
            ops@ == transfer_ops(
                peri_addr,
                dst_addr,
                bytes_of::<T>(dst_len),
                data_size_of::<T>(),
                data_size_of::<T>(),
                *options,
                IncrementMode::Fixed,
                IncrementMode::Increment,
            ),
    {
        let data_size = DataSize::from_bytes(core::mem::size_of::<T>());
        let total_bytes = dst_len * core::mem::size_of::<T>();
        self.transfer(
            peri_addr,
            dst_addr,
            total_bytes,
            data_size,
            data_size,
            options,
            IncrementMode::Fixed,
            IncrementMode::Increment,
        )
    }

    /// The operations that write the `src_len` elements of type `SRC` at
    /// `src_addr` to the fixed peripheral register of type `DST` at
    /// `peri_addr`, the hardware packing items of one size into the other.
    pub fn write_to_peripheral_packed<SRC, DST>(
        &self,
        src_addr: usize,
        src_len: usize,
        peri_addr: usize,
        options: &MdmaTransferOptions,
    ) -> (ops: Vec<ChannelOp>)
        requires
            slice_transfer_supported(src_len, vstd::layout::size_of::<SRC>()),
            is_data_size_bytes(vstd::layout::size_of::<DST>() as int),
        ensures
            ops@ == transfer_ops(
                src_addr,
                peri_addr,
                bytes_of::<SRC>(src_len),
                data_size_of::<SRC>(),
                data_size_of::<DST>(),
                *options,
                IncrementMode::Increment,
                IncrementMode::Fixed,
            ),
    {
        let src_size = DataSize::from_bytes(core::mem::size_of::<SRC>());
        let dst_size = DataSize::from_bytes(core::mem::size_of::<DST>());
        let total_bytes = src_len * core::mem::size_of::<SRC>();
        self.transfer(
            src_addr,
            peri_addr,
            total_bytes,
            src_size,
            dst_size,
            options,
            IncrementMode::Increment,
            IncrementMode::Fixed,
        )
    }
}

/// The registers that start a transfer describe it: the block size times
/// the block count (the repeat count plus one) is the transfer's length; the
/// buffer transfer length (TLEN plus one) is the effective buffer length; the
/// item sizes, increment modes and packing are those asked for; a transfer without a
/// hardware trigger is a software-request transfer; each side uses the AHB
/// (TCM) bus exactly when its address lies in a tightly coupled memory; and
/// the channel is enabled with the transfer error and channel transfer
/// complete interrupts at the asked priority.
pub proof fn lemma_transfer_registers(
    src: u32,
    dst: u32,
    total_bytes: usize,
    src_data_size: DataSize,
    dst_data_size: DataSize,
    options: MdmaTransferOptions,
)
    requires
        spec_transfer_size_supported(total_bytes),
    ensures
        ({
            let split = transfer_split(total_bytes, 0x10000);
            let bndtr = transfer_bndtr(split.0, split.1);
            let buffer = spec_effective_buffer_length(options.buffer_length, src_data_size, dst_data_size);
            let tcr = transfer_tcr(src_data_size, dst_data_size, options, buffer);
            let tbr = regs::tbr_image(trigger_select(options), spec_is_tcm_address(src), spec_is_tcm_address(dst));
            let cr = transfer_cr(options);
            &&& (bndtr & regs::bndtr::BNDT_MASK) * (regs::field(bndtr, regs::bndtr::BRC_SHIFT, 0xFFF) + 1)
                == total_bytes
            &&& regs::field(tcr, regs::tcr::TLEN_SHIFT, 0x7F) + 1 == buffer
            &&& regs::field(tcr, regs::tcr::SSIZE_SHIFT, 0x3) == src_data_size.spec_bits()
            &&& regs::field(tcr, regs::tcr::DSIZE_SHIFT, 0x3) == dst_data_size.spec_bits()
            &&& regs::field(tcr, regs::tcr::SINC_SHIFT, 0x3) == options.source_increment.spec_bits()
            &&& regs::field(tcr, regs::tcr::DINC_SHIFT, 0x3) == options.destination_increment.spec_bits()
            &&& regs::has_bits(tcr, regs::tcr::SWRM) == options.trigger.is_none()
            &&& regs::has_bits(tcr, regs::tcr::PKE) == options.packing.spec_pke_pam().0
            &&& regs::field(tcr, regs::tcr::PAM_SHIFT, 0x3) == options.packing.spec_pke_pam().1
            &&& regs::has_bits(tbr, regs::tbr::SBUS) == spec_is_tcm_address(src)
            &&& regs::has_bits(tbr, regs::tbr::DBUS) == spec_is_tcm_address(dst)
            &&& regs::has_bits(cr, regs::cr::EN)
            &&& regs::has_bits(cr, regs::cr::TEIE)
            &&& regs::has_bits(cr, regs::cr::CTCIE)
            &&& regs::field(cr, regs::cr::PL_SHIFT, 0x3) == options.priority.spec_bits()
        }),
{
    lemma_transfer_bndtr_covers_total(total_bytes);
    lemma_transfer_tcr_fields(src_data_size, dst_data_size, options);
    regs::lemma_tbr_image_fields(trigger_select(options), spec_is_tcm_address(src), spec_is_tcm_address(dst));
    lemma_transfer_cr_fields(options);
}

/// The block size times the block count in the CBNDTR image of a transfer
/// that a channel accepts is the transfer's length.
proof fn lemma_transfer_bndtr_covers_total(total_bytes: usize)
    requires
        spec_transfer_size_supported(total_bytes),
    ensures
        ({
            let split = transfer_split(total_bytes, 0x10000);
            let bndtr = transfer_bndtr(split.0, split.1);
            (bndtr & regs::bndtr::BNDT_MASK) * (regs::field(bndtr, regs::bndtr::BRC_SHIFT, 0xFFF) + 1)
                == total_bytes
        }),
{
    let split = transfer_split(total_bytes, 0x10000);
    let (p0, p1) = lemma_transfer_split_exists(total_bytes, 0x10000, 0x1000);
    lemma_transfer_split_unique(total_bytes, 0x10000, p0, p1);
    lemma_transfer_split_covers_total(total_bytes, 0x10000, split.0, split.1);
    lemma_transfer_split_count_bound(total_bytes, split.0, split.1);
    let brc: u32 = if split.1 > 1 {
        (split.1 - 1) as u32
    } else {
        0
    };
    let bs: u32 = split.0 as u32;
    regs::lemma_bndtr_image_fields(bs, brc, false, false);
    assert(bs & 0x1_FFFF == bs) by (bit_vector)
        requires
            bs <= 0x10000u32,
    ;
    assert(brc & 0xFFF == brc) by (bit_vector)
        requires
            brc <= 0xFFFu32,
    ;
}

/// The CTCR image of a transfer carries the transfer's buffer length, item
/// sizes, increment modes, packing and trigger source.
proof fn lemma_transfer_tcr_fields(src_data_size: DataSize, dst_data_size: DataSize, options: MdmaTransferOptions)
    ensures
        ({
            let buffer = spec_effective_buffer_length(options.buffer_length, src_data_size, dst_data_size);
            let tcr = transfer_tcr(src_data_size, dst_data_size, options, buffer);
            &&& regs::field(tcr, regs::tcr::TLEN_SHIFT, 0x7F) + 1 == buffer
            &&& regs::field(tcr, regs::tcr::SSIZE_SHIFT, 0x3) == src_data_size.spec_bits()
            &&& regs::field(tcr, regs::tcr::DSIZE_SHIFT, 0x3) == dst_data_size.spec_bits()
            &&& regs::field(tcr, regs::tcr::SINC_SHIFT, 0x3) == options.source_increment.spec_bits()
            &&& regs::field(tcr, regs::tcr::DINC_SHIFT, 0x3) == options.destination_increment.spec_bits()
            &&& regs::has_bits(tcr, regs::tcr::SWRM) == options.trigger.is_none()
            &&& regs::has_bits(tcr, regs::tcr::PKE) == options.packing.spec_pke_pam().0
            &&& regs::field(tcr, regs::tcr::PAM_SHIFT, 0x3) == options.packing.spec_pke_pam().1
            &&& regs::field(tcr, regs::tcr::TRGM_SHIFT, 0x3) == match options.trigger {
                Some(_) => options.trigger_mode.spec_bits(),
                None => 0,
            }
        }),
{
    let buffer = spec_effective_buffer_length(options.buffer_length, src_data_size, dst_data_size);
    lemma_effective_buffer_length_range(options.buffer_length, src_data_size, dst_data_size);
    let sw = options.trigger.is_none();
    regs::lemma_tcr_image_fields(
        src_data_size.spec_bits(),
        src_data_size.spec_bits(),
        options.source_increment.spec_bits(),
        dst_data_size.spec_bits(),
        dst_data_size.spec_bits(),
        options.destination_increment.spec_bits(),
        0,
        0,
        (buffer - 1) as u32,
        options.packing.spec_pke_pam().0,
        options.packing.spec_pke_pam().1,
        if sw {
            0
        } else {
            options.trigger_mode.spec_bits()
        },
        sw,
    );
    let tl = (buffer - 1) as u32;
    assert(tl & 0x7F == tl) by (bit_vector)
        requires
            tl <= 127u32,
    ;
    let ss = src_data_size.spec_bits();
    let ds = dst_data_size.spec_bits();
    let si = options.source_increment.spec_bits();
    let di = options.destination_increment.spec_bits();
    let pam = options.packing.spec_pke_pam().1;
    let tm = options.trigger_mode.spec_bits();
    assert(ss & 0x3 == ss && ds & 0x3 == ds && si & 0x3 == si && di & 0x3 == di && pam & 0x3 == pam
        && tm & 0x3 == tm && 0u32 & 0x3 == 0) by (bit_vector)
        requires
            ss <= 3u32,
            ds <= 3u32,
            si <= 3u32,
            di <= 3u32,
            pam <= 3u32,
            tm <= 3u32,
    ;
}

/// The CCR image of a transfer enables the channel with the transfer error
/// and channel transfer complete interrupts at the transfer's priority.
pub(crate) proof fn lemma_transfer_cr_fields(options: MdmaTransferOptions)
    ensures
        ({
            let cr = transfer_cr(options);
            &&& regs::has_bits(cr, regs::cr::EN)
            &&& regs::has_bits(cr, regs::cr::TEIE)
            &&& regs::has_bits(cr, regs::cr::CTCIE)
            &&& regs::field(cr, regs::cr::PL_SHIFT, 0x3) == options.priority.spec_bits()
            &&& regs::has_bits(cr, regs::cr::BEX) == options.byte_swap
            &&& regs::has_bits(cr, regs::cr::HEX) == options.half_word_swap
            &&& regs::has_bits(cr, regs::cr::WEX) == options.word_swap
            &&& !regs::has_bits(cr, regs::cr::BRTIE)
            &&& !regs::has_bits(cr, regs::cr::BTIE)
            &&& !regs::has_bits(cr, regs::cr::TCIE)
            &&& cr & regs::cr::SWRQ == 0
        }),
{
    regs::lemma_cr_image_fields(
        options.priority.spec_bits(),
        true,
        true,
        false,
        false,
        false,
        options.byte_swap,
        options.half_word_swap,
        options.word_swap,
        true,
    );
    let pl = options.priority.spec_bits();
    assert(pl & 0x3 == pl) by (bit_vector)
        requires
            pl <= 3u32,
    ;
}

/// A transfer is configured only on a stopped channel and enabled last:
/// the operations first disable the channel and wait until it reports itself
/// disabled; every register write comes after that wait; the channel
/// registers other than CCR are written before the single CCR write, which
/// enables the channel; only the software request may follow.
pub proof fn lemma_start_transfer_enables_last(
    src: u32,
    dst: u32,
    total_bytes: usize,
    src_data_size: DataSize,
    dst_data_size: DataSize,
    options: MdmaTransferOptions,
)
    ensures
        ({
            let ops = start_transfer_ops(src, dst, total_bytes, src_data_size, dst_data_size, options);
            &&& ops[1] == ChannelOp::ClearBits { reg: ChannelRegister::Cr, mask: regs::cr::EN }
            &&& ops[2] == ChannelOp::WaitUntilClear { reg: ChannelRegister::Cr, mask: regs::cr::EN }
            &&& forall|i: int| 0 <= i < ops.len() && #[trigger] ops[i] is Write ==> i > 2
            &&& forall|i: int| 3 <= i < 13 ==> #[trigger] ops[i] is Write && ops[i]->Write_reg != ChannelRegister::Cr
            &&& ops[13] == ChannelOp::Write { reg: ChannelRegister::Cr, value: transfer_cr(options) }
            &&& regs::has_bits(transfer_cr(options), regs::cr::EN)
            &&& ops.len() == 14 + software_request_ops(options).len()
            &&& forall|i: int| 14 <= i < ops.len() ==> #[trigger] ops[i] == ChannelOp::SetBits {
                reg: ChannelRegister::Cr,
                mask: regs::cr::SWRQ,
            }
        }),
{
    lemma_transfer_cr_fields(options);
    let ops = start_transfer_ops(src, dst, total_bytes, src_data_size, dst_data_size, options);
    assert(ops.len() == 14 + software_request_ops(options).len());
}

/// What starting a transfer writes: the source and destination addresses;
/// a CTCR whose item sizes, increment modes, packing, buffer length and
/// trigger come from the arguments (SWRM set and TRGM 0 exactly for a
/// transfer without a hardware trigger, TRGM the trigger mode otherwise); a
/// CBNDTR whose block size times block count is the transfer's length; a
/// CTBR that selects the trigger line (0 without one) and the AHB bus for
/// each side in TCM; and a CCR that enables the channel with the transfer
/// error and channel transfer complete interrupts, the asked priority and
/// exactly the asked byte, half-word and word exchanges. A software request
/// follows exactly for a transfer without a hardware trigger.
#[verifier::spinoff_prover]
pub proof fn lemma_start_transfer_writes(
    src: u32,
    dst: u32,
    total_bytes: usize,
    src_data_size: DataSize,
    dst_data_size: DataSize,
    options: MdmaTransferOptions,
)
    requires
        spec_transfer_size_supported(total_bytes),
    ensures
        ({
            let ops = start_transfer_ops(src, dst, total_bytes, src_data_size, dst_data_size, options);
            let tcr = ops[6]->Write_value;
            let bndtr = ops[7]->Write_value;
            let tbr = ops[9]->Write_value;
            let cr = ops[13]->Write_value;
            &&& ops[4] == ChannelOp::Write { reg: ChannelRegister::Sar, value: src }
            &&& ops[5] == ChannelOp::Write { reg: ChannelRegister::Dar, value: dst }
            &&& ops[6] is Write && ops[6]->Write_reg == ChannelRegister::Tcr
            &&& ops[7] is Write && ops[7]->Write_reg == ChannelRegister::Bndtr
            &&& ops[9] is Write && ops[9]->Write_reg == ChannelRegister::Tbr
            &&& ops[13] is Write && ops[13]->Write_reg == ChannelRegister::Cr
            // CTCR
            &&& (tcr >> 2u32) & 0x3 == src_data_size.spec_bits()
            &&& (tcr >> 8u32) & 0x3 == dst_data_size.spec_bits()
            &&& (tcr >> 4u32) & 0x3 == options.source_increment.spec_bits()
            &&& (tcr >> 10u32) & 0x3 == options.destination_increment.spec_bits()
            &&& ((tcr >> 18u32) & 0x7F) + 1 == spec_effective_buffer_length(
                options.buffer_length,
                src_data_size,
                dst_data_size,
            )
            &&& (tcr & 0x0200_0000 != 0) == options.packing.spec_pke_pam().0
            &&& (tcr & 0x4000_0000 != 0) == options.trigger.is_none()
            &&& (tcr >> 28u32) & 0x3 == match options.trigger {
                Some(_) => options.trigger_mode.spec_bits(),
                None => 0,
            }
            // CBNDTR
            &&& (bndtr & 0x1_FFFF) * (((bndtr >> 20u32) & 0xFFF) + 1) == total_bytes
            // CTBR
            &&& tbr & 0x3F == match options.trigger {
                Some(t) => t.spec_bits(),
                None => 0,
            }
            &&& (tbr & 0x1_0000 != 0) == spec_is_tcm_address(src)
            &&& (tbr & 0x2_0000 != 0) == spec_is_tcm_address(dst)
            // CCR
            &&& cr & 0x1 != 0 && cr & 0x2 != 0 && cr & 0x4 != 0
            &&& cr & 0x8 == 0 && cr & 0x10 == 0 && cr & 0x20 == 0
            &&& (cr >> 6u32) & 0x3 == options.priority.spec_bits()
            &&& (cr & 0x1000 != 0) == options.byte_swap
            &&& (cr & 0x2000 != 0) == options.half_word_swap
            &&& (cr & 0x4000 != 0) == options.word_swap
            &&& cr & 0x1_0000 == 0
            // software request
            &&& ops.len() == if options.trigger.is_none() {
                15int
            } else {
                14int
            }
            &&& options.trigger.is_none() ==> ops[14] == ChannelOp::SetBits {
                reg: ChannelRegister::Cr,
                mask: 0x1_0000,
            }
        }),
{
    let ops = start_transfer_ops(src, dst, total_bytes, src_data_size, dst_data_size, options);
    let buffer = spec_effective_buffer_length(options.buffer_length, src_data_size, dst_data_size);
    let split = transfer_split(total_bytes, 0x10000);
    let tcr = transfer_tcr(src_data_size, dst_data_size, options, buffer);
    let bndtr = transfer_bndtr(split.0, split.1);
    let tsel = trigger_select(options);
    let tbr = regs::tbr_image(tsel, spec_is_tcm_address(src), spec_is_tcm_address(dst));
    let cr = transfer_cr(options);
    assert(ops[6] == ChannelOp::Write { reg: ChannelRegister::Tcr, value: tcr });
    assert(ops[7] == ChannelOp::Write { reg: ChannelRegister::Bndtr, value: bndtr });
    assert(ops[9] == ChannelOp::Write { reg: ChannelRegister::Tbr, value: tbr });
    lemma_start_transfer_enables_last(src, dst, total_bytes, src_data_size, dst_data_size, options);
    lemma_transfer_bndtr_covers_total(total_bytes);
    lemma_transfer_tcr_fields(src_data_size, dst_data_size, options);
    lemma_transfer_cr_fields(options);
    regs::lemma_tbr_image_fields(tsel, spec_is_tcm_address(src), spec_is_tcm_address(dst));
    assert(tsel & 0x3F == tsel) by (bit_vector)
        requires
            tsel < 34u32,
    ;
    lemma_single_bits(tcr);
    lemma_single_bits(tbr);
    lemma_single_bits(cr);
}

/// A single bit of a register is set exactly when it is not clear.
pub(crate) proof fn lemma_single_bits(v: u32)
    ensures
        (v & 0x1 == 0x1) == (v & 0x1 != 0),
        (v & 0x2 == 0x2) == (v & 0x2 != 0),
        (v & 0x4 == 0x4) == (v & 0x4 != 0),
        (v & 0x8 == 0x8) == (v & 0x8 != 0),
        (v & 0x10 == 0x10) == (v & 0x10 != 0),
        (v & 0x20 == 0x20) == (v & 0x20 != 0),
        (v & 0x1000 == 0x1000) == (v & 0x1000 != 0),
        (v & 0x2000 == 0x2000) == (v & 0x2000 != 0),
        (v & 0x4000 == 0x4000) == (v & 0x4000 != 0),
        (v & 0x1_0000 == 0x1_0000) == (v & 0x1_0000 != 0),
        (v & 0x2_0000 == 0x2_0000) == (v & 0x2_0000 != 0),
        (v & 0x0200_0000 == 0x0200_0000) == (v & 0x0200_0000 != 0),
        (v & 0x4000_0000 == 0x4000_0000) == (v & 0x4000_0000 != 0),
{
    assert({
        &&& (v & 0x1 == 0x1) == (v & 0x1 != 0)
        &&& (v & 0x2 == 0x2) == (v & 0x2 != 0)
        &&& (v & 0x4 == 0x4) == (v & 0x4 != 0)
        &&& (v & 0x8 == 0x8) == (v & 0x8 != 0)
        &&& (v & 0x10 == 0x10) == (v & 0x10 != 0)
        &&& (v & 0x20 == 0x20) == (v & 0x20 != 0)
        &&& (v & 0x1000 == 0x1000) == (v & 0x1000 != 0)
        &&& (v & 0x2000 == 0x2000) == (v & 0x2000 != 0)
        &&& (v & 0x4000 == 0x4000) == (v & 0x4000 != 0)
        &&& (v & 0x1_0000 == 0x1_0000) == (v & 0x1_0000 != 0)
        &&& (v & 0x2_0000 == 0x2_0000) == (v & 0x2_0000 != 0)
        &&& (v & 0x0200_0000 == 0x0200_0000) == (v & 0x0200_0000 != 0)
        &&& (v & 0x4000_0000 == 0x4000_0000) == (v & 0x4000_0000 != 0)
    }) by (bit_vector);
}

/// A typed transfer starts the transfer with the caller's options except
/// for the two address increment modes: after a memory fence, the
/// operations write the same CTCR, CTBR and CCR as a transfer started with
/// those options, so the trigger line, the trigger mode, the software
/// request, the packing, the buffer length, the priority and the swaps are
/// the caller's, while CTCR's increment fields are the transfer's own.
#[verifier::spinoff_prover]
pub proof fn lemma_transfer_ops_keep_options(
    src: usize,
    dst: usize,
    total_bytes: usize,
    src_data_size: DataSize,
    dst_data_size: DataSize,
    options: MdmaTransferOptions,
    source_increment: IncrementMode,
    destination_increment: IncrementMode,
)
    requires
        spec_transfer_size_supported(total_bytes),
    ensures
        ({
            let ops = transfer_ops(
                src,
                dst,
                total_bytes,
                src_data_size,
                dst_data_size,
                options,
                source_increment,
                destination_increment,
            );
            let tcr = ops[7]->Write_value;
            let tbr = ops[10]->Write_value;
            let cr = ops[14]->Write_value;
            &&& ops[0] == ChannelOp::Fence
            &&& ops[5] == ChannelOp::Write { reg: ChannelRegister::Sar, value: src as u32 }
            &&& ops[6] == ChannelOp::Write { reg: ChannelRegister::Dar, value: dst as u32 }
            &&& ops[7] is Write && ops[7]->Write_reg == ChannelRegister::Tcr
            &&& ops[10] is Write && ops[10]->Write_reg == ChannelRegister::Tbr
            &&& ops[14] is Write && ops[14]->Write_reg == ChannelRegister::Cr
            &&& (tcr >> 4u32) & 0x3 == source_increment.spec_bits()
            &&& (tcr >> 10u32) & 0x3 == destination_increment.spec_bits()
            &&& (tcr >> 2u32) & 0x3 == src_data_size.spec_bits()
            &&& (tcr >> 8u32) & 0x3 == dst_data_size.spec_bits()
            &&& (tcr & 0x0200_0000 != 0) == options.packing.spec_pke_pam().0
            &&& ((tcr >> 18u32) & 0x7F) + 1 == spec_effective_buffer_length(
                options.buffer_length,
                src_data_size,
                dst_data_size,
            )
            &&& (tcr & 0x4000_0000 != 0) == options.trigger.is_none()
            &&& (tcr >> 28u32) & 0x3 == match options.trigger {
                Some(_) => options.trigger_mode.spec_bits(),
                None => 0,
            }
            &&& tbr & 0x3F == match options.trigger {
                Some(t) => t.spec_bits(),
                None => 0,
            }
            &&& (cr >> 6u32) & 0x3 == options.priority.spec_bits()
            &&& (cr & 0x1000 != 0) == options.byte_swap
            &&& (cr & 0x2000 != 0) == options.half_word_swap
            &&& (cr & 0x4000 != 0) == options.word_swap
            &&& ops.len() == if options.trigger.is_none() {
                16int
            } else {
                15int
            }
            &&& options.trigger.is_none() ==> ops[15] == ChannelOp::SetBits {
                reg: ChannelRegister::Cr,
                mask: 0x1_0000,
            }
        }),
{
    let o = with_increments(options, source_increment, destination_increment);
    lemma_start_transfer_writes(src as u32, dst as u32, total_bytes, src_data_size, dst_data_size, o);
    let st = start_transfer_ops(src as u32, dst as u32, total_bytes, src_data_size, dst_data_size, o);
    let ops = transfer_ops(
        src,
        dst,
        total_bytes,
        src_data_size,
        dst_data_size,
        options,
        source_increment,
        destination_increment,
    );
    assert(ops == seq![ChannelOp::Fence] + st);
    assert forall|i: int| 0 <= i < st.len() implies ops[i + 1] == st[i] by {}
}

/// The transfer sizes that a channel accepts are exactly the lengths from
/// 1 to 0x1000_0000 bytes that fit in one 64 KiB block, or that some block
/// count from the fewest that can hold them (the length divided by 64 KiB,
/// rounded up) up to 4096 divides; for those the block split moves exactly
/// the length, in blocks of at most 64 KiB and at most 4096 blocks.
#[verifier::spinoff_prover]
pub proof fn lemma_transfer_size_supported(total_bytes: usize)
    ensures
        spec_transfer_size_supported(total_bytes) <==> (0 < total_bytes <= 0x1000_0000 && (total_bytes
            <= 0x10000 || exists|c: int|
            #![trigger (total_bytes as int) % c]
            (total_bytes + 0xFFFF) / 0x10000 <= c <= 0x1000 && (total_bytes as int) % c == 0)),
        spec_transfer_size_supported(total_bytes) ==> ({
            let split = transfer_split(total_bytes, 0x10000);
            &&& split.0 * split.1 == total_bytes
            &&& 1 <= split.0 <= 0x10000
            &&& 1 <= split.1 <= 0x1000
        }),
{
    let n = total_bytes as int;
    let bc0 = first_block_count(total_bytes, 0x10000);
    assert(bc0 == (n + 0xFFFF) / 0x10000);
    if 0 < n <= 0x1000_0000 {
        assert(bc0 <= 0x1000);
    }
    if spec_transfer_size_supported(total_bytes) && total_bytes > 0x10000 {
        let c = choose|c: int|
            #![trigger (total_bytes as int) % c]
            bc0 <= c && (c == bc0 || c <= 0x1000) && (total_bytes as int) % c == 0;
        assert((n + 0xFFFF) / 0x10000 <= c <= 0x1000 && n % c == 0);
    }
    if spec_transfer_size_supported(total_bytes) {
        let (p0, p1) = lemma_transfer_split_exists(total_bytes, 0x10000, 0x1000);
        lemma_transfer_split_unique(total_bytes, 0x10000, p0, p1);
        let split = transfer_split(total_bytes, 0x10000);
        lemma_transfer_split_covers_total(total_bytes, 0x10000, split.0, split.1);
        lemma_transfer_split_count_bound(total_bytes, split.0, split.1);
        assert(split.0 >= 1) by (nonlinear_arith)
            requires
                split.0 * split.1 == total_bytes,
                total_bytes > 0,
        ;
    }
}

/// A transfer size that a channel accepts has a split.
proof fn lemma_transfer_split_exists(total_bytes: usize, max_block: usize, max_blocks: usize) -> (p: (
    usize,
    usize,
))
    requires
        total_bytes <= max_block || max_block > 0,
        factorizable(total_bytes, max_block, max_blocks),
    ensures
        is_transfer_split(total_bytes, max_block, p.0, p.1),
{
    if total_bytes <= max_block {
        (total_bytes, 1)
    } else {
        let bc0 = first_block_count(total_bytes, max_block);
        let c = choose|c: int|
            #![trigger (total_bytes as int) % c]
            bc0 <= c && (c == bc0 || c <= max_blocks) && (total_bytes as int) % c == 0;
        assert(1 <= total_bytes / max_block) by (nonlinear_arith)
            requires
                total_bytes > max_block,
                max_block > 0,
        ;
        let d = lemma_first_divisor_from(total_bytes, bc0, c);
        assert(c <= total_bytes) by {
            if c > total_bytes {
                vstd::arithmetic::div_mod::lemma_small_mod(total_bytes as nat, c as nat);
            }
        }
        ((total_bytes as int / d) as usize, d as usize)
    }
}

/// The least divisor of `n` that is at least `lo`, below a known divisor
/// `c >= lo`.
proof fn lemma_first_divisor_from(n: usize, lo: int, c: int) -> (d: int)
    requires
        1 <= lo <= c,
        (n as int) % c == 0,
    ensures
        lo <= d <= c,
        (n as int) % d == 0,
        forall|k: int| #![trigger (n as int) % k] lo <= k < d ==> (n as int) % k != 0,
    decreases c - lo,
{
    if (n as int) % lo == 0 {
        lo
    } else {
        lemma_first_divisor_from(n, lo + 1, c)
    }
}

/// A split of a transfer that a channel accepts has at most 4096 blocks.
proof fn lemma_transfer_split_count_bound(total_bytes: usize, block_size: usize, block_count: usize)
    requires
        spec_transfer_size_supported(total_bytes),
        is_transfer_split(total_bytes, 0x10000, block_size, block_count),
    ensures
        block_count <= 0x1000,
{
    if total_bytes > 0x10000 {
        let bc0 = first_block_count(total_bytes, 0x10000);
        assert(bc0 <= 0x1000) by (nonlinear_arith)
            requires
                bc0 == total_bytes / 0x10000 + if total_bytes % 0x10000 == 0 { 0int } else { 1int },
                total_bytes <= 0x1000_0000,
        ;
        let c = choose|c: int|
            #![trigger (total_bytes as int) % c]
            bc0 <= c && (c == bc0 || c <= 0x1000) && (total_bytes as int) % c == 0;
        if block_count > c {
            assert((total_bytes as int) % c != 0);
        }
    }
}

/// The effective buffer length is between 1 and 128 bytes.
proof fn lemma_effective_buffer_length_range(buffer_length: u8, src: DataSize, dst: DataSize)
    ensures
        1 <= spec_effective_buffer_length(buffer_length, src, dst) <= 128,
{
    lemma_data_size_lcm(src, dst);
    let unit = spec_lcm(src.spec_bytes() as nat, dst.spec_bytes() as nat);
    let len = clamp_buffer_length(buffer_length) as nat;
    assert(len / unit * unit <= len) by (nonlinear_arith)
        requires
            unit >= 1,
    ;
}

} // verus!
