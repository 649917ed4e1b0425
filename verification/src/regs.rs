//! MDMA register map and register-image builders.
//!
//! The builders compose register images from field values. Their contracts
//! state, field by field, what a read of the image gives back.

use vstd::prelude::*;

pub mod bndtr;
pub mod cr;
pub mod ifcr;
pub mod isr;
pub mod tbr;
pub mod tcr;

verus! {

/// MDMA peripheral base address.
pub const MDMA_BASE: u32 = 0x5200_0000;

/// The field of `width_mask` bits that starts at bit `shift` of `v`.
pub open spec fn field(v: u32, shift: u32, width_mask: u32) -> u32 {
    (v >> shift) & width_mask
}

/// Whether every bit of `mask` is set in `v`.
pub open spec fn has_bits(v: u32, mask: u32) -> bool {
    v & mask == mask
}

// ─── Channel register block ─────────────────────────────────────────

/// The registers of one MDMA channel.
#[derive(Debug, Clone, Copy, PartialEq, Eq, Structural)]
pub enum ChannelRegister {
    /// CISR, interrupt/status.
    Isr,
    /// CIFCR, interrupt flag clear.
    Ifcr,
    /// CESR, error status.
    Esr,
    /// CCR, control.
    Cr,
    /// CTCR, transfer configuration.
    Tcr,
    /// CBNDTR, block number of data.
    Bndtr,
    /// CSAR, source address.
    Sar,
    /// CDAR, destination address.
    Dar,
    /// CBRUR, block repeat address update.
    Brur,
    /// CLAR, link address.
    Lar,
    /// CTBR, trigger and bus selection.
    Tbr,
    /// CMAR, mask address.
    Mar,
    /// CMDR, mask data.
    Mdr,
}

impl ChannelRegister {
    /// Byte offset of the register inside a channel's register block.
    pub open spec fn spec_offset(self) -> u32 {
        match self {
            ChannelRegister::Isr => 0x00,
            ChannelRegister::Ifcr => 0x04,
            ChannelRegister::Esr => 0x08,
            ChannelRegister::Cr => 0x10,
            ChannelRegister::Tcr => 0x14,
            ChannelRegister::Bndtr => 0x18,
            ChannelRegister::Sar => 0x1C,
            ChannelRegister::Dar => 0x20,
            ChannelRegister::Brur => 0x24,
            ChannelRegister::Lar => 0x28,
            ChannelRegister::Tbr => 0x2C,
            ChannelRegister::Mar => 0x34,
            ChannelRegister::Mdr => 0x38,
        }
    }

    /// Byte offset of the register inside a channel's register block.
    #[verifier::when_used_as_spec(spec_offset)]
    pub fn offset(self) -> (r: u32)
        ensures
            r == self.spec_offset(),
            r < 0x40,
            r % 4 == 0,
    {
        match self {
            ChannelRegister::Isr => 0x00,
            ChannelRegister::Ifcr => 0x04,
            ChannelRegister::Esr => 0x08,
            ChannelRegister::Cr => 0x10,
            ChannelRegister::Tcr => 0x14,
            ChannelRegister::Bndtr => 0x18,
            ChannelRegister::Sar => 0x1C,
            ChannelRegister::Dar => 0x20,
            ChannelRegister::Brur => 0x24,
            ChannelRegister::Lar => 0x28,
            ChannelRegister::Tbr => 0x2C,
            ChannelRegister::Mar => 0x34,
            ChannelRegister::Mdr => 0x38,
        }
    }
}

/// Base address of the register block of channel `ch`: `0x40 + ch * 0x40`
/// bytes past the peripheral base.
pub open spec fn spec_ch_base(ch: usize) -> int {
    MDMA_BASE + 0x40 + (ch as u32) * 0x40
}

/// Base address of the register block of channel `ch`.
pub fn ch_base(ch: usize) -> (r: u32)
    requires
        spec_ch_base(ch) <= u32::MAX,
    ensures
        r == spec_ch_base(ch),
{
    MDMA_BASE + 0x40 + (ch as u32) * 0x40
}

/// Address of register `reg` of channel `ch`.
pub fn register_address(ch: usize, reg: ChannelRegister) -> (r: u32)
    requires
        spec_ch_base(ch) + reg.spec_offset() <= u32::MAX,
    ensures
        r == spec_ch_base(ch) + reg.spec_offset(),
{
    ch_base(ch) + reg.offset()
}

/// Registers of different channels, and different registers of one
/// channel, lie at different addresses.
pub proof fn lemma_register_addresses_distinct(
    ch1: usize,
    reg1: ChannelRegister,
    ch2: usize,
    reg2: ChannelRegister,
)
    requires
        ch1 < crate::mdma::MDMA_CHANNEL_COUNT,
        ch2 < crate::mdma::MDMA_CHANNEL_COUNT,
        (ch1, reg1) != (ch2, reg2),
    ensures
        spec_ch_base(ch1) + reg1.spec_offset() != spec_ch_base(ch2) + reg2.spec_offset(),
{
    assert((ch1 as u32) == ch1 && (ch2 as u32) == ch2);
    if ch1 == ch2 {
        assert(reg1 != reg2);
    } else if ch1 < ch2 {
        assert((ch1 as u32) * 0x40 + 0x40 <= (ch2 as u32) * 0x40);
    } else {
        assert((ch2 as u32) * 0x40 + 0x40 <= (ch1 as u32) * 0x40);
    }
}

// ─── Register-image builders ─────────────────────────────────────────

/// The bit `mask` when `flag` holds, else no bit.
pub open spec fn bit_if(flag: bool, mask: u32) -> u32 {
    if flag {
        mask
    } else {
        0
    }
}

/// The CTCR image that `build_tcr` composes.
pub open spec fn tcr_image(
    sincos: u32,
    ssize: u32,
    sinc: u32,
    dincos: u32,
    dsize: u32,
    dinc: u32,
    sburst: u32,
    dburst: u32,
    tlen: u32,
    pke: bool,
    pam: u32,
    trgm: u32,
    swrm: bool,
) -> u32 {
    (sincos & 0x3) << 0u32 | (ssize & 0x3) << 2u32 | (sinc & 0x3) << 4u32 | (dincos & 0x3) << 6u32
        | (dsize & 0x3) << 8u32 | (dinc & 0x3) << 10u32 | (sburst & 0x7) << 12u32 | (dburst & 0x7)
        << 15u32 | (tlen & 0x7F) << 18u32 | bit_if(pke, 0x0200_0000) | (pam & 0x3) << 26u32 | (trgm
        & 0x3) << 28u32 | bit_if(swrm, 0x4000_0000)
}

/// Each field of a CTCR image reads back as the value it was built from,
/// cut to the field's width; BWM stays clear.
pub proof fn lemma_tcr_image_fields(
    sincos: u32,
    ssize: u32,
    sinc: u32,
    dincos: u32,
    dsize: u32,
    dinc: u32,
    sburst: u32,
    dburst: u32,
    tlen: u32,
    pke: bool,
    pam: u32,
    trgm: u32,
    swrm: bool,
)
    ensures
        ({
            let r = tcr_image(
                sincos,
                ssize,
                sinc,
                dincos,
                dsize,
                dinc,
                sburst,
                dburst,
                tlen,
                pke,
                pam,
                trgm,
                swrm,
            );
            &&& field(r, tcr::SINCOS_SHIFT, 0x3) == sincos & 0x3
            &&& field(r, tcr::SSIZE_SHIFT, 0x3) == ssize & 0x3
            &&& field(r, tcr::SINC_SHIFT, 0x3) == sinc & 0x3
            &&& field(r, tcr::DINCOS_SHIFT, 0x3) == dincos & 0x3
            &&& field(r, tcr::DSIZE_SHIFT, 0x3) == dsize & 0x3
            &&& field(r, tcr::DINC_SHIFT, 0x3) == dinc & 0x3
            &&& field(r, tcr::SBURST_SHIFT, 0x7) == sburst & 0x7
            &&& field(r, tcr::DBURST_SHIFT, 0x7) == dburst & 0x7
            &&& field(r, tcr::TLEN_SHIFT, 0x7F) == tlen & 0x7F
            &&& has_bits(r, tcr::PKE) == pke
            &&& field(r, tcr::PAM_SHIFT, 0x3) == pam & 0x3
            &&& field(r, tcr::TRGM_SHIFT, 0x3) == trgm & 0x3
            &&& has_bits(r, tcr::SWRM) == swrm
            &&& r & tcr::BWM == 0
        }),
{
    let p = bit_if(pke, 0x0200_0000);
    let s = bit_if(swrm, 0x4000_0000);
    assert({
        let v = (sincos & 0x3) << 0u32 | (ssize & 0x3) << 2u32 | (sinc & 0x3) << 4u32 | (dincos & 0x3)
            << 6u32 | (dsize & 0x3) << 8u32 | (dinc & 0x3) << 10u32 | (sburst & 0x7) << 12u32 | (dburst
            & 0x7) << 15u32 | (tlen & 0x7F) << 18u32 | p | (pam & 0x3) << 26u32 | (trgm & 0x3) << 28u32
            | s;
        &&& (v >> 0u32) & 0x3 == sincos & 0x3
        &&& (v >> 2u32) & 0x3 == ssize & 0x3
        &&& (v >> 4u32) & 0x3 == sinc & 0x3
        &&& (v >> 6u32) & 0x3 == dincos & 0x3
        &&& (v >> 8u32) & 0x3 == dsize & 0x3
        &&& (v >> 10u32) & 0x3 == dinc & 0x3
        &&& (v >> 12u32) & 0x7 == sburst & 0x7
        &&& (v >> 15u32) & 0x7 == dburst & 0x7
        &&& (v >> 18u32) & 0x7F == tlen & 0x7F
        &&& (v & 0x0200_0000u32 == 0x0200_0000u32) == (p == 0x0200_0000u32)
        &&& (v >> 26u32) & 0x3 == pam & 0x3
        &&& (v >> 28u32) & 0x3 == trgm & 0x3
        &&& (v & 0x4000_0000u32 == 0x4000_0000u32) == (s == 0x4000_0000u32)
        &&& v & 0x8000_0000u32 == 0
    }) by (bit_vector)
        requires
            p == 0 || p == 0x0200_0000u32,
            s == 0 || s == 0x4000_0000u32,
    ;
}

/// Build a CTCR register value from individual field values.
pub fn build_tcr(
    sincos: u32,
    ssize: u32,
    sinc: u32,
    dincos: u32,
    dsize: u32,
    dinc: u32,
    sburst: u32,
    dburst: u32,
    tlen: u32,
    pke: bool,
    pam: u32,
    trgm: u32,
    swrm: bool,
) -> (r: u32)
    ensures
        r == tcr_image(
            sincos,
            ssize,
            sinc,
            dincos,
            dsize,
            dinc,
            sburst,
            dburst,
            tlen,
            pke,
            pam,
            trgm,
            swrm,
        ),
        field(r, tcr::SINCOS_SHIFT, 0x3) == sincos & 0x3,
        field(r, tcr::SSIZE_SHIFT, 0x3) == ssize & 0x3,
        field(r, tcr::SINC_SHIFT, 0x3) == sinc & 0x3,
        field(r, tcr::DINCOS_SHIFT, 0x3) == dincos & 0x3,
        field(r, tcr::DSIZE_SHIFT, 0x3) == dsize & 0x3,
        field(r, tcr::DINC_SHIFT, 0x3) == dinc & 0x3,
        field(r, tcr::SBURST_SHIFT, 0x7) == sburst & 0x7,
        field(r, tcr::DBURST_SHIFT, 0x7) == dburst & 0x7,
        field(r, tcr::TLEN_SHIFT, 0x7F) == tlen & 0x7F,
        has_bits(r, tcr::PKE) == pke,
        field(r, tcr::PAM_SHIFT, 0x3) == pam & 0x3,
        field(r, tcr::TRGM_SHIFT, 0x3) == trgm & 0x3,
        has_bits(r, tcr::SWRM) == swrm,
        r & tcr::BWM == 0,
{
    proof {
        lemma_tcr_image_fields(sincos, ssize, sinc, dincos, dsize, dinc, sburst, dburst, tlen, pke, pam, trgm, swrm);
    }
    (sincos & 0x3) << tcr::SINCOS_SHIFT | (ssize & 0x3) << tcr::SSIZE_SHIFT | (sinc & 0x3)
        << tcr::SINC_SHIFT | (dincos & 0x3) << tcr::DINCOS_SHIFT | (dsize & 0x3) << tcr::DSIZE_SHIFT
        | (dinc & 0x3) << tcr::DINC_SHIFT | (sburst & 0x7) << tcr::SBURST_SHIFT | (dburst & 0x7)
        << tcr::DBURST_SHIFT | (tlen & 0x7F) << tcr::TLEN_SHIFT | if pke {
        tcr::PKE
    } else {
        0
    } | (pam & 0x3) << tcr::PAM_SHIFT | (trgm & 0x3) << tcr::TRGM_SHIFT | if swrm {
        tcr::SWRM
    } else {
        0
    }
}

/// The CBNDTR image that `build_bndtr` composes.
pub open spec fn bndtr_image(bndt: u32, brc: u32, brsum: bool, brdum: bool) -> u32 {
    (bndt & 0x1_FFFF) | ((brc & 0xFFF) << 20u32) | bit_if(brsum, 0x4_0000) | bit_if(brdum, 0x8_0000)
}

/// Each field of a CBNDTR image reads back as the value it was built from,
/// cut to the field's width.
pub proof fn lemma_bndtr_image_fields(bndt: u32, brc: u32, brsum: bool, brdum: bool)
    ensures
        ({
            let r = bndtr_image(bndt, brc, brsum, brdum);
            &&& r & bndtr::BNDT_MASK == bndt & 0x1_FFFF
            &&& field(r, bndtr::BRC_SHIFT, 0xFFF) == brc & 0xFFF
            &&& has_bits(r, bndtr::BRSUM) == brsum
            &&& has_bits(r, bndtr::BRDUM) == brdum
        }),
{
    let a = bit_if(brsum, 0x4_0000);
    let b = bit_if(brdum, 0x8_0000);
    assert({
        let v = (bndt & 0x1_FFFF) | ((brc & 0xFFF) << 20u32) | a | b;
        &&& v & 0x1_FFFF == bndt & 0x1_FFFF
        &&& (v >> 20u32) & 0xFFF == brc & 0xFFF
        &&& (v & 0x4_0000u32 == 0x4_0000u32) == (a == 0x4_0000u32)
        &&& (v & 0x8_0000u32 == 0x8_0000u32) == (b == 0x8_0000u32)
    }) by (bit_vector)
        requires
            a == 0 || a == 0x4_0000u32,
            b == 0 || b == 0x8_0000u32,
    ;
}

/// Build a CBNDTR register value.
pub fn build_bndtr(bndt: u32, brc: u32, brsum: bool, brdum: bool) -> (r: u32)
    ensures
        r == bndtr_image(bndt, brc, brsum, brdum),
        r & bndtr::BNDT_MASK == bndt & 0x1_FFFF,
        field(r, bndtr::BRC_SHIFT, 0xFFF) == brc & 0xFFF,
        has_bits(r, bndtr::BRSUM) == brsum,
        has_bits(r, bndtr::BRDUM) == brdum,
{
    proof {
        lemma_bndtr_image_fields(bndt, brc, brsum, brdum);
    }
    (bndt & bndtr::BNDT_MASK) | ((brc & 0xFFF) << bndtr::BRC_SHIFT) | if brsum {
        bndtr::BRSUM
    } else {
        0
    } | if brdum {
        bndtr::BRDUM
    } else {
        0
    }
}

/// The CTBR image that `build_tbr` composes.
pub open spec fn tbr_image(tsel: u32, sbus_ahb: bool, dbus_ahb: bool) -> u32 {
    (tsel & 0x3F) | bit_if(sbus_ahb, 0x1_0000) | bit_if(dbus_ahb, 0x2_0000)
}

/// Each field of a CTBR image reads back as the value it was built from,
/// cut to the field's width; the other bits stay clear.
pub proof fn lemma_tbr_image_fields(tsel: u32, sbus_ahb: bool, dbus_ahb: bool)
    ensures
        ({
            let r = tbr_image(tsel, sbus_ahb, dbus_ahb);
            &&& r & tbr::TSEL_MASK == tsel & 0x3F
            &&& has_bits(r, tbr::SBUS) == sbus_ahb
            &&& has_bits(r, tbr::DBUS) == dbus_ahb
            &&& r & !(tbr::TSEL_MASK | tbr::SBUS | tbr::DBUS) == 0
        }),
{
    let a = bit_if(sbus_ahb, 0x1_0000);
    let b = bit_if(dbus_ahb, 0x2_0000);
    assert({
        let v = (tsel & 0x3F) | a | b;
        &&& v & 0x3F == tsel & 0x3F
        &&& (v & 0x1_0000u32 == 0x1_0000u32) == (a == 0x1_0000u32)
        &&& (v & 0x2_0000u32 == 0x2_0000u32) == (b == 0x2_0000u32)
        &&& v & !(0x3Fu32 | 0x1_0000u32 | 0x2_0000u32) == 0
    }) by (bit_vector)
        requires
            a == 0 || a == 0x1_0000u32,
            b == 0 || b == 0x2_0000u32,
    ;
}

/// Build a CTBR register value.
pub fn build_tbr(tsel: u32, sbus_ahb: bool, dbus_ahb: bool) -> (r: u32)
    ensures
        r == tbr_image(tsel, sbus_ahb, dbus_ahb),
        r & tbr::TSEL_MASK == tsel & 0x3F,
        has_bits(r, tbr::SBUS) == sbus_ahb,
        has_bits(r, tbr::DBUS) == dbus_ahb,
        r & !(tbr::TSEL_MASK | tbr::SBUS | tbr::DBUS) == 0,
{
    proof {
        lemma_tbr_image_fields(tsel, sbus_ahb, dbus_ahb);
    }
    (tsel & tbr::TSEL_MASK) | if sbus_ahb {
        tbr::SBUS
    } else {
        0
    } | if dbus_ahb {
        tbr::DBUS
    } else {
        0
    }
}

/// The CCR image that `build_cr` composes.
pub open spec fn cr_image(
    pl: u32,
    teie: bool,
    ctcie: bool,
    brtie: bool,
    btie: bool,
    tcie: bool,
    bex: bool,
    hex: bool,
    wex: bool,
    en: bool,
) -> u32 {
    bit_if(en, 0x1) | bit_if(teie, 0x2) | bit_if(ctcie, 0x4) | bit_if(brtie, 0x8) | bit_if(btie, 0x10)
        | bit_if(tcie, 0x20) | (pl & 0x3) << 6u32 | bit_if(bex, 0x1000) | bit_if(hex, 0x2000) | bit_if(
        wex,
        0x4000,
    )
}

/// Each field of a CCR image reads back as the value it was built from, cut
/// to the field's width; SWRQ and the other bits stay clear.
pub proof fn lemma_cr_image_fields(
    pl: u32,
    teie: bool,
    ctcie: bool,
    brtie: bool,
    btie: bool,
    tcie: bool,
    bex: bool,
    hex: bool,
    wex: bool,
    en: bool,
)
    ensures
        ({
            let r = cr_image(pl, teie, ctcie, brtie, btie, tcie, bex, hex, wex, en);
            &&& has_bits(r, cr::EN) == en
            &&& has_bits(r, cr::TEIE) == teie
            &&& has_bits(r, cr::CTCIE) == ctcie
            &&& has_bits(r, cr::BRTIE) == brtie
            &&& has_bits(r, cr::BTIE) == btie
            &&& has_bits(r, cr::TCIE) == tcie
            &&& field(r, cr::PL_SHIFT, 0x3) == pl & 0x3
            &&& has_bits(r, cr::BEX) == bex
            &&& has_bits(r, cr::HEX) == hex
            &&& has_bits(r, cr::WEX) == wex
            &&& r & cr::SWRQ == 0
            &&& r & !(0x70FFu32) == 0
        }),
{
    let b0 = bit_if(en, 0x1);
    let b1 = bit_if(teie, 0x2);
    let b2 = bit_if(ctcie, 0x4);
    let b3 = bit_if(brtie, 0x8);
    let b4 = bit_if(btie, 0x10);
    let b5 = bit_if(tcie, 0x20);
    let b12 = bit_if(bex, 0x1000);
    let b13 = bit_if(hex, 0x2000);
    let b14 = bit_if(wex, 0x4000);
    assert({
        let v = b0 | b1 | b2 | b3 | b4 | b5 | (pl & 0x3) << 6u32 | b12 | b13 | b14;
        &&& (v & 0x1 == 0x1) == (b0 == 0x1)
        &&& (v & 0x2 == 0x2) == (b1 == 0x2)
        &&& (v & 0x4 == 0x4) == (b2 == 0x4)
        &&& (v & 0x8 == 0x8) == (b3 == 0x8)
        &&& (v & 0x10 == 0x10) == (b4 == 0x10)
        &&& (v & 0x20 == 0x20) == (b5 == 0x20)
        &&& (v >> 6u32) & 0x3 == pl & 0x3
        &&& (v & 0x1000 == 0x1000) == (b12 == 0x1000)
        &&& (v & 0x2000 == 0x2000) == (b13 == 0x2000)
        &&& (v & 0x4000 == 0x4000) == (b14 == 0x4000)
        &&& v & 0x1_0000 == 0
        &&& v & !(0x70FFu32) == 0
    }) by (bit_vector)
        requires
            b0 == 0 || b0 == 0x1,
            b1 == 0 || b1 == 0x2,
            b2 == 0 || b2 == 0x4,
            b3 == 0 || b3 == 0x8,
            b4 == 0 || b4 == 0x10,
            b5 == 0 || b5 == 0x20,
            b12 == 0 || b12 == 0x1000,
            b13 == 0 || b13 == 0x2000,
            b14 == 0 || b14 == 0x4000,
    ;
}

/// Build a CCR register value.
pub fn build_cr(
    pl: u32,
    teie: bool,
    ctcie: bool,
    brtie: bool,
    btie: bool,
    tcie: bool,
    bex: bool,
    hex: bool,
    wex: bool,
    en: bool,
) -> (r: u32)
    ensures
        r == cr_image(pl, teie, ctcie, brtie, btie, tcie, bex, hex, wex, en),
        has_bits(r, cr::EN) == en,
        has_bits(r, cr::TEIE) == teie,
        has_bits(r, cr::CTCIE) == ctcie,
        has_bits(r, cr::BRTIE) == brtie,
        has_bits(r, cr::BTIE) == btie,
        has_bits(r, cr::TCIE) == tcie,
        field(r, cr::PL_SHIFT, 0x3) == pl & 0x3,
        has_bits(r, cr::BEX) == bex,
        has_bits(r, cr::HEX) == hex,
        has_bits(r, cr::WEX) == wex,
        r & cr::SWRQ == 0,
        r & !(0x70FFu32) == 0,
{
    let mut cr_val = 0u32;

    if en {
        cr_val |= cr::EN;
    }
    if teie {
        cr_val |= cr::TEIE;
    }
    if ctcie {
        cr_val |= cr::CTCIE;
    }
    if brtie {
        cr_val |= cr::BRTIE;
    }
    if btie {
        cr_val |= cr::BTIE;
    }
    if tcie {
        cr_val |= cr::TCIE;
    }

    cr_val |= (pl & 0x3) << cr::PL_SHIFT;

    if bex {
        cr_val |= cr::BEX;
    }
    if hex {
        cr_val |= cr::HEX;
    }
    if wex {
        cr_val |= cr::WEX;
    }
    proof {
        assert(forall|x: u32| #[trigger] (x | 0u32) == x) by (bit_vector);
        assert(forall|x: u32| #[trigger] (0u32 | x) == x) by (bit_vector);
        lemma_cr_image_fields(pl, teie, ctcie, brtie, btie, tcie, bex, hex, wex, en);
    }
    cr_val
}

} // verus!
