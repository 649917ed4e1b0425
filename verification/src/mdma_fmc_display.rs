//! MDMA-accelerated FMC display driver.
//!
//! Pixel data goes from any memory region (DTCM included) to the data
//! register of a parallel display on the FMC bus by MDMA, the CPU writing
//! only the short command sequences. The driver computes the command
//! sequences and the channel operations of each transfer.

use vstd::prelude::*;

use crate::mdma::{
    slice_transfer_supported, transfer_ops, ChannelOp, DataSize, IncrementMode, MdmaChannel,
    MdmaTransferOptions, PackingAlignment, Priority, TriggerMode,
};

verus! {

broadcast use vstd::layout::layout_of_primitives;

/// One bus write to the display.
#[derive(Debug, Clone, Copy, PartialEq, Eq, Structural)]
pub enum DisplayWrite {
    /// A write to the command address (RS/DC low).
    Command(u16),
    /// A write to the data address (RS/DC high).
    Data(u16),
}

/// A display update: the command sequence that selects the window, then
/// the pixel transfer, if there is anything to transfer.
pub struct DisplayUpdate {
    pub window: Vec<DisplayWrite>,
    pub transfer: Option<Vec<ChannelOp>>,
}

/// The transfer options of a display driver: very high priority, software
/// triggered, block trigger mode, 128-byte buffers, source incrementing,
/// destination fixed, packed, no swaps.
pub open spec fn display_transfer_options() -> MdmaTransferOptions {
    MdmaTransferOptions {
        priority: Priority::VeryHigh,
        trigger: None,
        trigger_mode: TriggerMode::Block,
        buffer_length: 128,
        source_increment: IncrementMode::Increment,
        destination_increment: IncrementMode::Fixed,
        packing: PackingAlignment::Pack,
        byte_swap: false,
        half_word_swap: false,
        word_swap: false,
    }
}

/// What every display's transfer options keep: software triggered, block
/// trigger mode, source incrementing, destination fixed, packed (so items of
/// any size are packed into the 16-bit data register), no swaps, and a buffer
/// length in `1 ..= 128`. Only the priority and the buffer length change.
pub open spec fn display_options_hold(o: MdmaTransferOptions) -> bool {
    &&& o.trigger.is_none()
    &&& o.trigger_mode == TriggerMode::Block
    &&& o.source_increment == IncrementMode::Increment
    &&& o.destination_increment == IncrementMode::Fixed
    &&& o.packing == PackingAlignment::Pack
    &&& !o.byte_swap
    &&& !o.half_word_swap
    &&& !o.word_swap
    &&& 1 <= o.buffer_length <= 128
}

/// The command sequence of an ILI9341/ST7789-style controller that selects
/// the window from `(x0, y0)` to `(x1, y1)` and starts a memory write: column
/// address set (0x2A) and page address set (0x2B), each with its two
/// coordinates high byte first, then memory write (0x2C).
pub open spec fn address_window_writes(x0: u16, y0: u16, x1: u16, y1: u16) -> Seq<DisplayWrite> {
    seq![
        DisplayWrite::Command(0x2A),
        DisplayWrite::Data(x0 >> 8),
        DisplayWrite::Data(x0 & 0xFF),
        DisplayWrite::Data(x1 >> 8),
        DisplayWrite::Data(x1 & 0xFF),
        DisplayWrite::Command(0x2B),
        DisplayWrite::Data(y0 >> 8),
        DisplayWrite::Data(y0 & 0xFF),
        DisplayWrite::Data(y1 >> 8),
        DisplayWrite::Data(y1 & 0xFF),
        DisplayWrite::Command(0x2C),
    ]
}

/// The value of a data write, or 0 for a command.
pub open spec fn data_value(w: DisplayWrite) -> u16 {
    match w {
        DisplayWrite::Data(v) => v,
        DisplayWrite::Command(_) => 0,
    }
}

/// Each coordinate of a window goes out as two bytes, high byte first, that
/// give the coordinate back: `high * 256 + low`.
pub proof fn lemma_address_window_encodes(x0: u16, y0: u16, x1: u16, y1: u16)
    ensures
        ({
            let w = address_window_writes(x0, y0, x1, y1);
            &&& data_value(w[1]) * 256 + data_value(w[2]) == x0
            &&& data_value(w[3]) * 256 + data_value(w[4]) == x1
            &&& data_value(w[6]) * 256 + data_value(w[7]) == y0
            &&& data_value(w[8]) * 256 + data_value(w[9]) == y1
            &&& forall|i: int| 1 <= i < 11 && i != 5 && i != 10 ==> data_value(#[trigger] w[i]) < 256
        }),
{
    assert(forall|v: u16| #[trigger] ((v >> 8u16) as int) * 256 + ((v & 0xFFu16) as int) == v as int)
        by (bit_vector);
    assert(forall|v: u16| #[trigger] (v >> 8u16) < 256 && (v & 0xFFu16) < 256) by (bit_vector);
    let w = address_window_writes(x0, y0, x1, y1);
    assert(x0 >> 8u16 < 256 && x0 & 0xFFu16 < 256);
    assert(x1 >> 8u16 < 256 && x1 & 0xFFu16 < 256);
    assert(y0 >> 8u16 < 256 && y0 & 0xFFu16 < 256);
    assert(y1 >> 8u16 < 256 && y1 & 0xFFu16 < 256);
}

/// The channel operations that write `len` elements of type `T` at `addr`
/// to the display's data address, or none when there are no elements.
pub open spec fn pixel_transfer(
    data_addr: usize,
    options: MdmaTransferOptions,
    addr: usize,
    len: usize,
    elem_bytes: nat,
    src_size: DataSize,
) -> Option<Seq<ChannelOp>> {
    if len == 0 {
        None
    } else {
        Some(
            seq![ChannelOp::Fence] + transfer_ops(
                addr,
                data_addr,
                (len * elem_bytes) as usize,
                src_size,
                DataSize::HalfWord,
                options,
                IncrementMode::Increment,
                IncrementMode::Fixed,
            ),
        )
    }
}

/// The view of an optional operation list.
pub open spec fn ops_view(ops: Option<Vec<ChannelOp>>) -> Option<Seq<ChannelOp>> {
    match ops {
        Some(v) => Some(v@),
        None => None,
    }
}

/// The mutable borrow `x`, handed on.
fn lend<T>(x: &mut T) -> (r: &mut T)
    ensures
        *r == *old(x),
        *final(x) == *final(r),
    no_unwind
{
    x
}

/// MDMA-accelerated FMC display interface: an MDMA channel and the display's
/// data and command addresses.
pub struct MdmaFmcDisplay<'d> {
    channel: MdmaChannel<'d>,
    data_addr: usize,
    cmd_addr: usize,
    options: MdmaTransferOptions,
}

impl<'d> MdmaFmcDisplay<'d> {
    #[verifier::type_invariant]
    spec fn options_hold(self) -> bool {
        display_options_hold(self.options)
    }

    /// The MDMA channel of the display.
    pub closed spec fn channel(&self) -> MdmaChannel<'d> {
        self.channel
    }

    /// The FMC address of data writes.
    pub closed spec fn data_address(&self) -> usize {
        self.data_addr
    }

    /// The FMC address of command writes.
    pub closed spec fn command_address(&self) -> usize {
        self.cmd_addr
    }

    /// The options of the display's transfers.
    pub closed spec fn transfer_options(&self) -> MdmaTransferOptions {
        self.options
    }

    /// A display driver on MDMA channel `mdma_channel` (below 16), with data
    /// writes to `data_addr` and command writes to `cmd_addr`.
    pub fn new(mdma_channel: u8, data_addr: usize, cmd_addr: usize) -> (r: Self)
        requires
            mdma_channel < crate::mdma::MDMA_CHANNEL_COUNT,
        ensures
            r.channel().index() == mdma_channel,
            r.data_address() == data_addr,
            r.command_address() == cmd_addr,
            r.transfer_options() == display_transfer_options(),
            display_options_hold(r.transfer_options()),
    {
        Self {
            channel: MdmaChannel::new(mdma_channel),
            data_addr,
            cmd_addr,
            options: MdmaTransferOptions {
                priority: Priority::VeryHigh,
                trigger: None,
                trigger_mode: TriggerMode::Block,
                buffer_length: 128,
                source_increment: IncrementMode::Increment,
                destination_increment: IncrementMode::Fixed,
                packing: PackingAlignment::default(),
                byte_swap: false,
                half_word_swap: false,
                word_swap: false,
            },
        }
    }

    /// The FMC address of data writes.
    pub fn data_addr(&self) -> (r: usize)
        ensures
            r == self.data_address(),
    {
        self.data_addr
    }

    /// The FMC address of command writes.
    pub fn cmd_addr(&self) -> (r: usize)
        ensures
            r == self.command_address(),
    {
        self.cmd_addr
    }

    /// The command sequence that selects the window from `(x0, y0)` to
    /// `(x1, y1)` and prepares the display for pixel writes; afterwards
    /// `(x1 - x0 + 1) * (y1 - y0 + 1)` pixels are expected.
    pub fn set_address_window(&self, x0: u16, y0: u16, x1: u16, y1: u16) -> (r: Vec<DisplayWrite>)
        ensures
            r@ == address_window_writes(x0, y0, x1, y1),
    {
        vec![
            // Column Address Set
            DisplayWrite::Command(0x2A),
            DisplayWrite::Data(x0 >> 8),
            DisplayWrite::Data(x0 & 0xFF),
            DisplayWrite::Data(x1 >> 8),
            DisplayWrite::Data(x1 & 0xFF),
            // Page Address Set
            DisplayWrite::Command(0x2B),
            DisplayWrite::Data(y0 >> 8),
            DisplayWrite::Data(y0 & 0xFF),
            DisplayWrite::Data(y1 >> 8),
            DisplayWrite::Data(y1 & 0xFF),
            // Memory Write
            DisplayWrite::Command(0x2C),
        ]
    }

    /// The channel operations that write the `len` RGB565 pixels at
    /// `pixels_addr` to the display, or none for no pixels.
    pub fn write_pixels(&self, pixels_addr: usize, len: usize) -> (r: Option<Vec<ChannelOp>>)
        requires
            len == 0 || slice_transfer_supported(len, 2),
        ensures
            display_options_hold(self.transfer_options()),
            ops_view(r) == pixel_transfer(
                self.data_address(),
                self.transfer_options(),
                pixels_addr,
                len,
                2,
                DataSize::HalfWord,
            ),
    {
        proof {
            use_type_invariant(self);
        }
        if len == 0 {
            return None;
        }
        let mut ops = vec![ChannelOp::Fence];
        let mut transfer = self.channel.write_to_peripheral::<u16>(
            pixels_addr,
            len,
            self.data_addr,
            &self.options,
        );
        ops.append(&mut transfer);
        Some(ops)
    }

    /// The channel operations that write the `len` words at `pixels_addr`,
    /// two RGB565 pixels each, to the display's 16-bit data register, or none
    /// for no words.
    pub fn write_pixels_packed_u32(&self, pixels_addr: usize, len: usize) -> (r: Option<Vec<ChannelOp>>)
        requires
            len == 0 || slice_transfer_supported(len, 4),
        ensures
            display_options_hold(self.transfer_options()),
            ops_view(r) == pixel_transfer(
                self.data_address(),
                self.transfer_options(),
                pixels_addr,
                len,
                4,
                DataSize::Word,
            ),
    {
        proof {
            use_type_invariant(self);
        }
        if len == 0 {
            return None;
        }
        let mut ops = vec![ChannelOp::Fence];
        let mut transfer = self.channel.write_to_peripheral_packed::<u32, u16>(
            pixels_addr,
            len,
            self.data_addr,
            &self.options,
        );
        ops.append(&mut transfer);
        Some(ops)
    }

    /// The channel operations that write the `len` bytes at `data_addr` to
    /// the display's 16-bit data register, or none for no bytes.
    pub fn write_data_bytes(&self, data_addr: usize, len: usize) -> (r: Option<Vec<ChannelOp>>)
        requires
            len == 0 || slice_transfer_supported(len, 1),
        ensures
            display_options_hold(self.transfer_options()),
            ops_view(r) == pixel_transfer(
                self.data_address(),
                self.transfer_options(),
                data_addr,
                len,
                1,
                DataSize::Byte,
            ),
    {
        proof {
            use_type_invariant(self);
        }
        if len == 0 {
            return None;
        }
        let mut ops = vec![ChannelOp::Fence];
        let mut transfer = self.channel.write_to_peripheral_packed::<u8, u16>(
            data_addr,
            len,
            self.data_addr,
            &self.options,
        );
        ops.append(&mut transfer);
        Some(ops)
    }

    /// A full-screen update: the window `(0, 0)` to `(width - 1, height - 1)`,
    /// then the `len` pixels at `pixels_addr`.
    pub fn write_framebuffer(&self, width: u16, height: u16, pixels_addr: usize, len: usize) -> (r:
        DisplayUpdate)
        requires
            width >= 1,
            height >= 1,
            len == 0 || slice_transfer_supported(len, 2),
        ensures
            display_options_hold(self.transfer_options()),
            r.window@ == address_window_writes(0, 0, (width - 1) as u16, (height - 1) as u16),
            ops_view(r.transfer) == pixel_transfer(
                self.data_address(),
                self.transfer_options(),
                pixels_addr,
                len,
                2,
                DataSize::HalfWord,
            ),
    {
        let window = self.set_address_window(0, 0, width - 1, height - 1);
        let transfer = self.write_pixels(pixels_addr, len);
        DisplayUpdate { window, transfer }
    }

    /// A partial update of the `w` by `h` rectangle at `(x, y)` with the first
    /// `w * h` of the `len` pixels at `pixels_addr`, which must be enough.
    pub fn write_region(
        &self,
        x: u16,
        y: u16,
        w: u16,
        h: u16,
        pixels_addr: usize,
        len: usize,
    ) -> (r: DisplayUpdate)
        requires
            len >= w * h,
            1 <= x + w <= u16::MAX,
            1 <= y + h <= u16::MAX,
            w * h == 0 || slice_transfer_supported((w * h) as usize, 2),
        ensures
            display_options_hold(self.transfer_options()),
            r.window@ == address_window_writes(x, y, (x + w - 1) as u16, (y + h - 1) as u16),
            ops_view(r.transfer) == pixel_transfer(
                self.data_address(),
                self.transfer_options(),
                pixels_addr,
                (w * h) as usize,
                2,
                DataSize::HalfWord,
            ),
    {
        let count = (w as usize) * (h as usize);
        let window = self.set_address_window(x, y, x + w - 1, y + h - 1);
        let transfer = self.write_pixels(pixels_addr, count);
        DisplayUpdate { window, transfer }
    }

    /// Mutable access to the MDMA channel, for custom transfers.
    pub fn channel_mut(&mut self) -> (r: &mut MdmaChannel<'d>)
        ensures
            display_options_hold(final(self).transfer_options()),
            *r == old(self).channel(),
            final(self).channel() == *final(r),
            final(self).data_address() == old(self).data_address(),
            final(self).command_address() == old(self).command_address(),
            final(self).transfer_options() == old(self).transfer_options(),
    {
        proof {
            use_type_invariant(&*self);
        }
        lend(&mut self.channel)
    }

    /// Set the transfer priority.
    pub fn set_priority(&mut self, priority: Priority)
        ensures
            display_options_hold(final(self).transfer_options()),
            final(self).transfer_options() == (MdmaTransferOptions {
                priority,
                ..old(self).transfer_options()
            }),
            final(self).channel() == old(self).channel(),
            final(self).data_address() == old(self).data_address(),
            final(self).command_address() == old(self).command_address(),
    {
        proof {
            use_type_invariant(&*self);
        }
        self.options.priority = priority;
    }

    /// Set the buffer length, limited to `1 ..= 128`: lower interleaves
    /// better with other MDMA channels, higher gives more throughput.
    pub fn set_buffer_length(&mut self, len: u8)
        ensures
            display_options_hold(final(self).transfer_options()),
            final(self).transfer_options() == (MdmaTransferOptions {
                buffer_length: crate::mdma::clamp_buffer_length(len),
                ..old(self).transfer_options()
            }),
            final(self).channel() == old(self).channel(),
            final(self).data_address() == old(self).data_address(),
            final(self).command_address() == old(self).command_address(),
    {
        proof {
            use_type_invariant(&*self);
        }
        self.options.buffer_length = len.min(128).max(1);
    }
}

} // verus!
