use stm32_mdma::mdma::{
    channel_interrupt_ops, effective_buffer_length, factorize_transfer, gcd, is_tcm_address, lcm,
    pending_channels, transfer_size_supported, try_factorize_transfer, ChannelOp, DataSize,
    HardwareTrigger, IncrementMode, MdmaChannel, MdmaError, MdmaTransferOptions, PackingAlignment,
    PollStage, PollStep, Priority, TriggerMode,
};
use stm32_mdma::regs::{
    build_bndtr, build_cr, build_tbr, build_tcr, ch_base, register_address, ChannelRegister,
};

fn abort_ops() -> Vec<ChannelOp> {
    vec![
        ChannelOp::ClearBits { reg: ChannelRegister::Cr, mask: 0x1 },
        ChannelOp::WaitUntilClear { reg: ChannelRegister::Cr, mask: 0x1 },
        ChannelOp::Write { reg: ChannelRegister::Ifcr, value: 0x1F },
    ]
}

#[test]
fn data_size_bytes_and_back() {
    for size in [DataSize::Byte, DataSize::HalfWord, DataSize::Word, DataSize::DoubleWord] {
        assert_eq!(DataSize::from_bytes(size.bytes()), size);
    }
    assert_eq!(DataSize::Byte.bytes(), 1);
    assert_eq!(DataSize::HalfWord.bytes(), 2);
    assert_eq!(DataSize::Word.bytes(), 4);
    assert_eq!(DataSize::DoubleWord.bytes(), 8);
    assert_eq!(DataSize::from_bytes(4), DataSize::Word);
}

#[test]
fn enum_field_encodings() {
    assert_eq!(DataSize::DoubleWord.bits(), 0b11);
    assert_eq!(IncrementMode::Fixed.bits(), 0b00);
    assert_eq!(IncrementMode::Increment.bits(), 0b10);
    assert_eq!(IncrementMode::Decrement.bits(), 0b11);
    assert_eq!(TriggerMode::LinkedList.bits(), 0b11);
    assert_eq!(Priority::Medium.bits(), 0b01);
    assert_eq!(HardwareTrigger::Dma1Tcif0.bits(), 0);
    assert_eq!(HardwareTrigger::LtdcLineIt.bits(), 16);
    assert_eq!(HardwareTrigger::Octospi2Tc.bits(), 33);
    assert_eq!(PackingAlignment::Pack.pke_pam(), (true, 0b00));
    assert_eq!(PackingAlignment::RightAlignSignExtend.pke_pam(), (false, 0b10));
    assert_eq!(PackingAlignment::LeftAlignZeroPad.pke_pam(), (false, 0b01));
}

#[test]
fn defaults() {
    assert_eq!(TriggerMode::default(), TriggerMode::Block);
    assert_eq!(Priority::default(), Priority::VeryHigh);
    assert_eq!(IncrementMode::default(), IncrementMode::Increment);
    assert_eq!(PackingAlignment::default(), PackingAlignment::Pack);
    let o = MdmaTransferOptions::default();
    assert_eq!(o.priority, Priority::VeryHigh);
    assert_eq!(o.trigger, None);
    assert_eq!(o.trigger_mode, TriggerMode::Block);
    assert_eq!(o.buffer_length, 128);
    assert_eq!(o.source_increment, IncrementMode::Increment);
    assert_eq!(o.destination_increment, IncrementMode::Increment);
    assert_eq!(o.packing, PackingAlignment::Pack);
    assert!(!o.byte_swap && !o.half_word_swap && !o.word_swap);
}

#[test]
fn tcm_address_ranges() {
    assert!(is_tcm_address(0));
    assert!(is_tcm_address(0x0003_FFFF));
    assert!(!is_tcm_address(0x0004_0000));
    assert!(!is_tcm_address(0x1FFF_FFFF));
    assert!(is_tcm_address(0x2000_0000));
    assert!(is_tcm_address(0x2001_FFFF));
    assert!(!is_tcm_address(0x2002_0000));
    assert!(!is_tcm_address(0x2400_0000));
}

#[test]
fn gcd_and_lcm() {
    assert_eq!(gcd(12, 18), 6);
    assert_eq!(gcd(0, 5), 5);
    assert_eq!(gcd(7, 0), 7);
    assert_eq!(lcm(4, 6), 12);
    assert_eq!(lcm(2, 8), 8);
    assert_eq!(lcm(8, 1), 8);
    assert_eq!(lcm(0, 3), 0);
}

#[test]
fn factorize_small_transfer_is_one_block() {
    assert_eq!(factorize_transfer(100, 0x10000, 0x1000), (100, 1));
    assert_eq!(factorize_transfer(0x10000, 0x10000, 0x1000), (0x10000, 1));
    assert_eq!(factorize_transfer(0, 0x10000, 0x1000), (0, 1));
}

#[test]
fn factorize_takes_fewest_blocks_that_divide() {
    assert_eq!(factorize_transfer(0x20000, 0x10000, 0x1000), (0x10000, 2));
    assert_eq!(factorize_transfer(0x18000, 0x10000, 0x1000), (0xC000, 2));
    // 200000 bytes need at least 4 blocks of 64 KiB; 4 divides it.
    assert_eq!(factorize_transfer(200_000, 0x10000, 0x1000), (50_000, 4));
    // 0x10001 = 65537 is prime: the only split is 65537 blocks of one byte.
    assert_eq!(factorize_transfer(0x10001, 0x10000, 0x20000), (1, 0x10001));
    // 3 * 65537 bytes: 4 and 5 do not divide it, 65537 does.
    assert_eq!(factorize_transfer(196_611, 0x10000, 0x10001), (3, 65_537));
}

#[test]
fn factorize_fails_beyond_max_blocks() {
    assert_eq!(try_factorize_transfer(0x10001, 0x10000, 0x1000), None);
    assert_eq!(try_factorize_transfer(196_611, 0x10000, 0x1000), None);
    assert_eq!(try_factorize_transfer(0x20000, 0x10000, 0x1000), Some((0x10000, 2)));
    // The first count tried is accepted even above max_blocks.
    assert_eq!(try_factorize_transfer(0x30000, 0x10000, 2), Some((0x10000, 3)));
}

#[test]
fn split_covers_the_transfer() {
    for total in [1usize, 4097, 0x10000, 0x10002, 0x12345 * 4, 0x0FFF_0000, 0x1000_0000] {
        if let Some((size, count)) = try_factorize_transfer(total, 0x10000, 0x1000) {
            assert_eq!(size * count, total);
            assert!(size <= 0x10000);
            assert!(count <= 0x1000);
        }
    }
}

#[test]
fn supported_transfer_sizes() {
    assert!(!transfer_size_supported(0));
    assert!(transfer_size_supported(1));
    assert!(transfer_size_supported(0x1000_0000));
    assert!(!transfer_size_supported(0x1000_0001));
    assert!(!transfer_size_supported(0x10001));
    assert!(transfer_size_supported(0x20000));
}

#[test]
fn effective_buffer_length_values() {
    assert_eq!(effective_buffer_length(128, DataSize::HalfWord, DataSize::Byte), 128);
    assert_eq!(effective_buffer_length(0, DataSize::Byte, DataSize::Byte), 1);
    assert_eq!(effective_buffer_length(255, DataSize::Byte, DataSize::Byte), 128);
    assert_eq!(effective_buffer_length(100, DataSize::Word, DataSize::HalfWord), 100);
    assert_eq!(effective_buffer_length(3, DataSize::DoubleWord, DataSize::Byte), 8);
    assert_eq!(effective_buffer_length(13, DataSize::Word, DataSize::Word), 12);
    assert_eq!(effective_buffer_length(1, DataSize::Byte, DataSize::HalfWord), 2);
}

#[test]
fn effective_buffer_is_whole_items() {
    let sizes = [DataSize::Byte, DataSize::HalfWord, DataSize::Word, DataSize::DoubleWord];
    for len in 0..=255u8 {
        for s in sizes {
            for d in sizes {
                let b = effective_buffer_length(len, s, d) as usize;
                assert!((1..=128).contains(&b));
                assert_eq!(b % s.bytes(), 0);
                assert_eq!(b % d.bytes(), 0);
            }
        }
    }
}

#[test]
fn register_builders() {
    assert_eq!(
        build_tcr(1, 1, 2, 1, 1, 2, 0, 0, 127, true, 0, 0, true),
        0x43FC_0965
    );
    assert_eq!(build_tcr(0xFF, 0, 0, 0, 0, 0, 0, 0, 0, false, 0, 0, false), 0x3);
    assert_eq!(build_tcr(0, 0, 0, 0, 0, 0, 0, 0, 0xFFFF, false, 0, 0, false), 0x7F << 18);
    assert_eq!(build_bndtr(0x10000, 1, false, false), 0x11_0000);
    assert_eq!(build_bndtr(0xFFFF_FFFF, 0xFFFF_FFFF, true, true), 0xFFFD_FFFF);
    assert_eq!(build_tbr(5, true, false), 0x1_0005);
    assert_eq!(build_tbr(0xFF, false, true), 0x2_003F);
    assert_eq!(build_cr(3, true, true, false, false, false, false, false, false, true), 0xC7);
    assert_eq!(build_cr(0xFF, false, false, true, true, true, true, true, true, false), 0x70F8);
}

#[test]
fn register_addresses() {
    assert_eq!(ch_base(0), 0x5200_0040);
    assert_eq!(ch_base(15), 0x5200_0400);
    assert_eq!(register_address(0, ChannelRegister::Isr), 0x5200_0040);
    assert_eq!(register_address(0, ChannelRegister::Cr), 0x5200_0050);
    assert_eq!(register_address(15, ChannelRegister::Mdr), 0x5200_0438);
    assert_eq!(register_address(2, ChannelRegister::Lar), 0x5200_00E8);
}

#[test]
fn channel_numbers() {
    assert_eq!(MdmaChannel::new(0).ch(), 0);
    assert_eq!(MdmaChannel::new(15).ch(), 15);
}

#[test]
fn abort_disables_waits_then_clears() {
    let ch = MdmaChannel::new(3);
    assert_eq!(ch.abort(), abort_ops());
    assert_eq!(
        ch.clear_all_flags(),
        vec![ChannelOp::Write { reg: ChannelRegister::Ifcr, value: 0x1F }]
    );
}

#[test]
fn start_software_transfer() {
    let ch = MdmaChannel::new(1);
    let ops = ch.start_transfer(
        0x2400_0000,
        0x2000_0000,
        0x20000,
        DataSize::HalfWord,
        DataSize::HalfWord,
        &MdmaTransferOptions::default(),
    );
    let mut expected = vec![ChannelOp::ResetStatus];
    expected.extend(abort_ops());
    expected.extend([
        ChannelOp::Write { reg: ChannelRegister::Sar, value: 0x2400_0000 },
        ChannelOp::Write { reg: ChannelRegister::Dar, value: 0x2000_0000 },
        ChannelOp::Write { reg: ChannelRegister::Tcr, value: 0x43FC_0965 },
        ChannelOp::Write { reg: ChannelRegister::Bndtr, value: 0x11_0000 },
        ChannelOp::Write { reg: ChannelRegister::Brur, value: 0 },
        ChannelOp::Write { reg: ChannelRegister::Tbr, value: 0x2_0000 },
        ChannelOp::Write { reg: ChannelRegister::Lar, value: 0 },
        ChannelOp::Write { reg: ChannelRegister::Mar, value: 0 },
        ChannelOp::Write { reg: ChannelRegister::Mdr, value: 0 },
        ChannelOp::Write { reg: ChannelRegister::Cr, value: 0xC7 },
        ChannelOp::SetBits { reg: ChannelRegister::Cr, mask: 0x1_0000 },
    ]);
    assert_eq!(ops, expected);
}

#[test]
fn start_hardware_triggered_transfer() {
    let ch = MdmaChannel::new(1);
    let options = MdmaTransferOptions {
        priority: Priority::Low,
        trigger: Some(HardwareTrigger::Dma1Tcif3),
        trigger_mode: TriggerMode::RepeatedBlock,
        buffer_length: 10,
        source_increment: IncrementMode::Increment,
        destination_increment: IncrementMode::Fixed,
        packing: PackingAlignment::RightAlignSignExtend,
        byte_swap: true,
        half_word_swap: false,
        word_swap: true,
    };
    let ops = ch.start_transfer(0x0001_0000, 0x4000_0000, 64, DataSize::Word, DataSize::Byte, &options);
    assert_eq!(ops.len(), 14);
    assert_eq!(ops[6], ChannelOp::Write { reg: ChannelRegister::Tcr, value: 0x281C_002A });
    assert_eq!(ops[7], ChannelOp::Write { reg: ChannelRegister::Bndtr, value: 64 });
    assert_eq!(ops[9], ChannelOp::Write { reg: ChannelRegister::Tbr, value: 0x1_0003 });
    assert_eq!(ops[13], ChannelOp::Write { reg: ChannelRegister::Cr, value: 0x5007 });
}

#[test]
fn high_level_transfers_set_increments() {
    let ch = MdmaChannel::new(0);
    let options = MdmaTransferOptions {
        source_increment: IncrementMode::Decrement,
        destination_increment: IncrementMode::Decrement,
        ..MdmaTransferOptions::default()
    };
    let m2m = ch.transfer_mem2mem::<u32>(0x2400_0000, 16, 0x2400_1000, &options);
    assert_eq!(m2m[0], ChannelOp::Fence);
    assert_eq!(m2m[1], ChannelOp::ResetStatus);
    // Word items, both increments 0b10, 64 bytes in one block.
    assert_eq!(
        m2m[7],
        ChannelOp::Write {
            reg: ChannelRegister::Tcr,
            value: build_tcr(2, 2, 2, 2, 2, 2, 0, 0, 127, true, 0, 0, true)
        }
    );
    assert_eq!(m2m[8], ChannelOp::Write { reg: ChannelRegister::Bndtr, value: 64 });

    let out = ch.write_to_peripheral::<u16>(0x2400_0000, 10, 0x6008_0000, &options);
    assert_eq!(
        out[7],
        ChannelOp::Write {
            reg: ChannelRegister::Tcr,
            value: build_tcr(1, 1, 2, 1, 1, 0, 0, 0, 127, true, 0, 0, true)
        }
    );
    assert_eq!(out[8], ChannelOp::Write { reg: ChannelRegister::Bndtr, value: 20 });

    let inp = ch.read_from_peripheral::<u8>(0x4000_1000, 0x2000_0100, 7, &options);
    assert_eq!(
        inp[7],
        ChannelOp::Write {
            reg: ChannelRegister::Tcr,
            value: build_tcr(0, 0, 0, 0, 0, 2, 0, 0, 127, true, 0, 0, true)
        }
    );
    assert_eq!(inp[10], ChannelOp::Write { reg: ChannelRegister::Tbr, value: 0x2_0000 });

    let packed = ch.write_to_peripheral_packed::<u32, u16>(0x2400_0000, 3, 0x6008_0000, &options);
    assert_eq!(
        packed[7],
        ChannelOp::Write {
            reg: ChannelRegister::Tcr,
            value: build_tcr(2, 2, 2, 1, 1, 0, 0, 0, 127, true, 0, 0, true)
        }
    );
    assert_eq!(packed[8], ChannelOp::Write { reg: ChannelRegister::Bndtr, value: 12 });

    let copy = ch.copy_slice::<u16>(0x2400_0000, 4, 0x2400_0100, 8);
    assert_eq!(copy, ch.transfer_mem2mem::<u16>(0x2400_0000, 4, 0x2400_0100, &MdmaTransferOptions::default()));
}

#[test]
fn poll_steps() {
    let ch = MdmaChannel::new(0);
    assert_eq!(
        ch.poll_complete(PollStage::Error, 1),
        PollStep::Ready(Err(MdmaError::TransferError))
    );
    assert_eq!(ch.poll_complete(PollStage::Error, 0), PollStep::Read(PollStage::Completion));
    assert_eq!(ch.poll_complete(PollStage::Completion, 2), PollStep::Ready(Ok(())));
    assert_eq!(ch.poll_complete(PollStage::Completion, 0), PollStep::Read(PollStage::Enabled));
    assert_eq!(ch.poll_complete(PollStage::Enabled, 0xC7), PollStep::Pending);
    assert_eq!(
        ch.poll_complete(PollStage::Enabled, 0xC6),
        PollStep::Read(PollStage::CompletionAfterDisable)
    );
    assert_eq!(ch.poll_complete(PollStage::CompletionAfterDisable, 1), PollStep::Ready(Ok(())));
    assert_eq!(
        ch.poll_complete(PollStage::CompletionAfterDisable, 0),
        PollStep::Ready(Err(MdmaError::TransferError))
    );
}

fn run_poll(ch: &MdmaChannel, error: usize, completion: usize, cr: usize, again: usize) -> PollStep {
    let mut stage = PollStage::Error;
    loop {
        let observed = match stage {
            PollStage::Error => error,
            PollStage::Completion => completion,
            PollStage::Enabled => cr,
            PollStage::CompletionAfterDisable => again,
        };
        match ch.poll_complete(stage, observed) {
            PollStep::Read(next) => stage = next,
            other => return other,
        }
    }
}

#[test]
fn poll_error_takes_precedence() {
    let ch = MdmaChannel::new(0);
    assert_eq!(run_poll(&ch, 1, 1, 1, 1), PollStep::Ready(Err(MdmaError::TransferError)));
    assert_eq!(run_poll(&ch, 0, 1, 1, 0), PollStep::Ready(Ok(())));
    assert_eq!(run_poll(&ch, 0, 0, 1, 1), PollStep::Pending);
    assert_eq!(run_poll(&ch, 0, 0, 0, 1), PollStep::Ready(Ok(())));
    assert_eq!(run_poll(&ch, 0, 0, 0, 0), PollStep::Ready(Err(MdmaError::TransferError)));
}

#[test]
fn pending_channels_from_gisr() {
    assert_eq!(pending_channels(0), Vec::<usize>::new());
    assert_eq!(pending_channels(0b1000_0000_0000_0101), vec![0, 2, 15]);
    assert_eq!(pending_channels(0xFFFF_0000), Vec::<usize>::new());
    assert_eq!(pending_channels(0xFFFF_FFFF), (0..16).collect::<Vec<usize>>());
}

#[test]
fn interrupt_ops_per_flag() {
    assert_eq!(channel_interrupt_ops(0), vec![]);
    assert_eq!(
        channel_interrupt_ops(0x1),
        vec![
            ChannelOp::Write { reg: ChannelRegister::Ifcr, value: 0x1 },
            ChannelOp::ClearBits { reg: ChannelRegister::Cr, mask: 0x1 },
            ChannelOp::RecordError,
            ChannelOp::Wake,
        ]
    );
    assert_eq!(
        channel_interrupt_ops(0x1F),
        vec![
            ChannelOp::Write { reg: ChannelRegister::Ifcr, value: 0x1 },
            ChannelOp::ClearBits { reg: ChannelRegister::Cr, mask: 0x1 },
            ChannelOp::RecordError,
            ChannelOp::Wake,
            ChannelOp::Write { reg: ChannelRegister::Ifcr, value: 0x2 },
            ChannelOp::RecordCompletion,
            ChannelOp::Wake,
            ChannelOp::Write { reg: ChannelRegister::Ifcr, value: 0x10 },
            ChannelOp::Wake,
            ChannelOp::Write { reg: ChannelRegister::Ifcr, value: 0x8 },
            ChannelOp::Wake,
            ChannelOp::Write { reg: ChannelRegister::Ifcr, value: 0x4 },
            ChannelOp::Wake,
        ]
    );
    // Channel request active is no interrupt.
    assert_eq!(channel_interrupt_ops(0x1_0000), vec![]);
}

#[test]
fn op_register_values() {
    let clear = ChannelOp::ClearBits { reg: ChannelRegister::Cr, mask: 0x1 };
    let set = ChannelOp::SetBits { reg: ChannelRegister::Cr, mask: 0x1_0000 };
    let write = ChannelOp::Write { reg: ChannelRegister::Sar, value: 42 };
    let wait = ChannelOp::WaitUntilClear { reg: ChannelRegister::Cr, mask: 0x1 };
    assert_eq!(clear.new_value(0xC7), 0xC6);
    assert_eq!(set.new_value(0xC7), 0x1_00C7);
    assert_eq!(write.new_value(7), 42);
    assert_eq!(ChannelOp::Wake.new_value(7), 7);
    assert!(!wait.wait_finished(0xC7));
    assert!(wait.wait_finished(0xC6));
    assert!(clear.wait_finished(0xC7));
}


#[test]
fn channel_register_addresses_are_distinct() {
    let regs = [
        ChannelRegister::Isr,
        ChannelRegister::Ifcr,
        ChannelRegister::Esr,
        ChannelRegister::Cr,
        ChannelRegister::Tcr,
        ChannelRegister::Bndtr,
        ChannelRegister::Sar,
        ChannelRegister::Dar,
        ChannelRegister::Brur,
        ChannelRegister::Lar,
        ChannelRegister::Tbr,
        ChannelRegister::Mar,
        ChannelRegister::Mdr,
    ];
    let mut seen = Vec::new();
    for ch in 0..16usize {
        for reg in regs {
            let a = register_address(ch, reg);
            assert!(!seen.contains(&a));
            assert_eq!(a % 4, 0);
            seen.push(a);
        }
    }
}

#[test]
fn gcd_divides_and_lcm_is_common_multiple() {
    for a in 1..40usize {
        for b in 1..40usize {
            let g = gcd(a, b);
            assert_eq!(a % g, 0);
            assert_eq!(b % g, 0);
            let l = lcm(a, b);
            assert_eq!(l % a, 0);
            assert_eq!(l % b, 0);
            assert_eq!(l * g, a * b);
        }
    }
}
