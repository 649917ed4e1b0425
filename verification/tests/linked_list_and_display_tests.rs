use stm32_mdma::mdma::{ChannelOp, DataSize, HardwareTrigger, IncrementMode, MdmaChannel, MdmaTransferOptions, PackingAlignment, Priority, TriggerMode};
use stm32_mdma::mdma_fmc_display::{DisplayWrite, MdmaFmcDisplay};
use stm32_mdma::mdma_linked_list::{LinkedListNodeConfig, MdmaLinkedListNode, LINKED_LIST_NODE_BYTES};
use stm32_mdma::regs::{build_cr, build_tbr, build_tcr, ChannelRegister};

fn node_words(n: &MdmaLinkedListNode) -> [u32; 9] {
    [n.ctcr, n.cbndtr, n.csar, n.cdar, n.cbrur, n.clar, n.ctbr, n.cmar, n.cmdr]
}

#[test]
fn empty_node_is_zero() {
    assert_eq!(node_words(&MdmaLinkedListNode::empty()), [0; 9]);
}

#[test]
fn node_config_default() {
    let c = LinkedListNodeConfig::default();
    assert_eq!(c.buffer_length, 128);
    assert_eq!(c.packing, PackingAlignment::Pack);
    assert_eq!(c.trigger_mode, TriggerMode::Block);
    assert_eq!(c.trigger, None);
}

#[test]
fn configure_raw_fields() {
    let mut n = MdmaLinkedListNode::empty();
    n.clar = 0x1234;
    n.cmar = 9;
    let config = LinkedListNodeConfig {
        buffer_length: 200,
        packing: PackingAlignment::LeftAlignZeroPad,
        trigger_mode: TriggerMode::Buffer,
        trigger: Some(HardwareTrigger::LtdcLineIt),
    };
    n.configure_raw(
        0x2000_0010,
        0x2400_0000,
        0x10000,
        DataSize::Word,
        DataSize::HalfWord,
        IncrementMode::Increment,
        IncrementMode::Decrement,
        &config,
    );
    assert_eq!(n.ctcr, build_tcr(2, 2, 2, 1, 1, 3, 0, 0, 127, false, 1, 0, false));
    assert_eq!(n.cbndtr, 0x10000);
    assert_eq!(n.csar, 0x2000_0010);
    assert_eq!(n.cdar, 0x2400_0000);
    assert_eq!(n.cbrur, 0);
    assert_eq!(n.clar, 0);
    assert_eq!(n.ctbr, build_tbr(16, true, false));
    assert_eq!(n.ctbr, 0x1_0010);
    assert_eq!(n.cmar, 0);
    assert_eq!(n.cmdr, 0);
}

#[test]
fn configure_raw_keeps_requested_buffer_length() {
    // Unlike a channel transfer, a descriptor's buffer length is only clamped.
    let mut n = MdmaLinkedListNode::empty();
    let config = LinkedListNodeConfig { buffer_length: 0, ..LinkedListNodeConfig::default() };
    n.configure_raw(0, 0, 1, DataSize::DoubleWord, DataSize::Byte, IncrementMode::Fixed, IncrementMode::Fixed, &config);
    // TLEN 0, trigger mode Block (0b01) even for a software-triggered node.
    assert_eq!(n.ctcr, build_tcr(3, 3, 0, 0, 0, 0, 0, 0, 0, true, 0, 1, true));
    assert_eq!((n.ctcr >> 18) & 0x7F, 0);
    assert_eq!((n.ctcr >> 28) & 0x3, 1);
}

#[test]
fn configure_typed_nodes() {
    let config = LinkedListNodeConfig::default();
    let mut a = MdmaLinkedListNode::empty();
    a.configure_mem_to_fixed::<u16>(0x2400_0000, 100, 0x6008_0000, &config);
    assert_eq!(a.cbndtr, 200);
    assert_eq!((a.ctcr >> 4) & 0x3, 0b10);
    assert_eq!((a.ctcr >> 10) & 0x3, 0b00);
    assert_eq!((a.ctcr >> 2) & 0x3, 0b01);

    let mut b = MdmaLinkedListNode::empty();
    b.configure_fixed_to_mem::<u32>(0x4000_0000, 0x2400_0000, 10, &config);
    assert_eq!(b.cbndtr, 40);
    assert_eq!(b.csar, 0x4000_0000);
    assert_eq!((b.ctcr >> 4) & 0x3, 0b00);
    assert_eq!((b.ctcr >> 10) & 0x3, 0b10);

    let mut c = MdmaLinkedListNode::empty();
    c.configure_mem_to_mem::<u8>(0x2400_0000, 30, 0x2400_1000, 20, &config);
    assert_eq!(c.cbndtr, 20);
    assert_eq!((c.ctcr >> 4) & 0x3, 0b10);
    assert_eq!((c.ctcr >> 10) & 0x3, 0b10);
}

fn sample_nodes(n: usize) -> Vec<MdmaLinkedListNode> {
    (0..n)
        .map(|i| {
            let mut node = MdmaLinkedListNode::empty();
            node.csar = i as u32;
            node.clar = 0xDEAD;
            node
        })
        .collect()
}

#[test]
fn link_chain_points_each_node_at_the_next() {
    let mut nodes = sample_nodes(3);
    MdmaLinkedListNode::link_chain(&mut nodes, 0x2400_0000);
    assert_eq!(nodes[0].clar, 0x2400_0000 + LINKED_LIST_NODE_BYTES as u32);
    assert_eq!(nodes[1].clar, 0x2400_0000 + 2 * LINKED_LIST_NODE_BYTES as u32);
    assert_eq!(nodes[2].clar, 0);
    for (i, n) in nodes.iter().enumerate() {
        assert_eq!(n.csar, i as u32);
    }
}

#[test]
fn link_chain_circular_closes_the_ring() {
    let mut nodes = sample_nodes(3);
    MdmaLinkedListNode::link_chain_circular(&mut nodes, 0x2400_0100);
    assert_eq!(nodes[0].clar, 0x2400_0128);
    assert_eq!(nodes[1].clar, 0x2400_0150);
    assert_eq!(nodes[2].clar, 0x2400_0100);

    let mut one = sample_nodes(1);
    MdmaLinkedListNode::link_chain_circular(&mut one, 0x2400_0100);
    assert_eq!(one[0].clar, 0x2400_0100);
    let mut single = sample_nodes(1);
    MdmaLinkedListNode::link_chain(&mut single, 0x2400_0100);
    assert_eq!(single[0].clar, 0);
}

#[test]
fn link_empty_chain_does_nothing() {
    let mut nodes: Vec<MdmaLinkedListNode> = Vec::new();
    MdmaLinkedListNode::link_chain(&mut nodes, 0x2400_0000);
    MdmaLinkedListNode::link_chain_circular(&mut nodes, 0x2400_0000);
    assert!(nodes.is_empty());
}

#[test]
fn execute_linked_list_loads_first_node() {
    let mut first = MdmaLinkedListNode::empty();
    first.configure_mem_to_fixed::<u16>(0x2400_0000, 8, 0x6008_0000, &LinkedListNodeConfig::default());
    first.clar = 0x2400_0028;
    let ch = MdmaChannel::new(5);
    let options = MdmaTransferOptions { priority: Priority::High, half_word_swap: true, ..MdmaTransferOptions::default() };
    let ops = ch.execute_linked_list(&first, &options);
    let cr = build_cr(2, true, true, false, false, false, false, true, false, true);
    assert_eq!(
        ops,
        vec![
            ChannelOp::ResetStatus,
            ChannelOp::ClearBits { reg: ChannelRegister::Cr, mask: 0x1 },
            ChannelOp::WaitUntilClear { reg: ChannelRegister::Cr, mask: 0x1 },
            ChannelOp::Write { reg: ChannelRegister::Ifcr, value: 0x1F },
            ChannelOp::Fence,
            ChannelOp::Write { reg: ChannelRegister::Sar, value: first.csar },
            ChannelOp::Write { reg: ChannelRegister::Dar, value: first.cdar },
            ChannelOp::Write { reg: ChannelRegister::Tcr, value: first.ctcr },
            ChannelOp::Write { reg: ChannelRegister::Bndtr, value: first.cbndtr },
            ChannelOp::Write { reg: ChannelRegister::Brur, value: first.cbrur },
            ChannelOp::Write { reg: ChannelRegister::Tbr, value: first.ctbr },
            ChannelOp::Write { reg: ChannelRegister::Mar, value: first.cmar },
            ChannelOp::Write { reg: ChannelRegister::Mdr, value: first.cmdr },
            ChannelOp::Write { reg: ChannelRegister::Lar, value: 0x2400_0028 },
            ChannelOp::Write { reg: ChannelRegister::Cr, value: cr },
            ChannelOp::SetBits { reg: ChannelRegister::Cr, mask: 0x1_0000 },
        ]
    );
    assert_eq!(cr, 0x2087);
    let triggered = MdmaTransferOptions { trigger: Some(HardwareTrigger::JpegOec), ..options };
    assert_eq!(ch.execute_linked_list(&first, &triggered).len(), 15);
}

#[test]
fn address_window_command_sequence() {
    let d = MdmaFmcDisplay::new(0, 0x6008_0000, 0x6000_0000);
    assert_eq!(
        d.set_address_window(0, 0, 239, 319),
        vec![
            DisplayWrite::Command(0x2A),
            DisplayWrite::Data(0),
            DisplayWrite::Data(0),
            DisplayWrite::Data(0),
            DisplayWrite::Data(239),
            DisplayWrite::Command(0x2B),
            DisplayWrite::Data(0),
            DisplayWrite::Data(0),
            DisplayWrite::Data(1),
            DisplayWrite::Data(0x3F),
            DisplayWrite::Command(0x2C),
        ]
    );
    let w = d.set_address_window(0x1234, 1, 0xABCD, 2);
    assert_eq!(w[1], DisplayWrite::Data(0x12));
    assert_eq!(w[2], DisplayWrite::Data(0x34));
    assert_eq!(w[3], DisplayWrite::Data(0xAB));
    assert_eq!(w[4], DisplayWrite::Data(0xCD));
}

#[test]
fn display_addresses() {
    let d = MdmaFmcDisplay::new(7, 0x6008_0000, 0x6000_0000);
    assert_eq!(d.data_addr(), 0x6008_0000);
    assert_eq!(d.cmd_addr(), 0x6000_0000);
}

fn tcr_of(ops: &[ChannelOp]) -> u32 {
    ops.iter()
        .find_map(|op| match op {
            ChannelOp::Write { reg: ChannelRegister::Tcr, value } => Some(*value),
            _ => None,
        })
        .unwrap()
}

fn bndtr_of(ops: &[ChannelOp]) -> u32 {
    ops.iter()
        .find_map(|op| match op {
            ChannelOp::Write { reg: ChannelRegister::Bndtr, value } => Some(*value),
            _ => None,
        })
        .unwrap()
}

#[test]
fn write_pixels_transfers() {
    let d = MdmaFmcDisplay::new(0, 0x6008_0000, 0x6000_0000);
    assert!(d.write_pixels(0x2000_0000, 0).is_none());
    let ops = d.write_pixels(0x2000_0000, 240).unwrap();
    assert_eq!(ops[0], ChannelOp::Fence);
    assert_eq!(ops[1], ChannelOp::Fence);
    assert_eq!(ops[2], ChannelOp::ResetStatus);
    assert_eq!(ops[6], ChannelOp::Write { reg: ChannelRegister::Sar, value: 0x2000_0000 });
    assert_eq!(ops[7], ChannelOp::Write { reg: ChannelRegister::Dar, value: 0x6008_0000 });
    assert_eq!(tcr_of(&ops), build_tcr(1, 1, 2, 1, 1, 0, 0, 0, 127, true, 0, 0, true));
    assert_eq!(bndtr_of(&ops), 480);
    assert_eq!(*ops.last().unwrap(), ChannelOp::SetBits { reg: ChannelRegister::Cr, mask: 0x1_0000 });

    let packed = d.write_pixels_packed_u32(0x2400_0000, 10).unwrap();
    assert_eq!(tcr_of(&packed), build_tcr(2, 2, 2, 1, 1, 0, 0, 0, 127, true, 0, 0, true));
    assert_eq!(bndtr_of(&packed), 40);
    assert!(d.write_pixels_packed_u32(0x2400_0000, 0).is_none());

    let bytes = d.write_data_bytes(0x2400_0000, 3).unwrap();
    assert_eq!(tcr_of(&bytes), build_tcr(0, 0, 2, 1, 1, 0, 0, 0, 127, true, 0, 0, true));
    assert_eq!(bndtr_of(&bytes), 3);
    assert!(d.write_data_bytes(0x2400_0000, 0).is_none());
}

#[test]
fn full_screen_and_region_updates() {
    let d = MdmaFmcDisplay::new(0, 0x6008_0000, 0x6000_0000);
    let full = d.write_framebuffer(240, 320, 0x2400_0000, 240 * 320);
    assert_eq!(full.window, d.set_address_window(0, 0, 239, 319));
    let ops = full.transfer.unwrap();
    // 153600 bytes: 3 blocks of 51200 bytes.
    assert_eq!(bndtr_of(&ops), 51_200 | (2 << 20));

    let region = d.write_region(10, 20, 30, 40, 0x2400_0000, 5000);
    assert_eq!(region.window, d.set_address_window(10, 20, 39, 59));
    assert_eq!(bndtr_of(&region.transfer.unwrap()), 2400);

    let empty = d.write_region(5, 5, 0, 3, 0x2400_0000, 0);
    assert_eq!(empty.window, d.set_address_window(5, 5, 4, 7));
    assert!(empty.transfer.is_none());
}

#[test]
fn display_settings() {
    let mut d = MdmaFmcDisplay::new(0, 0x6008_0000, 0x6000_0000);
    d.set_buffer_length(0);
    assert_eq!((tcr_of(&d.write_pixels(0, 4).unwrap()) >> 18) & 0x7F, 1);
    d.set_buffer_length(200);
    assert_eq!((tcr_of(&d.write_pixels(0, 4).unwrap()) >> 18) & 0x7F, 127);
    d.set_buffer_length(64);
    assert_eq!((tcr_of(&d.write_pixels(0, 4).unwrap()) >> 18) & 0x7F, 63);
    d.set_priority(Priority::Low);
    let ops = d.write_pixels(0, 4).unwrap();
    let cr = ops
        .iter()
        .filter_map(|op| match op {
            ChannelOp::Write { reg: ChannelRegister::Cr, value } => Some(*value),
            _ => None,
        })
        .last()
        .unwrap();
    assert_eq!((cr >> 6) & 0x3, 0);
    assert_eq!(d.channel_mut().ch(), 0);
    *d.channel_mut() = MdmaChannel::new(9);
    assert_eq!(d.channel_mut().ch(), 9);
}
