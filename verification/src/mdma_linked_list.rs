//! MDMA linked-list transfers.
//!
//! In linked-list mode the MDMA loads one transfer descriptor after another
//! without CPU intervention: each descriptor's link address (CLAR) names the
//! next one, and a link address of 0 ends the list. Descriptors must lie in
//! AXI-accessible SRAM, not in DTCM or ITCM.

use vstd::prelude::*;

use crate::mdma::{
    abort_ops, is_tcm_address, software_request_ops, spec_is_tcm_address, transfer_cr, ChannelOp,
    DataSize, HardwareTrigger, IncrementMode, MdmaChannel, MdmaTransferOptions, PackingAlignment,
    TriggerMode,
};
use crate::regs;
use crate::regs::ChannelRegister;

verus! {

/// Size in bytes of one descriptor as the hardware reads it: ten 32-bit
/// words, 8-byte aligned.
pub const LINKED_LIST_NODE_BYTES: usize = 40;

/// One linked-list transfer descriptor: the register images that the MDMA
/// loads for one transfer. In memory the hardware reads them in the order
/// CTCR, CBNDTR, CSAR, CDAR, CBRUR, CLAR, CTBR, a reserved zero word, CMAR,
/// CMDR.
#[derive(Debug, Clone, Copy)]
pub struct MdmaLinkedListNode {
    pub ctcr: u32,
    pub cbndtr: u32,
    pub csar: u32,
    pub cdar: u32,
    pub cbrur: u32,
    pub clar: u32,
    pub ctbr: u32,
    pub cmar: u32,
    pub cmdr: u32,
}

/// Per-descriptor configuration options.
#[derive(Debug, Clone, Copy)]
pub struct LinkedListNodeConfig {
    pub buffer_length: u8,
    pub packing: PackingAlignment,
    pub trigger_mode: TriggerMode,
    pub trigger: Option<HardwareTrigger>,
}

/// The default descriptor configuration: 128-byte buffers, packed, block
/// trigger mode, software triggered.
pub open spec fn default_node_config() -> LinkedListNodeConfig {
    LinkedListNodeConfig {
        buffer_length: 128,
        packing: PackingAlignment::Pack,
        trigger_mode: TriggerMode::Block,
        trigger: None,
    }
}

impl Default for LinkedListNodeConfig {
    fn default() -> (r: Self)
        ensures
            r == default_node_config(),
    {
        Self {
            buffer_length: 128,
            packing: PackingAlignment::Pack,
            trigger_mode: TriggerMode::Block,
            trigger: None,
        }
    }
}

/// The address of descriptor `i` of an array of descriptors that starts at
/// `base_addr`, as the 32-bit value that the MDMA reads.
pub open spec fn node_address(base_addr: usize, i: int) -> u32 {
    (base_addr + LINKED_LIST_NODE_BYTES * i) as u32
}

/// The trigger selection of a descriptor: the hardware request line, or 0.
pub open spec fn node_trigger_select(config: LinkedListNodeConfig) -> u32 {
    match config.trigger {
        Some(t) => t.spec_bits(),
        None => 0,
    }
}

/// The CTCR image of a descriptor.
pub open spec fn node_tcr(
    src_size: DataSize,
    dst_size: DataSize,
    src_inc: IncrementMode,
    dst_inc: IncrementMode,
    config: LinkedListNodeConfig,
) -> u32 {
    regs::tcr_image(
        src_size.spec_bits(),
        src_size.spec_bits(),
        src_inc.spec_bits(),
        dst_size.spec_bits(),
        dst_size.spec_bits(),
        dst_inc.spec_bits(),
        0,
        0,
        (crate::mdma::clamp_buffer_length(config.buffer_length) - 1) as u32,
        config.packing.spec_pke_pam().0,
        config.packing.spec_pke_pam().1,
        config.trigger_mode.spec_bits(),
        config.trigger.is_none(),
    )
}

impl MdmaLinkedListNode {
    /// Whether `self` is `other` with at most the link address changed.
    pub open spec fn same_except_link(self, other: Self) -> bool {
        &&& self.ctcr == other.ctcr
        &&& self.cbndtr == other.cbndtr
        &&& self.csar == other.csar
        &&& self.cdar == other.cdar
        &&& self.cbrur == other.cbrur
        &&& self.ctbr == other.ctbr
        &&& self.cmar == other.cmar
        &&& self.cmdr == other.cmdr
    }

    /// Whether `self` is the descriptor that `configure_raw` makes.
    pub open spec fn is_configured(
        self,
        src: u32,
        dst: u32,
        total_bytes: usize,
        src_size: DataSize,
        dst_size: DataSize,
        src_inc: IncrementMode,
        dst_inc: IncrementMode,
        config: LinkedListNodeConfig,
    ) -> bool {
        &&& self.ctcr == node_tcr(src_size, dst_size, src_inc, dst_inc, config)
        &&& self.cbndtr == total_bytes as u32
        &&& self.csar == src
        &&& self.cdar == dst
        &&& self.cbrur == 0
        &&& self.clar == 0
        &&& self.ctbr == regs::tbr_image(
            node_trigger_select(config),
            spec_is_tcm_address(src),
            spec_is_tcm_address(dst),
        )
        &&& self.cmar == 0
        &&& self.cmdr == 0
    }

    /// A descriptor whose words are all zero.
    pub fn empty() -> (r: Self)
        ensures
            r.ctcr == 0 && r.cbndtr == 0 && r.csar == 0 && r.cdar == 0 && r.cbrur == 0,
            r.clar == 0 && r.ctbr == 0 && r.cmar == 0 && r.cmdr == 0,
    {
        Self {
            ctcr: 0,
            cbndtr: 0,
            csar: 0,
            cdar: 0,
            cbrur: 0,
            clar: 0,
            ctbr: 0,
            cmar: 0,
            cmdr: 0,
        }
    }

    /// Configure the descriptor for a transfer of `total_bytes` bytes (1 to
    /// 65536) from address `src` to address `dst`.
    pub fn configure_raw(
        &mut self,
        src: u32,
        dst: u32,
        total_bytes: usize,
        src_size: DataSize,
        dst_size: DataSize,
        src_inc: IncrementMode,
        dst_inc: IncrementMode,
        config: &LinkedListNodeConfig,
    )
        requires
            0 < total_bytes <= 0x10000,
        ensures
            final(self).is_configured(
                src,
                dst,
                total_bytes,
                src_size,
                dst_size,
                src_inc,
                dst_inc,
                *config,
            ),
    {
        let buf_len = config.buffer_length.min(128).max(1);
        let (pke, pam) = config.packing.pke_pam();

        self.ctcr = regs::build_tcr(
            src_size.bits(),
            src_size.bits(),
            src_inc.bits(),
            dst_size.bits(),
            dst_size.bits(),
            dst_inc.bits(),
            0,
            0,
            (buf_len - 1) as u32,
            pke,
            pam,
            config.trigger_mode.bits(),
            config.trigger.is_none(),
        );

        self.cbndtr = total_bytes as u32;
        self.csar = src;
        self.cdar = dst;
        self.cbrur = 0;
        self.clar = 0;

        let tsel = match config.trigger {
            Some(t) => t.bits(),
            None => 0,
        };
        self.ctbr = regs::build_tbr(tsel, is_tcm_address(src), is_tcm_address(dst));

        self.cmar = 0;
        self.cmdr = 0;
    }

    /// Configure the descriptor for the `src_len` elements of type `T` at
    /// `src_addr` (incrementing) to the fixed peripheral address `dst_addr`.
    pub fn configure_mem_to_fixed<T>(
        &mut self,
        src_addr: usize,
        src_len: usize,
        dst_addr: usize,
        config: &LinkedListNodeConfig,
    )
        requires
            crate::mdma::is_data_size_bytes(vstd::layout::size_of::<T>() as int),
            0 < src_len * vstd::layout::size_of::<T>() <= 0x10000,
        ensures
            final(self).is_configured(
                src_addr as u32,
                dst_addr as u32,
                crate::mdma::bytes_of::<T>(src_len),
                crate::mdma::data_size_of::<T>(),
                crate::mdma::data_size_of::<T>(),
                IncrementMode::Increment,
                IncrementMode::Fixed,
                *config,
            ),
    {
        let data_size = DataSize::from_bytes(core::mem::size_of::<T>());
        let total_bytes = src_len * core::mem::size_of::<T>();
        self.configure_raw(
            src_addr as u32,
            dst_addr as u32,
            total_bytes,
            data_size,
            data_size,
            IncrementMode::Increment,
            IncrementMode::Fixed,
            config,
        );
    }

    /// Configure the descriptor for the fixed peripheral address `src_addr`
    /// to the `dst_len` elements of type `T` at `dst_addr` (incrementing).
    pub fn configure_fixed_to_mem<T>(
        &mut self,
        src_addr: usize,
        dst_addr: usize,
        dst_len: usize,
        config: &LinkedListNodeConfig,
    )
        requires
            crate::mdma::is_data_size_bytes(vstd::layout::size_of::<T>() as int),
            0 < dst_len * vstd::layout::size_of::<T>() <= 0x10000,
        ensures
            final(self).is_configured(
                src_addr as u32,
                dst_addr as u32,
                crate::mdma::bytes_of::<T>(dst_len),
                crate::mdma::data_size_of::<T>(),
                crate::mdma::data_size_of::<T>(),
                IncrementMode::Fixed,
                IncrementMode::Increment,
                *config,
            ),
    {
        let data_size = DataSize::from_bytes(core::mem::size_of::<T>());
        let total_bytes = dst_len * core::mem::size_of::<T>();
        self.configure_raw(
            src_addr as u32,
            dst_addr as u32,
            total_bytes,
            data_size,
            data_size,
            IncrementMode::Fixed,
            IncrementMode::Increment,
            config,
        );
    }

    /// Configure the descriptor for a memory-to-memory copy of as many
    /// elements of type `T` as both the `src_len` elements at `src_addr` and
    /// the `dst_len` elements at `dst_addr` hold.
    pub fn configure_mem_to_mem<T>(
        &mut self,
        src_addr: usize,
        src_len: usize,
        dst_addr: usize,
        dst_len: usize,
        config: &LinkedListNodeConfig,
    )
        requires
            crate::mdma::is_data_size_bytes(vstd::layout::size_of::<T>() as int),
            0 < vstd::math::min(src_len as int, dst_len as int) * vstd::layout::size_of::<T>() <= 0x10000,
        ensures
            final(self).is_configured(
                src_addr as u32,
                dst_addr as u32,
                crate::mdma::bytes_of::<T>(vstd::math::min(src_len as int, dst_len as int) as usize),
                crate::mdma::data_size_of::<T>(),
                crate::mdma::data_size_of::<T>(),
                IncrementMode::Increment,
                IncrementMode::Increment,
                *config,
            ),
    {
        let data_size = DataSize::from_bytes(core::mem::size_of::<T>());
        let total_bytes = src_len.min(dst_len) * core::mem::size_of::<T>();
        self.configure_raw(
            src_addr as u32,
            dst_addr as u32,
            total_bytes,
            data_size,
            data_size,
            IncrementMode::Increment,
            IncrementMode::Increment,
            config,
        );
    }

    /// Link the descriptors into a chain: each one's link address names the
    /// next descriptor of the array at `base_addr`, and the last one's is 0.
    pub fn link_chain(nodes: &mut Vec<Self>, base_addr: usize)
        requires
            old(nodes).len() == 0 || base_addr + LINKED_LIST_NODE_BYTES * (old(nodes).len() - 1) <= usize::MAX,
        ensures
            final(nodes).len() == old(nodes).len(),
            forall|i: int|
                0 <= i < old(nodes).len() ==> #[trigger] final(nodes)[i].same_except_link(old(nodes)[i]),
            forall|i: int|
                0 <= i < old(nodes).len() - 1 ==> #[trigger] final(nodes)[i].clar == node_address(
                    base_addr,
                    i + 1,
                ),
            old(nodes).len() > 0 ==> final(nodes)[old(nodes).len() - 1].clar == 0,
    {
        let len = nodes.len();
        if len == 0 {
            return;
        }
        Self::link_forward(nodes, base_addr);
        let mut last = nodes[len - 1];
        last.clar = 0;
        nodes.set(len - 1, last);
    }

    /// Link the descriptors into a ring: each one's link address names the
    /// next descriptor of the array at `base_addr`, and the last one's names
    /// the first.
    pub fn link_chain_circular(nodes: &mut Vec<Self>, base_addr: usize)
        requires
            old(nodes).len() == 0 || base_addr + LINKED_LIST_NODE_BYTES * (old(nodes).len() - 1) <= usize::MAX,
        ensures
            final(nodes).len() == old(nodes).len(),
            forall|i: int|
                0 <= i < old(nodes).len() ==> #[trigger] final(nodes)[i].same_except_link(old(nodes)[i]),
            forall|i: int|
                0 <= i < old(nodes).len() - 1 ==> #[trigger] final(nodes)[i].clar == node_address(
                    base_addr,
                    i + 1,
                ),
            old(nodes).len() > 0 ==> final(nodes)[old(nodes).len() - 1].clar == node_address(
                base_addr,
                0,
            ),
    {
        let len = nodes.len();
        if len == 0 {
            return;
        }
        Self::link_forward(nodes, base_addr);
        let mut last = nodes[len - 1];
        last.clar = base_addr as u32;
        nodes.set(len - 1, last);
    }

    /// Point every descriptor but the last at the one after it.
    fn link_forward(nodes: &mut Vec<Self>, base_addr: usize)
        requires
            old(nodes).len() > 0,
            old(nodes).len() == 0 || base_addr + LINKED_LIST_NODE_BYTES * (old(nodes).len() - 1) <= usize::MAX,
        ensures
            final(nodes).len() == old(nodes).len(),
            forall|i: int|
                0 <= i < old(nodes).len() ==> #[trigger] final(nodes)[i].same_except_link(old(nodes)[i]),
            forall|i: int|
                0 <= i < old(nodes).len() - 1 ==> #[trigger] final(nodes)[i].clar == node_address(
                    base_addr,
                    i + 1,
                ),
            final(nodes)[old(nodes).len() - 1] == old(nodes)[old(nodes).len() - 1],
    {
        let len = nodes.len();
        let mut i: usize = 0;
        while i < len - 1
            invariant
                len == old(nodes).len(),
                len > 0,
                nodes.len() == len,
                i <= len - 1,
                base_addr + LINKED_LIST_NODE_BYTES * (len - 1) <= usize::MAX,
                forall|k: int| 0 <= k < len ==> #[trigger] nodes[k].same_except_link(old(nodes)[k]),
                forall|k: int| 0 <= k < i ==> #[trigger] nodes[k].clar == node_address(base_addr, k + 1),
                forall|k: int| i <= k < len ==> #[trigger] nodes[k] == old(nodes)[k],
            decreases len - 1 - i,
        {
            proof {
                assert(LINKED_LIST_NODE_BYTES * (i + 1) <= LINKED_LIST_NODE_BYTES * (len - 1)) by (nonlinear_arith)
                    requires
                        i + 1 <= len - 1,
                ;
            }
            let mut node = nodes[i];
            node.clar = (base_addr + LINKED_LIST_NODE_BYTES * (i + 1)) as u32;
            nodes.set(i, node);
            i += 1;
        }
    }
}

/// The operations that load the first descriptor of a linked list into the
/// channel and start it.
pub open spec fn execute_linked_list_ops(
    first_node: MdmaLinkedListNode,
    options: MdmaTransferOptions,
) -> Seq<ChannelOp> {
    seq![ChannelOp::ResetStatus] + abort_ops() + seq![
        ChannelOp::Fence,
        ChannelOp::Write { reg: ChannelRegister::Sar, value: first_node.csar },
        ChannelOp::Write { reg: ChannelRegister::Dar, value: first_node.cdar },
        ChannelOp::Write { reg: ChannelRegister::Tcr, value: first_node.ctcr },
        ChannelOp::Write { reg: ChannelRegister::Bndtr, value: first_node.cbndtr },
        ChannelOp::Write { reg: ChannelRegister::Brur, value: first_node.cbrur },
        ChannelOp::Write { reg: ChannelRegister::Tbr, value: first_node.ctbr },
        ChannelOp::Write { reg: ChannelRegister::Mar, value: first_node.cmar },
        ChannelOp::Write { reg: ChannelRegister::Mdr, value: first_node.cmdr },
        ChannelOp::Write { reg: ChannelRegister::Lar, value: first_node.clar },
        ChannelOp::Write { reg: ChannelRegister::Cr, value: transfer_cr(options) },
    ] + software_request_ops(options)
}

/// How a linked list is started: the channel is disabled, waited for and
/// its flags cleared; after a memory fence the first descriptor's words are
/// loaded into the matching channel registers, its link address last; then
/// the channel is enabled with the transfer error and channel transfer
/// complete interrupts, the asked priority and exactly the asked byte,
/// half-word and word exchanges — the same CCR that a channel transfer with
/// these options writes — and a software request follows exactly when there
/// is no hardware trigger.
#[verifier::spinoff_prover]
pub proof fn lemma_execute_linked_list_ops(first_node: MdmaLinkedListNode, options: MdmaTransferOptions)
    ensures
        ({
            let ops = execute_linked_list_ops(first_node, options);
            let cr = ops[14]->Write_value;
            &&& ops[0] == ChannelOp::ResetStatus
            &&& ops[1] == ChannelOp::ClearBits { reg: ChannelRegister::Cr, mask: 0x1 }
            &&& ops[2] == ChannelOp::WaitUntilClear { reg: ChannelRegister::Cr, mask: 0x1 }
            &&& ops[3] == ChannelOp::Write { reg: ChannelRegister::Ifcr, value: 0x1F }
            &&& ops[4] == ChannelOp::Fence
            &&& ops[5] == ChannelOp::Write { reg: ChannelRegister::Sar, value: first_node.csar }
            &&& ops[6] == ChannelOp::Write { reg: ChannelRegister::Dar, value: first_node.cdar }
            &&& ops[7] == ChannelOp::Write { reg: ChannelRegister::Tcr, value: first_node.ctcr }
            &&& ops[8] == ChannelOp::Write { reg: ChannelRegister::Bndtr, value: first_node.cbndtr }
            &&& ops[9] == ChannelOp::Write { reg: ChannelRegister::Brur, value: first_node.cbrur }
            &&& ops[10] == ChannelOp::Write { reg: ChannelRegister::Tbr, value: first_node.ctbr }
            &&& ops[11] == ChannelOp::Write { reg: ChannelRegister::Mar, value: first_node.cmar }
            &&& ops[12] == ChannelOp::Write { reg: ChannelRegister::Mdr, value: first_node.cmdr }
            &&& ops[13] == ChannelOp::Write { reg: ChannelRegister::Lar, value: first_node.clar }
            &&& ops[14] is Write && ops[14]->Write_reg == ChannelRegister::Cr
            &&& cr & 0x1 != 0 && cr & 0x2 != 0 && cr & 0x4 != 0
            &&& cr & 0x8 == 0 && cr & 0x10 == 0 && cr & 0x20 == 0
            &&& (cr >> 6u32) & 0x3 == options.priority.spec_bits()
            &&& (cr & 0x1000 != 0) == options.byte_swap
            &&& (cr & 0x2000 != 0) == options.half_word_swap
            &&& (cr & 0x4000 != 0) == options.word_swap
            &&& cr & 0x1_0000 == 0
            &&& forall|src: u32, dst: u32, total_bytes: usize, src_size: DataSize, dst_size: DataSize|
                crate::mdma::spec_transfer_size_supported(total_bytes) ==> #[trigger] crate::mdma::start_transfer_ops(
                    src,
                    dst,
                    total_bytes,
                    src_size,
                    dst_size,
                    options,
                )[13] == ops[14]
            &&& ops.len() == if options.trigger.is_none() {
                16int
            } else {
                15int
            }
            &&& options.trigger.is_none() ==> ops[15] == ChannelOp::SetBits {
                reg: ChannelRegister::Cr,
                mask: 0x1_0000,
            }
        }),
{
    crate::mdma::lemma_transfer_cr_fields(options);
    let ops = execute_linked_list_ops(first_node, options);
    crate::mdma::lemma_single_bits(ops[14]->Write_value);
    assert forall|src: u32, dst: u32, total_bytes: usize, src_size: DataSize, dst_size: DataSize|
        crate::mdma::spec_transfer_size_supported(total_bytes) implies #[trigger] crate::mdma::start_transfer_ops(
            src,
            dst,
            total_bytes,
            src_size,
            dst_size,
            options,
        )[13] == ops[14] by {
        crate::mdma::lemma_start_transfer_enables_last(src, dst, total_bytes, src_size, dst_size, options);
    }
}

impl<'d> MdmaChannel<'d> {
    /// The operations that run a linked-list transfer starting from
    /// `first_node`: stop the channel, load the first descriptor, link to the
    /// next one, and enable the channel with interrupts.
    pub fn execute_linked_list(&self, first_node: &MdmaLinkedListNode, options: &MdmaTransferOptions) -> (ops:
        Vec<ChannelOp>)
        ensures
            ops@ == execute_linked_list_ops(*first_node, *options),
    {
        let cr = regs::build_cr(
            options.priority.bits(),
            true,
            true,
            false,
            false,
            false,
            options.byte_swap,
            options.half_word_swap,
            options.word_swap,
            true,
        );
        let mut ops = vec![
            ChannelOp::ResetStatus,
            ChannelOp::ClearBits { reg: ChannelRegister::Cr, mask: regs::cr::EN },
            ChannelOp::WaitUntilClear { reg: ChannelRegister::Cr, mask: regs::cr::EN },
            ChannelOp::Write { reg: ChannelRegister::Ifcr, value: regs::ifcr::ALL },
            ChannelOp::Fence,
            ChannelOp::Write { reg: ChannelRegister::Sar, value: first_node.csar },
            ChannelOp::Write { reg: ChannelRegister::Dar, value: first_node.cdar },
            ChannelOp::Write { reg: ChannelRegister::Tcr, value: first_node.ctcr },
            ChannelOp::Write { reg: ChannelRegister::Bndtr, value: first_node.cbndtr },
            ChannelOp::Write { reg: ChannelRegister::Brur, value: first_node.cbrur },
            ChannelOp::Write { reg: ChannelRegister::Tbr, value: first_node.ctbr },
            ChannelOp::Write { reg: ChannelRegister::Mar, value: first_node.cmar },
            ChannelOp::Write { reg: ChannelRegister::Mdr, value: first_node.cmdr },
            ChannelOp::Write { reg: ChannelRegister::Lar, value: first_node.clar },
            ChannelOp::Write { reg: ChannelRegister::Cr, value: cr },
        ];
        if options.trigger.is_none() {
            ops.push(ChannelOp::SetBits { reg: ChannelRegister::Cr, mask: regs::cr::SWRQ });
        }
        assert(ops@ =~= execute_linked_list_ops(*first_node, *options));
        ops
    }
}

} // verus!
