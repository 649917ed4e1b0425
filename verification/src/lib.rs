//! Master DMA (MDMA) channel programming for STM32H7.
//!
//! The crate computes every value that the MDMA driver writes into the
//! controller: register images, the ordered register operations of each
//! channel procedure, linked-list descriptors and display command sequences.
//! Performing those operations on the hardware is left to the caller.

pub mod mdma;
pub mod mdma_fmc_display;
pub mod mdma_linked_list;
pub mod regs;

pub use mdma::{
    channel_interrupt_ops, effective_buffer_length, factorize_transfer, gcd, is_tcm_address, lcm,
    pending_channels, transfer_size_supported, try_factorize_transfer, ChannelOp, DataSize,
    HardwareTrigger, IncrementMode, MdmaChannel, MdmaError, MdmaTransferOptions, PackingAlignment,
    PollStage, PollStep, Priority, TriggerMode, MDMA_CHANNEL_COUNT,
};
pub use mdma_fmc_display::{DisplayUpdate, DisplayWrite, MdmaFmcDisplay};
pub use mdma_linked_list::{LinkedListNodeConfig, MdmaLinkedListNode, LINKED_LIST_NODE_BYTES};
