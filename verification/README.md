# stm32_mdma

Verified computation of STM32H7 Master DMA (MDMA) programming.

`src/` is a Verus library. It builds the register images of an MDMA channel
(CTCR, CBNDTR, CTBR, CCR), splits a transfer into blocks, chooses the buffer
length, links linked-list descriptors, produces the display command sequences,
and returns each channel procedure (start a transfer, stop a channel, handle an
interrupt, poll for completion) as the ordered list of register operations
that carries it out. Every function is proved against its contract.

`app/` performs those operations on the hardware: volatile register access,
the per-channel completion state updated by the interrupt handler, the async
waits, and NVIC/RCC setup.

- `src/regs.rs` and `src/regs/`: register map, builders and their field laws.
- `src/mdma.rs`: options, block splitting, channel procedures, polling, interrupts.
- `src/mdma_linked_list.rs`: linked-list descriptors and their linking.
- `src/mdma_fmc_display.rs`: FMC display command sequences and pixel transfers.
