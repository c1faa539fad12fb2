use vstd::prelude::*;
use crate::arch::registers::{RegisterBlock, word};
use crate::arch::arm::page::{PageTable, mapped_sld, pages_for};

verus! {

pub const UART0_DR: u32 = 0x00;
pub const UART0_RSRECR: u32 = 0x04;
pub const UART0_FR: u32 = 0x18;
pub const UART0_ILPR: u32 = 0x20;
pub const UART0_IBRD: u32 = 0x24;
pub const UART0_FBRD: u32 = 0x28;
pub const UART0_LCRH: u32 = 0x2C;
pub const UART0_CR: u32 = 0x30;
pub const UART0_IFLS: u32 = 0x34;
pub const UART0_IMSC: u32 = 0x38;
pub const UART0_RIS: u32 = 0x3C;
pub const UART0_MIS: u32 = 0x40;
pub const UART0_ICR: u32 = 0x44;
pub const UART0_DMACR: u32 = 0x48;
pub const UART0_ITCR: u32 = 0x80;
pub const UART0_ITIP: u32 = 0x84;
pub const UART0_ITOP: u32 = 0x88;
pub const UART0_TDR: u32 = 0x8C;

/// Number of 32-bit registers from `UART0_DR` to `UART0_TDR`.
pub const UART_REGISTERS: usize = 36;

/// Maps the UART registers, from `base + UART0_DR` up to `base + UART0_TDR`,
/// onto themselves.
pub fn map_pages(table: &mut PageTable, base: u32)
    requires
        old(table).wf(),
        base + UART0_TDR <= u32::MAX,
        old(table).coarse_over(base as int / 4096, pages_for(UART0_TDR as int)),
    ensures
        final(table).wf(),
        final(table).sld_base() == old(table).sld_base(),
        final(table).first_level() == old(table).first_level(),
        final(table).second_level() == mapped_sld(old(table).second_level(), base as int / 4096, pages_for(UART0_TDR as int), base, true, true),
{
    table.map_direct(PageTable::FLAGS_KERNEL, base + UART0_DR, UART0_TDR - UART0_DR);
}

/// `true` when bit 5 (transmit FIFO full) of the flag register is clear.
pub fn is_transmit_empty(uart: &RegisterBlock) -> (r: bool)
    requires
        uart@.len() == UART_REGISTERS,
    ensures
        r == (uart@[word(UART0_FR)] & (1u32 << 5u32) == 0),
{
    uart.load(UART0_FR) & (1u32 << 5u32) == 0
}

/// `true` when bit 4 (receive FIFO empty) of the flag register is set.
pub fn is_receive_empty(uart: &RegisterBlock) -> (r: bool)
    requires
        uart@.len() == UART_REGISTERS,
    ensures
        r == (uart@[word(UART0_FR)] & (1u32 << 4u32) != 0),
{
    uart.load(UART0_FR) & (1u32 << 4u32) != 0
}

} // verus!
