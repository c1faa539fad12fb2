use vstd::prelude::*;
use crate::arch::registers::{RegisterBlock, word};
use crate::arch::arm::page::{PageTable, mapped_sld, pages_for};
use crate::arch::arm::irq_bits::{pending_bits, bit_at};

verus! {

/// Base address of the vectored interrupt controller.
pub const PIC_BASE: u32 = 0x10140000;

pub const VIC_IRQ_STATUS: u32 = 0x00;
pub const VIC_FIQ_STATUS: u32 = 0x04;
pub const VIC_INT_SELECT: u32 = 0x0C;
pub const VIC_INT_ENABLE: u32 = 0x10;
pub const VIC_INT_EN_CLEAR: u32 = 0x14;

/// Number of 32-bit registers of the controller.
pub const PIC_REGISTERS: usize = 6;

/// An interrupt source of the controller, numbered 0 to 20.
#[derive(Clone, Copy, PartialEq, Eq, Structural, Debug)]
pub enum IRQ {
    /// Watchdog timer.
    WatchDog,
    /// Software interrupt.
    Software,
    /// Debug communications receive interrupt.
    CommsRx,
    /// Debug communications transmit interrupt.
    CommsTx,
    /// Timers on development chip.
    Timer01,
    /// Timers on development chip.
    Timer23,
    /// GPIO controller in development chip.
    GPIO0,
    /// GPIO controller in development chip.
    GPIO1,
    /// GPIO controller in development chip.
    GPIO2,
    /// GPIO controller in development chip.
    GPIO3,
    /// Real time clock in development chip.
    RTC,
    /// Synchronous serial port in development chip.
    SSP,
    /// UART0 on development chip.
    UART0,
    /// UART1 on development chip.
    UART1,
    /// UART2 on development chip.
    UART2,
    /// Smart Card interface in development chip.
    SCI0,
    /// CLCD controller in development chip.
    CLCD,
    /// DMA controller in development chip.
    DMA,
    /// Power failure from FPGA.
    PWRFAIL,
    /// Graphics processor on development chip.
    MBX,
    /// Reserved.
    GND,
}

/// The interrupt number of a source.
pub open spec fn irq_number(irq: IRQ) -> u32 {
    match irq {
        IRQ::WatchDog => 0,
        IRQ::Software => 1,
        IRQ::CommsRx => 2,
        IRQ::CommsTx => 3,
        IRQ::Timer01 => 4,
        IRQ::Timer23 => 5,
        IRQ::GPIO0 => 6,
        IRQ::GPIO1 => 7,
        IRQ::GPIO2 => 8,
        IRQ::GPIO3 => 9,
        IRQ::RTC => 10,
        IRQ::SSP => 11,
        IRQ::UART0 => 12,
        IRQ::UART1 => 13,
        IRQ::UART2 => 14,
        IRQ::SCI0 => 15,
        IRQ::CLCD => 16,
        IRQ::DMA => 17,
        IRQ::PWRFAIL => 18,
        IRQ::MBX => 19,
        IRQ::GND => 20,
    }
}

impl IRQ {
    /// The interrupt number.
    pub fn number(self) -> (r: u32)
        ensures
            r == irq_number(self),
    {
        match self {
            IRQ::WatchDog => 0,
            IRQ::Software => 1,
            IRQ::CommsRx => 2,
            IRQ::CommsTx => 3,
            IRQ::Timer01 => 4,
            IRQ::Timer23 => 5,
            IRQ::GPIO0 => 6,
            IRQ::GPIO1 => 7,
            IRQ::GPIO2 => 8,
            IRQ::GPIO3 => 9,
            IRQ::RTC => 10,
            IRQ::SSP => 11,
            IRQ::UART0 => 12,
            IRQ::UART1 => 13,
            IRQ::UART2 => 14,
            IRQ::SCI0 => 15,
            IRQ::CLCD => 16,
            IRQ::DMA => 17,
            IRQ::PWRFAIL => 18,
            IRQ::MBX => 19,
            IRQ::GND => 20,
        }
    }

    /// The source with interrupt number `num`, for `num` from 0 to 20.
    pub fn from_u8(num: u8) -> (r: Option<IRQ>)
        ensures
            num <= 20 ==> r is Some && irq_number(r->0) == num,
            num > 20 ==> r is None,
    {
        match num {
            0 => Some(IRQ::WatchDog),
            1 => Some(IRQ::Software),
            2 => Some(IRQ::CommsRx),
            3 => Some(IRQ::CommsTx),
            4 => Some(IRQ::Timer01),
            5 => Some(IRQ::Timer23),
            6 => Some(IRQ::GPIO0),
            7 => Some(IRQ::GPIO1),
            8 => Some(IRQ::GPIO2),
            9 => Some(IRQ::GPIO3),
            10 => Some(IRQ::RTC),
            11 => Some(IRQ::SSP),
            12 => Some(IRQ::UART0),
            13 => Some(IRQ::UART1),
            14 => Some(IRQ::UART2),
            15 => Some(IRQ::SCI0),
            16 => Some(IRQ::CLCD),
            17 => Some(IRQ::DMA),
            18 => Some(IRQ::PWRFAIL),
            19 => Some(IRQ::MBX),
            20 => Some(IRQ::GND),
            _ => None,
        }
    }

    /// The source's bit in the controller's registers.
    pub fn bit(self) -> (r: u32)
        ensures
            r == 1u32 << irq_number(self),
    {
        1u32 << self.number()
    }

    /// Sets the source's bit in the enable register.
    pub fn enable(self, pic: &mut RegisterBlock)
        requires
            old(pic)@.len() == PIC_REGISTERS,
        ensures
            final(pic)@ == old(pic)@.update(word(VIC_INT_ENABLE), old(pic)@[word(VIC_INT_ENABLE)] | (1u32 << irq_number(self))),
    {
        let enabled = pic.load(VIC_INT_ENABLE);
        pic.store(VIC_INT_ENABLE, enabled | self.bit());
    }

    /// Clears the source's bit in the enable register.
    pub fn disable(self, pic: &mut RegisterBlock)
        requires
            old(pic)@.len() == PIC_REGISTERS,
        ensures
            final(pic)@ == old(pic)@.update(word(VIC_INT_ENABLE), old(pic)@[word(VIC_INT_ENABLE)] & !(1u32 << irq_number(self))),
    {
        let enabled = pic.load(VIC_INT_ENABLE);
        pic.store(VIC_INT_ENABLE, enabled & !self.bit());
    }
}

/// Maps the controller's registers, `PIC_BASE .. PIC_BASE + VIC_INT_EN_CLEAR`,
/// onto themselves.
pub fn map_pages(table: &mut PageTable)
    requires
        old(table).wf(),
        old(table).coarse_over(PIC_BASE as int / 4096, pages_for(VIC_INT_EN_CLEAR as int)),
    ensures
        final(table).wf(),
        final(table).sld_base() == old(table).sld_base(),
        final(table).first_level() == old(table).first_level(),
        final(table).second_level() == mapped_sld(old(table).second_level(), PIC_BASE as int / 4096, pages_for(VIC_INT_EN_CLEAR as int), PIC_BASE, true, true),
{
    table.map_direct(PageTable::FLAGS_KERNEL, PIC_BASE + VIC_IRQ_STATUS, VIC_INT_EN_CLEAR - VIC_IRQ_STATUS);
}

/// The handler calls the interrupt handler makes for the status register
/// value `status`: one for each set bit, highest first, with that bit as
/// both the handler slot and the interrupt number.
pub fn irq_handler(status: u32) -> (r: Vec<(u32, u32)>)
    ensures
        forall|k: int| 0 <= k < r@.len() ==> #[trigger] r@[k].0 < 32 && r@[k].1 == r@[k].0 && bit_at(status, r@[k].0),
        forall|k: int, l: int| 0 <= k < l < r@.len() ==> r@[k].0 > r@[l].0,
        forall|j: u32| j < 32 && bit_at(status, j) ==> exists|k: int| 0 <= k < r@.len() && r@[k].0 == j,
{
    let bits = pending_bits(status);
    let mut r: Vec<(u32, u32)> = Vec::new();
    let mut i: usize = 0;
    while i < bits.len()
        invariant
            i <= bits@.len(),
            r@.len() == i,
            forall|k: int| 0 <= k < i ==> #[trigger] r@[k] == (bits@[k], bits@[k]),
        decreases bits@.len() - i,
    {
        r.push((bits[i], bits[i]));
        i = i + 1;
    }
    proof {
        assert forall|j: u32| j < 32 && bit_at(status, j) implies exists|k: int| 0 <= k < r@.len() && r@[k].0 == j by {
            let k = bits@.index_of(j);
            assert(r@[k].0 == j);
        }
    }
    r
}

} // verus!
