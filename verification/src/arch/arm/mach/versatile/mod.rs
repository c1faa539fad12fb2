use vstd::prelude::*;
use crate::arch::arm::page::{PageTable, mapped_sld, pages_for};
use crate::arch::arm::{gpio, serial};

pub mod interrupt;

verus! {

/// Base address of the GPIO registers.
pub const GPIO_BASE: u32 = 0x101E4000;
/// Base address of the UART registers.
pub const UART0_BASE: u32 = 0x101F1000;

/// Maps the registers of the interrupt controller, both timers, the GPIO
/// pins and the UART onto themselves, in that order.
pub fn map_pages(table: &mut PageTable)
    requires
        old(table).wf(),
        old(table).coarse_over(interrupt::pic::PIC_BASE as int / 4096, pages_for(interrupt::pic::VIC_INT_EN_CLEAR as int)),
        old(table).coarse_over(interrupt::pit::TIMER0_BASE as int / 4096, pages_for(interrupt::pit::TIMER_MIS as int)),
        old(table).coarse_over(interrupt::pit::TIMER1_BASE as int / 4096, pages_for(interrupt::pit::TIMER_MIS as int)),
        old(table).coarse_over(GPIO_BASE as int / 4096, pages_for(gpio::TEST as int)),
        old(table).coarse_over(UART0_BASE as int / 4096, pages_for(serial::UART0_TDR as int)),
    ensures
        final(table).wf(),
        final(table).sld_base() == old(table).sld_base(),
        final(table).first_level() == old(table).first_level(),
        final(table).second_level() ==
            mapped_sld(mapped_sld(mapped_sld(mapped_sld(mapped_sld(old(table).second_level(),
                interrupt::pic::PIC_BASE as int / 4096, pages_for(interrupt::pic::VIC_INT_EN_CLEAR as int), interrupt::pic::PIC_BASE, true, true),
                interrupt::pit::TIMER0_BASE as int / 4096, pages_for(interrupt::pit::TIMER_MIS as int), interrupt::pit::TIMER0_BASE, true, true),
                interrupt::pit::TIMER1_BASE as int / 4096, pages_for(interrupt::pit::TIMER_MIS as int), interrupt::pit::TIMER1_BASE, true, true),
                GPIO_BASE as int / 4096, pages_for(gpio::TEST as int), GPIO_BASE, true, true),
                UART0_BASE as int / 4096, pages_for(serial::UART0_TDR as int), UART0_BASE, true, true),
{
    interrupt::pic::map_pages(table);
    interrupt::pit::map_pages(table);
    gpio::map_pages(table, GPIO_BASE);
    serial::map_pages(table, UART0_BASE);
}

} // verus!
