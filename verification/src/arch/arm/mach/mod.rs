use vstd::prelude::*;
use crate::arch::arm::page::{PageTable, mapped_sld, pages_for};
use crate::arch::arm::{gpio, serial};

pub mod bcm;
pub mod versatile;

verus! {

/// The boards the kernel runs on.
#[derive(Clone, Copy, PartialEq, Eq, Structural, Debug)]
pub enum Machine {
    /// The BCM2835 of the Raspberry Pi.
    Bcm,
    /// The ARM Versatile PB.
    Versatile,
}

/// The board's registers are all in pages covered by coarse tables.
pub open spec fn registers_coarse(machine: Machine, table: PageTable) -> bool {
    match machine {
        Machine::Bcm => {
            &&& table.coarse_over(bcm::interrupt::pic::PIC_BASE as int / 4096, pages_for(bcm::interrupt::pic::DISABLE_BASIC_IRQS as int))
            &&& table.coarse_over(bcm::interrupt::pit::SYSTIMER_BASE as int / 4096, pages_for(bcm::interrupt::pit::SYSTIMER_C3 as int))
            &&& table.coarse_over(bcm::GPIO_BASE as int / 4096, pages_for(gpio::TEST as int))
            &&& table.coarse_over(bcm::UART0_BASE as int / 4096, pages_for(serial::UART0_TDR as int))
        },
        Machine::Versatile => {
            &&& table.coarse_over(versatile::interrupt::pic::PIC_BASE as int / 4096, pages_for(versatile::interrupt::pic::VIC_INT_EN_CLEAR as int))
            &&& table.coarse_over(versatile::interrupt::pit::TIMER0_BASE as int / 4096, pages_for(versatile::interrupt::pit::TIMER_MIS as int))
            &&& table.coarse_over(versatile::interrupt::pit::TIMER1_BASE as int / 4096, pages_for(versatile::interrupt::pit::TIMER_MIS as int))
            &&& table.coarse_over(versatile::GPIO_BASE as int / 4096, pages_for(gpio::TEST as int))
            &&& table.coarse_over(versatile::UART0_BASE as int / 4096, pages_for(serial::UART0_TDR as int))
        },
    }
}

/// The second-level descriptors after the board's registers are mapped
/// onto themselves.
pub open spec fn registers_mapped(machine: Machine, sld: Seq<u32>) -> Seq<u32> {
    match machine {
        Machine::Bcm =>
            mapped_sld(mapped_sld(mapped_sld(mapped_sld(sld,
                bcm::interrupt::pic::PIC_BASE as int / 4096, pages_for(bcm::interrupt::pic::DISABLE_BASIC_IRQS as int), bcm::interrupt::pic::PIC_BASE, true, true),
                bcm::interrupt::pit::SYSTIMER_BASE as int / 4096, pages_for(bcm::interrupt::pit::SYSTIMER_C3 as int), bcm::interrupt::pit::SYSTIMER_BASE, true, true),
                bcm::GPIO_BASE as int / 4096, pages_for(gpio::TEST as int), bcm::GPIO_BASE, true, true),
                bcm::UART0_BASE as int / 4096, pages_for(serial::UART0_TDR as int), bcm::UART0_BASE, true, true),
        Machine::Versatile =>
            mapped_sld(mapped_sld(mapped_sld(mapped_sld(mapped_sld(sld,
                versatile::interrupt::pic::PIC_BASE as int / 4096, pages_for(versatile::interrupt::pic::VIC_INT_EN_CLEAR as int), versatile::interrupt::pic::PIC_BASE, true, true),
                versatile::interrupt::pit::TIMER0_BASE as int / 4096, pages_for(versatile::interrupt::pit::TIMER_MIS as int), versatile::interrupt::pit::TIMER0_BASE, true, true),
                versatile::interrupt::pit::TIMER1_BASE as int / 4096, pages_for(versatile::interrupt::pit::TIMER_MIS as int), versatile::interrupt::pit::TIMER1_BASE, true, true),
                versatile::GPIO_BASE as int / 4096, pages_for(gpio::TEST as int), versatile::GPIO_BASE, true, true),
                versatile::UART0_BASE as int / 4096, pages_for(serial::UART0_TDR as int), versatile::UART0_BASE, true, true),
    }
}

/// Maps the registers of `machine` onto themselves.
pub fn map_pages(machine: Machine, table: &mut PageTable)
    requires
        old(table).wf(),
        registers_coarse(machine, *old(table)),
    ensures
        final(table).wf(),
        final(table).sld_base() == old(table).sld_base(),
        final(table).first_level() == old(table).first_level(),
        final(table).second_level() == registers_mapped(machine, old(table).second_level()),
{
    match machine {
        Machine::Bcm => bcm::map_pages(table),
        Machine::Versatile => versatile::map_pages(table),
    }
}

} // verus!
