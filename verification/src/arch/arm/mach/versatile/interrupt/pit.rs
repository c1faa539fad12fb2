use vstd::prelude::*;
use crate::arch::arm::page::{PageTable, mapped_sld, pages_for};

verus! {

pub const TIMER_LOAD: u32 = 0x00;
pub const TIMER_VALUE: u32 = 0x04;
pub const TIMER_CONTROL: u32 = 0x08;
pub const TIMER_INTCLR: u32 = 0x0C;
pub const TIMER_MIS: u32 = 0x14;

/// Base address of timer 0.
pub const TIMER0_BASE: u32 = 0x101E2000;
/// Base address of timer 1.
pub const TIMER1_BASE: u32 = 0x101E2020;

/// Maps the registers of both timers, each `TIMER_LOAD .. TIMER_MIS` from
/// its base, onto themselves.
pub fn map_pages(table: &mut PageTable)
    requires
        old(table).wf(),
        old(table).coarse_over(TIMER0_BASE as int / 4096, pages_for(TIMER_MIS as int)),
        old(table).coarse_over(TIMER1_BASE as int / 4096, pages_for(TIMER_MIS as int)),
    ensures
        final(table).wf(),
        final(table).sld_base() == old(table).sld_base(),
        final(table).first_level() == old(table).first_level(),
        final(table).second_level() == mapped_sld(mapped_sld(old(table).second_level(),
            TIMER0_BASE as int / 4096, pages_for(TIMER_MIS as int), TIMER0_BASE, true, true),
            TIMER1_BASE as int / 4096, pages_for(TIMER_MIS as int), TIMER1_BASE, true, true),
{
    table.map_direct(PageTable::FLAGS_KERNEL, TIMER0_BASE + TIMER_LOAD, TIMER_MIS - TIMER_LOAD);
    table.map_direct(PageTable::FLAGS_KERNEL, TIMER1_BASE + TIMER_LOAD, TIMER_MIS - TIMER_LOAD);
}

/// The free-running clock from the value register of timer 1, which counts down.
pub fn clock(value: u32) -> (r: u64)
    ensures
        r == (!value) as u64,
{
    !value as u64
}

} // verus!
