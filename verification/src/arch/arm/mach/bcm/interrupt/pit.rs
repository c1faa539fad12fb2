use vstd::prelude::*;
use crate::arch::registers::{RegisterBlock, word};
use crate::arch::arm::page::{PageTable, mapped_sld, pages_for};

verus! {

/// Base address of the system timer.
pub const SYSTIMER_BASE: u32 = 0x20003000;

/// System timer control/status.
pub const SYSTIMER_CS: u32 = 0x00;
/// Counter, lower 32 bits.
pub const SYSTIMER_CLO: u32 = 0x04;
/// Counter, higher 32 bits.
pub const SYSTIMER_CHI: u32 = 0x08;
/// Compare registers 0 to 3.
pub const SYSTIMER_C0: u32 = 0x0C;
pub const SYSTIMER_C1: u32 = 0x10;
pub const SYSTIMER_C2: u32 = 0x14;
pub const SYSTIMER_C3: u32 = 0x18;

/// Number of 32-bit registers of the system timer.
pub const SYSTIMER_REGISTERS: usize = 7;

/// Milliseconds between timer interrupts.
pub const INTERVAL_MS: u32 = 10;

/// One of the four compare channels of the system timer.
#[derive(Clone, Copy, PartialEq, Eq, Structural, Debug)]
pub enum Timer {
    M0,
    M1,
    M2,
    M3,
}

/// The channel number.
pub open spec fn timer_number(t: Timer) -> u32 {
    match t {
        Timer::M0 => 0,
        Timer::M1 => 1,
        Timer::M2 => 2,
        Timer::M3 => 3,
    }
}

impl Timer {
    /// Offset of the channel's compare register.
    fn reg(self) -> (r: u32)
        ensures
            r == SYSTIMER_C0 + 4 * timer_number(self),
    {
        match self {
            Timer::M0 => SYSTIMER_C0,
            Timer::M1 => SYSTIMER_C1,
            Timer::M2 => SYSTIMER_C2,
            Timer::M3 => SYSTIMER_C3,
        }
    }

    /// The channel's bit in the control/status register.
    pub fn bit(self) -> (r: u32)
        ensures
            r == 1u32 << timer_number(self),
    {
        match self {
            Timer::M0 => 1u32 << 0u32,
            Timer::M1 => 1u32 << 1u32,
            Timer::M2 => 1u32 << 2u32,
            Timer::M3 => 1u32 << 3u32,
        }
    }

    /// Sets the channel's bit in the control/status register.
    pub fn enable(self, timer: &mut RegisterBlock)
        requires
            old(timer)@.len() == SYSTIMER_REGISTERS,
        ensures
            final(timer)@ == old(timer)@.update(word(SYSTIMER_CS), old(timer)@[word(SYSTIMER_CS)] | (1u32 << timer_number(self))),
    {
        timer.store(SYSTIMER_CS, timer.load(SYSTIMER_CS) | self.bit());
    }

    /// Clears the channel's bit in the control/status register.
    pub fn disable(self, timer: &mut RegisterBlock)
        requires
            old(timer)@.len() == SYSTIMER_REGISTERS,
        ensures
            final(timer)@ == old(timer)@.update(word(SYSTIMER_CS), old(timer)@[word(SYSTIMER_CS)] & !(1u32 << timer_number(self))),
    {
        timer.store(SYSTIMER_CS, timer.load(SYSTIMER_CS) & !self.bit());
    }

    /// The value of the channel's compare register.
    pub fn tick(self, timer: &RegisterBlock) -> (r: u32)
        requires
            timer@.len() == SYSTIMER_REGISTERS,
        ensures
            r == timer@[word((SYSTIMER_C0 + 4 * timer_number(self)) as u32)],
    {
        timer.load(self.reg())
    }

    /// Writes `tick` to the channel's compare register.
    pub fn set(self, timer: &mut RegisterBlock, tick: u32)
        requires
            old(timer)@.len() == SYSTIMER_REGISTERS,
        ensures
            final(timer)@ == old(timer)@.update(word((SYSTIMER_C0 + 4 * timer_number(self)) as u32), tick),
    {
        timer.store(self.reg(), tick);
    }
}

/// Maps the system timer's registers, `SYSTIMER_BASE .. SYSTIMER_BASE + SYSTIMER_C3`,
/// onto themselves.
pub fn map_pages(table: &mut PageTable)
    requires
        old(table).wf(),
        old(table).coarse_over(SYSTIMER_BASE as int / 4096, pages_for(SYSTIMER_C3 as int)),
    ensures
        final(table).wf(),
        final(table).sld_base() == old(table).sld_base(),
        final(table).first_level() == old(table).first_level(),
        final(table).second_level() == mapped_sld(old(table).second_level(), SYSTIMER_BASE as int / 4096, pages_for(SYSTIMER_C3 as int), SYSTIMER_BASE, true, true),
{
    table.map_direct(PageTable::FLAGS_KERNEL, SYSTIMER_BASE + SYSTIMER_CS, SYSTIMER_C3 - SYSTIMER_CS);
}

/// The 64-bit counter from a read of its high word, its low word and its
/// high word again: `None` when the high word changed in between and the
/// counter must be read again.
pub fn clock(hi: u32, lo: u32, hi_again: u32) -> (r: Option<u64>)
    ensures
        hi == hi_again ==> r is Some && r->0 as int == hi as int * 0x1_0000_0000 + lo as int,
        hi != hi_again ==> r is None,
{
    if hi == hi_again {
        let v = (hi as u64) << 32u64 | lo as u64;
        proof {
            assert(((hi as u64) << 32u64 | lo as u64) as int == hi as int * 0x1_0000_0000 + lo as int) by (bit_vector);
        }
        Some(v)
    } else {
        None
    }
}

/// The next compare value after an interrupt at `tick`: one interval
/// later, wrapping around with the counter.
pub fn next_compare(tick: u32) -> (r: u32)
    ensures
        r as int == (tick as int + INTERVAL_MS * 1000) % 0x1_0000_0000,
{
    tick.wrapping_add(INTERVAL_MS * 1000)
}

} // verus!
