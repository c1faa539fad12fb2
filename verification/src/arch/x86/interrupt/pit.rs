use vstd::prelude::*;

verus! {

/// Control port of the interval timer.
pub const PIT_REG_CONTROL: u16 = 0x0043;
/// Data port of counter 0.
pub const PIT_REG_COUNTER0: u16 = 0x0040;
/// Input clock of the timer, in Hz.
pub const PIT_CLOCK: u32 = 1193182;
/// Interrupts per second the kernel asks for.
pub const FREQ: u32 = 100;

/// The writes that start counter 0 as a square-wave generator at `FREQ`
/// Hz: the command, then the divisor low byte first.
pub open spec fn pit_init_writes() -> Seq<(u16, u8)> {
    let counter = (PIT_CLOCK / FREQ) as u16;
    seq![(PIT_REG_CONTROL, 0x36u8), (PIT_REG_COUNTER0, (counter & 0xFF) as u8), (PIT_REG_COUNTER0, (counter >> 8u16) as u8)]
}

/// The port writes, as `(port, value)`, that start the timer.
pub fn init_writes() -> (r: Vec<(u16, u8)>)
    ensures
        r@ == pit_init_writes(),
{
    let counter = (PIT_CLOCK / FREQ) as u16;
    // Counter 0, low byte then high byte, square wave.
    let command: u8 = 0x36;
    let mut r: Vec<(u16, u8)> = Vec::new();
    r.push((PIT_REG_CONTROL, command));
    r.push((PIT_REG_COUNTER0, (counter & 0xFF) as u8));
    r.push((PIT_REG_COUNTER0, (counter >> 8u16) as u8));
    proof { assert(r@ =~= pit_init_writes()); }
    r
}

/// Milliseconds that pass between two timer interrupts.
pub fn tick_ms() -> (r: usize)
    ensures
        r == 1000u32 / FREQ,
{
    (1000 / FREQ) as usize
}

} // verus!
