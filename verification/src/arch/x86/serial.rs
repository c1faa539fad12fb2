use vstd::prelude::*;

verus! {

/// Data port of the first serial port.
pub const COM1: u16 = 0x3F8;
/// Line status port of the first serial port.
pub const COM1_LINE_STATUS: u16 = 0x3FD;
/// The emulator's debug console port.
pub const DEBUG_CONSOLE: u16 = 0xE9;

/// The line status says the transmitter takes another byte.
pub fn is_transmit_empty(line_status: u8) -> (r: bool)
    ensures
        r == (line_status & 0x20 != 0),
{
    line_status & 0x20 != 0
}

/// The port writes that send byte `b`, once the transmitter is free: to
/// the serial port and to the emulator's debug console.
pub fn putb_writes(b: u8) -> (r: Vec<(u16, u8)>)
    ensures
        r@ == seq![(COM1, b), (DEBUG_CONSOLE, b)],
{
    let mut r: Vec<(u16, u8)> = Vec::new();
    r.push((COM1, b));
    r.push((DEBUG_CONSOLE, b));
    proof { assert(r@ =~= seq![(COM1, b), (DEBUG_CONSOLE, b)]); }
    r
}

} // verus!
