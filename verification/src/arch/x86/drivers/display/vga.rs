use vstd::prelude::*;

verus! {

/// Sequencer registers.
pub const SEQ_REGS: usize = 5;
/// CRT controller registers.
pub const CRT_REGS: usize = 25;
/// Graphics controller registers.
pub const GF_REGS: usize = 9;
/// Attribute controller registers.
pub const ATTR_REGS: usize = 21;

/// Miscellaneous output: colour emulation (CRT controller at 0x3D4).
pub const MISC_IO_SELECT: u8 = 0x01;
/// Miscellaneous output: the reserved bit, kept as the register holds it.
pub const MISC_RESERVED: u8 = 0x10;

/// Sequencer reset register.
pub const SEQ_RESET_INDEX: u8 = 0x00;
/// Sequencer reset: asynchronous reset bit.
pub const SEQ_RESET_ASYNC: u8 = 0x01;
/// Sequencer reset: synchronous reset bit.
pub const SEQ_RESET_SYNC: u8 = 0x02;
/// Sequencer clocking mode register.
pub const SEQ_CLOCK_MODE_INDEX: u8 = 0x01;
/// Clocking mode: screen off bit.
pub const SEQ_CLOCK_MODE_SCREEN_OFF: u8 = 0x20;
/// First sequencer register set from the mode's table in the loop.
pub const SEQ_MAP_MASK_INDEX: u8 = 0x02;

/// CRT controller: end horizontal blanking register, whose top bit is
/// always written as 1.
pub const CRT_END_HOR_BLANK_INDEX: u8 = 0x03;
/// CRT controller: vertical retrace end register, which holds the lock bit.
pub const CRT_VER_RETRACE_END_INDEX: u8 = 0x11;
/// Vertical retrace end: protect registers 0 to 7.
pub const CRT_PROTECT: u8 = 0x80;

/// Graphics controller: mode register.
pub const GF_MODE_INDEX: u8 = 0x05;
/// Graphics mode: write mode bits.
pub const GF_MODE_WRITE: u8 = 0x03;
/// Graphics mode: read mode bit.
pub const GF_MODE_READ: u8 = 0x08;

/// Attribute controller: first register after the palette.
pub const ATTR_MODE_INDEX: u8 = 0x10;
/// Attribute address: palette address source (video enabled).
pub const ATTR_PALETTE_ACCESS: u8 = 0x20;

/// Milliseconds to wait for the screen to settle before turning it on.
pub const SETTLE_MS: u32 = 50;

/// Bits of sequencer register `index` that are reserved and kept as the
/// register holds them.
pub open spec fn seq_reserved_spec(index: u8) -> u8 {
    if index == 0x00 { 0xFC }
    else if index == 0x01 { 0xC2 }
    else if index == 0x02 { 0xF0 }
    else if index == 0x03 { 0xC0 }
    else if index == 0x04 { 0xF1 }
    else { 0x00 }
}

/// Bits of CRT controller register `index` that are reserved and kept as
/// the register holds them.
pub open spec fn crtc_reserved_spec(index: u8) -> u8 {
    if index == 0x03 { 0x80 }
    else if index == 0x08 { 0x80 }
    else if index == 0x0A { 0xC0 }
    else if index == 0x0B { 0x80 }
    else if index == 0x14 { 0x80 }
    else if index == 0x17 { 0x10 }
    else { 0x00 }
}

/// Reserved bits of sequencer register `index`.
pub fn seq_reserved(index: u8) -> (r: u8)
    ensures
        r == seq_reserved_spec(index),
{
    if index == 0x00 { 0xFC }
    else if index == 0x01 { 0xC2 }
    else if index == 0x02 { 0xF0 }
    else if index == 0x03 { 0xC0 }
    else if index == 0x04 { 0xF1 }
    else { 0x00 }
}

/// Reserved bits of CRT controller register `index`.
pub fn crtc_reserved(index: u8) -> (r: u8)
    ensures
        r == crtc_reserved_spec(index),
{
    if index == 0x03 { 0x80 }
    else if index == 0x08 { 0x80 }
    else if index == 0x0A { 0xC0 }
    else if index == 0x0B { 0x80 }
    else if index == 0x14 { 0x80 }
    else if index == 0x17 { 0x10 }
    else { 0x00 }
}

/// The value written to the miscellaneous output register for `misc` when
/// it holds `old`: the reserved bit stays as it was.
pub fn misc_value(misc: u8, old: u8) -> (r: u8)
    ensures
        r == misc | (old & MISC_RESERVED),
{
    misc | (old & MISC_RESERVED)
}

/// The value written to sequencer register `index` for `data` when it
/// holds `old`: reserved bits from `old`, the others from `data`.
pub fn seq_value(index: u8, old: u8, data: u8) -> (r: u8)
    ensures
        r == (old & seq_reserved_spec(index)) | (data & !seq_reserved_spec(index)),
{
    let mask = seq_reserved(index);
    (old & mask) | (data & !mask)
}

/// The value written to CRT controller register `index` for `data` when it
/// holds `old`: the end-horizontal-blanking register gets its top bit set;
/// in the others the reserved bits come from `old`, the rest from `data`.
pub fn crtc_value(index: u8, old: u8, data: u8) -> (r: u8)
    ensures
        r == if index == CRT_END_HOR_BLANK_INDEX {
            data | 0x80
        } else {
            (old & crtc_reserved_spec(index)) | (data & !crtc_reserved_spec(index))
        },
{
    let mask = crtc_reserved(index);
    if index == CRT_END_HOR_BLANK_INDEX {
        data | 0x80
    } else {
        (old & mask) | (data & !mask)
    }
}

/// The vertical retrace end value that unlocks CRT registers 0 to 7, from
/// the value `old` it holds.
pub fn unlock_value(old: u8) -> (r: u8)
    ensures
        r == old & !CRT_PROTECT,
{
    old & !CRT_PROTECT
}

/// The vertical retrace end value that locks CRT registers 0 to 7, from
/// the value `old` it holds.
pub fn lock_value(old: u8) -> (r: u8)
    ensures
        r == old | CRT_PROTECT,
{
    old | CRT_PROTECT
}

/// The clocking mode value that turns the screen on, from `old`.
pub fn screen_on_value(old: u8) -> (r: u8)
    ensures
        r == old & !SEQ_CLOCK_MODE_SCREEN_OFF,
{
    old & !SEQ_CLOCK_MODE_SCREEN_OFF
}

/// The clocking mode value that turns the screen off, from `old`.
pub fn screen_off_value(old: u8) -> (r: u8)
    ensures
        r == old | SEQ_CLOCK_MODE_SCREEN_OFF,
{
    old | SEQ_CLOCK_MODE_SCREEN_OFF
}

/// The graphics mode value with write mode `mode`, from `old`.
pub fn write_mode_value(old: u8, mode: u8) -> (r: u8)
    ensures
        r == (old & !GF_MODE_WRITE) | (mode & GF_MODE_WRITE),
{
    let cleared = old & !GF_MODE_WRITE;
    cleared | (mode & GF_MODE_WRITE)
}

/// The graphics mode value with read mode `mode`, from `old`.
pub fn read_mode_value(old: u8, mode: u8) -> (r: u8)
    ensures
        r == (old & !GF_MODE_READ) | (((mode as u32) << 3u32) as u8 & GF_MODE_READ),
{
    let cleared = old & !GF_MODE_READ;
    let shifted: u8 = ((mode as u32) << 3u32) as u8;
    cleared | (shifted & GF_MODE_READ)
}

/// The register values of one VGA mode.
#[derive(Clone, Copy, Debug)]
pub struct Vga {
    /// Miscellaneous output register.
    pub misc: u8,
    /// Sequencer registers.
    pub seq: [u8; 5],
    /// CRT controller registers.
    pub crt: [u8; 25],
    /// Graphics controller registers.
    pub gf: [u8; 9],
    /// Attribute controller registers.
    pub attr: [u8; 21],
}

/// One step of loading a mode into the adapter.  Where a step writes a
/// register that has reserved bits, the value written is the one the
/// matching function above gives from what the register holds.
#[derive(Clone, Copy, PartialEq, Eq, Structural, Debug)]
pub enum VgaOp {
    /// Write the miscellaneous output register (`misc_value`).
    Misc(u8),
    /// Write a sequencer register (`seq_value`).
    Sequencer(u8, u8),
    /// Clear the CRT lock bit (`unlock_value`, then `crtc_value`).
    UnlockCrtc,
    /// Write a CRT controller register (`crtc_value`).
    Crtc(u8, u8),
    /// Set the CRT lock bit (`lock_value`, then `crtc_value`).
    LockCrtc,
    /// Write a graphics controller register.
    Graphics(u8, u8),
    /// Write an attribute controller register; the index carries the
    /// address bits to send.
    Attribute(u8, u8),
    /// Reset the attribute flip-flop and enable video.
    EnableVideo,
    /// Wait this many milliseconds.
    Delay(u32),
    /// Turn the screen on (`screen_on_value`, then `seq_value`).
    ScreenOn,
}

/// Number of steps in loading a mode.
pub const LOAD_STEPS: usize = 67;

/// Step `k` of loading `v`: the miscellaneous register with colour
/// emulation; an asynchronous reset; the clocking mode with the screen
/// off; sequencer registers 2 to 4; the reset released (both reset bits
/// set over the mode's value); the CRT controller unlocked, its registers
/// in order, and locked again; the graphics registers in order; the
/// attribute registers in order, those from the mode register on with the
/// palette-access bit in their address; then video enabled, a pause of
/// 50 ms, and the screen on.
pub open spec fn load_op(v: Vga, k: int) -> VgaOp {
    if k == 0 {
        VgaOp::Misc(v.misc | MISC_IO_SELECT)
    } else if k == 1 {
        VgaOp::Sequencer(SEQ_RESET_INDEX, SEQ_RESET_ASYNC)
    } else if k == 2 {
        VgaOp::Sequencer(SEQ_CLOCK_MODE_INDEX, v.seq@[1] | SEQ_CLOCK_MODE_SCREEN_OFF)
    } else if k < 6 {
        VgaOp::Sequencer((k - 1) as u8, v.seq@[k - 1])
    } else if k == 6 {
        VgaOp::Sequencer(SEQ_RESET_INDEX, v.seq@[0] | SEQ_RESET_ASYNC | SEQ_RESET_SYNC)
    } else if k == 7 {
        VgaOp::UnlockCrtc
    } else if k < 33 {
        VgaOp::Crtc((k - 8) as u8, v.crt@[k - 8])
    } else if k == 33 {
        VgaOp::LockCrtc
    } else if k < 43 {
        VgaOp::Graphics((k - 34) as u8, v.gf@[k - 34])
    } else if k < 64 {
        VgaOp::Attribute(
            if k - 43 >= ATTR_MODE_INDEX { ((k - 43) as u8) | ATTR_PALETTE_ACCESS } else { (k - 43) as u8 },
            v.attr@[k - 43],
        )
    } else if k == 64 {
        VgaOp::EnableVideo
    } else if k == 65 {
        VgaOp::Delay(SETTLE_MS)
    } else {
        VgaOp::ScreenOn
    }
}

/// All the steps of loading `v`, in order.
pub open spec fn load_ops(v: Vga) -> Seq<VgaOp> {
    Seq::new(LOAD_STEPS as nat, |k: int| load_op(v, k))
}

impl Vga {
    /// The steps that load this mode into the adapter, in order.
    pub fn load(&self) -> (r: Vec<VgaOp>)
        ensures
            r@ == load_ops(*self),
    {
        let mut ops: Vec<VgaOp> = Vec::new();
        ops.push(VgaOp::Misc(self.misc | MISC_IO_SELECT));
        ops.push(VgaOp::Sequencer(SEQ_RESET_INDEX, SEQ_RESET_ASYNC));
        ops.push(VgaOp::Sequencer(SEQ_CLOCK_MODE_INDEX, self.seq[1] | SEQ_CLOCK_MODE_SCREEN_OFF));
        let mut i: usize = 2;
        while i < SEQ_REGS
            invariant
                2 <= i <= SEQ_REGS,
                ops@.len() == i + 1,
                forall|j: int| 0 <= j < ops@.len() ==> ops@[j] == load_op(*self, j),
            decreases SEQ_REGS - i,
        {
            ops.push(VgaOp::Sequencer(i as u8, self.seq[i]));
            i = i + 1;
        }
        ops.push(VgaOp::Sequencer(SEQ_RESET_INDEX, self.seq[0] | SEQ_RESET_ASYNC | SEQ_RESET_SYNC));
        ops.push(VgaOp::UnlockCrtc);
        let mut i: usize = 0;
        while i < CRT_REGS
            invariant
                i <= CRT_REGS,
                ops@.len() == i + 8,
                forall|j: int| 0 <= j < ops@.len() ==> ops@[j] == load_op(*self, j),
            decreases CRT_REGS - i,
        {
            ops.push(VgaOp::Crtc(i as u8, self.crt[i]));
            i = i + 1;
        }
        ops.push(VgaOp::LockCrtc);
        let mut i: usize = 0;
        while i < GF_REGS
            invariant
                i <= GF_REGS,
                ops@.len() == i + 34,
                forall|j: int| 0 <= j < ops@.len() ==> ops@[j] == load_op(*self, j),
            decreases GF_REGS - i,
        {
            ops.push(VgaOp::Graphics(i as u8, self.gf[i]));
            i = i + 1;
        }
        let mut i: usize = 0;
        while i < ATTR_REGS
            invariant
                i <= ATTR_REGS,
                ops@.len() == i + 43,
                forall|j: int| 0 <= j < ops@.len() ==> ops@[j] == load_op(*self, j),
            decreases ATTR_REGS - i,
        {
            let index: u8 = if i >= ATTR_MODE_INDEX as usize { (i as u8) | ATTR_PALETTE_ACCESS } else { i as u8 };
            ops.push(VgaOp::Attribute(index, self.attr[i]));
            i = i + 1;
        }
        ops.push(VgaOp::EnableVideo);
        ops.push(VgaOp::Delay(SETTLE_MS));
        ops.push(VgaOp::ScreenOn);
        assert(ops@ =~= load_ops(*self));
        ops
    }
}

} // verus!
