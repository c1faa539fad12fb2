use vstd::prelude::*;

verus! {

pub const PORT_MASTER_PIC_COMMAND: u16 = 0x0020;
pub const PORT_MASTER_PIC_IMR: u16 = 0x0021;
pub const PORT_SLAVE_PIC_COMMAND: u16 = 0x00A0;
pub const PORT_SLAVE_PIC_IMR: u16 = 0x00A1;

/// An interrupt line of the two cascaded 8259 controllers: 0..8 on the
/// master, 8..16 on the slave.
#[derive(Clone, Copy, PartialEq, Eq, Structural, Debug)]
pub enum IRQ {
    PIT,
    Keyboard,
    Cascade,
    COM2,
    COM1,
    LPT2,
    FloppyDisk,
    LPT1,
    CMOSClock,
    Free1,
    Free2,
    Free3,
    Mouse,
    FPU,
    PrimaryHD,
    SecondaryHD,
}

/// The line number.
pub open spec fn irq_number(irq: IRQ) -> u8 {
    match irq {
        IRQ::PIT => 0,
        IRQ::Keyboard => 1,
        IRQ::Cascade => 2,
        IRQ::COM2 => 3,
        IRQ::COM1 => 4,
        IRQ::LPT2 => 5,
        IRQ::FloppyDisk => 6,
        IRQ::LPT1 => 7,
        IRQ::CMOSClock => 8,
        IRQ::Free1 => 9,
        IRQ::Free2 => 10,
        IRQ::Free3 => 11,
        IRQ::Mouse => 12,
        IRQ::FPU => 13,
        IRQ::PrimaryHD => 14,
        IRQ::SecondaryHD => 15,
    }
}

/// The port writes of an end-of-interrupt for line `n`.
pub open spec fn eoi_writes(n: u8) -> Seq<(u16, u8)> {
    if n < 8 {
        seq![(PORT_MASTER_PIC_COMMAND, (0x60u8 | n))]
    } else {
        seq![(PORT_SLAVE_PIC_COMMAND, (0x60u8 | ((n - 8) as u8))), (PORT_MASTER_PIC_COMMAND, (0x60u8 | 0x02u8))]
    }
}

/// The interrupt mask registers of the master and the slave controller: a
/// set bit masks its line.
#[derive(Clone, Copy, PartialEq, Eq, Structural, Debug)]
pub struct PicMasks {
    pub master: u8,
    pub slave: u8,
}

impl IRQ {
    /// The line number.
    pub fn number(self) -> (r: u8)
        ensures
            r == irq_number(self),
    {
        match self {
            IRQ::PIT => 0,
            IRQ::Keyboard => 1,
            IRQ::Cascade => 2,
            IRQ::COM2 => 3,
            IRQ::COM1 => 4,
            IRQ::LPT2 => 5,
            IRQ::FloppyDisk => 6,
            IRQ::LPT1 => 7,
            IRQ::CMOSClock => 8,
            IRQ::Free1 => 9,
            IRQ::Free2 => 10,
            IRQ::Free3 => 11,
            IRQ::Mouse => 12,
            IRQ::FPU => 13,
            IRQ::PrimaryHD => 14,
            IRQ::SecondaryHD => 15,
        }
    }

    /// `true` for the lines of the master controller (0 to 7).
    pub fn is_master(self) -> (r: bool)
        ensures
            r == (irq_number(self) < 8),
    {
        match self {
            IRQ::PIT | IRQ::Keyboard | IRQ::Cascade | IRQ::COM2 | IRQ::COM1 | IRQ::LPT2 | IRQ::FloppyDisk
            | IRQ::LPT1 => true,
            IRQ::CMOSClock | IRQ::Free1 | IRQ::Free2 | IRQ::Free3 | IRQ::Mouse | IRQ::FPU | IRQ::PrimaryHD
            | IRQ::SecondaryHD => false,
        }
    }

    /// Unmasks the line; for a slave line the cascade line 2 of the master
    /// is unmasked too.
    pub fn enable(self, masks: &mut PicMasks)
        ensures
            irq_number(self) < 8 ==> final(masks).master == old(masks).master & !(1u8 << irq_number(self))
                && final(masks).slave == old(masks).slave,
            irq_number(self) >= 8 ==> final(masks).master == old(masks).master & !(1u8 << 2u8)
                && final(masks).slave == old(masks).slave & !(1u8 << ((irq_number(self) - 8) as u8)),
    {
        if self.is_master() {
            masks.master = masks.master & !(1u8 << self.number());
        } else {
            masks.slave = masks.slave & !(1u8 << (self.number() - 8));
            masks.master = masks.master & !(1u8 << 2u8);
        }
    }

    /// Masks the line.
    pub fn disable(self, masks: &mut PicMasks)
        ensures
            irq_number(self) < 8 ==> final(masks).master == old(masks).master | (1u8 << irq_number(self))
                && final(masks).slave == old(masks).slave,
            irq_number(self) >= 8 ==> final(masks).master == old(masks).master
                && final(masks).slave == old(masks).slave | (1u8 << ((irq_number(self) - 8) as u8)),
    {
        if self.is_master() {
            masks.master = masks.master | (1u8 << self.number());
        } else {
            masks.slave = masks.slave | (1u8 << (self.number() - 8));
        }
    }

    /// The port writes that signal the end of the interrupt: a specific EOI
    /// to the controller of the line, and for a slave line also to the master
    /// for the cascade line.
    pub fn eoi(self) -> (r: Vec<(u16, u8)>)
        ensures
            r@ == eoi_writes(irq_number(self)),
    {
        let mut r: Vec<(u16, u8)> = Vec::new();
        if self.is_master() {
            r.push((PORT_MASTER_PIC_COMMAND, 0x60u8 | self.number()));
        } else {
            r.push((PORT_SLAVE_PIC_COMMAND, 0x60u8 | (self.number() - 8)));
            r.push((PORT_MASTER_PIC_COMMAND, 0x60u8 | 0x02u8));
        }
        proof {
            assert(r@ =~= eoi_writes(irq_number(self)));
        }
        r
    }
}

/// Data port of the master controller.
pub const PORT_MASTER_PIC_DATA: u16 = 0x0021;
/// Data port of the slave controller.
pub const PORT_SLAVE_PIC_DATA: u16 = 0x00A1;

/// The writes that mask every line of both controllers.
pub open spec fn mask_all_writes() -> Seq<(u16, u8)> {
    seq![(PORT_MASTER_PIC_IMR, 0xFFu8), (PORT_SLAVE_PIC_IMR, 0xFFu8)]
}

/// The initialisation of both controllers: edge-triggered cascade mode,
/// master lines at vectors 0x20.., slave lines at 0x28.., the slave on
/// master line 2, 8086 mode; then every line masked.
pub open spec fn init_writes_spec() -> Seq<(u16, u8)> {
    seq![
        (PORT_MASTER_PIC_COMMAND, 0x11u8), (PORT_MASTER_PIC_DATA, 0x20u8),
        (PORT_MASTER_PIC_DATA, 0x04u8), (PORT_MASTER_PIC_DATA, 0x01u8),
        (PORT_SLAVE_PIC_COMMAND, 0x11u8), (PORT_SLAVE_PIC_DATA, 0x28u8),
        (PORT_SLAVE_PIC_DATA, 0x02u8), (PORT_SLAVE_PIC_DATA, 0x01u8),
    ] + mask_all_writes()
}

/// The vector base (ICW2) a controller is given by the writes `w`: the
/// byte written to its data port right after the first initialisation
/// command (0x11) to its command port; -1 when there is none.
pub open spec fn icw2_of(w: Seq<(u16, u8)>, command: u16, data: u16) -> int
    decreases w.len(),
{
    if w.len() < 2 {
        -1
    } else if w[0] == (command, 0x11u8) && w[1].0 == data {
        w[1].1 as int
    } else {
        icw2_of(w.drop_first(), command, data)
    }
}

/// The vector line `n` (0 to 15) is delivered at after the writes `w`:
/// the vector base of its controller plus its place on that controller.
pub open spec fn line_vector(w: Seq<(u16, u8)>, n: int) -> int {
    if n < 8 {
        icw2_of(w, PORT_MASTER_PIC_COMMAND, PORT_MASTER_PIC_DATA) + n
    } else {
        icw2_of(w, PORT_SLAVE_PIC_COMMAND, PORT_SLAVE_PIC_DATA) + (n - 8)
    }
}

/// After the initialisation the sixteen lines arrive on the sixteen
/// vectors right after the 32 processor exceptions, line `n` on vector
/// `0x20 + n`: no two lines share a vector and none lands on an exception.
pub proof fn lemma_pic_vectors(n: int, m: int)
    requires
        0 <= n < 16,
        0 <= m < 16,
    ensures
        line_vector(init_writes_spec(), n) == 0x20 + n,
        line_vector(init_writes_spec(), n) >= 32,
        n != m ==> line_vector(init_writes_spec(), n) != line_vector(init_writes_spec(), m),
{
    let w = init_writes_spec();
    assert(icw2_of(w, PORT_MASTER_PIC_COMMAND, PORT_MASTER_PIC_DATA) == 0x20);
    let w1 = w.drop_first();
    let w2 = w1.drop_first();
    let w3 = w2.drop_first();
    let w4 = w3.drop_first();
    assert(w4[0] == (PORT_SLAVE_PIC_COMMAND, 0x11u8) && w4[1] == (PORT_SLAVE_PIC_DATA, 0x28u8));
    assert(icw2_of(w4, PORT_SLAVE_PIC_COMMAND, PORT_SLAVE_PIC_DATA) == 0x28);
    assert(icw2_of(w3, PORT_SLAVE_PIC_COMMAND, PORT_SLAVE_PIC_DATA) == 0x28);
    assert(icw2_of(w2, PORT_SLAVE_PIC_COMMAND, PORT_SLAVE_PIC_DATA) == 0x28);
    assert(icw2_of(w1, PORT_SLAVE_PIC_COMMAND, PORT_SLAVE_PIC_DATA) == 0x28);
    assert(icw2_of(w, PORT_SLAVE_PIC_COMMAND, PORT_SLAVE_PIC_DATA) == 0x28);
}

/// The port writes, as `(port, value)`, done before the controllers are
/// set up: every line masked.
pub fn pre_init_writes() -> (r: Vec<(u16, u8)>)
    ensures
        r@ == mask_all_writes(),
{
    let mut r: Vec<(u16, u8)> = Vec::new();
    r.push((PORT_MASTER_PIC_IMR, 0xFF));
    r.push((PORT_SLAVE_PIC_IMR, 0xFF));
    proof { assert(r@ =~= mask_all_writes()); }
    r
}

/// The port writes, as `(port, value)`, that set both controllers up.
pub fn init_writes() -> (r: Vec<(u16, u8)>)
    ensures
        r@ == init_writes_spec(),
{
    let mut r: Vec<(u16, u8)> = Vec::new();
    r.push((PORT_MASTER_PIC_COMMAND, 0x11));
    r.push((PORT_MASTER_PIC_DATA, 0x20));
    r.push((PORT_MASTER_PIC_DATA, 0x04));
    r.push((PORT_MASTER_PIC_DATA, 0x01));
    r.push((PORT_SLAVE_PIC_COMMAND, 0x11));
    r.push((PORT_SLAVE_PIC_DATA, 0x28));
    r.push((PORT_SLAVE_PIC_DATA, 0x02));
    r.push((PORT_SLAVE_PIC_DATA, 0x01));
    r.push((PORT_MASTER_PIC_IMR, 0xFF));
    r.push((PORT_SLAVE_PIC_IMR, 0xFF));
    proof { assert(r@ =~= init_writes_spec()); }
    r
}

} // verus!
