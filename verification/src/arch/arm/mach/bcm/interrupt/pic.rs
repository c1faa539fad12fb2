use vstd::prelude::*;
use crate::arch::registers::{RegisterBlock, word};
use crate::arch::arm::page::{PageTable, mapped_sld, pages_for};
use crate::arch::arm::irq_bits::{pending_bits, bit_at};
use crate::arch::arm::mach::bcm::PERIPHERAL_BASE;

verus! {

/// Base address of the interrupt controller.
pub const PIC_BASE: u32 = 0x2000B200;

pub const IRQ_BASIC_PENDING: u32 = 0x00;
pub const IRQ_PENDING_1: u32 = 0x04;
pub const IRQ_PENDING_2: u32 = 0x08;
pub const FIQ_CONTROL: u32 = 0x0C;
pub const ENABLE_IRQS_1: u32 = 0x10;
pub const ENABLE_IRQS_2: u32 = 0x14;
pub const ENABLE_BASIC_IRQS: u32 = 0x18;
pub const DISABLE_IRQS_1: u32 = 0x1C;
pub const DISABLE_IRQS_2: u32 = 0x20;
pub const DISABLE_BASIC_IRQS: u32 = 0x24;

/// Number of 32-bit registers of the interrupt controller.
pub const PIC_REGISTERS: usize = 10;

/// An interrupt source: 0..32 in the first pending register, 32..64 in the
/// second, 64..72 in the basic one.
#[derive(Clone, Copy, PartialEq, Eq, Structural, Debug)]
pub enum IRQ {
    SysTimer0,
    SysTimer1,
    SysTimer2,
    SysTimer3,
    Aux,
    I2cSpiSlv,
    Pwa0,
    Pwa1,
    Smi,
    Gpio0,
    Gpio1,
    Gpio2,
    Gpio3,
    I2c,
    Spi,
    Pcm,
    Uart,
    Timer,
    Mailbox,
    Doorbell0,
    Doorbell1,
    Gpu0Halted,
    Gpu1Halted,
    AccessError1,
    AccessError0,
}

/// The interrupt number of a source.
pub open spec fn irq_number(irq: IRQ) -> u32 {
    match irq {
        IRQ::SysTimer0 => 0,
        IRQ::SysTimer1 => 1,
        IRQ::SysTimer2 => 2,
        IRQ::SysTimer3 => 3,
        IRQ::Aux => 29,
        IRQ::I2cSpiSlv => 43,
        IRQ::Pwa0 => 45,
        IRQ::Pwa1 => 46,
        IRQ::Smi => 48,
        IRQ::Gpio0 => 49,
        IRQ::Gpio1 => 50,
        IRQ::Gpio2 => 51,
        IRQ::Gpio3 => 52,
        IRQ::I2c => 53,
        IRQ::Spi => 54,
        IRQ::Pcm => 55,
        IRQ::Uart => 57,
        IRQ::Timer => 64,
        IRQ::Mailbox => 65,
        IRQ::Doorbell0 => 66,
        IRQ::Doorbell1 => 67,
        IRQ::Gpu0Halted => 68,
        IRQ::Gpu1Halted => 69,
        IRQ::AccessError1 => 70,
        IRQ::AccessError0 => 71,
    }
}

/// The register of the triple at `reg1` (first, second, basic) that holds
/// interrupt `n`, and its bit there.
pub open spec fn irq_reg_bit(reg1: u32, n: u32) -> (u32, u32) {
    if n < 32 {
        (reg1, 1u32 << n)
    } else if n < 64 {
        ((reg1 + 4) as u32, 1u32 << ((n - 32) as u32))
    } else {
        ((reg1 + 8) as u32, 1u32 << ((n - 64) as u32))
    }
}

/// Which register and bit enable and disable each source: interrupts 0 to
/// 31 take bit `n` of the first enable and disable registers, 32 to 63 bit
/// `n - 32` of the second ones, and 64 to 71 bit `n - 64` of the basic ones.
pub proof fn lemma_irq_registers(irq: IRQ)
    ensures ({
        let n = irq_number(irq);
        &&& n < 72
        &&& n < 32 ==> irq_reg_bit(ENABLE_IRQS_1, n) == (ENABLE_IRQS_1, 1u32 << n)
            && irq_reg_bit(DISABLE_IRQS_1, n) == (DISABLE_IRQS_1, 1u32 << n)
        &&& 32 <= n < 64 ==> irq_reg_bit(ENABLE_IRQS_1, n) == (ENABLE_IRQS_2, 1u32 << ((n - 32) as u32))
            && irq_reg_bit(DISABLE_IRQS_1, n) == (DISABLE_IRQS_2, 1u32 << ((n - 32) as u32))
        &&& 64 <= n ==> irq_reg_bit(ENABLE_IRQS_1, n) == (ENABLE_BASIC_IRQS, 1u32 << ((n - 64) as u32))
            && irq_reg_bit(DISABLE_IRQS_1, n) == (DISABLE_BASIC_IRQS, 1u32 << ((n - 64) as u32))
    }),
{
}

impl IRQ {
    /// The interrupt number.
    pub fn number(self) -> (r: u32)
        ensures
            r == irq_number(self),
    {
        match self {
            IRQ::SysTimer0 => 0,
            IRQ::SysTimer1 => 1,
            IRQ::SysTimer2 => 2,
            IRQ::SysTimer3 => 3,
            IRQ::Aux => 29,
            IRQ::I2cSpiSlv => 43,
            IRQ::Pwa0 => 45,
            IRQ::Pwa1 => 46,
            IRQ::Smi => 48,
            IRQ::Gpio0 => 49,
            IRQ::Gpio1 => 50,
            IRQ::Gpio2 => 51,
            IRQ::Gpio3 => 52,
            IRQ::I2c => 53,
            IRQ::Spi => 54,
            IRQ::Pcm => 55,
            IRQ::Uart => 57,
            IRQ::Timer => 64,
            IRQ::Mailbox => 65,
            IRQ::Doorbell0 => 66,
            IRQ::Doorbell1 => 67,
            IRQ::Gpu0Halted => 68,
            IRQ::Gpu1Halted => 69,
            IRQ::AccessError1 => 70,
            IRQ::AccessError0 => 71,
        }
    }

    /// The source with interrupt number `num`, if there is one.
    pub fn from_u8(num: u8) -> (r: Option<IRQ>)
        ensures
            r is Some ==> irq_number(r->0) == num,
            r is None ==> forall|i: IRQ| irq_number(i) != num,
    {
        match num {
            0 => Some(IRQ::SysTimer0),
            1 => Some(IRQ::SysTimer1),
            2 => Some(IRQ::SysTimer2),
            3 => Some(IRQ::SysTimer3),
            29 => Some(IRQ::Aux),
            43 => Some(IRQ::I2cSpiSlv),
            45 => Some(IRQ::Pwa0),
            46 => Some(IRQ::Pwa1),
            48 => Some(IRQ::Smi),
            49 => Some(IRQ::Gpio0),
            50 => Some(IRQ::Gpio1),
            51 => Some(IRQ::Gpio2),
            52 => Some(IRQ::Gpio3),
            53 => Some(IRQ::I2c),
            54 => Some(IRQ::Spi),
            55 => Some(IRQ::Pcm),
            57 => Some(IRQ::Uart),
            64 => Some(IRQ::Timer),
            65 => Some(IRQ::Mailbox),
            66 => Some(IRQ::Doorbell0),
            67 => Some(IRQ::Doorbell1),
            68 => Some(IRQ::Gpu0Halted),
            69 => Some(IRQ::Gpu1Halted),
            70 => Some(IRQ::AccessError1),
            71 => Some(IRQ::AccessError0),
            _ => None,
        }
    }

    /// Enables the interrupt: writes its bit to its enable register.
    pub fn enable(self, pic: &mut RegisterBlock)
        requires
            old(pic)@.len() == PIC_REGISTERS,
        ensures
            final(pic)@ == old(pic)@.update(word(irq_reg_bit(ENABLE_IRQS_1, irq_number(self)).0),
                irq_reg_bit(ENABLE_IRQS_1, irq_number(self)).1),
    {
        let bit = self.number();
        if bit <= 31 {
            pic.store(ENABLE_IRQS_1, 1u32 << bit);
        } else if bit <= 63 {
            pic.store(ENABLE_IRQS_2, 1u32 << (bit - 32));
        } else {
            pic.store(ENABLE_BASIC_IRQS, 1u32 << (bit - 64));
        }
    }

    /// Disables the interrupt: writes its bit to its disable register.
    pub fn disable(self, pic: &mut RegisterBlock)
        requires
            old(pic)@.len() == PIC_REGISTERS,
        ensures
            final(pic)@ == old(pic)@.update(word(irq_reg_bit(DISABLE_IRQS_1, irq_number(self)).0),
                irq_reg_bit(DISABLE_IRQS_1, irq_number(self)).1),
    {
        let bit = self.number();
        if bit <= 31 {
            pic.store(DISABLE_IRQS_1, 1u32 << bit);
        } else if bit <= 63 {
            pic.store(DISABLE_IRQS_2, 1u32 << (bit - 32));
        } else {
            pic.store(DISABLE_BASIC_IRQS, 1u32 << (bit - 64));
        }
    }
}

/// Maps the controller's registers, `PIC_BASE .. PIC_BASE + DISABLE_BASIC_IRQS`,
/// onto themselves.
pub fn map_pages(table: &mut PageTable)
    requires
        old(table).wf(),
        old(table).coarse_over(PIC_BASE as int / 4096, pages_for(DISABLE_BASIC_IRQS as int)),
    ensures
        final(table).wf(),
        final(table).sld_base() == old(table).sld_base(),
        final(table).first_level() == old(table).first_level(),
        final(table).second_level() == mapped_sld(old(table).second_level(), PIC_BASE as int / 4096, pages_for(DISABLE_BASIC_IRQS as int), PIC_BASE, true, true),
{
    table.map_direct(PageTable::FLAGS_KERNEL, PERIPHERAL_BASE + 0xB200 + IRQ_BASIC_PENDING, DISABLE_BASIC_IRQS - IRQ_BASIC_PENDING);
}

/// The handler calls the interrupt handler reads from the three pending
/// registers, in order: for each set bit, highest first, of the first
/// register, then the second, then the basic one, the handler slot called
/// (the bit number, for every register) and the interrupt number passed
/// (the bit number plus 0, 32 or 64).
pub fn irq_handler(pending_1: u32, pending_2: u32, basic: u32) -> (r: Vec<(u32, u32)>)
    ensures
        r@.len() == pending_bits_count(pending_1) + pending_bits_count(pending_2) + pending_bits_count(basic),
        forall|k: int| 0 <= k < r@.len() ==> #[trigger] r@[k].0 < 32,
        forall|k: int, l: int| 0 <= k < l < pending_bits_count(pending_1) ==> r@[k].0 > r@[l].0,
        forall|k: int, l: int| pending_bits_count(pending_1) <= k < l < pending_bits_count(pending_1) + pending_bits_count(pending_2)
            ==> r@[k].0 > r@[l].0,
        forall|k: int, l: int| pending_bits_count(pending_1) + pending_bits_count(pending_2) <= k < l < r@.len()
            ==> r@[k].0 > r@[l].0,
        forall|k: int| 0 <= k < r@.len() ==> {
            let (slot, irq) = #[trigger] r@[k];
            if k < pending_bits_count(pending_1) {
                irq == slot && bit_at(pending_1, slot)
            } else if k < pending_bits_count(pending_1) + pending_bits_count(pending_2) {
                irq == slot + 32 && bit_at(pending_2, slot)
            } else {
                irq == slot + 64 && bit_at(basic, slot)
            }
        },
{
    let mut r: Vec<(u32, u32)> = Vec::new();
    let b1 = pending_bits(pending_1);
    proof { assert(forall|k: int, l: int| 0 <= k < l < b1@.len() ==> b1@[k] > b1@[l]); }
    let b2 = pending_bits(pending_2);
    let b3 = pending_bits(basic);
    let mut i: usize = 0;
    while i < b1.len()
        invariant
            i <= b1@.len(),
            r@.len() == i,
            forall|k: int| 0 <= k < b1@.len() ==> #[trigger] b1@[k] < 32 && bit_at(pending_1, b1@[k]),
            forall|k: int| 0 <= k < i ==> #[trigger] r@[k] == (b1@[k], b1@[k]),
        decreases b1@.len() - i,
    {
        r.push((b1[i], b1[i]));
        i = i + 1;
    }
    let n1 = r.len();
    let mut i: usize = 0;
    while i < b2.len()
        invariant
            i <= b2@.len(),
            r@.len() == n1 + i,
            n1 == b1@.len(),
            forall|k: int| 0 <= k < b1@.len() ==> #[trigger] b1@[k] < 32 && bit_at(pending_1, b1@[k]),
            forall|k: int| 0 <= k < b2@.len() ==> #[trigger] b2@[k] < 32 && bit_at(pending_2, b2@[k]),
            forall|k: int| 0 <= k < n1 ==> #[trigger] r@[k] == (b1@[k], b1@[k]),
            forall|k: int| 0 <= k < i ==> #[trigger] r@[n1 + k] == (b2@[k], (b2@[k] + 32) as u32),
        decreases b2@.len() - i,
    {
        r.push((b2[i], b2[i] + 32));
        i = i + 1;
    }
    let n2 = r.len();
    let mut i: usize = 0;
    while i < b3.len()
        invariant
            i <= b3@.len(),
            r@.len() == n2 + i,
            n1 == b1@.len(),
            n2 == n1 + b2@.len(),
            forall|k: int| 0 <= k < b1@.len() ==> #[trigger] b1@[k] < 32 && bit_at(pending_1, b1@[k]),
            forall|k: int| 0 <= k < b2@.len() ==> #[trigger] b2@[k] < 32 && bit_at(pending_2, b2@[k]),
            forall|k: int| 0 <= k < b3@.len() ==> #[trigger] b3@[k] < 32 && bit_at(basic, b3@[k]),
            forall|k: int| 0 <= k < n1 ==> #[trigger] r@[k] == (b1@[k], b1@[k]),
            forall|k: int| 0 <= k < b2@.len() ==> #[trigger] r@[n1 + k] == (b2@[k], (b2@[k] + 32) as u32),
            forall|k: int| 0 <= k < i ==> #[trigger] r@[n2 + k] == (b3@[k], (b3@[k] + 64) as u32),
        decreases b3@.len() - i,
    {
        r.push((b3[i], b3[i] + 64));
        i = i + 1;
    }
    proof {
        lemma_count(pending_1, b1@);
        lemma_count(pending_2, b2@);
        lemma_count(basic, b3@);
        assert forall|k: int, l: int| n1 <= k < l < n2 implies r@[k].0 > r@[l].0 by {
            assert(r@[n1 + (k - n1)] == r@[k]);
            assert(r@[n1 + (l - n1)] == r@[l]);
        }
        assert forall|k: int, l: int| n2 <= k < l < r@.len() implies r@[k].0 > r@[l].0 by {
            assert(r@[n2 + (k - n2)] == r@[k]);
            assert(r@[n2 + (l - n2)] == r@[l]);
        }
        assert forall|k: int| 0 <= k < r@.len() implies #[trigger] r@[k].0 < 32 by {
            if k < n1 {
            } else if k < n2 {
                assert(r@[n1 + (k - n1)] == r@[k]);
            } else {
                assert(r@[n2 + (k - n2)] == r@[k]);
            }
        }
        assert forall|k: int| 0 <= k < r@.len() implies {
            let (slot, irq) = #[trigger] r@[k];
            if k < pending_bits_count(pending_1) {
                irq == slot && bit_at(pending_1, slot)
            } else if k < pending_bits_count(pending_1) + pending_bits_count(pending_2) {
                irq == slot + 32 && bit_at(pending_2, slot)
            } else {
                irq == slot + 64 && bit_at(basic, slot)
            }
        } by {
            if k < n1 {
            } else if k < n2 {
                assert(r@[n1 + (k - n1)] == r@[k]);
            } else {
                assert(r@[n2 + (k - n2)] == r@[k]);
            }
        }
    }
    r
}

/// Number of set bits of `m`.
pub open spec fn pending_bits_count(m: u32) -> nat {
    Set::new(|j: u32| j < 32 && bit_at(m, j)).len()
}

proof fn lemma_count(m: u32, bits: Seq<u32>)
    requires
        forall|k: int| 0 <= k < bits.len() ==> #[trigger] bits[k] < 32 && bit_at(m, bits[k]),
        forall|k: int, l: int| 0 <= k < l < bits.len() ==> bits[k] > bits[l],
        forall|j: u32| j < 32 && bit_at(m, j) ==> bits.contains(j),
    ensures
        bits.len() == pending_bits_count(m),
{
    assert(bits.no_duplicates()) by {
        assert forall|a: int, b: int| 0 <= a < bits.len() && 0 <= b < bits.len() && a != b implies bits[a] != bits[b] by {
            if a < b { assert(bits[a] > bits[b]); } else { assert(bits[b] > bits[a]); }
        }
    }
    bits.unique_seq_to_set();
    assert(bits.to_set() =~= Set::new(|j: u32| j < 32 && bit_at(m, j)));
}

} // verus!
