use vstd::prelude::*;
use crate::arch::x86::interrupt::KERNEL_CS;

verus! {

/// Gate type: 32-bit interrupt gate.
pub const IDT_FLAGS_INTGATE_32BIT: u8 = 0x0E;
/// Gate type: trap gate.
pub const IDT_FLAGS_TRPGATE: u8 = 0x0F;
/// Privilege level 3: callable from user mode.
pub const IDT_FLAGS_DPL_LV3: u8 = 0x60;
/// Flag: the descriptor is present.
pub const IDT_FLAGS_PRESENT: u8 = 0x80;
/// Entries of the descriptor table.
pub const IDT_SIZE: usize = 256;

/// Flags of an exception gate: a present trap gate.
pub const EXCEPTION_FLAGS: u8 = 0x8F;
/// Flags of a hardware interrupt gate: a present 32-bit interrupt gate.
pub const INTERRUPT_FLAGS: u8 = 0x8E;
/// Flags of a gate user code may call: a present trap gate at level 3.
pub const USER_INTERRUPT_FLAGS: u8 = 0xEF;

/// An interrupt descriptor: the handler's address split in two halves,
/// the kernel code segment, and the descriptor's flags.
#[derive(Clone, Copy, PartialEq, Eq, Structural, Debug)]
pub struct GateDescriptor {
    pub offset_lo: u16,
    pub selector: u16,
    pub reserved: u8,
    pub flags: u8,
    pub offset_hi: u16,
}

/// The flag combinations the kernel uses, and that each has the present bit.
proof fn lemma_flag_values()
    ensures
        IDT_FLAGS_PRESENT | IDT_FLAGS_TRPGATE == EXCEPTION_FLAGS,
        IDT_FLAGS_PRESENT | IDT_FLAGS_INTGATE_32BIT == INTERRUPT_FLAGS,
        IDT_FLAGS_PRESENT | IDT_FLAGS_TRPGATE | IDT_FLAGS_DPL_LV3 == USER_INTERRUPT_FLAGS,
        EXCEPTION_FLAGS & IDT_FLAGS_PRESENT != 0,
        INTERRUPT_FLAGS & IDT_FLAGS_PRESENT != 0,
{
    assert(0x80u8 | 0x0Fu8 == 0x8Fu8 && 0x80u8 | 0x0Eu8 == 0x8Eu8 && 0x80u8 | 0x0Fu8 | 0x60u8 == 0xEFu8
        && 0x8Fu8 & 0x80u8 != 0 && 0x8Eu8 & 0x80u8 != 0) by (bit_vector);
}

/// The descriptor that enters `handler` with `flags`.
pub open spec fn gate(handler: u32, flags: u8) -> GateDescriptor {
    GateDescriptor {
        offset_lo: (handler & 0xFFFF) as u16,
        selector: KERNEL_CS as u16,
        reserved: 0,
        flags: flags,
        offset_hi: (handler >> 16u32) as u16,
    }
}

/// The handlers the kernel installs: one for any vector without its own,
/// one each for invalid opcode (0x06), stack-segment fault (0x0C), general
/// protection fault (0x0D) and page fault (0x0E), and one for each of the
/// sixteen hardware interrupts (vectors 0x20 to 0x2F).
pub struct IdtHandlers {
    pub null: u32,
    pub invalid_opcode: u32,
    pub stack_segment_fault: u32,
    pub general_protection_fault: u32,
    pub page_fault: u32,
    pub irq: Vec<u32>,
}

/// The descriptor the kernel puts at `vector`.
pub open spec fn installed_gate(h: IdtHandlers, vector: int) -> GateDescriptor {
    if vector == 0x06 {
        gate(h.invalid_opcode, EXCEPTION_FLAGS)
    } else if vector == 0x0C {
        gate(h.stack_segment_fault, EXCEPTION_FLAGS)
    } else if vector == 0x0D {
        gate(h.general_protection_fault, EXCEPTION_FLAGS)
    } else if vector == 0x0E {
        gate(h.page_fault, EXCEPTION_FLAGS)
    } else if 0x20 <= vector < 0x30 {
        gate(h.irq@[vector - 0x20], INTERRUPT_FLAGS)
    } else {
        gate(h.null, EXCEPTION_FLAGS)
    }
}

/// The interrupt descriptor table.
pub struct InterruptDescriptorTable {
    idt: Vec<GateDescriptor>,
}

impl View for InterruptDescriptorTable {
    type V = Seq<GateDescriptor>;

    /// The gates, by vector.
    closed spec fn view(&self) -> Seq<GateDescriptor> {
        self.idt@
    }
}

impl InterruptDescriptorTable {
    /// A table of 256 empty gates.
    pub fn new() -> (r: InterruptDescriptorTable)
        ensures
            r@.len() == IDT_SIZE,
            forall|i: int| 0 <= i < IDT_SIZE ==> #[trigger] r@[i] == (GateDescriptor {
                offset_lo: 0, selector: 0, reserved: 0, flags: 0, offset_hi: 0 }),
    {
        let mut idt: Vec<GateDescriptor> = Vec::new();
        let mut i: usize = 0;
        while i < IDT_SIZE
            invariant
                i <= IDT_SIZE,
                idt@.len() == i,
                forall|k: int| 0 <= k < i ==> #[trigger] idt@[k] == (GateDescriptor {
                    offset_lo: 0, selector: 0, reserved: 0, flags: 0, offset_hi: 0 }),
            decreases IDT_SIZE - i,
        {
            idt.push(GateDescriptor { offset_lo: 0, selector: 0, reserved: 0, flags: 0, offset_hi: 0 });
            i = i + 1;
        }
        InterruptDescriptorTable { idt }
    }

    /// Points vector `idtr` at `handler` with `flags`.
    pub fn set_idt(&mut self, idtr: usize, handler: u32, flags: u8)
        requires
            idtr < old(self)@.len(),
        ensures
            final(self)@ == old(self)@.update(idtr as int, gate(handler, flags)),
    {
        let lo = (handler & 0xFFFF) as u16;
        let hi = (handler >> 16u32) as u16;
        self.idt.set(idtr, GateDescriptor { selector: KERNEL_CS as u16, offset_lo: lo, offset_hi: hi, reserved: 0, flags });
    }

    /// Points vector `idtr` at an exception handler.
    pub fn set_exception(&mut self, idtr: usize, handler: u32)
        requires
            idtr < old(self)@.len(),
        ensures
            final(self)@ == old(self)@.update(idtr as int, gate(handler, EXCEPTION_FLAGS)),
    {
        proof { lemma_flag_values(); }
        self.set_idt(idtr, handler, IDT_FLAGS_PRESENT | IDT_FLAGS_TRPGATE);
    }

    /// Points vector `idtr` at a hardware interrupt handler.
    pub fn set_interrupt(&mut self, idtr: usize, handler: u32)
        requires
            idtr < old(self)@.len(),
        ensures
            final(self)@ == old(self)@.update(idtr as int, gate(handler, INTERRUPT_FLAGS)),
    {
        proof { lemma_flag_values(); }
        self.set_idt(idtr, handler, IDT_FLAGS_PRESENT | IDT_FLAGS_INTGATE_32BIT);
    }

    /// Points vector `idtr` at a handler user code may call.
    pub fn set_user_interrupt(&mut self, idtr: usize, handler: u32)
        requires
            idtr < old(self)@.len(),
        ensures
            final(self)@ == old(self)@.update(idtr as int, gate(handler, USER_INTERRUPT_FLAGS)),
    {
        proof { lemma_flag_values(); }
        self.set_idt(idtr, handler, IDT_FLAGS_PRESENT | IDT_FLAGS_TRPGATE | IDT_FLAGS_DPL_LV3);
    }

    /// The descriptor at vector `v`, as it is to be written to the table in memory.
    pub fn descriptor(&self, v: usize) -> (r: GateDescriptor)
        requires
            v < self@.len(),
        ensures
            r == self@[v as int],
    {
        self.idt[v]
    }

    /// The limit field of the register that loads the table: its size in
    /// bytes, less one.
    pub fn limit(&self) -> (r: u16)
        ensures
            r == 8 * IDT_SIZE - 1,
    {
        (8 * IDT_SIZE - 1) as u16
    }

    /// Installs the kernel's handlers: the null handler on every vector as
    /// an exception, then the four fault handlers as exceptions and the
    /// sixteen hardware interrupt handlers as interrupts.
    pub fn init(&mut self, h: &IdtHandlers)
        requires
            old(self)@.len() == IDT_SIZE,
            h.irq@.len() == 16,
        ensures
            final(self)@.len() == IDT_SIZE,
            forall|v: int| 0 <= v < IDT_SIZE ==> #[trigger] final(self)@[v] == installed_gate(*h, v),
    {
        let mut i: usize = 0;
        while i < IDT_SIZE
            invariant
                i <= IDT_SIZE,
                self@.len() == IDT_SIZE,
                forall|k: int| 0 <= k < i ==> #[trigger] self@[k] == gate(h.null, EXCEPTION_FLAGS),
            decreases IDT_SIZE - i,
        {
            self.set_exception(i, h.null);
            i = i + 1;
        }
        self.set_exception(0x06, h.invalid_opcode);
        self.set_exception(0x0C, h.stack_segment_fault);
        self.set_exception(0x0D, h.general_protection_fault);
        self.set_exception(0x0E, h.page_fault);
        let mut k: usize = 0;
        while k < 16
            invariant
                k <= 16,
                h.irq@.len() == 16,
                self@.len() == IDT_SIZE,
                forall|v: int| 0 <= v < IDT_SIZE && !(0x20 + k <= v < 0x30) ==> #[trigger] self@[v] == installed_gate(*h, v),
            decreases 16 - k,
        {
            self.set_interrupt(0x20 + k, h.irq[k]);
            k = k + 1;
        }
    }
}

/// The descriptor table a selector error code points into.
#[derive(Clone, Copy, PartialEq, Eq, Structural, Debug)]
pub enum SelectorTable {
    Gdt,
    Idt,
    Ldt,
}

/// What a selector error code says: whether the error came from outside
/// the processor, which table the selector names (table bits `0b11` also
/// read as the interrupt table), and the selector's index.
pub fn selector_error(code: u32) -> (r: (bool, SelectorTable, u32))
    ensures
        r.0 == (code & 1 != 0),
        r.1 == if (code >> 1u32) & 3 == 0 { SelectorTable::Gdt } else if (code >> 1u32) & 3 == 2 { SelectorTable::Ldt } else { SelectorTable::Idt },
        r.2 == code >> 3u32,
{
    let table = match (code >> 1u32) & 3 {
        0 => SelectorTable::Gdt,
        1 => SelectorTable::Idt,
        2 => SelectorTable::Ldt,
        _ => SelectorTable::Idt,
    };
    (code & 1 != 0, table, code >> 3u32)
}

/// The name the kernel prints for a table.
pub fn table_name(t: SelectorTable) -> (r: &'static str)
    ensures
        r@ == match t {
            SelectorTable::Gdt => "GDT"@,
            SelectorTable::Idt => "IDT"@,
            SelectorTable::Ldt => "LDT"@,
        },
{
    match t {
        SelectorTable::Gdt => "GDT",
        SelectorTable::Idt => "IDT",
        SelectorTable::Ldt => "LDT",
    }
}

/// After `init` no vector is left without a handler: every gate is present
/// and enters the kernel code segment; the hardware interrupt vectors hold
/// interrupt gates and every other vector a trap gate.
pub proof fn lemma_installed_gates(h: IdtHandlers, v: int)
    requires
        h.irq@.len() == 16,
        0 <= v < IDT_SIZE,
    ensures
        installed_gate(h, v).flags & IDT_FLAGS_PRESENT != 0,
        installed_gate(h, v).selector == KERNEL_CS,
        (0x20 <= v < 0x30) ==> installed_gate(h, v).flags == INTERRUPT_FLAGS,
        !(0x20 <= v < 0x30) ==> installed_gate(h, v).flags == EXCEPTION_FLAGS,
{
    lemma_flag_values();
}

} // verus!
