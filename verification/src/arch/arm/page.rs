use vstd::prelude::*;
use crate::arch::arm::mach::{self, Machine, registers_coarse, registers_mapped};
use crate::arch::arm::{gpio, serial};

verus! {

/// Kind of a first-level descriptor, from its two low bits.
#[derive(Clone, Copy, PartialEq, Eq, Structural, Debug)]
pub enum FirstLevelDescriptorType {
    Invalid,
    CoarseTable,
    Section,
    FineTable,
}

/// Access control of a domain.
#[derive(Clone, Copy, PartialEq, Eq, Structural, Debug)]
pub enum DomainAccessControl {
    /// Any access generates a domain fault.
    NoAccess,
    /// Accesses are checked against the access permission bits.
    Client,
    /// Reserved.
    Reserved,
    /// Accesses are not checked, so no permission fault can arise.
    Manager,
}

/// Access permission bits of a section or page.
#[derive(Clone, Copy, PartialEq, Eq, Structural, Debug)]
pub enum AccessPermission {
    AP0,
    AP1,
    AP2,
    AP3,
}

/// Kind of a second-level descriptor, from its two low bits.
#[derive(Clone, Copy, PartialEq, Eq, Structural, Debug)]
pub enum SecondLevelDescriptorType {
    Fault,
    Large,
    Small,
    Tiny,
}

/// The two-bit code of a domain access control.
pub open spec fn domain_code(d: DomainAccessControl) -> u32 {
    match d {
        DomainAccessControl::NoAccess => 0,
        DomainAccessControl::Client => 1,
        DomainAccessControl::Reserved => 2,
        DomainAccessControl::Manager => 3,
    }
}

/// The two-bit code of an access permission.
pub open spec fn ap_code(ap: AccessPermission) -> u32 {
    match ap {
        AccessPermission::AP0 => 0,
        AccessPermission::AP1 => 1,
        AccessPermission::AP2 => 2,
        AccessPermission::AP3 => 3,
    }
}

impl DomainAccessControl {
    /// The two-bit code.
    pub fn code(self) -> (r: u32)
        ensures
            r == domain_code(self),
    {
        match self {
            DomainAccessControl::NoAccess => 0,
            DomainAccessControl::Client => 1,
            DomainAccessControl::Reserved => 2,
            DomainAccessControl::Manager => 3,
        }
    }
}

impl AccessPermission {
    /// The two-bit code.
    pub fn code(self) -> (r: u32)
        ensures
            r == ap_code(self),
    {
        match self {
            AccessPermission::AP0 => 0,
            AccessPermission::AP1 => 1,
            AccessPermission::AP2 => 2,
            AccessPermission::AP3 => 3,
        }
    }
}

/// The kind of first-level descriptor whose two low bits are `b`.
pub open spec fn fld_type_of(b: u32) -> FirstLevelDescriptorType {
    if b & 3 == 0 {
        FirstLevelDescriptorType::Invalid
    } else if b & 3 == 1 {
        FirstLevelDescriptorType::CoarseTable
    } else if b & 3 == 2 {
        FirstLevelDescriptorType::Section
    } else {
        FirstLevelDescriptorType::FineTable
    }
}

/// The kind of second-level descriptor whose two low bits are `b`.
pub open spec fn sld_type_of(b: u32) -> SecondLevelDescriptorType {
    if b & 3 == 0 {
        SecondLevelDescriptorType::Fault
    } else if b & 3 == 1 {
        SecondLevelDescriptorType::Large
    } else if b & 3 == 2 {
        SecondLevelDescriptorType::Small
    } else {
        SecondLevelDescriptorType::Tiny
    }
}

/// A first-level descriptor: one entry of the 4096-entry table that maps
/// each megabyte of the address space.
#[derive(Clone, Copy, PartialEq, Eq, Structural, Debug)]
pub struct FirstLevelDescriptor(u32);

/// Bits of a section descriptor.
pub open spec fn section_bits(addr: u32, ap: u32, domain: u32, cache: bool, buffer: bool) -> u32 {
    0b10010u32 | (addr & 0xFFF00000) | (ap << 10u32) | (domain << 5u32)
        | ((if cache { 1u32 } else { 0u32 }) << 3u32) | ((if buffer { 1u32 } else { 0u32 }) << 2u32)
}

/// Bits of a second-level descriptor of a large (64KB) or small (4KB) page.
pub open spec fn page_bits(kind: u32, addr: u32, mask: u32, ap0: u32, ap1: u32, ap2: u32, ap3: u32, cache: bool, buffer: bool) -> u32 {
    kind | (addr & mask) | (ap3 << 10u32) | (ap2 << 8u32) | (ap1 << 6u32) | (ap0 << 4u32)
        | ((if cache { 1u32 } else { 0u32 }) << 3u32) | ((if buffer { 1u32 } else { 0u32 }) << 2u32)
}

impl FirstLevelDescriptor {
    /// Number of descriptors in the first-level table.
    pub const LEN: usize = 4096;

    /// The 32-bit value of the descriptor.
    pub closed spec fn bits(&self) -> u32 {
        self.0
    }

    /// The 32-bit value of the descriptor.
    pub fn value(&self) -> (r: u32)
        ensures
            r == self.bits(),
    {
        self.0
    }

    /// A descriptor that makes any access to its megabyte fault.
    pub fn invalid() -> (r: FirstLevelDescriptor)
        ensures
            r.bits() == 0b10000,
    {
        FirstLevelDescriptor(0b10000)
    }

    /// A descriptor pointing at the coarse page table at `addr` (1KB aligned).
    pub fn coarse_table(addr: u32, domain: DomainAccessControl) -> (r: FirstLevelDescriptor)
        ensures
            r.bits() == 0b10001u32 | (addr & 0xFFFFFC00) | (domain_code(domain) << 5u32),
    {
        FirstLevelDescriptor(0b10001u32 | addr & 0xFFFFFC00 | domain.code() << 5u32)
    }

    /// A descriptor mapping its megabyte as a section at `addr`.
    pub fn section(addr: u32, ap: AccessPermission, domain: DomainAccessControl, cache: bool, buffer: bool) -> (r: FirstLevelDescriptor)
        ensures
            r.bits() == section_bits(addr, ap_code(ap), domain_code(domain), cache, buffer),
    {
        let c: u32 = if cache { 1 } else { 0 };
        let b: u32 = if buffer { 1 } else { 0 };
        FirstLevelDescriptor(0b10010u32 | addr & 0xFFF00000 | ap.code() << 10u32 | domain.code() << 5u32
            | c << 3u32 | b << 2u32)
    }

    /// A descriptor pointing at the fine page table at `addr` (4KB aligned).
    pub fn fine_table(addr: u32, domain: DomainAccessControl) -> (r: FirstLevelDescriptor)
        ensures
            r.bits() == 0b10011u32 | (addr & 0xFFFFF000) | (domain_code(domain) << 5u32),
    {
        FirstLevelDescriptor(0b10011u32 | addr & 0xFFFFF000 | domain.code() << 5u32)
    }

    /// The kind of descriptor, from its two low bits.
    pub fn descriptor_type(&self) -> (r: FirstLevelDescriptorType)
        ensures
            r == fld_type_of(self.bits()),
    {
        let b = self.0 & 0b11;
        if b == 0 {
            FirstLevelDescriptorType::Invalid
        } else if b == 1 {
            FirstLevelDescriptorType::CoarseTable
        } else if b == 2 {
            FirstLevelDescriptorType::Section
        } else {
            FirstLevelDescriptorType::FineTable
        }
    }

    /// Address of the coarse page table the descriptor points at.
    pub fn coarse_ptr(&self) -> (r: u32)
        ensures
            r == self.bits() & 0xFFFFFC00,
    {
        self.0 & 0xFFFFFC00
    }

    /// Address of the fine page table the descriptor points at.
    pub fn fine_ptr(&self) -> (r: u32)
        ensures
            r == self.bits() & 0xFFFFF000,
    {
        self.0 & 0xFFFFF000
    }

    /// The second-level table the descriptor points at, as its address and
    /// number of entries: a coarse table of 256 or a fine table of 1024;
    /// `None` for an invalid or section descriptor.
    pub fn sld(&self) -> (r: Option<(u32, usize)>)
        ensures
            fld_type_of(self.bits()) == FirstLevelDescriptorType::CoarseTable ==> r == Some((self.bits() & 0xFFFFFC00, 256usize)),
            fld_type_of(self.bits()) == FirstLevelDescriptorType::FineTable ==> r == Some((self.bits() & 0xFFFFF000, 1024usize)),
            fld_type_of(self.bits()) == FirstLevelDescriptorType::Invalid ==> r is None,
            fld_type_of(self.bits()) == FirstLevelDescriptorType::Section ==> r is None,
    {
        match self.descriptor_type() {
            FirstLevelDescriptorType::Invalid => None,
            FirstLevelDescriptorType::Section => None,
            FirstLevelDescriptorType::CoarseTable => Some((self.coarse_ptr(), SecondLevelDescriptor::COARSE_LEN)),
            FirstLevelDescriptorType::FineTable => Some((self.fine_ptr(), SecondLevelDescriptor::FINE_LEN)),
        }
    }
}

/// A second-level descriptor: one entry of a coarse or fine page table.
#[derive(Clone, Copy, PartialEq, Eq, Structural, Debug)]
pub struct SecondLevelDescriptor(u32);

impl SecondLevelDescriptor {
    /// Number of descriptors in a coarse page table.
    pub const COARSE_LEN: usize = 256;
    /// Number of descriptors in a fine page table.
    pub const FINE_LEN: usize = 1024;

    /// The 32-bit value of the descriptor.
    pub closed spec fn bits(&self) -> u32 {
        self.0
    }

    /// The 32-bit value of the descriptor.
    pub fn value(&self) -> (r: u32)
        ensures
            r == self.bits(),
    {
        self.0
    }

    /// A descriptor that makes any access to its page fault.
    pub fn fault() -> (r: SecondLevelDescriptor)
        ensures
            r.bits() == 0,
    {
        SecondLevelDescriptor(0b00)
    }

    /// A descriptor mapping a 64KB page at `addr`.
    pub fn large(addr: u32, ap0: AccessPermission, ap1: AccessPermission, ap2: AccessPermission,
        ap3: AccessPermission, cache: bool, buffer: bool) -> (r: SecondLevelDescriptor)
        ensures
            r.bits() == page_bits(0b01, addr, 0xFFFF0000, ap_code(ap0), ap_code(ap1), ap_code(ap2), ap_code(ap3), cache, buffer),
    {
        let c: u32 = if cache { 1 } else { 0 };
        let b: u32 = if buffer { 1 } else { 0 };
        SecondLevelDescriptor(0b01u32 | addr & 0xFFFF0000 | ap3.code() << 10u32 | ap2.code() << 8u32
            | ap1.code() << 6u32 | ap0.code() << 4u32 | c << 3u32 | b << 2u32)
    }

    /// A descriptor mapping a 4KB page at `addr`.
    pub fn small(addr: u32, ap0: AccessPermission, ap1: AccessPermission, ap2: AccessPermission,
        ap3: AccessPermission, cache: bool, buffer: bool) -> (r: SecondLevelDescriptor)
        ensures
            r.bits() == page_bits(0b10, addr, 0xFFFFF000, ap_code(ap0), ap_code(ap1), ap_code(ap2), ap_code(ap3), cache, buffer),
    {
        let c: u32 = if cache { 1 } else { 0 };
        let b: u32 = if buffer { 1 } else { 0 };
        SecondLevelDescriptor(0b10u32 | addr & 0xFFFFF000 | ap3.code() << 10u32 | ap2.code() << 8u32
            | ap1.code() << 6u32 | ap0.code() << 4u32 | c << 3u32 | b << 2u32)
    }

    /// A descriptor mapping a 1KB page at `addr`.
    pub fn tiny(addr: u32, ap: AccessPermission, cache: bool, buffer: bool) -> (r: SecondLevelDescriptor)
        ensures
            r.bits() == 0b11u32 | (addr & 0xFFFFFC00) | (ap_code(ap) << 4u32)
                | ((if cache { 1u32 } else { 0u32 }) << 3u32) | ((if buffer { 1u32 } else { 0u32 }) << 2u32),
    {
        let c: u32 = if cache { 1 } else { 0 };
        let b: u32 = if buffer { 1 } else { 0 };
        SecondLevelDescriptor(0b11u32 | addr & 0xFFFFFC00 | ap.code() << 4u32 | c << 3u32 | b << 2u32)
    }

    /// The kind of descriptor, from its two low bits.
    pub fn descriptor_type(&self) -> (r: SecondLevelDescriptorType)
        ensures
            r == sld_type_of(self.bits()),
    {
        let b = self.0 & 0b11;
        if b == 0 {
            SecondLevelDescriptorType::Fault
        } else if b == 1 {
            SecondLevelDescriptorType::Large
        } else if b == 2 {
            SecondLevelDescriptorType::Small
        } else {
            SecondLevelDescriptorType::Tiny
        }
    }

    /// Address of the 64KB page.
    pub fn large_addr(&self) -> (r: u32)
        ensures
            r == self.bits() & 0xFFFF0000,
    {
        self.0 & 0xFFFF0000
    }

    /// Address of the 4KB page.
    pub fn small_addr(&self) -> (r: u32)
        ensures
            r == self.bits() & 0xFFFFF000,
    {
        self.0 & 0xFFFFF000
    }

    /// Address of the 1KB page.
    pub fn tiny_addr(&self) -> (r: u32)
        ensures
            r == self.bits() & 0xFFFFFC00,
    {
        self.0 & 0xFFFFFC00
    }
}

/// A descriptor built by `small` is a small-page descriptor for the page
/// of `addr`.
pub proof fn lemma_small_page(addr: u32, ap0: u32, ap1: u32, ap2: u32, ap3: u32, cache: bool, buffer: bool)
    requires
        ap0 < 4,
        ap1 < 4,
        ap2 < 4,
        ap3 < 4,
    ensures
        sld_type_of(page_bits(0b10, addr, 0xFFFFF000, ap0, ap1, ap2, ap3, cache, buffer)) == SecondLevelDescriptorType::Small,
        page_bits(0b10, addr, 0xFFFFF000, ap0, ap1, ap2, ap3, cache, buffer) & 0xFFFFF000 == addr & 0xFFFFF000,
{
    let c: u32 = if cache { 1u32 } else { 0u32 };
    let b: u32 = if buffer { 1u32 } else { 0u32 };
    assert((0b10u32 | (addr & 0xFFFFF000) | (ap3 << 10u32) | (ap2 << 8u32) | (ap1 << 6u32) | (ap0 << 4u32)
        | (c << 3u32) | (b << 2u32)) & 3 == 2
        && (0b10u32 | (addr & 0xFFFFF000) | (ap3 << 10u32) | (ap2 << 8u32) | (ap1 << 6u32) | (ap0 << 4u32)
        | (c << 3u32) | (b << 2u32)) & 0xFFFFF000 == addr & 0xFFFFF000) by (bit_vector)
        requires ap0 < 4, ap1 < 4, ap2 < 4, ap3 < 4, c < 2, b < 2;
}

/// Number of second-level descriptors: one coarse table for each megabyte.
pub const SLD_TOTAL: usize = 1048576;

/// Bits of the coarse-table descriptor the kernel puts in slot `i` of the
/// first-level table: it points at the `i`-th coarse table of the storage at
/// `sld_addr`, in the manager domain.
pub open spec fn coarse_entry(sld_addr: u32, i: int) -> u32 {
    0b10001u32 | (((sld_addr + i * 1024) as u32) & 0xFFFFFC00) | (3u32 << 5u32)
}

/// Bits of the small-page descriptor the kernel writes when it maps a page
/// onto `addr`: full access (`AP3`) for all four sub-pages.
pub open spec fn kernel_small(addr: u32, cache: bool, buffer: bool) -> u32 {
    page_bits(0b10, addr, 0xFFFFF000, 3, 3, 3, 3, cache, buffer)
}

/// Second-level bits after mapping the pages `first .. first + n` onto the
/// frames from `phys` on.
pub open spec fn mapped_sld(sld: Seq<u32>, first: int, n: int, phys: u32, cache: bool, buffer: bool) -> Seq<u32> {
    Seq::new(sld.len(), |t: int|
        if first <= t < first + n { kernel_small((phys + (t - first) * 4096) as u32, cache, buffer) } else { sld[t] })
}

/// Number of pages in `size` bytes, counting a partial page as a page.
pub open spec fn pages_for(size: int) -> int {
    (size + 4095) / 4096
}

proof fn lemma_addr_split(v: u32)
    ensures
        (v >> 20u32) as int == (v as int / 4096) / 256,
        ((v >> 12u32) & 0xFF) as int == (v as int / 4096) % 256,
{
    assert(((v >> 20u32) as int == (v as int / 4096) / 256)
        && (((v >> 12u32) & 0xFF) as int == (v as int / 4096) % 256)) by (bit_vector);
}

/// The page tables of the kernel: the first-level table and, in the
/// storage at physical address `sld_addr`, one coarse table per megabyte.
pub struct PageTable {
    fld: Vec<FirstLevelDescriptor>,
    sld: Vec<SecondLevelDescriptor>,
    sld_addr: u32,
}

impl PageTable {
    /// Flags for the kernel's own mappings: cached and buffered.
    pub const FLAGS_KERNEL: (bool, bool) = (true, true);

    /// The bits of the first-level descriptors.
    pub closed spec fn first_level(&self) -> Seq<u32> {
        self.fld@.map_values(|e: FirstLevelDescriptor| e.bits())
    }

    /// The bits of the second-level descriptors, coarse table after coarse table.
    pub closed spec fn second_level(&self) -> Seq<u32> {
        self.sld@.map_values(|e: SecondLevelDescriptor| e.bits())
    }

    /// Physical address of the coarse tables.
    pub closed spec fn sld_base(&self) -> u32 {
        self.sld_addr
    }

    /// Every megabyte is described by its own coarse table, as after `unmap_all`.
    pub open spec fn all_coarse(&self) -> bool {
        forall|i: int| 0 <= i < 4096 ==> #[trigger] self.first_level()[i] == coarse_entry(self.sld_base(), i)
    }

    /// Internal invariant: full tables, and each first-level descriptor is
    /// invalid, a section, or the coarse table of its own megabyte.
    pub closed spec fn wf(&self) -> bool {
        &&& self.fld@.len() == 4096
        &&& self.sld@.len() == SLD_TOTAL
        &&& self.sld_addr as int % 1024 == 0
        &&& self.sld_addr + SLD_TOTAL * 4 <= 0x1_0000_0000
        &&& forall|i: int| 0 <= i < 4096 ==> {
            let t = #[trigger] fld_type_of(self.fld@[i].bits());
            t == FirstLevelDescriptorType::Invalid || t == FirstLevelDescriptorType::Section
                || self.fld@[i].bits() == coarse_entry(self.sld_addr, i)
        }
    }

    /// Tables whose coarse tables live at `sld_addr`; every first-level
    /// descriptor is invalid.
    pub fn new(sld_addr: u32) -> (r: PageTable)
        requires
            sld_addr as int % 1024 == 0,
            sld_addr + SLD_TOTAL * 4 <= 0x1_0000_0000,
        ensures
            r.wf(),
            r.sld_base() == sld_addr,
            forall|i: int| 0 <= i < 4096 ==> #[trigger] r.first_level()[i] == 0b10000,
    {
        let mut fld: Vec<FirstLevelDescriptor> = Vec::new();
        let mut i: usize = 0;
        while i < 4096
            invariant
                i <= 4096,
                fld@.len() == i,
                forall|k: int| 0 <= k < i ==> #[trigger] fld@[k].bits() == 0b10000,
            decreases 4096 - i,
        {
            fld.push(FirstLevelDescriptor::invalid());
            i = i + 1;
        }
        let mut sld: Vec<SecondLevelDescriptor> = Vec::new();
        let mut t: usize = 0;
        while t < SLD_TOTAL
            invariant
                t <= SLD_TOTAL,
                sld@.len() == t,
            decreases SLD_TOTAL - t,
        {
            sld.push(SecondLevelDescriptor::fault());
            t = t + 1;
        }
        let r = PageTable { fld, sld, sld_addr };
        proof {
            assert forall|i: int| 0 <= i < 4096 implies fld_type_of(#[trigger] r.fld@[i].bits()) == FirstLevelDescriptorType::Invalid by {
                assert(0b10000u32 & 3 == 0) by (bit_vector);
            }
        }
        r
    }

    /// The first-level descriptor of the megabyte of `addr`.
    pub fn get(&self, addr: u32) -> (r: FirstLevelDescriptor)
        requires
            self.wf(),
        ensures
            r.bits() == self.first_level()[addr as int / 1048576],
    {
        proof { assert((addr >> 20u32) as int == addr as int / 1048576) by (bit_vector); }
        self.fld[(addr >> 20u32) as usize]
    }

    /// The second-level descriptor of the page of `addr`, when its megabyte
    /// is described by a coarse table.
    pub fn get_sld(&self, addr: u32) -> (r: Option<SecondLevelDescriptor>)
        requires
            self.wf(),
        ensures
            fld_type_of(self.first_level()[addr as int / 1048576]) == FirstLevelDescriptorType::CoarseTable
                ==> r is Some && r->0.bits() == self.second_level()[addr as int / 4096],
            fld_type_of(self.first_level()[addr as int / 1048576]) != FirstLevelDescriptorType::CoarseTable
                ==> r is None,
    {
        let d = self.get(addr);
        proof {
            lemma_addr_split(addr);
            assert((addr >> 20u32) as int == addr as int / 1048576) by (bit_vector);
        }
        match d.descriptor_type() {
            FirstLevelDescriptorType::CoarseTable => {
                let i = (addr >> 20u32) as usize;
                let t = i * 256 + ((addr >> 12u32) & 0xFF) as usize;
                Some(self.sld[t])
            },
            _ => None,
        }
    }

    /// Every page of `first .. first + n` lies in a megabyte described by a
    /// coarse table.
    pub open spec fn coarse_over(&self, first: int, n: int) -> bool {
        forall|t: int| first <= t < first + n ==>
            #[trigger] fld_type_of(self.first_level()[t / 256]) == FirstLevelDescriptorType::CoarseTable
    }

    /// Maps the whole 4GB as sections onto themselves, cached and buffered,
    /// with full access in the manager domain.
    pub fn map_all(&mut self)
        requires
            old(self).wf(),
        ensures
            final(self).wf(),
            final(self).sld_base() == old(self).sld_base(),
            final(self).second_level() == old(self).second_level(),
            forall|i: int| 0 <= i < 4096 ==> #[trigger] final(self).first_level()[i]
                == section_bits(((i * 1048576) as u32), 3, 3, true, true),
    {
        let mut idx: usize = 0;
        while idx < 4096
            invariant
                self.wf(),
                self.sld_addr == old(self).sld_addr,
                self.sld@ == old(self).sld@,
                idx <= 4096,
                forall|i: int| 0 <= i < idx ==> #[trigger] self.first_level()[i]
                    == section_bits(((i * 1048576) as u32), 3, 3, true, true),
            decreases 4096 - idx,
        {
            let addr = (idx as u32) << 20u32;
            proof {
                assert((idx as u32) << 20u32 == (idx * 1048576) as u32) by (bit_vector) requires idx < 4096;
            }
            let d = FirstLevelDescriptor::section(addr, AccessPermission::AP3, DomainAccessControl::Manager, true, true);
            proof {
                assert((0b10010u32 | (addr & 0xFFF00000) | (3u32 << 10u32) | (3u32 << 5u32) | (1u32 << 3u32) | (1u32 << 2u32)) & 3 == 2) by (bit_vector);
            }
            let ghost prev = self.first_level();
            self.fld.set(idx, d);
            proof {
                assert(self.first_level() =~= prev.update(idx as int, d.bits()));
            }
            idx = idx + 1;
        }
    }

    /// Replaces every first-level descriptor by the coarse table of its own
    /// megabyte, and makes every page fault.
    pub fn unmap_all(&mut self)
        requires
            old(self).wf(),
        ensures
            final(self).wf(),
            final(self).sld_base() == old(self).sld_base(),
            final(self).all_coarse(),
            forall|t: int| 0 <= t < SLD_TOTAL ==> #[trigger] final(self).second_level()[t] == 0,
    {
        let mut t: usize = 0;
        while t < SLD_TOTAL
            invariant
                self.wf(),
                self.sld_addr == old(self).sld_addr,
                t <= SLD_TOTAL,
                forall|k: int| 0 <= k < t ==> #[trigger] self.second_level()[k] == 0,
            decreases SLD_TOTAL - t,
        {
            let ghost prev = self.second_level();
            self.sld.set(t, SecondLevelDescriptor::fault());
            proof {
                assert(self.second_level() =~= prev.update(t as int, 0));
            }
            t = t + 1;
        }
        let mut i: usize = 0;
        while i < 4096
            invariant
                self.wf(),
                self.sld_addr == old(self).sld_addr,
                i <= 4096,
                forall|k: int| 0 <= k < SLD_TOTAL ==> #[trigger] self.second_level()[k] == 0,
                forall|k: int| 0 <= k < i ==> #[trigger] self.first_level()[k] == coarse_entry(self.sld_addr, k),
            decreases 4096 - i,
        {
            let addr = self.sld_addr + (i * 256 * 4) as u32;
            let d = FirstLevelDescriptor::coarse_table(addr, DomainAccessControl::Manager);
            proof {
                assert(d.bits() == coarse_entry(self.sld_addr, i as int));
            }
            let ghost prev = self.first_level();
            let ghost prev2 = self.second_level();
            self.fld.set(i, d);
            proof {
                assert(self.first_level() =~= prev.update(i as int, d.bits()));
                assert(self.second_level() =~= prev2);
            }
            i = i + 1;
        }
    }

    /// Maps the page of `virt_addr` onto the frame of `phys_addr` as a
    /// small page with full access; its megabyte must be described by a
    /// coarse table.
    fn map(&mut self, flags: (bool, bool), virt_addr: u32, phys_addr: u32)
        requires
            old(self).wf(),
            old(self).coarse_over(virt_addr as int / 4096, 1),
        ensures
            final(self).wf(),
            final(self).sld_base() == old(self).sld_base(),
            final(self).first_level() == old(self).first_level(),
            final(self).second_level() == mapped_sld(old(self).second_level(), virt_addr as int / 4096, 1, phys_addr, flags.0, flags.1),
    {
        let (cache, buffer) = flags;
        let ap = AccessPermission::AP3;
        let sld = SecondLevelDescriptor::small(phys_addr, ap, ap, ap, ap, cache, buffer);
        proof {
            lemma_addr_split(virt_addr);
            let p = virt_addr as int / 4096;
            assert(fld_type_of(self.first_level()[p / 256]) == FirstLevelDescriptorType::CoarseTable);
        }
        let i = (virt_addr >> 20u32) as usize;
        let t = i * 256 + ((virt_addr >> 12u32) & 0xFF) as usize;
        self.sld.set(t, sld);
        proof {
            assert(self.second_level() =~= mapped_sld(old(self).second_level(), virt_addr as int / 4096, 1, phys_addr, cache, buffer));
        }
    }

    /// Maps the pages covering `virt_addr .. virt_addr + size` one after
    /// another onto the frames from `phys_addr` on.
    fn map_range(&mut self, flags: (bool, bool), virt_addr: u32, phys_addr: u32, size: u32)
        requires
            old(self).wf(),
            virt_addr + size <= u32::MAX,
            phys_addr + size <= u32::MAX,
            old(self).coarse_over(virt_addr as int / 4096, pages_for(size as int)),
        ensures
            final(self).wf(),
            final(self).sld_base() == old(self).sld_base(),
            final(self).first_level() == old(self).first_level(),
            final(self).second_level() == mapped_sld(old(self).second_level(), virt_addr as int / 4096, pages_for(size as int), phys_addr, flags.0, flags.1),
    {
        let ghost p0 = virt_addr as int / 4096;
        let mut off: u32 = 0;
        let ghost mut k: int = 0;
        proof {
            assert(self.second_level() =~= mapped_sld(old(self).second_level(), p0, 0, phys_addr, flags.0, flags.1));
        }
        while off < size
            invariant
                self.wf(),
                self.sld_addr == old(self).sld_addr,
                self.first_level() == old(self).first_level(),
                virt_addr + size <= u32::MAX,
                phys_addr + size <= u32::MAX,
                old(self).coarse_over(p0, pages_for(size as int)),
                p0 == virt_addr as int / 4096,
                0 <= k,
                off <= size,
                off < size ==> off == k * 4096 && k < pages_for(size as int),
                off == size ==> k == pages_for(size as int),
                self.second_level() == mapped_sld(old(self).second_level(), p0, k, phys_addr, flags.0, flags.1),
            decreases size - off,
        {
            proof {
                assert((virt_addr + off) as int / 4096 == p0 + k);
                assert(fld_type_of(old(self).first_level()[(p0 + k) / 256]) == FirstLevelDescriptorType::CoarseTable);
            }
            self.map(flags, virt_addr + off, phys_addr + off);
            proof {
                lemma_map_step_sld(old(self).second_level(), p0, k, phys_addr, flags.0, flags.1);
                k = k + 1;
            }
            if size - off > 4096 {
                off = off + 4096;
            } else {
                off = size;
            }
        }
    }

    /// Maps `phys_addr .. phys_addr + size` onto the same virtual addresses.
    pub fn map_direct(&mut self, flags: (bool, bool), phys_addr: u32, size: u32)
        requires
            old(self).wf(),
            phys_addr + size <= u32::MAX,
            old(self).coarse_over(phys_addr as int / 4096, pages_for(size as int)),
        ensures
            final(self).wf(),
            final(self).sld_base() == old(self).sld_base(),
            final(self).first_level() == old(self).first_level(),
            final(self).second_level() == mapped_sld(old(self).second_level(), phys_addr as int / 4096, pages_for(size as int), phys_addr, flags.0, flags.1),
    {
        self.map_range(flags, phys_addr, phys_addr, size);
    }

    /// Maps `size` bytes of frames from `phys_addr` on onto the same virtual
    /// addresses and returns that virtual address.
    pub fn map_memory(&mut self, flags: (bool, bool), phys_addr: u32, size: u32) -> (r: u32)
        requires
            old(self).wf(),
            phys_addr + size <= u32::MAX,
            old(self).coarse_over(phys_addr as int / 4096, pages_for(size as int)),
        ensures
            r == phys_addr,
            final(self).wf(),
            final(self).sld_base() == old(self).sld_base(),
            final(self).first_level() == old(self).first_level(),
            final(self).second_level() == mapped_sld(old(self).second_level(), phys_addr as int / 4096, pages_for(size as int), phys_addr, flags.0, flags.1),
    {
        self.map_direct(flags, phys_addr, size);
        phys_addr
    }
}

/// Mapping one more page after `k` pages is mapping `k + 1` pages.
proof fn lemma_map_step_sld(sld: Seq<u32>, p0: int, k: int, phys: u32, cache: bool, buffer: bool)
    requires
        0 <= k,
        phys + k * 4096 <= u32::MAX,
    ensures
        mapped_sld(mapped_sld(sld, p0, k, phys, cache, buffer), p0 + k, 1, (phys + k * 4096) as u32, cache, buffer)
            == mapped_sld(sld, p0, k + 1, phys, cache, buffer),
{
    let a = mapped_sld(mapped_sld(sld, p0, k, phys, cache, buffer), p0 + k, 1, (phys + k * 4096) as u32, cache, buffer);
    let b = mapped_sld(sld, p0, k + 1, phys, cache, buffer);
    assert forall|t: int| 0 <= t < sld.len() implies a[t] == b[t] by {
        if t == p0 + k {
            assert((phys + k * 4096) as u32 + (t - (p0 + k)) * 4096 == phys + k * 4096);
        }
    }
    assert(a =~= b);
}

/// A direct mapping maps each page it covers onto itself: the descriptor of
/// every page in the range is a small page whose frame is that very page.
pub proof fn lemma_direct_map_identity(sld: Seq<u32>, phys: u32, size: u32, cache: bool, buffer: bool, g: int)
    requires
        phys + size <= u32::MAX,
        phys as int / 4096 <= g < phys as int / 4096 + pages_for(size as int),
        g < sld.len(),
    ensures
        sld_type_of(mapped_sld(sld, phys as int / 4096, pages_for(size as int), phys, cache, buffer)[g])
            == SecondLevelDescriptorType::Small,
        (mapped_sld(sld, phys as int / 4096, pages_for(size as int), phys, cache, buffer)[g] >> 12u32) == g,
{
    let first = phys as int / 4096;
    let k = g - first;
    let n = pages_for(size as int);
    assert(k * 4096 < size as int) by (nonlinear_arith)
        requires 0 <= k < n, n == (size + 4095) / 4096;
    let a = (phys + k * 4096) as u32;
    assert(a as int == phys + k * 4096);
    let e = kernel_small(a, cache, buffer);
    assert(mapped_sld(sld, first, n, phys, cache, buffer)[g] == e);
    lemma_small_page(a, 3, 3, 3, 3, cache, buffer);
    assert(((e >> 12u32) == ((e & 0xFFFFF000) >> 12u32))
        && (((a & 0xFFFFF000) >> 12u32) as int == a as int / 4096)) by (bit_vector);
    assert(a as int / 4096 == first + k) by (nonlinear_arith)
        requires a as int == phys + k * 4096, first == phys as int / 4096, k >= 0;
}

/// A coarse-table descriptor reads as a coarse-table descriptor.
proof fn lemma_coarse_entry_type(base: u32, i: int)
    ensures
        fld_type_of(coarse_entry(base, i)) == FirstLevelDescriptorType::CoarseTable,
{
    let x = (base + i * 1024) as u32;
    assert((0b10001u32 | (x & 0xFFFFFC00) | (3u32 << 5u32)) & 3 == 1) by (bit_vector);
}

/// When every megabyte has its coarse table, every range of pages is
/// covered by coarse tables.
proof fn lemma_all_coarse_over(table: PageTable, addr: u32, size: u32)
    requires
        table.all_coarse(),
        addr + size <= u32::MAX,
    ensures
        table.coarse_over(addr as int / 4096, pages_for(size as int)),
{
    assert forall|t: int| addr as int / 4096 <= t < addr as int / 4096 + pages_for(size as int) implies
        #[trigger] fld_type_of(table.first_level()[t / 256]) == FirstLevelDescriptorType::CoarseTable by {
        assert(t < 1048576) by (nonlinear_arith)
            requires t < addr as int / 4096 + (size + 4095) / 4096, addr + size <= 0xFFFF_FFFF, addr >= 0, size >= 0;
        assert(0 <= t / 256 < 4096);
        lemma_coarse_entry_type(table.sld_base(), t / 256);
    }
}

/// The second-level descriptors with every page faulting.
pub open spec fn all_fault() -> Seq<u32> {
    Seq::new(SLD_TOTAL as nat, |t: int| 0u32)
}

/// The kernel's page tables after start-up on `machine`: every megabyte
/// gets its coarse table, every page faults except the exception vectors
/// (the first 32 bytes), the board's registers and the kernel's memory
/// `kernel_start .. end_addr`, each mapped onto itself.
pub fn init(table: &mut PageTable, machine: Machine, kernel_start: u32, end_addr: u32)
    requires
        old(table).wf(),
        kernel_start <= end_addr,
    ensures
        final(table).wf(),
        final(table).all_coarse(),
        final(table).sld_base() == old(table).sld_base(),
        final(table).second_level() == mapped_sld(
            registers_mapped(machine, mapped_sld(all_fault(), 0, pages_for(32), 0, true, true)),
            kernel_start as int / 4096, pages_for(end_addr - kernel_start), kernel_start, true, true),
{
    table.unmap_all();
    proof {
        assert(table.second_level() =~= all_fault());
        lemma_all_coarse_over(*table, 0, 32);
    }
    table.map_direct(PageTable::FLAGS_KERNEL, 0, 32);
    proof {
        lemma_all_coarse_over(*table, mach::bcm::interrupt::pic::PIC_BASE, mach::bcm::interrupt::pic::DISABLE_BASIC_IRQS);
        lemma_all_coarse_over(*table, mach::bcm::interrupt::pit::SYSTIMER_BASE, mach::bcm::interrupt::pit::SYSTIMER_C3);
        lemma_all_coarse_over(*table, mach::bcm::GPIO_BASE, gpio::TEST);
        lemma_all_coarse_over(*table, mach::bcm::UART0_BASE, serial::UART0_TDR);
        lemma_all_coarse_over(*table, mach::versatile::interrupt::pic::PIC_BASE, mach::versatile::interrupt::pic::VIC_INT_EN_CLEAR);
        lemma_all_coarse_over(*table, mach::versatile::interrupt::pit::TIMER0_BASE, mach::versatile::interrupt::pit::TIMER_MIS);
        lemma_all_coarse_over(*table, mach::versatile::interrupt::pit::TIMER1_BASE, mach::versatile::interrupt::pit::TIMER_MIS);
        lemma_all_coarse_over(*table, mach::versatile::GPIO_BASE, gpio::TEST);
        lemma_all_coarse_over(*table, mach::versatile::UART0_BASE, serial::UART0_TDR);
        assert(registers_coarse(machine, *table));
    }
    mach::map_pages(machine, table);
    proof {
        lemma_all_coarse_over(*table, kernel_start, (end_addr - kernel_start) as u32);
    }
    table.map_direct(PageTable::FLAGS_KERNEL, kernel_start, end_addr - kernel_start);
}

} // verus!
