use vstd::prelude::*;

verus! {

/// Size of a page and of a page frame, in bytes.
pub const PAGE_SIZE: u32 = 0x1000;

/// Flags of a page directory entry: `(flags & 0x1BF)`, the bits
/// present, read/write, user, write-through, cache-disable, accessed,
/// 4MB and ignored.
pub open spec fn pde_flags(raw: u32) -> u16 {
    (raw & 0x1BF) as u16
}

/// `raw` with its flag bits (and the three custom bits) replaced by `flags`.
pub open spec fn pde_with_flags(raw: u32, flags: u16) -> u32 {
    (raw & 0xFFFFFE00) | ((flags & 0x1BF) as u32)
}

/// Flags of a page table entry: `(flags & 0x17F)`, the bits present,
/// read/write, user, write-through, cache-disable, accessed, dirty and global.
pub open spec fn pte_flags(raw: u32) -> u16 {
    (raw & 0x17F) as u16
}

/// `raw` with its low twelve bits replaced by `flags`.
pub open spec fn pte_with_flags(raw: u32, flags: u16) -> u32 {
    (raw & 0xFFFFF000) | ((flags & 0x17F) as u32)
}

/// `raw` with its frame address replaced by the page of `addr`.
pub open spec fn with_address(raw: u32, addr: u32) -> u32 {
    (addr & 0xFFFFF000) | (raw & 0x00000FFF)
}

/// An entry of the page directory: the address of a page table and flags.
#[derive(Clone, Copy)]
pub struct PageDirectoryEntry(u32);

impl PageDirectoryEntry {
    /// Number of entries in the directory.
    pub const LEN: usize = 1024;
    pub const FLAG_PRESENT: u16 = 0x001;
    pub const FLAG_RW: u16 = 0x002;
    pub const FLAG_USER: u16 = 0x004;
    pub const FLAG_WRITE_THROUGH: u16 = 0x008;
    pub const FLAG_CACHE_DISABLE: u16 = 0x010;
    pub const FLAG_ACCESSED: u16 = 0x020;
    pub const FLAG_4MB: u16 = 0x080;
    pub const FLAG_IGNORED: u16 = 0x100;
    /// Present and writable.
    pub const FLAGS_KERNEL: u16 = 0x003;

    /// The 32-bit value of the entry.
    pub closed spec fn bits(&self) -> u32 {
        self.0
    }

    /// The entry pointing at the page table in frame number `addr`, with no flags.
    pub fn from_4kb_aligned(addr: u32) -> (r: PageDirectoryEntry)
        ensures
            r.bits() == addr << 12u32,
    {
        PageDirectoryEntry(addr << 12u32)
    }

    /// Physical address of the page table the entry points at.
    pub fn page_table(&self) -> (r: u32)
        ensures
            r == self.bits() & 0xFFFFF000,
    {
        self.0 & 0xFFFFF000
    }

    /// The flag bits.
    pub fn get_flags(&self) -> (r: u16)
        ensures
            r == pde_flags(self.bits()),
    {
        (self.0 & 0x1BF) as u16
    }

    /// Replaces the flag bits (and clears the custom bits).
    pub fn set_flags(&mut self, flags: u16)
        ensures
            final(self).bits() == pde_with_flags(old(self).bits(), flags),
    {
        self.0 = (self.0 & 0xFFFFFE00) | (flags & 0x1BF) as u32;
    }

    /// The three bits available to the system (bits 9..12).
    pub fn get_custom(&self) -> (r: u8)
        ensures
            r as u32 == (self.bits() >> 9u32) & 0b111,
    {
        let r = (self.0 >> 9u32 & 0b111u32) as u8;
        proof {
            let v = self.0;
            assert(((v >> 9u32 & 0b111u32) as u8) as u32 == (v >> 9u32) & 0b111) by (bit_vector);
        }
        r
    }

    /// The frame number (bits 12..32).
    pub fn get_raw_address(&self) -> (r: u32)
        ensures
            r == self.bits() >> 12u32,
    {
        self.0 >> 12u32
    }

    /// The address the kernel reads from the entry: the frame number itself.
    pub fn get_address(&self) -> (r: u32)
        ensures
            r == self.bits() >> 12u32,
    {
        self.get_raw_address()
    }

    /// Points the entry at the page of `addr`, keeping the low twelve bits.
    pub fn set_address(&mut self, addr: u32)
        ensures
            final(self).bits() == with_address(old(self).bits(), addr),
    {
        self.0 = (addr & 0xFFFFF000) | (self.0 & 0x00000FFF);
    }
}

/// An entry of a page table: the address of a page frame and flags.
#[derive(Clone, Copy)]
pub struct PageTableEntry(u32);

impl PageTableEntry {
    /// Number of entries in one page table.
    pub const LEN: usize = 1024;
    pub const FLAG_PRESENT: u16 = 0x01;
    pub const FLAG_RW: u16 = 0x02;
    pub const FLAG_USER: u16 = 0x04;
    pub const FLAG_WRITE_THROUGH: u16 = 0x08;
    pub const FLAG_CACHE_DISABLE: u16 = 0x10;
    pub const FLAG_ACCESSED: u16 = 0x20;
    pub const FLAG_DIRTY: u16 = 0x40;
    pub const FLAG_GLOBAL: u16 = 0x100;
    /// Present and writable.
    pub const FLAGS_KERNEL: u16 = 0x03;

    /// The 32-bit value of the entry.
    pub closed spec fn bits(&self) -> u32 {
        self.0
    }

    /// The entry mapping nothing: every bit clear.
    pub fn empty() -> (r: PageTableEntry)
        ensures
            r.bits() == 0,
    {
        PageTableEntry(0)
    }

    /// The flag bits.
    pub fn get_flags(&self) -> (r: u16)
        ensures
            r == pte_flags(self.bits()),
    {
        (self.0 & 0x17F) as u16
    }

    /// Replaces the low twelve bits by `flags`.
    pub fn set_flags(&mut self, flags: u16)
        ensures
            final(self).bits() == pte_with_flags(old(self).bits(), flags),
    {
        self.0 = (self.0 & 0xFFFFF000) | (flags & 0x17F) as u32;
    }

    /// The frame number (bits 12..32).
    pub fn get_raw_address(&self) -> (r: u32)
        ensures
            r == self.bits() >> 12u32,
    {
        self.0 >> 12u32
    }

    /// The address the kernel reads from the entry: the frame number itself.
    pub fn get_address(&self) -> (r: u32)
        ensures
            r == self.bits() >> 12u32,
    {
        self.get_raw_address()
    }

    /// Points the entry at the page of `addr`, keeping the low twelve bits.
    pub fn set_address(&mut self, addr: u32)
        ensures
            final(self).bits() == with_address(old(self).bits(), addr),
    {
        self.0 = (addr & 0xFFFFF000) | (self.0 & 0x00000FFF);
    }
}

/// Setting the flags of a directory entry and reading them back gives the
/// flags as far as the entry can hold them, and leaves the table address alone.
pub proof fn lemma_pde_flags_round_trip(raw: u32, flags: u16)
    ensures
        pde_flags(pde_with_flags(raw, flags)) == flags & 0x1BF,
        pde_with_flags(raw, flags) & 0xFFFFF000 == raw & 0xFFFFF000,
{
    assert(((((raw & 0xFFFFFE00) | ((flags & 0x1BF) as u32)) & 0x1BF) as u16 == flags & 0x1BF)
        && (((raw & 0xFFFFFE00) | ((flags & 0x1BF) as u32)) & 0xFFFFF000 == raw & 0xFFFFF000)) by (bit_vector);
}

/// Setting the flags of a table entry and reading them back gives the flags
/// as far as the entry can hold them, and leaves the frame address alone.
pub proof fn lemma_pte_flags_round_trip(raw: u32, flags: u16)
    ensures
        pte_flags(pte_with_flags(raw, flags)) == flags & 0x17F,
        pte_with_flags(raw, flags) >> 12u32 == raw >> 12u32,
{
    assert(((((raw & 0xFFFFF000) | ((flags & 0x17F) as u32)) & 0x17F) as u16 == flags & 0x17F)
        && (((raw & 0xFFFFF000) | ((flags & 0x17F) as u32)) >> 12u32 == raw >> 12u32)) by (bit_vector);
}

/// Setting the address of an entry and reading the frame number back gives
/// the frame of that address, and the low twelve bits are kept.
pub proof fn lemma_address_round_trip(raw: u32, addr: u32)
    ensures
        with_address(raw, addr) >> 12u32 == addr >> 12u32,
        with_address(raw, addr) & 0xFFF == raw & 0xFFF,
{
    assert((((addr & 0xFFFFF000) | (raw & 0x00000FFF)) >> 12u32 == addr >> 12u32)
        && (((addr & 0xFFFFF000) | (raw & 0x00000FFF)) & 0xFFF == raw & 0xFFF)) by (bit_vector);
}

/// Number of entries of all page tables together.
pub const PT_TOTAL: usize = 1048576;

/// Page directory bits after mapping the pages `first .. first + n`: every
/// directory entry covering one of those pages gets `flags`.
pub open spec fn mapped_pd(pd: Seq<u32>, first: int, n: int, flags: u16) -> Seq<u32> {
    Seq::new(pd.len(), |d: int|
        if n > 0 && first / 1024 <= d <= (first + n - 1) / 1024 { pde_with_flags(pd[d], flags) } else { pd[d] })
}

/// Page table bits after mapping the pages `first .. first + n` onto the
/// frames from `phys` on: page `first + k` gets `flags` and the frame of
/// `phys + k * 4096`.
pub open spec fn mapped_pt(pt: Seq<u32>, first: int, n: int, phys: u32, flags: u16) -> Seq<u32> {
    Seq::new(pt.len(), |t: int|
        if first <= t < first + n {
            with_address(pte_with_flags(pt[t], flags), (phys + (t - first) * 4096) as u32)
        } else {
            pt[t]
        })
}

/// Number of pages in `size` bytes, counting a partial page as a page.
pub open spec fn pages_for(size: int) -> int {
    (size + 4095) / 4096
}

proof fn lemma_page_split(v: u32)
    ensures
        (v >> 12u32) as int == v as int / 4096,
        ((v >> 22u32) & 0x3FF) as int == (v as int / 4096) / 1024,
        ((v >> 12u32) & 0x3FF) as int == (v as int / 4096) % 1024,
{
    assert(((v >> 12u32) as int == v as int / 4096)
        && (((v >> 22u32) & 0x3FF) as int == (v as int / 4096) / 1024)
        && (((v >> 12u32) & 0x3FF) as int == (v as int / 4096) % 1024)) by (bit_vector);
}

proof fn lemma_flags_idempotent(raw: u32, flags: u16)
    ensures
        pde_with_flags(pde_with_flags(raw, flags), flags) == pde_with_flags(raw, flags),
{
    assert(((((raw & 0xFFFFFE00) | ((flags & 0x1BF) as u32)) & 0xFFFFFE00) | ((flags & 0x1BF) as u32))
        == (raw & 0xFFFFFE00) | ((flags & 0x1BF) as u32)) by (bit_vector);
}

/// The page tables of the kernel: a directory of 1024 entries and the 1024
/// page tables it points at, table `i` holding entries `i * 1024 .. (i + 1) * 1024`.
pub struct PageTable {
    pd: Vec<PageDirectoryEntry>,
    pt: Vec<PageTableEntry>,
}

impl PageTable {
    /// Flags for the kernel's own mappings: present and writable, in the
    /// directory and in the tables.
    pub const FLAGS_KERNEL: (u16, u16) = (0x003, 0x03);

    /// The bits of the directory entries.
    pub closed spec fn directory(&self) -> Seq<u32> {
        self.pd@.map_values(|e: PageDirectoryEntry| e.bits())
    }

    /// The bits of all page table entries, table after table.
    pub closed spec fn tables(&self) -> Seq<u32> {
        self.pt@.map_values(|e: PageTableEntry| e.bits())
    }

    /// Internal invariant: a full directory and a full set of tables.
    pub closed spec fn wf(&self) -> bool {
        self.pd@.len() == 1024 && self.pt@.len() == PT_TOTAL
    }

    /// Tables at frame number `pt_frame` on: directory entry `i` points at
    /// frame `pt_frame + i`, and every table entry is clear.
    pub fn new(pt_frame: u32) -> (r: PageTable)
        requires
            pt_frame + 1024 <= 0x100000,
        ensures
            r.wf(),
            forall|i: int| 0 <= i < 1024 ==> #[trigger] r.directory()[i] == ((pt_frame + i) as u32) << 12u32,
            forall|t: int| 0 <= t < PT_TOTAL ==> #[trigger] r.tables()[t] == 0,
    {
        let mut pd: Vec<PageDirectoryEntry> = Vec::new();
        let mut i: u32 = 0;
        while i < 1024
            invariant
                i <= 1024,
                pt_frame + 1024 <= 0x100000,
                pd@.len() == i,
                forall|k: int| 0 <= k < i ==> #[trigger] pd@[k].bits() == ((pt_frame + k) as u32) << 12u32,
            decreases 1024 - i,
        {
            pd.push(PageDirectoryEntry::from_4kb_aligned(pt_frame + i));
            i = i + 1;
        }
        let mut pt: Vec<PageTableEntry> = Vec::new();
        let mut t: usize = 0;
        while t < PT_TOTAL
            invariant
                t <= PT_TOTAL,
                pt@.len() == t,
                forall|k: int| 0 <= k < t ==> #[trigger] pt@[k].bits() == 0,
            decreases PT_TOTAL - t,
        {
            pt.push(PageTableEntry::empty());
            t = t + 1;
        }
        PageTable { pd, pt }
    }

    /// Index of the directory entry covering `addr`.
    pub fn get_pde_index(addr: u32) -> (r: usize)
        ensures
            r as int == (addr as int / 4096) / 1024,
    {
        proof { lemma_page_split(addr); }
        ((addr >> 22u32) & 0x03FF) as usize
    }

    /// The table entry for the page of `addr`: entry `(addr >> 12) & 0x3FF`
    /// of the table that directory entry `addr >> 22` points at.
    pub fn get_pte(&mut self, addr: u32) -> (r: &mut PageTableEntry)
        requires
            old(self).wf(),
        ensures
            r.bits() == old(self).tables()[addr as int / 4096],
            final(self).wf(),
            final(self).directory() == old(self).directory(),
            final(self).tables() == old(self).tables().update(addr as int / 4096, final(r).bits()),
    {
        proof { lemma_page_split(addr); }
        let i = Self::get_pde_index(addr) * 1024 + ((addr >> 12u32) & 0x03FF) as usize;
        &mut self.pt[i]
    }

    /// Maps the page of `virt_addr` onto the frame of `phys_addr`: the
    /// directory entry gets the first flags, the table entry the second
    /// flags and the frame.
    fn map(&mut self, flags: (u16, u16), virt_addr: u32, phys_addr: u32)
        requires
            old(self).wf(),
        ensures
            final(self).wf(),
            final(self).directory() == mapped_pd(old(self).directory(), virt_addr as int / 4096, 1, flags.0),
            final(self).tables() == mapped_pt(old(self).tables(), virt_addr as int / 4096, 1, phys_addr, flags.1),
    {
        let (desc_flags, table_flags) = flags;
        let d = PageTable::get_pde_index(virt_addr);
        let mut pde = self.pd[d];
        pde.set_flags(desc_flags);
        self.pd.set(d, pde);
        proof { lemma_page_split(virt_addr); }
        let t = d * 1024 + ((virt_addr >> 12u32) & 0x03FF) as usize;
        let mut pte = self.pt[t];
        pte.set_flags(table_flags);
        pte.set_address(phys_addr);
        self.pt.set(t, pte);
        proof {
            let p = virt_addr as int / 4096;
            assert(t == p);
            assert(self.directory() =~= mapped_pd(old(self).directory(), p, 1, desc_flags));
            assert(self.tables() =~= mapped_pt(old(self).tables(), p, 1, phys_addr, table_flags));
        }
    }

    /// Maps the pages covering `virt_addr .. virt_addr + size` one after
    /// another onto the frames from `phys_addr` on.
    fn map_range(&mut self, flags: (u16, u16), virt_addr: u32, phys_addr: u32, size: u32)
        requires
            old(self).wf(),
            virt_addr + size <= u32::MAX,
            phys_addr + size <= u32::MAX,
        ensures
            final(self).wf(),
            final(self).directory() == mapped_pd(old(self).directory(), virt_addr as int / 4096, pages_for(size as int), flags.0),
            final(self).tables() == mapped_pt(old(self).tables(), virt_addr as int / 4096, pages_for(size as int), phys_addr, flags.1),
    {
        let ghost p0 = virt_addr as int / 4096;
        let mut off: u32 = 0;
        let ghost mut k: int = 0;
        proof {
            assert(self.directory() =~= mapped_pd(old(self).directory(), p0, 0, flags.0));
            assert(self.tables() =~= mapped_pt(old(self).tables(), p0, 0, phys_addr, flags.1));
        }
        while off < size
            invariant
                self.wf(),
                virt_addr + size <= u32::MAX,
                phys_addr + size <= u32::MAX,
                p0 == virt_addr as int / 4096,
                0 <= k,
                off <= size,
                off < size ==> off == k * 4096,
                off == size ==> k == pages_for(size as int),
                self.directory() == mapped_pd(old(self).directory(), p0, k, flags.0),
                self.tables() == mapped_pt(old(self).tables(), p0, k, phys_addr, flags.1),
            decreases size - off,
        {
            let ghost d0 = self.directory();
            let ghost t0 = self.tables();
            self.map(flags, virt_addr + off, phys_addr + off);
            proof {
                assert((virt_addr + off) as int / 4096 == p0 + k);
                lemma_map_step_pd(old(self).directory(), p0, k, flags.0);
                lemma_map_step_pt(old(self).tables(), p0, k, phys_addr, flags.1);
                k = k + 1;
            }
            if size - off > 4096 {
                off = off + 4096;
            } else {
                off = size;
            }
        }
    }

    /// The lowest virtual address above the first 4MB where `size` bytes
    /// (at least one page) can be mapped onto free pages, or 0 when there is
    /// no such place.
    fn find_free_addr(&self, size: u32) -> (r: u32)
        requires
            self.wf(),
            size + 4095 <= u32::MAX,
        ensures
            r != 0 ==> r as int % 4096 == 0 && is_first_window(self.tables(), r as int / 4096, pages_wanted(size as int)),
            r == 0 ==> forall|s: int| window_fits(s, pages_wanted(size as int)) ==> !window_free(self.tables(), s, pages_wanted(size as int)),
    {
        let map_pages = (size + 4095) / 4096;
        let ghost m = pages_wanted(size as int);
        let ghost pt = self.tables();
        let mut begin_addr: u32 = 0;
        let mut free_pages: u32 = 0;
        let mut g: usize = 1024;
        while g < PT_TOTAL
            invariant
                self.wf(),
                pt == self.tables(),
                map_pages as int == pages_for(size as int),
                m == pages_wanted(size as int),
                1024 <= g <= PT_TOTAL,
                begin_addr as int % 4096 == 0,
                begin_addr != 0 ==> {
                    let b = begin_addr as int / 4096;
                    &&& 1024 <= b <= g
                    &&& free_pages == g - b
                    &&& free_pages < m
                    &&& forall|h: int| b <= h < g ==> #[trigger] page_free(pt, h)
                    &&& b == 1024 || !page_free(pt, b - 1)
                },
                begin_addr == 0 ==> g == 1024 || !page_free(pt, g - 1),
                forall|s: int| 1024 <= s && s + m <= g ==> !window_free(pt, s, m),
            decreases PT_TOTAL - g,
        {
            let flags = self.pt[g].get_flags();
            proof {
                let raw = pt[g as int];
                assert(((raw & 0x17F) as u16) & 1u16 == 0u16 <==> raw & 1 == 0) by (bit_vector);
            }
            if flags & PageTableEntry::FLAG_PRESENT != 0 {
                begin_addr = 0;
            } else {
                if begin_addr == 0 {
                    proof { assert((g as u32) << 12u32 == g * 4096) by (bit_vector) requires g < 0x100000; }
                    begin_addr = (g as u32) << 12u32;
                    free_pages = 0;
                }
                free_pages = free_pages + 1;
                if free_pages >= map_pages {
                    proof {
                        let b = begin_addr as int / 4096;
                        assert forall|t: int| 1024 <= t < b implies !window_free(pt, t, m) by {
                            if window_free(pt, t, m) {
                                assert(page_free(pt, b - 1));
                            }
                        }
                    }
                    return begin_addr;
                }
            }
            proof {
                assert forall|s: int| 1024 <= s && s + m <= g + 1 implies !window_free(pt, s, m) by {
                    if s + m == g + 1 && window_free(pt, s, m) {
                        assert(page_free(pt, g as int));
                        let b = begin_addr as int / 4096;
                        assert(s < b);
                        assert(page_free(pt, b - 1));
                    }
                }
            }
            g = g + 1;
        }
        0
    }

    /// Maps `size` bytes of frames from `phys_addr` on at the lowest free
    /// place above the first 4MB and returns its virtual address, or 0 when
    /// there is no room (then nothing changes).
    pub fn map_memory(&mut self, flags: (u16, u16), phys_addr: u32, size: u32) -> (r: u32)
        requires
            old(self).wf(),
            size + 4095 <= u32::MAX,
            phys_addr + size <= u32::MAX,
            forall|s: int| is_first_window(old(self).tables(), s, pages_wanted(size as int)) ==> s * 4096 + size <= u32::MAX,
        ensures
            final(self).wf(),
            r != 0 ==> r as int % 4096 == 0 && is_first_window(old(self).tables(), r as int / 4096, pages_wanted(size as int)),
            r != 0 ==> final(self).directory() == mapped_pd(old(self).directory(), r as int / 4096, pages_for(size as int), flags.0),
            r != 0 ==> final(self).tables() == mapped_pt(old(self).tables(), r as int / 4096, pages_for(size as int), phys_addr, flags.1),
            r == 0 ==> forall|s: int| window_fits(s, pages_wanted(size as int)) ==> !window_free(old(self).tables(), s, pages_wanted(size as int)),
            r == 0 ==> final(self).directory() == old(self).directory() && final(self).tables() == old(self).tables(),
    {
        let virt_addr = self.find_free_addr(size);
        if virt_addr != 0 {
            self.map_range(flags, virt_addr, phys_addr, size);
        }
        virt_addr
    }

    /// Maps `phys_addr .. phys_addr + size` onto the same virtual addresses.
    pub fn map_direct(&mut self, flags: (u16, u16), phys_addr: u32, size: u32)
        requires
            old(self).wf(),
            phys_addr + size <= u32::MAX,
        ensures
            final(self).wf(),
            final(self).directory() == mapped_pd(old(self).directory(), phys_addr as int / 4096, pages_for(size as int), flags.0),
            final(self).tables() == mapped_pt(old(self).tables(), phys_addr as int / 4096, pages_for(size as int), phys_addr, flags.1),
    {
        self.map_range(flags, phys_addr, phys_addr, size);
    }
}

/// Page `g` is not mapped: the present bit of its table entry is clear.
pub open spec fn page_free(pt: Seq<u32>, g: int) -> bool {
    pt[g] & 1 == 0
}

/// Pages `s .. s + m` are all free.
pub open spec fn window_free(pt: Seq<u32>, s: int, m: int) -> bool {
    forall|g: int| s <= g < s + m ==> #[trigger] page_free(pt, g)
}

/// Pages `s .. s + m` lie above the first 4MB and inside the address space.
pub open spec fn window_fits(s: int, m: int) -> bool {
    1024 <= s && s + m <= PT_TOTAL
}

/// `s` starts the lowest run of `m` free pages above the first 4MB.
pub open spec fn is_first_window(pt: Seq<u32>, s: int, m: int) -> bool {
    &&& window_fits(s, m)
    &&& window_free(pt, s, m)
    &&& forall|t: int| 1024 <= t < s ==> !window_free(pt, t, m)
}

/// Pages to look for when `size` bytes are to be mapped: at least one.
pub open spec fn pages_wanted(size: int) -> int {
    if pages_for(size) > 0 { pages_for(size) } else { 1 }
}

/// Mapping one more page after `k` pages is mapping `k + 1` pages (directory).
proof fn lemma_map_step_pd(pd: Seq<u32>, p0: int, k: int, flags: u16)
    requires
        0 <= p0,
        0 <= k,
    ensures
        mapped_pd(mapped_pd(pd, p0, k, flags), p0 + k, 1, flags) == mapped_pd(pd, p0, k + 1, flags),
{
    let a = mapped_pd(mapped_pd(pd, p0, k, flags), p0 + k, 1, flags);
    let b = mapped_pd(pd, p0, k + 1, flags);
    assert forall|d: int| 0 <= d < pd.len() implies a[d] == b[d] by {
        lemma_flags_idempotent(pd[d], flags);
        if k > 0 {
            assert((p0 + k - 1) / 1024 <= (p0 + k) / 1024);
            assert((p0 + k) / 1024 <= (p0 + k - 1) / 1024 + 1);
        }
        assert(p0 / 1024 <= (p0 + k) / 1024);
    }
    assert(a =~= b);
}

/// Mapping one more page after `k` pages is mapping `k + 1` pages (tables).
proof fn lemma_map_step_pt(pt: Seq<u32>, p0: int, k: int, phys: u32, flags: u16)
    requires
        0 <= k,
        phys + k * 4096 <= u32::MAX,
    ensures
        mapped_pt(mapped_pt(pt, p0, k, phys, flags), p0 + k, 1, (phys + k * 4096) as u32, flags)
            == mapped_pt(pt, p0, k + 1, phys, flags),
{
    let a = mapped_pt(mapped_pt(pt, p0, k, phys, flags), p0 + k, 1, (phys + k * 4096) as u32, flags);
    let b = mapped_pt(pt, p0, k + 1, phys, flags);
    assert forall|t: int| 0 <= t < pt.len() implies a[t] == b[t] by {
        if t == p0 + k {
            assert((phys + k * 4096) as u32 + (t - (p0 + k)) * 4096 == phys + k * 4096);
        }
    }
    assert(a =~= b);
}

/// A direct mapping maps each page it covers onto itself: the table entry
/// of every page in the range names that very page as its frame, with the
/// flags asked for.
pub proof fn lemma_direct_map_identity(pt: Seq<u32>, phys: u32, size: u32, flags: u16, g: int)
    requires
        phys + size <= u32::MAX,
        phys as int / 4096 <= g < phys as int / 4096 + pages_for(size as int),
        g < pt.len(),
    ensures
        mapped_pt(pt, phys as int / 4096, pages_for(size as int), phys, flags)[g] >> 12u32 == g,
        pte_flags(mapped_pt(pt, phys as int / 4096, pages_for(size as int), phys, flags)[g]) == flags & 0x17F,
{
    let first = phys as int / 4096;
    let k = g - first;
    let n = pages_for(size as int);
    assert(k * 4096 < size as int) by (nonlinear_arith)
        requires 0 <= k < n, n == (size + 4095) / 4096;
    let a = (phys + k * 4096) as u32;
    assert(a as int == phys + k * 4096);
    let y = pte_with_flags(pt[g], flags);
    let e = with_address(y, a);
    assert(mapped_pt(pt, first, n, phys, flags)[g] == e);
    lemma_address_round_trip(y, a);
    lemma_pte_flags_round_trip(pt[g], flags);
    assert((a >> 12u32) as int == a as int / 4096) by (bit_vector);
    assert(a as int / 4096 == first + k) by (nonlinear_arith)
        requires a as int == phys + k * 4096, first == phys as int / 4096, k >= 0;
    assert(pte_flags(e) == pte_flags(y)) by (bit_vector)
        requires e == (a & 0xFFFFF000) | (y & 0x00000FFF);
}

/// Start of the kernel's half of the address space.
pub const KERNEL_BASE: u32 = 0xC0000000;

/// The kernel's page tables after start-up: the physical memory from 0 up
/// to the end of the kernel's memory mapped at `KERNEL_BASE`, present and
/// writable. `end_addr` is the virtual address where the kernel's memory ends.
pub fn init(table: &mut PageTable, end_addr: u32)
    requires
        old(table).wf(),
        end_addr >= KERNEL_BASE,
    ensures
        final(table).wf(),
        final(table).directory() == mapped_pd(old(table).directory(), KERNEL_BASE as int / 4096,
            pages_for(end_addr - KERNEL_BASE), PageTable::FLAGS_KERNEL.0),
        final(table).tables() == mapped_pt(old(table).tables(), KERNEL_BASE as int / 4096,
            pages_for(end_addr - KERNEL_BASE), 0, PageTable::FLAGS_KERNEL.1),
{
    let memory_start: u32 = 0;
    let memory_start_virt = memory_start + KERNEL_BASE;
    let size = end_addr - memory_start_virt;
    table.map_range(PageTable::FLAGS_KERNEL, memory_start_virt, memory_start, size);
}

} // verus!
