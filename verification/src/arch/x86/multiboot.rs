use vstd::prelude::*;

verus! {

/// Magic word a multiboot loader leaves for the kernel.
pub const MULTIBOOT_BOOTLOADER_MAGIC: u32 = 0x2BADB002;
/// Where the kernel's virtual addresses start.
pub const KERNEL_BASE: u32 = 0xC0000000;
/// Bytes of one memory map entry.
pub const MEMORY_MAP_ENTRY_SIZE: u32 = 24;
/// The signature of a VBE controller information block: `VESA`.
pub const VBE_MAGIC: u32 = 0x41534556;

/// The multiboot loader left its magic word.
pub fn magic_valid(sig: u32) -> (r: bool)
    ensures
        r == (sig == MULTIBOOT_BOOTLOADER_MAGIC),
{
    sig == MULTIBOOT_BOOTLOADER_MAGIC
}

/// The symbol table of an a.out kernel.
#[derive(Clone, Copy, PartialEq, Eq, Structural, Debug)]
pub struct AoutSymbolTable {
    pub tabsize: u32,
    pub strsize: u32,
    pub addr: u32,
    pub reserved: u32,
}

/// The section header table of an ELF kernel; it takes the place of the
/// a.out symbol table.
#[derive(Clone, Copy, PartialEq, Eq, Structural, Debug)]
pub struct ElfSectionHeaderTable {
    pub num: u32,
    pub size: u32,
    pub addr: u32,
    pub shndx: u32,
}

/// What the loader tells the kernel. The addresses are physical until
/// `init` moves them into the kernel's half of the address space.
#[derive(Clone, Copy, PartialEq, Eq, Structural, Debug)]
pub struct MultibootInfo {
    pub flags: u32,
    pub mem_lower: u32,
    pub mem_upper: u32,
    pub boot_device: u32,
    pub cmdline: u32,
    pub mods_count: u32,
    pub mods_addr: u32,
    pub aout_table: AoutSymbolTable,
    pub mmap_length: u32,
    pub mmap_addr: u32,
    pub drives_length: u32,
    pub drives_addr: u32,
    pub config_table: u32,
    pub boot_loader_name: u32,
    pub apm_table: u32,
    pub vbe_controller_info: u32,
    pub vbe_mode_info: u32,
    pub vbe_mode: u16,
    pub vbe_interface_seg: u16,
    pub vbe_interface_off: u16,
    pub vbe_interface_len: u16,
}

/// Flag `bit` of `flags`; the bit number is taken modulo 32.
pub open spec fn flag_set(flags: u32, bit: u32) -> bool {
    flags & (1u32 << (bit % 32)) != 0
}

/// The pointer fields can be moved up by `KERNEL_BASE`.
pub open spec fn relocatable(info: MultibootInfo) -> bool {
    &&& info.cmdline + KERNEL_BASE <= u32::MAX
    &&& info.mods_addr + KERNEL_BASE <= u32::MAX
    &&& info.mmap_addr + KERNEL_BASE <= u32::MAX
    &&& info.drives_addr + KERNEL_BASE <= u32::MAX
    &&& info.config_table + KERNEL_BASE <= u32::MAX
    &&& info.boot_loader_name + KERNEL_BASE <= u32::MAX
    &&& info.apm_table + KERNEL_BASE <= u32::MAX
    &&& info.vbe_controller_info + KERNEL_BASE <= u32::MAX
    &&& info.vbe_mode_info + KERNEL_BASE <= u32::MAX
}

/// `info` with every pointer field moved up by `KERNEL_BASE`.
pub open spec fn relocated(info: MultibootInfo) -> MultibootInfo {
    MultibootInfo {
        cmdline: (info.cmdline + KERNEL_BASE) as u32,
        mods_addr: (info.mods_addr + KERNEL_BASE) as u32,
        mmap_addr: (info.mmap_addr + KERNEL_BASE) as u32,
        drives_addr: (info.drives_addr + KERNEL_BASE) as u32,
        config_table: (info.config_table + KERNEL_BASE) as u32,
        boot_loader_name: (info.boot_loader_name + KERNEL_BASE) as u32,
        apm_table: (info.apm_table + KERNEL_BASE) as u32,
        vbe_controller_info: (info.vbe_controller_info + KERNEL_BASE) as u32,
        vbe_mode_info: (info.vbe_mode_info + KERNEL_BASE) as u32,
        ..info
    }
}

/// Checks the loader's magic word and moves every pointer of `info` into
/// the kernel's half of the address space.
pub fn init(info: &mut MultibootInfo, sig: u32)
    requires
        sig == MULTIBOOT_BOOTLOADER_MAGIC,
        relocatable(*old(info)),
    ensures
        *final(info) == relocated(*old(info)),
{
    info.cmdline = info.cmdline + KERNEL_BASE;
    info.mods_addr = info.mods_addr + KERNEL_BASE;
    info.mmap_addr = info.mmap_addr + KERNEL_BASE;
    info.drives_addr = info.drives_addr + KERNEL_BASE;
    info.config_table = info.config_table + KERNEL_BASE;
    info.boot_loader_name = info.boot_loader_name + KERNEL_BASE;
    info.apm_table = info.apm_table + KERNEL_BASE;
    info.vbe_controller_info = info.vbe_controller_info + KERNEL_BASE;
    info.vbe_mode_info = info.vbe_mode_info + KERNEL_BASE;
}

impl MultibootInfo {
    /// Whether flag `bit` (taken modulo 32) is set.
    pub fn has(&self, bit: u32) -> (r: bool)
        ensures
            r == flag_set(self.flags, bit),
    {
        self.flags & (1u32 << (bit % 32)) != 0
    }

    /// Bytes of memory: the lower and upper memory (in KiB) and the first
    /// MiB, when flag 0 says they are given.
    pub fn mem_size(&self) -> (r: Option<u32>)
        requires
            flag_set(self.flags, 0) ==> (self.mem_lower + self.mem_upper + 1024) * 1024 <= u32::MAX,
        ensures
            r is Some <==> flag_set(self.flags, 0),
            r is Some ==> r->0 == (self.mem_lower + self.mem_upper + 1024) * 1024,
    {
        if self.has(0) {
            Some((self.mem_lower + self.mem_upper + 1024) * 1024)
        } else {
            None
        }
    }

    /// The a.out symbol table, when flag 4 says it is given.
    pub fn aout(&self) -> (r: Option<AoutSymbolTable>)
        ensures
            r is Some <==> flag_set(self.flags, 4),
            r is Some ==> r->0 == self.aout_table,
    {
        if self.has(4) { Some(self.aout_table) } else { None }
    }

    /// The ELF section header table, when flag 5 says it is given: the same
    /// four words as the a.out table.
    pub fn elf(&self) -> (r: Option<ElfSectionHeaderTable>)
        ensures
            r is Some <==> flag_set(self.flags, 5),
            r is Some ==> r->0.num == self.aout_table.tabsize && r->0.size == self.aout_table.strsize
                && r->0.addr == self.aout_table.addr && r->0.shndx == self.aout_table.reserved,
    {
        if self.has(5) {
            let t = self.aout_table;
            Some(ElfSectionHeaderTable { num: t.tabsize, size: t.strsize, addr: t.addr, shndx: t.reserved })
        } else {
            None
        }
    }

    /// Where the memory map lies and how many entries it has, when flag 6
    /// says it is given.
    pub fn mmap(&self) -> (r: Option<(u32, u32)>)
        ensures
            r is Some <==> flag_set(self.flags, 6),
            r is Some ==> r->0 == (self.mmap_addr, self.mmap_length / MEMORY_MAP_ENTRY_SIZE),
    {
        if self.has(6) {
            Some((self.mmap_addr, self.mmap_length / MEMORY_MAP_ENTRY_SIZE))
        } else {
            None
        }
    }

    /// Where the VBE controller information lies, when flag 11 says it is given.
    pub fn vbe_controller_info(&self) -> (r: Option<u32>)
        ensures
            r is Some <==> flag_set(self.flags, 11),
            r is Some ==> r->0 == self.vbe_controller_info,
    {
        if self.has(11) { Some(self.vbe_controller_info) } else { None }
    }

    /// Where the VBE mode information lies, when flag 11 says it is given.
    pub fn vbe_mode_info(&self) -> (r: Option<u32>)
        ensures
            r is Some <==> flag_set(self.flags, 11),
            r is Some ==> r->0 == self.vbe_mode_info,
    {
        if self.has(11) { Some(self.vbe_mode_info) } else { None }
    }
}

/// The kinds of memory in the loader's memory map.
#[derive(Clone, Copy, PartialEq, Eq, Structural, Debug)]
pub enum MemoryType {
    Usable,
    Reserved,
    AcpiReclaimable,
    AcpiNvs,
    Bad,
}

impl MemoryType {
    /// The number the loader gives the kind.
    pub open spec fn number(self) -> u32 {
        match self {
            MemoryType::Usable => 1,
            MemoryType::Reserved => 2,
            MemoryType::AcpiReclaimable => 3,
            MemoryType::AcpiNvs => 4,
            MemoryType::Bad => 5,
        }
    }

    /// The kind with number `n`, if there is one.
    pub fn from_number(n: u32) -> (r: Option<MemoryType>)
        ensures
            r is Some <==> 1 <= n <= 5,
            r is Some ==> r->0.number() == n,
    {
        if n == 1 {
            Some(MemoryType::Usable)
        } else if n == 2 {
            Some(MemoryType::Reserved)
        } else if n == 3 {
            Some(MemoryType::AcpiReclaimable)
        } else if n == 4 {
            Some(MemoryType::AcpiNvs)
        } else if n == 5 {
            Some(MemoryType::Bad)
        } else {
            None
        }
    }

    /// A description for the kind.
    pub fn description(&self) -> (r: &'static str)
        ensures
            r@ == memory_type_description(*self)@,
    {
        match *self {
            MemoryType::Usable => "Usable RAM",
            MemoryType::Reserved => "Reserved",
            MemoryType::AcpiReclaimable => "ACPI reclaimable memory",
            MemoryType::AcpiNvs => "ACPI NVS memory",
            MemoryType::Bad => "Area containing bad memory",
        }
    }
}

/// The description of each kind of memory.
pub open spec fn memory_type_description(t: MemoryType) -> &'static str {
    match t {
        MemoryType::Usable => "Usable RAM",
        MemoryType::Reserved => "Reserved",
        MemoryType::AcpiReclaimable => "ACPI reclaimable memory",
        MemoryType::AcpiNvs => "ACPI NVS memory",
        MemoryType::Bad => "Area containing bad memory",
    }
}

/// One entry of the loader's memory map.
#[derive(Clone, Copy, PartialEq, Eq, Structural, Debug)]
pub struct MemoryMap {
    pub size: u32,
    pub base_addr: u64,
    pub length: u64,
    pub type_: MemoryType,
}

/// One loaded module.
#[derive(Clone, Copy, PartialEq, Eq, Structural, Debug)]
pub struct ModList {
    pub start: u32,
    pub end: u32,
    pub cmdline: u32,
    pub pad: u32,
}

/// The VBE controller information block (its fixed part).
#[derive(Clone, Copy, PartialEq, Eq, Structural, Debug)]
pub struct VbeControllerInfo {
    pub signature: u32,
    pub version: u16,
    pub vendor_string: u32,
    pub capabilities: u32,
    pub video_mode_ptr: u32,
    pub total_memory: u16,
    pub software_rev: u16,
    pub vendor_name: u32,
    pub product_name: u32,
    pub product_rev: u32,
}

impl VbeControllerInfo {
    /// The block carries the `VESA` signature.
    pub fn valid(&self) -> (r: bool)
        ensures
            r == (self.signature == VBE_MAGIC),
    {
        self.signature == VBE_MAGIC
    }
}

/// The VBE mode information block (its fixed part).
#[derive(Clone, Copy, Debug)]
pub struct VbeModeInfo {
    pub mode_attr: u16,
    pub win_attr: (u8, u8),
    pub win_grain: u16,
    pub win_size: u16,
    pub win_seg: (u16, u16),
    pub win_scheme: u32,
    pub logical_scan: u16,
    pub h_res: u16,
    pub v_res: u16,
    pub char_width: u8,
    pub char_height: u8,
    pub memory_planes: u8,
    pub bpp: u8,
    pub banks: u8,
    pub memory_layout: u8,
    pub bank_size: u8,
    pub image_planes: u8,
    pub page_function: u8,
    pub rmask: u8,
    pub rpos: u8,
    pub gmask: u8,
    pub gpos: u8,
    pub bmask: u8,
    pub bpos: u8,
    pub resv_mask: u8,
    pub resv_pos: u8,
    pub dcm_info: u8,
    pub phys_base_ptr: u32,
    pub offscreen_ptr: u32,
    pub offscreen_size: u16,
}

impl VbeModeInfo {
    /// Physical address of the frame buffer.
    pub fn vram(&self) -> (r: u32)
        ensures
            r == self.phys_base_ptr,
    {
        self.phys_base_ptr
    }
}

} // verus!
