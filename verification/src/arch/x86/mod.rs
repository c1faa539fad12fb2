use vstd::prelude::*;

pub mod page;
pub mod interrupt;
pub mod drivers;
pub mod multiboot;
pub mod serial;

use crate::arch::x86::multiboot::{MultibootInfo, MULTIBOOT_BOOTLOADER_MAGIC, MEMORY_MAP_ENTRY_SIZE, flag_set, relocatable, relocated};

verus! {

/// Entries of the boot page tables: sixteen tables of 1024 entries.
pub const BOOT_ENTRIES: usize = 16384;

/// The boot page-table entry for frame `i`: frame `i` mapped present and writable.
pub open spec fn boot_entry(i: int) -> u32 {
    ((i as u32) << 12u32) | 3u32
}

/// Fills the boot page tables so that entry `i` maps frame `i`, present and
/// writable: the first 64 MiB mapped one to one.
pub fn x86_prep_page_table(buf: &mut [u32; 16384])
    ensures
        forall|i: int| 0 <= i < BOOT_ENTRIES ==> #[trigger] final(buf)@[i] == boot_entry(i),
{
    let mut i: u32 = 0;
    while i < 16384
        invariant
            i <= BOOT_ENTRIES,
            buf@.len() == BOOT_ENTRIES,
            forall|k: int| 0 <= k < i ==> #[trigger] buf@[k] == boot_entry(k),
        decreases BOOT_ENTRIES - i,
    {
        buf[i as usize] = (i << 12u32) | 3u32;
        i = i + 1;
    }
}

/// Start of the kernel image, from the address of the linker's start
/// symbol: the image is loaded 1 MiB below it.
pub fn kernel_start(symbol: usize) -> (r: usize)
    requires
        symbol >= 0x100000,
    ensures
        r == symbol - 0x100000,
{
    symbol - 0x100000
}

/// End of the kernel image: the address of the linker's end symbol.
pub fn kernel_end(symbol: usize) -> (r: usize)
    ensures
        r == symbol,
{
    symbol
}

/// Size of the kernel image between the two linker symbols.
pub fn kernel_size(start_symbol: usize, end_symbol: usize) -> (r: usize)
    requires
        start_symbol >= 0x100000,
        end_symbol >= start_symbol - 0x100000,
    ensures
        r == end_symbol - (start_symbol - 0x100000),
{
    kernel_end(end_symbol) - kernel_start(start_symbol)
}

/// One step of a stack walk: from frame pointer `bp`, whose frame holds the
/// caller's frame pointer and return address in `frame`, the next frame
/// pointer and the return address. `None` when `bp` is no frame pointer
/// (null or not word aligned). A caller frame that is not above this one
/// ends the walk: its frame pointer is reported as null.
pub fn backtrace(bp: u32, frame: (u32, u32)) -> (r: Option<(u32, u32)>)
    ensures
        (bp == 0 || bp % 4 != 0) <==> r is None,
        r is Some ==> r.unwrap().1 == frame.1,
        r is Some ==> r.unwrap().0 == if frame.0 <= bp { 0 } else { frame.0 },
{
    if bp == 0 || bp % 4 != 0 {
        None
    } else {
        let (newbp, newip) = frame;
        if newbp <= bp {
            Some((0, newip))
        } else {
            Some((newbp, newip))
        }
    }
}

/// Whether `bp` can be followed: the frame it points at is read only then.
pub fn is_frame_pointer(bp: u32) -> (r: bool)
    ensures
        r == (bp != 0 && bp % 4 == 0),
{
    bp != 0 && bp % 4 == 0
}

/// The start-up after the switch to protected mode: checks the loader's
/// magic word, moves the loader's pointers into the kernel's half of the
/// address space, and gives where the memory map lies and how many entries
/// it has, for the memory manager. The loader must have given a memory map.
pub fn x86_init(info: &mut MultibootInfo, sig: u32) -> (r: (u32, u32))
    requires
        sig == MULTIBOOT_BOOTLOADER_MAGIC,
        relocatable(*old(info)),
        flag_set(old(info).flags, 6),
    ensures
        *final(info) == relocated(*old(info)),
        r == (final(info).mmap_addr, final(info).mmap_length / MEMORY_MAP_ENTRY_SIZE),
{
    multiboot::init(info, sig);
    match info.mmap() {
        Some(m) => m,
        None => (0, 0),
    }
}

} // verus!
