use vstd::prelude::*;
use crate::arch::x86::interrupt::{GDT_BOOT_ENTRIES, GDT_ENTRIES, GDT_ENTRY_BOOT_CS, GDT_ENTRY_BOOT_DS,
    GDT_ENTRY_KERNEL_CS, GDT_ENTRY_KERNEL_DS, GDT_ENTRY_DEFAULT_USER_CS, GDT_ENTRY_DEFAULT_USER_DS};

verus! {

/// A segment descriptor: `base` split over bits 16..40 and 56..64, `limit`
/// over bits 0..16 and 48..52, and the access byte and flags of `flags`
/// (bits 0..8 and 12..16) at bits 40..48 and 52..56.
pub fn gdt_entry(base: u32, limit: u32, flags: u16) -> (r: u64)
    ensures
        r == entry_bits(base, limit, flags),
{
    ((base as u64 & 0xFF000000) << (56u64 - 24u64)) |
    ((flags as u64 & 0x0000F0FF) << 40u64) |
    ((limit as u64 & 0x000F0000) << (48u64 - 16u64)) |
    ((base as u64 & 0x00FFFFFF) << 16u64) |
    (limit as u64 & 0x0000FFFF)
}

/// Reading a descriptor made by `gdt_entry` gives back the base and the
/// low 20 bits of the limit.
pub proof fn lemma_gdt_entry_fields(base: u32, limit: u32, flags: u16, e: u64)
    requires
        e == entry_bits(base, limit, flags),
    ensures
        ((e >> 16u64) & 0xFFFFFF) | (((e >> 56u64) & 0xFF) << 24u64) == base as u64,
        (e & 0xFFFF) | (((e >> 48u64) & 0xF) << 16u64) == limit as u64 & 0xFFFFF,
{
    assert(((e >> 16u64) & 0xFFFFFF) | (((e >> 56u64) & 0xFF) << 24u64) == base as u64) by (bit_vector)
        requires e == ((base as u64 & 0xFF000000) << 32u64) | ((flags as u64 & 0x0000F0FF) << 40u64)
            | ((limit as u64 & 0x000F0000) << 32u64) | ((base as u64 & 0x00FFFFFF) << 16u64)
            | (limit as u64 & 0x0000FFFF);
    assert((e & 0xFFFF) | (((e >> 48u64) & 0xF) << 16u64) == limit as u64 & 0xFFFFF) by (bit_vector)
        requires e == ((base as u64 & 0xFF000000) << 32u64) | ((flags as u64 & 0x0000F0FF) << 40u64)
            | ((limit as u64 & 0x000F0000) << 32u64) | ((base as u64 & 0x00FFFFFF) << 16u64)
            | (limit as u64 & 0x0000FFFF);
}

/// The descriptor `gdt_entry` makes.
pub open spec fn entry_bits(base: u32, limit: u32, flags: u16) -> u64 {
    ((base as u64 & 0xFF000000) << 32u64) | ((flags as u64 & 0x0000F0FF) << 40u64)
        | ((limit as u64 & 0x000F0000) << 32u64) | ((base as u64 & 0x00FFFFFF) << 16u64)
        | (limit as u64 & 0x0000FFFF)
}

/// `n` null descriptors.
fn null_table(n: usize) -> (r: Vec<u64>)
    ensures
        r@.len() == n,
        forall|i: int| 0 <= i < n ==> #[trigger] r@[i] == 0,
{
    let mut r: Vec<u64> = Vec::new();
    let mut i: usize = 0;
    while i < n
        invariant
            i <= n,
            r@.len() == i,
            forall|k: int| 0 <= k < i ==> #[trigger] r@[k] == 0,
        decreases n - i,
    {
        r.push(0);
        i = i + 1;
    }
    r
}

/// The table the kernel boots with: flat 4 GiB code (read/execute) and
/// data (read/write) segments at level 0 in their slots, every other
/// descriptor null.
pub fn boot_table() -> (r: Vec<u64>)
    ensures
        r@.len() == GDT_BOOT_ENTRIES,
        forall|i: int| 0 <= i < GDT_BOOT_ENTRIES ==> #[trigger] r@[i] ==
            if i == GDT_ENTRY_BOOT_CS { entry_bits(0, 0xFFFFF, 0xC09B) }
            else if i == GDT_ENTRY_BOOT_DS { entry_bits(0, 0xFFFFF, 0xC093) }
            else { 0 },
{
    let mut t = null_table(GDT_BOOT_ENTRIES);
    t.set(GDT_ENTRY_BOOT_CS, gdt_entry(0, 0xFFFFF, 0xC09B));
    t.set(GDT_ENTRY_BOOT_DS, gdt_entry(0, 0xFFFFF, 0xC093));
    t
}

/// The kernel's table: flat 4 GiB code and data segments for the kernel
/// (level 0) and for user code (level 3) in their slots, every other
/// descriptor null.
pub fn kernel_table() -> (r: Vec<u64>)
    ensures
        r@.len() == GDT_ENTRIES,
        forall|i: int| 0 <= i < GDT_ENTRIES ==> #[trigger] r@[i] ==
            if i == GDT_ENTRY_KERNEL_CS { entry_bits(0, 0xFFFFF, 0xC09A) }
            else if i == GDT_ENTRY_KERNEL_DS { entry_bits(0, 0xFFFFF, 0xC092) }
            else if i == GDT_ENTRY_DEFAULT_USER_CS { entry_bits(0, 0xFFFFF, 0xC0FA) }
            else if i == GDT_ENTRY_DEFAULT_USER_DS { entry_bits(0, 0xFFFFF, 0xC0F2) }
            else { 0 },
{
    let mut t = null_table(GDT_ENTRIES);
    t.set(GDT_ENTRY_KERNEL_CS, gdt_entry(0, 0xFFFFF, 0xC09A));
    t.set(GDT_ENTRY_KERNEL_DS, gdt_entry(0, 0xFFFFF, 0xC092));
    t.set(GDT_ENTRY_DEFAULT_USER_CS, gdt_entry(0, 0xFFFFF, 0xC0FA));
    t.set(GDT_ENTRY_DEFAULT_USER_DS, gdt_entry(0, 0xFFFFF, 0xC0F2));
    t
}

/// The length field of the register that loads a table of `entries`
/// descriptors: its size in bytes, less one.
pub fn table_limit(entries: usize) -> (r: u16)
    requires
        1 <= entries <= 8192,
    ensures
        r == 8 * entries - 1,
{
    (entries * 8 - 1) as u16
}

} // verus!
