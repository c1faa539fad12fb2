use vstd::prelude::*;

pub mod pic;
pub mod gdt;
pub mod idt;
pub mod pit;
pub mod device;

verus! {

/// Descriptor slot of the boot code segment.
pub const GDT_ENTRY_BOOT_CS: usize = 2;
/// Descriptor slot of the boot data segment.
pub const GDT_ENTRY_BOOT_DS: usize = 3;
/// Descriptors of the boot table.
pub const GDT_BOOT_ENTRIES: usize = 4;
/// Selector of the boot code segment.
pub const BOOT_CS: usize = 16;
/// Selector of the boot data segment.
pub const BOOT_DS: usize = 24;
/// Descriptor slot of the kernel code segment.
pub const GDT_ENTRY_KERNEL_CS: usize = 12;
/// Descriptor slot of the kernel data segment.
pub const GDT_ENTRY_KERNEL_DS: usize = 13;
/// Descriptor slot of the user code segment.
pub const GDT_ENTRY_DEFAULT_USER_CS: usize = 14;
/// Descriptor slot of the user data segment.
pub const GDT_ENTRY_DEFAULT_USER_DS: usize = 15;
/// Descriptor slot of the task state segment.
pub const GDT_ENTRY_TSS: usize = 16;
/// Descriptor slot of the local descriptor table.
pub const GDT_ENTRY_LDT: usize = 17;
/// Descriptors of the kernel's table.
pub const GDT_ENTRIES: usize = 18;
/// Selector of the kernel code segment.
pub const KERNEL_CS: usize = 96;
/// Selector of the kernel data segment.
pub const KERNEL_DS: usize = 104;

} // verus!
