use vstd::prelude::*;

pub mod page;
pub mod gpio;
pub mod serial;
pub mod irq_bits;
pub mod mach;
pub mod interrupt;
pub mod atags;

verus! {

/// Start of the kernel image: the address of the linker's start symbol.
pub fn kernel_start(symbol: usize) -> (r: usize)
    ensures
        r == symbol,
{
    symbol
}

/// End of the kernel image: the address of the linker's end symbol.
pub fn kernel_end(symbol: usize) -> (r: usize)
    ensures
        r == symbol,
{
    symbol
}

/// Size of the kernel image between the two linker symbols.
pub fn kernel_size(start_symbol: usize, end_symbol: usize) -> (r: usize)
    requires
        start_symbol <= end_symbol,
    ensures
        r == end_symbol - start_symbol,
{
    kernel_end(end_symbol) - kernel_start(start_symbol)
}

} // verus!
