//! A kernel support library: bounded queues and lists, an intrusive-style
//! doubly linked list over node handles, page-table entry encodings, and the
//! pure decision logic of the kernel's drivers.
use vstd::prelude::*;

pub mod lists;
pub mod drivers;
pub mod arch;
pub mod event;
pub mod kmain;

verus! {
} // verus!
