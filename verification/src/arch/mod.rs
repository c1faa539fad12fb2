use vstd::prelude::*;

pub mod registers;
pub mod x86;
pub mod arm;

verus! {
} // verus!
