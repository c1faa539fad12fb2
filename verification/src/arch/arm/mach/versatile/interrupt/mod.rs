use vstd::prelude::*;

pub mod pic;
pub mod pit;

verus! {
} // verus!
