use vstd::prelude::*;

pub mod display;

verus! {
} // verus!
