use vstd::prelude::*;

pub mod device;

verus! {
} // verus!
