use vstd::prelude::*;

verus! {

/// An event from an input device.
#[derive(Clone, Copy)]
pub enum Device {
    KeyDown(u8),
    KeyUp(u8),
    Mouse(()),
}

} // verus!
