use vstd::prelude::*;

pub mod display;
pub mod keyboard;
pub mod mouse;

verus! {

/// An input event from a device.
pub enum Device {
    Keyboard(keyboard::Keyboard),
    Mouse(mouse::Mouse),
}

} // verus!
