use vstd::prelude::*;

pub mod vga_text;
pub mod vbe;
pub mod bochs;
pub mod vga;

verus! {

/// The display the kernel picks.
#[derive(Clone, Copy, PartialEq, Eq, Structural, Debug)]
pub enum Preferred {
    /// The Bochs graphics adapter at 640 by 480.
    Bochs,
    /// The VESA frame buffer the loader set up.
    Vbe,
    /// No display.
    Dummy,
}

/// The Bochs adapter when there is one, else the VESA frame buffer when
/// there is one, else no display.
pub fn preferred(bochs_available: bool, vbe_available: bool) -> (r: Preferred)
    ensures
        r == if bochs_available { Preferred::Bochs } else if vbe_available { Preferred::Vbe } else { Preferred::Dummy },
{
    if bochs_available {
        Preferred::Bochs
    } else if vbe_available {
        Preferred::Vbe
    } else {
        Preferred::Dummy
    }
}

} // verus!
