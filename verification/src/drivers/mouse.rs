use vstd::prelude::*;

verus! {

/// A mouse report: the state of up to eight buttons and the movement.
pub struct Mouse {
    pub buttons: [bool; 8],
    pub x: i8,
    pub y: i8,
}

/// Bit `i` of `bits` is set.
pub open spec fn bit_set(bits: u8, i: u8) -> bool {
    bits & (1u8 << i) != 0
}

impl Mouse {
    /// No button pressed and no movement.
    pub fn new() -> (r: Mouse)
        ensures
            forall|i: int| 0 <= i < 8 ==> !r.buttons@[i],
            r.x == 0,
            r.y == 0,
    {
        Mouse { buttons: [false; 8], x: 0, y: 0 }
    }

    /// Button `i` pressed exactly when bit `i` of `bits` is set.
    pub fn with_bits(bits: u8, x: i8, y: i8) -> (r: Mouse)
        ensures
            forall|i: int| 0 <= i < 8 ==> r.buttons@[i] == bit_set(bits, i as u8),
            r.x == x,
            r.y == y,
    {
        let r = Mouse {
            buttons: [
                bits & (1u8 << 0u8) != 0,
                bits & (1u8 << 1u8) != 0,
                bits & (1u8 << 2u8) != 0,
                bits & (1u8 << 3u8) != 0,
                bits & (1u8 << 4u8) != 0,
                bits & (1u8 << 5u8) != 0,
                bits & (1u8 << 6u8) != 0,
                bits & (1u8 << 7u8) != 0,
            ],
            x: x,
            y: y,
        };
        proof {
            assert forall|i: int| 0 <= i < 8 implies r.buttons@[i] == bit_set(bits, i as u8) by {
                if i == 0 {} else if i == 1 {} else if i == 2 {} else if i == 3 {}
                else if i == 4 {} else if i == 5 {} else if i == 6 {} else {}
            }
        }
        r
    }

    /// The left button (button 0).
    pub fn left(&self) -> (r: bool)
        ensures
            r == self.buttons@[0],
    {
        self.buttons[0]
    }

    /// The right button (button 1).
    pub fn right(&self) -> (r: bool)
        ensures
            r == self.buttons@[1],
    {
        self.buttons[1]
    }

    /// The middle button (button 2).
    pub fn middle(&self) -> (r: bool)
        ensures
            r == self.buttons@[2],
    {
        self.buttons[2]
    }
}

} // verus!
