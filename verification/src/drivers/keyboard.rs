use vstd::prelude::*;

verus! {

/// State of one modifier key, which the keyboard may have on its left and
/// on its right.
#[derive(Clone, Copy)]
pub struct Modifier {
    pub left: bool,
    pub right: bool,
}

impl Modifier {
    /// Neither side held.
    pub fn none() -> (r: Modifier)
        ensures
            !r.left,
            !r.right,
    {
        Modifier { left: false, right: false }
    }

    /// `true` when either side is held.
    pub fn any(&self) -> (r: bool)
        ensures
            r == (self.left || self.right),
    {
        self.left || self.right
    }
}

/// The modifier keys, after DOM Level 3 `KeyboardEvent.getModifierState()`.
#[derive(Clone, Copy)]
pub struct Modifiers {
    pub alt: Modifier,
    pub alt_gr: Modifier,
    pub caps_lock: Modifier,
    pub control: Modifier,
    pub meta: Modifier,
    pub num_lock: Modifier,
    pub os: Modifier,
    pub scroll_lock: Modifier,
    pub shift: Modifier,
}

/// No modifier held on either side.
pub open spec fn no_modifier(m: Modifiers) -> bool {
    &&& !m.alt.left && !m.alt.right
    &&& !m.alt_gr.left && !m.alt_gr.right
    &&& !m.caps_lock.left && !m.caps_lock.right
    &&& !m.control.left && !m.control.right
    &&& !m.meta.left && !m.meta.right
    &&& !m.num_lock.left && !m.num_lock.right
    &&& !m.os.left && !m.os.right
    &&& !m.scroll_lock.left && !m.scroll_lock.right
    &&& !m.shift.left && !m.shift.right
}

/// The modifiers and the scan code of the last key.
#[derive(Clone, Copy)]
pub struct KeyState {
    pub modifiers: Modifiers,
    pub code: u16,
}

impl KeyState {
    /// No modifier held and scan code 0.
    pub fn new() -> (r: KeyState)
        ensures
            no_modifier(r.modifiers),
            r.code == 0,
    {
        KeyState {
            modifiers: Modifiers {
                alt: Modifier::none(),
                alt_gr: Modifier::none(),
                caps_lock: Modifier::none(),
                control: Modifier::none(),
                meta: Modifier::none(),
                num_lock: Modifier::none(),
                os: Modifier::none(),
                scroll_lock: Modifier::none(),
                shift: Modifier::none(),
            },
            code: 0,
        }
    }
}

/// A key event.
pub enum Keyboard {
    Down(KeyState),
    Press(KeyState),
    Up(KeyState),
}

} // verus!
