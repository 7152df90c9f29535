use vstd::prelude::*;

verus! {

/// Normalised mouse move: a delta from the last position.
#[derive(Debug, Clone, Copy, PartialEq, Eq)]
pub struct MouseMove {
    pub dx: i32,
    pub dy: i32,
}

/// A mouse button press or release at an absolute client position.
#[derive(Debug, Clone, Copy, PartialEq, Eq)]
pub struct MouseClick {
    pub button: MouseButton,
    pub action: ButtonAction,
    pub x: i32,
    pub y: i32,
}

/// A wheel movement on both axes.
#[derive(Debug, Clone, Copy, PartialEq, Eq)]
pub struct MouseScroll {
    pub delta_x: i32,
    pub delta_y: i32,
}

#[derive(Debug, Clone, Copy, PartialEq, Eq)]
pub enum MouseButton {
    Left,
    Right,
    Middle,
    X1,
    X2,
}

#[derive(Debug, Clone, Copy, PartialEq, Eq)]
pub enum ButtonAction {
    Press,
    Release,
}

/// Bit set carried by a key event.
#[derive(Debug, Clone, Copy, PartialEq, Eq)]
pub struct KeyFlags {
    pub bits: u8,
}

impl KeyFlags {
    /// Extended key (right Ctrl, numpad Enter, ...).
    pub const EXTENDED: u8 = 0x01;
    /// `vk` carries a Unicode code point, not a virtual-key code.
    pub const UNICODE: u8 = 0x02;

    pub open spec fn has(self, bit: u8) -> bool {
        self.bits & bit == bit
    }

    pub fn empty() -> (r: KeyFlags)
        ensures
            r.bits == 0,
    {
        KeyFlags { bits: 0 }
    }

    pub fn from_bits(bits: u8) -> (r: KeyFlags)
        ensures
            r.bits == bits,
    {
        KeyFlags { bits }
    }

    /// True when every bit of `other` is set here.
    pub fn contains(&self, other: u8) -> (r: bool)
        ensures
            r == self.has(other),
    {
        self.bits & other == other
    }

    /// Sets the bits of `other`.
    pub fn insert(&mut self, other: u8)
        ensures
            final(self).bits == old(self).bits | other,
    {
        self.bits = self.bits | other;
    }
}

/// A keyboard event; `vk` is the platform-independent virtual-key code.
#[derive(Debug, Clone, Copy, PartialEq, Eq)]
pub struct KeyEvent {
    pub vk: u32,
    pub action: ButtonAction,
    pub scan: u16,
    pub flags: KeyFlags,
}

} // verus!
