//! The input events that the platform capture layers produce.

use vstd::prelude::*;

verus! {

/// A mouse button whose press is recorded.
#[derive(Debug, Clone, Copy, PartialEq, Eq, Structural)]
pub enum MouseButton {
    Left,
    Right,
    Middle,
}

/// One event of the capture layer.
#[derive(Debug, Clone, Copy, PartialEq, Eq, Structural)]
pub enum InputEvent {
    KeyDown { vk_code: u32, is_extended: bool, shift_held: bool, caps_on: bool },
    KeyUp { vk_code: u32, is_extended: bool },
    MouseClick { button: MouseButton, x: i32, y: i32 },
}

/// One finger currently on the touchpad.
#[derive(Debug, Clone, Copy, PartialEq, Eq, Structural)]
pub struct TouchpadContact {
    pub id: u32,
    pub x: i32,
    pub y: i32,
}

/// The name under which a button is stored ("Left", "Right", "Middle").
pub open spec fn button_name(b: MouseButton) -> Seq<char> {
    match b {
        MouseButton::Left => seq!['L', 'e', 'f', 't'],
        MouseButton::Right => seq!['R', 'i', 'g', 'h', 't'],
        MouseButton::Middle => seq!['M', 'i', 'd', 'd', 'l', 'e'],
    }
}

impl MouseButton {
    /// The button's name as it is written to the click table.
    pub fn name(&self) -> (s: String)
        ensures
            s@ == button_name(*self),
    {
        match self {
            MouseButton::Left => {
                proof {
                    reveal_strlit("Left");
                }
                String::from_str("Left")
            },
            MouseButton::Right => {
                proof {
                    reveal_strlit("Right");
                }
                String::from_str("Right")
            },
            MouseButton::Middle => {
                proof {
                    reveal_strlit("Middle");
                }
                String::from_str("Middle")
            },
        }
    }
}

} // verus!
