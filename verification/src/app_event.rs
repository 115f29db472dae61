//! Input events of the client.
use vstd::prelude::*;
use vstd::std_specs::convert::FromSpecImpl;


verus! {

/// A mouse button.
#[derive(Debug, Clone, Copy, PartialEq, Eq, Structural)]
pub enum MouseButton {
    Left,
    Middle,
    Right,
    Button4,
    Button5,
    Unknown,
}

/// The button that a DOM `MouseEvent.button` number stands for.
pub open spec fn spec_mouse_button(button: i16) -> MouseButton {
    if button == 0 {
        MouseButton::Left
    } else if button == 1 {
        MouseButton::Middle
    } else if button == 2 {
        MouseButton::Right
    } else if button == 3 {
        MouseButton::Button4
    } else if button == 4 {
        MouseButton::Button5
    } else {
        MouseButton::Unknown
    }
}

impl From<i16> for MouseButton {
    fn from(button: i16) -> (b: MouseButton) {
        match button {
            0 => MouseButton::Left,
            1 => MouseButton::Middle,
            2 => MouseButton::Right,
            3 => MouseButton::Button4,
            4 => MouseButton::Button5,
            _ => MouseButton::Unknown,
        }
    }
}

impl FromSpecImpl<i16> for MouseButton {
    open spec fn obeys_from_spec() -> bool {
        true
    }

    open spec fn from_spec(button: i16) -> MouseButton {
        spec_mouse_button(button)
    }
}

} // verus!
