//! What a mouse button means.

use vstd::prelude::*;

verus! {

/// A button of the mouse.
#[derive(Clone, Copy, Debug, PartialEq, Eq, Structural, Hash)]
pub enum MouseButton {
    Left,
    Right,
    Middle,
    Other,
}

/// Whether a button went down or up.
#[derive(Clone, Copy, Debug, PartialEq, Eq, Structural, Hash)]
pub enum ElementState {
    Pressed,
    Released,
}

/// What is to be done about a mouse button.
#[derive(Clone, Copy, Debug, PartialEq, Eq, Structural, Hash)]
pub enum MouseAction {
    /// Start to rotate the model around the focus point.
    StartRotation,
    /// Stop rotating.
    StopRotation,
    /// Start to move the model, from the focus point and the cursor.
    StartMovement,
    /// Stop moving.
    StopMovement,
    /// Nothing.
    Ignore,
}

/// What a change of a mouse button means: the left button rotates while it
/// is down, the right button moves, and the others do nothing.
pub open spec fn action_of(button: MouseButton, state: ElementState) -> MouseAction {
    match (button, state) {
        (MouseButton::Left, ElementState::Pressed) => MouseAction::StartRotation,
        (MouseButton::Left, ElementState::Released) => MouseAction::StopRotation,
        (MouseButton::Right, ElementState::Pressed) => MouseAction::StartMovement,
        (MouseButton::Right, ElementState::Released) => MouseAction::StopMovement,
        _ => MouseAction::Ignore,
    }
}

/// Decide what is to be done when a mouse button is pressed or released.
pub fn handle_mouse_input(button: MouseButton, state: ElementState) -> (action: MouseAction)
    ensures
        action == action_of(button, state),
{
    match (button, state) {
        (MouseButton::Left, ElementState::Pressed) => MouseAction::StartRotation,
        (MouseButton::Left, ElementState::Released) => MouseAction::StopRotation,
        (MouseButton::Right, ElementState::Pressed) => MouseAction::StartMovement,
        (MouseButton::Right, ElementState::Released) => MouseAction::StopMovement,
        _ => MouseAction::Ignore,
    }
}

} // verus!
