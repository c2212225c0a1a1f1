//! Actions that the user asked for with the keyboard.

use vstd::prelude::*;

verus! {

/// A key that means something to the application.
#[derive(Clone, Copy, Debug, PartialEq, Eq, Structural, Hash)]
pub enum Key {
    /// The escape key
    Escape,
    /// The numerical key `1`
    Key1,
    /// The numerical key `2`
    Key2,
    /// The numerical key `3`
    Key3,
}

/// Intermediate input state container
///
/// Used as a per frame state container for what the user asked for.
#[derive(Clone, Copy, Debug, PartialEq, Eq, Structural, Hash)]
pub struct Actions {
    /// Application exit state.
    pub exit: bool,
    /// Toggle for the shaded display of the model.
    pub toggle_model: bool,
    /// Toggle for the model's wireframe.
    pub toggle_mesh: bool,
    /// Toggle for debug information.
    pub toggle_debug: bool,
}

impl Default for Actions {
    fn default() -> (a: Actions)
        ensures
            a == (Actions {
                exit: false,
                toggle_model: false,
                toggle_mesh: false,
                toggle_debug: false,
            }),
    {
        Actions { exit: false, toggle_model: false, toggle_mesh: false, toggle_debug: false }
    }
}

impl Actions {
    /// What the actions are after a key was pressed.
    pub open spec fn after_key(self, key: Key) -> Actions {
        match key {
            Key::Escape => Actions { exit: true, ..self },
            Key::Key1 => Actions { toggle_model: true, ..self },
            Key::Key2 => Actions { toggle_mesh: true, ..self },
            Key::Key3 => Actions { toggle_debug: true, ..self },
        }
    }

    /// Returns a new `Actions`.
    pub fn new() -> (a: Actions)
        ensures
            a == (Actions {
                exit: false,
                toggle_model: false,
                toggle_mesh: false,
                toggle_debug: false,
            }),
    {
        Actions { exit: false, toggle_model: false, toggle_mesh: false, toggle_debug: false }
    }

    /// Take note of a pressed key: escape asks to exit, the keys `1`, `2`
    /// and `3` ask to toggle the model, the mesh and the debug information.
    pub fn handle_key(&mut self, key: Key)
        ensures
            *final(self) == old(self).after_key(key),
    {
        match key {
            Key::Escape => {
                self.exit = true;
            },
            Key::Key1 => {
                self.toggle_model = true;
            },
            Key::Key2 => {
                self.toggle_mesh = true;
            },
            Key::Key3 => {
                self.toggle_debug = true;
            },
        }
    }
}

} // verus!
