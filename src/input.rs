use vstd::prelude::*;

verus! {

/// The state of one input button, as seen once per input tick.
#[derive(Clone, Copy, Debug, PartialEq, Eq, Structural)]
pub enum ButtonState {
    /// Is currently not pressed, and was not just released this frame.
    Up,
    /// Is currently pressed.
    Down,
    /// Was pressed this frame.
    Pressed,
    /// Was released this frame.
    Released,
}

impl Default for ButtonState {
    fn default() -> (r: ButtonState)
        ensures
            r == ButtonState::Up,
    {
        ButtonState::Up
    }
}

impl ButtonState {
    /// The state after a tick on which the button is not held.
    pub open spec fn after_release(self) -> ButtonState {
        match self {
            ButtonState::Up => ButtonState::Up,
            ButtonState::Down => ButtonState::Released,
            ButtonState::Pressed => ButtonState::Released,
            ButtonState::Released => ButtonState::Up,
        }
    }

    /// The state after a tick on which the button is held.
    pub open spec fn after_hold(self) -> ButtonState {
        match self {
            ButtonState::Up => ButtonState::Pressed,
            ButtonState::Down => ButtonState::Down,
            ButtonState::Pressed => ButtonState::Down,
            ButtonState::Released => ButtonState::Pressed,
        }
    }

    /// Whether the button went down on this tick.
    pub fn was_pressed(&self) -> (r: bool)
        ensures
            r == (*self == ButtonState::Pressed),
    {
        match self {
            ButtonState::Pressed => true,
            _ => false,
        }
    }

    /// Whether the button is held: it went down on this tick or before.
    pub fn is_down(&self) -> (r: bool)
        ensures
            r == (*self == ButtonState::Down || *self == ButtonState::Pressed),
    {
        match self {
            ButtonState::Down | ButtonState::Pressed => true,
            _ => false,
        }
    }

    /// Advances the state for a tick on which the button is not held.
    pub fn upgrade(&mut self)
        ensures
            *final(self) == old(self).after_release(),
    {
        *self = match *self {
            ButtonState::Up => ButtonState::Up,
            ButtonState::Down => ButtonState::Released,
            ButtonState::Pressed => ButtonState::Released,
            ButtonState::Released => ButtonState::Up,
        };
    }

    /// Advances the state for a tick on which the button is held.
    pub fn downgrade(&mut self)
        ensures
            *final(self) == old(self).after_hold(),
    {
        *self = match *self {
            ButtonState::Up => ButtonState::Pressed,
            ButtonState::Down => ButtonState::Down,
            ButtonState::Pressed => ButtonState::Down,
            ButtonState::Released => ButtonState::Pressed,
        };
    }
}

} // verus!
