//! A polled push button that flips a two-state output on each press.

use vstd::prelude::*;

verus! {

/// The state that the polling loop keeps between two reads of the button.
pub struct PressToggle {
    was_pressed: bool,
    on: bool,
}

impl PressToggle {
    /// Whether the button was down at the last poll.
    pub closed spec fn was_pressed(&self) -> bool {
        self.was_pressed
    }

    /// Whether the output is switched on.
    pub closed spec fn is_on(&self) -> bool {
        self.on
    }

    /// The button up, the output off.
    pub fn new() -> (toggle: PressToggle)
        ensures
            !toggle.was_pressed(),
            !toggle.is_on(),
    {
        PressToggle { was_pressed: false, on: false }
    }

    /// Takes one reading of the button. A press, that is a reading of "down"
    /// after one of "up", flips the output, and the new state of the output
    /// is returned; any other reading leaves the output alone.
    pub fn poll(&mut self, pressed: bool) -> (switched: Option<bool>)
        ensures
            final(self).was_pressed() == pressed,
            pressed && !old(self).was_pressed() ==> final(self).is_on() == !old(self).is_on()
                && switched == Some(final(self).is_on()),
            !(pressed && !old(self).was_pressed()) ==> final(self).is_on() == old(self).is_on()
                && switched is None,
    {
        let mut switched: Option<bool> = None;
        if pressed && !self.was_pressed {
            self.on = !self.on;
            switched = Some(self.on);
        }
        self.was_pressed = pressed;
        switched
    }

    /// Whether the output is switched on.
    pub fn output(&self) -> (on: bool)
        ensures
            on == self.is_on(),
    {
        self.on
    }
}

} // verus!
