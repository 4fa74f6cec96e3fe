use vstd::prelude::*;

verus! {

/// The state of one logical button during one frame, already debounced.
#[derive(Clone, Copy, Debug, PartialEq, Eq, Structural)]
pub struct Button {
    /// True on exactly the frame on which the button went down.
    pub pressed: bool,
    /// True while the button has been held past the hold threshold.
    pub hold: bool,
}

impl Button {
    pub fn new(pressed: bool, hold: bool) -> (r: Button)
        ensures
            r.pressed == pressed,
            r.hold == hold,
    {
        Button { pressed, hold }
    }

    /// Whether the button went down on this frame.
    pub fn was_pressed(&self) -> (r: bool)
        ensures
            r == self.pressed,
    {
        self.pressed
    }
}

/// One frame's snapshot of every logical button.
#[derive(Clone, Copy, Debug, PartialEq, Eq, Structural)]
pub struct ButtonSet {
    pub up: Button,
    pub down: Button,
    pub left: Button,
    pub right: Button,
    pub a: Button,
    pub b: Button,
    pub c: Button,
}

impl ButtonSet {
    /// A snapshot in which nothing is pressed or held.
    pub fn idle() -> (r: ButtonSet)
        ensures
            !r.up.pressed && !r.down.pressed && !r.left.pressed && !r.right.pressed,
            !r.a.pressed && !r.b.pressed && !r.c.pressed,
            !r.up.hold && !r.down.hold && !r.left.hold && !r.right.hold,
            !r.a.hold && !r.b.hold && !r.c.hold,
    {
        let n = Button { pressed: false, hold: false };
        ButtonSet { up: n, down: n, left: n, right: n, a: n, b: n, c: n }
    }
}

} // verus!
