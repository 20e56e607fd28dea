//! The control sample a client sends once per tick.

use vstd::prelude::*;

verus! {

/// Four independent boolean axes, sampled once per client tick and sent as
/// they are.
#[derive(Debug, Clone, Copy, PartialEq, Eq, Structural)]
pub struct PlayerInput {
    pub up: bool,
    pub down: bool,
    pub left: bool,
    pub right: bool,
}

impl PlayerInput {
    /// The horizontal part of the direction asked for, before it is
    /// normalised: `right - left`.
    pub open spec fn spec_axis_x(self) -> int {
        (if self.right {
            1int
        } else {
            0int
        }) - (if self.left {
            1int
        } else {
            0int
        })
    }

    /// The vertical part of the direction asked for, before it is
    /// normalised: `up - down`.
    pub open spec fn spec_axis_y(self) -> int {
        (if self.up {
            1int
        } else {
            0int
        }) - (if self.down {
            1int
        } else {
            0int
        })
    }

    /// The horizontal part of the direction asked for: -1, 0 or 1.
    pub fn axis_x(&self) -> (x: i8)
        ensures
            x == self.spec_axis_x(),
    {
        let right: i8 = if self.right { 1 } else { 0 };
        let left: i8 = if self.left { 1 } else { 0 };
        right - left
    }

    /// The vertical part of the direction asked for: -1, 0 or 1.
    pub fn axis_y(&self) -> (y: i8)
        ensures
            y == self.spec_axis_y(),
    {
        let up: i8 = if self.up { 1 } else { 0 };
        let down: i8 = if self.down { 1 } else { 0 };
        up - down
    }

    /// Whether the sample asks for no movement at all: on each axis either
    /// no key is held or both are.
    pub fn is_idle(&self) -> (idle: bool)
        ensures
            idle == (self.spec_axis_x() == 0 && self.spec_axis_y() == 0),
    {
        self.left == self.right && self.up == self.down
    }
}

impl Default for PlayerInput {
    /// The sample with no key held.
    fn default() -> (input: PlayerInput)
        ensures
            input == (PlayerInput { up: false, down: false, left: false, right: false }),
    {
        PlayerInput { up: false, down: false, left: false, right: false }
    }
}

} // verus!
