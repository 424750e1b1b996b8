//! The four cardinal movement directions and their geometry.

use vstd::prelude::*;

verus! {

/// One of the four movement directions a key can map to. A velocity keeps its
/// direction even while its speed is zero, as the last-known facing.
#[derive(Clone, Copy, PartialEq, Eq, Structural, Debug)]
pub enum Direction {
    Up,
    Down,
    Left,
    Right,
}

impl Direction {
    /// Unit offset of this direction: one step on exactly one axis, with the
    /// screen's y axis growing downwards.
    pub open spec fn offset(self) -> (int, int) {
        match self {
            Direction::Left => (-1, 0),
            Direction::Right => (1, 0),
            Direction::Up => (0, -1),
            Direction::Down => (0, 1),
        }
    }

    /// Whether this direction moves along the horizontal axis.
    pub open spec fn spec_is_horizontal(self) -> bool {
        self is Left || self is Right
    }

    /// Whether this direction moves along the vertical axis.
    pub open spec fn spec_is_vertical(self) -> bool {
        self is Up || self is Down
    }

    /// Returns the movement delta for this direction.
    pub fn to_offset(self) -> (r: (i32, i32))
        ensures
            r.0 as int == self.offset().0,
            r.1 as int == self.offset().1,
    {
        match self {
            Direction::Left => (-1, 0),
            Direction::Right => (1, 0),
            Direction::Up => (0, -1),
            Direction::Down => (0, 1),
        }
    }

    /// Check if this direction is horizontal.
    pub fn is_horizontal(self) -> (r: bool)
        ensures
            r == self.spec_is_horizontal(),
    {
        matches!(self, Direction::Left | Direction::Right)
    }

    /// Check if this direction is vertical.
    pub fn is_vertical(self) -> (r: bool)
        ensures
            r == self.spec_is_vertical(),
    {
        matches!(self, Direction::Up | Direction::Down)
    }
}

} // verus!
