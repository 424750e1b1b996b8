//! The component kinds an entity can hold, with their mathematical views.
//!
//! Every component is plain data: integer points, rectangles and frame lists.
//! Contracts speak of the view types, whose coordinates are unbounded
//! integers, so that arithmetic in specifications cannot overflow.

use vstd::prelude::*;

use crate::direction::Direction;

verus! {

/// A 2D integer point.
#[derive(Clone, Copy, PartialEq, Eq, Structural, Debug)]
pub struct Point {
    pub x: i32,
    pub y: i32,
}

/// Mathematical view of a [`Point`].
pub ghost struct PointV {
    pub x: int,
    pub y: int,
}

impl View for Point {
    type V = PointV;

    open spec fn view(&self) -> PointV {
        PointV { x: self.x as int, y: self.y as int }
    }
}

impl Point {
    /// Builds the point `(x, y)`.
    pub fn new(x: i32, y: i32) -> (r: Point)
        ensures
            r@ == (PointV { x: x as int, y: y as int }),
    {
        Point { x, y }
    }

    /// The point moved by `(dx, dy)`.
    pub fn offset(self, dx: i32, dy: i32) -> (r: Point)
        requires
            i32::MIN <= self.x + dx <= i32::MAX,
            i32::MIN <= self.y + dy <= i32::MAX,
        ensures
            r@ == (PointV { x: self.x + dx, y: self.y + dy }),
    {
        Point { x: self.x + dx, y: self.y + dy }
    }
}

/// An axis-aligned rectangle: top-left corner, width and height.
#[derive(Clone, Copy, PartialEq, Eq, Structural, Debug)]
pub struct Rect {
    pub x: i32,
    pub y: i32,
    pub width: u32,
    pub height: u32,
}

/// Mathematical view of a [`Rect`].
pub ghost struct RectV {
    pub x: int,
    pub y: int,
    pub width: int,
    pub height: int,
}

impl View for Rect {
    type V = RectV;

    open spec fn view(&self) -> RectV {
        RectV {
            x: self.x as int,
            y: self.y as int,
            width: self.width as int,
            height: self.height as int,
        }
    }
}

impl Rect {
    /// Builds the rectangle with top-left corner `(x, y)` and the given size.
    pub fn new(x: i32, y: i32, width: u32, height: u32) -> (r: Rect)
        ensures
            r@ == (RectV {
                x: x as int,
                y: y as int,
                width: width as int,
                height: height as int,
            }),
    {
        Rect { x, y, width, height }
    }
}

/// Where an entity stands. Mutated only by the movement system.
#[derive(Clone, Copy, PartialEq, Eq, Structural, Debug)]
pub struct Position(pub Point);

impl View for Position {
    type V = PointV;

    open spec fn view(&self) -> PointV {
        self.0@
    }
}

/// How fast an entity moves and which way it faces. A speed of zero means
/// stationary; the direction is retained as the last-known facing.
#[derive(Clone, Copy, PartialEq, Eq, Structural, Debug)]
pub struct Velocity {
    pub speed: i32,
    pub direction: Direction,
}

/// Mathematical view of a [`Velocity`].
pub ghost struct VelocityV {
    pub speed: int,
    pub direction: Direction,
}

impl View for Velocity {
    type V = VelocityV;

    open spec fn view(&self) -> VelocityV {
        VelocityV { speed: self.speed as int, direction: self.direction }
    }
}

/// The currently visible frame of an entity: a spritesheet index, resolved by
/// the external texture loader, and the region of that sheet to draw.
/// Mutated by the animation system.
#[derive(Clone, Copy, PartialEq, Eq, Structural, Debug)]
pub struct Sprite {
    pub spritesheet: usize,
    pub region: Rect,
}

/// Mathematical view of a [`Sprite`].
pub ghost struct SpriteV {
    pub spritesheet: int,
    pub region: RectV,
}

impl View for Sprite {
    type V = SpriteV;

    open spec fn view(&self) -> SpriteV {
        SpriteV { spritesheet: self.spritesheet as int, region: self.region@ }
    }
}

/// View of a sequence of sprites.
pub open spec fn sprites_view(s: Seq<Sprite>) -> Seq<SpriteV> {
    s.map_values(|sp: Sprite| sp@)
}

/// A walking animation: the current frame index, in `[0, 3)` for a
/// well-formed animation, and one ordered list of three frames per direction.
#[derive(Debug)]
pub struct MovementAnimation {
    pub current_frame: usize,
    pub up_frames: Vec<Sprite>,
    pub down_frames: Vec<Sprite>,
    pub left_frames: Vec<Sprite>,
    pub right_frames: Vec<Sprite>,
}

/// Mathematical view of a [`MovementAnimation`].
#[verifier::ext_equal]
pub ghost struct AnimationV {
    pub current_frame: int,
    pub up_frames: Seq<SpriteV>,
    pub down_frames: Seq<SpriteV>,
    pub left_frames: Seq<SpriteV>,
    pub right_frames: Seq<SpriteV>,
}

impl View for MovementAnimation {
    type V = AnimationV;

    open spec fn view(&self) -> AnimationV {
        AnimationV {
            current_frame: self.current_frame as int,
            up_frames: sprites_view(self.up_frames@),
            down_frames: sprites_view(self.down_frames@),
            left_frames: sprites_view(self.left_frames@),
            right_frames: sprites_view(self.right_frames@),
        }
    }
}

impl AnimationV {
    /// The frame list of this animation for the given facing.
    pub open spec fn frames_for(self, d: Direction) -> Seq<SpriteV> {
        match d {
            Direction::Up => self.up_frames,
            Direction::Down => self.down_frames,
            Direction::Left => self.left_frames,
            Direction::Right => self.right_frames,
        }
    }

    /// A well-formed animation keeps its frame index in `[0, 3)`.
    pub open spec fn wf(self) -> bool {
        0 <= self.current_frame < 3
    }
}

/// The view of an optional component value.
pub open spec fn opt_view<T: View>(o: Option<T>) -> Option<T::V> {
    match o {
        Some(v) => Some(v@),
        None => None,
    }
}

} // verus!
