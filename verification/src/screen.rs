//! Geometry for the external renderer's draw pass.

use vstd::prelude::*;

use crate::components::Point;
use crate::components::Rect;

verus! {

/// The screen-space rectangle in which a sprite is drawn: the window's
/// center stands for the world origin, and the sprite's region is centered
/// on the entity's translated position.
pub fn screen_rect(position: Point, region: Rect, output_width: u32, output_height: u32) -> (r:
    Rect)
    requires
        position.x + output_width / 2 <= i32::MAX,
        position.y + output_height / 2 <= i32::MAX,
        i32::MIN <= position.x + output_width / 2 - region.width / 2,
        i32::MIN <= position.y + output_height / 2 - region.height / 2,
    ensures
        r.x == position.x + output_width / 2 - region.width / 2,
        r.y == position.y + output_height / 2 - region.height / 2,
        r.width == region.width,
        r.height == region.height,
{
    let cx = position.x + (output_width / 2) as i32;
    let cy = position.y + (output_height / 2) as i32;
    Rect::new(cx - (region.width / 2) as i32, cy - (region.height / 2) as i32, region.width,
        region.height)
}

} // verus!
