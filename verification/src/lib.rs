//! A verified entity-component-system game core.
//!
//! The library owns the simulation state of a small 2D game: typed component
//! storages, a world with a commit barrier for entity creation and removal, a
//! keyboard-to-direction resolver that arbitrates overlapping key presses, and
//! the movement and animation systems that run over the joined component sets
//! once per frame. Windowing, texture loading and event polling stay outside;
//! an external renderer reads positions and sprites through the world's
//! read-only accessors after each frame's commit.

use vstd::prelude::*;

pub mod age;
pub mod components;
pub mod direction;
pub mod game;
pub mod input;
pub mod screen;
pub mod storage;
pub mod systems;
pub mod world;

verus! {

/// Distance, in world units, that a controlled entity covers in one
/// simulation step while a direction key is effective.
pub const PLAYER_MOVEMENT_SPEED: i32 = 20;

} // verus!
