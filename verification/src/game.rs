//! The game state and the per-frame orchestrator.
//!
//! A frame queries the input resolver for the effective direction, writes it
//! into every player-marked velocity, runs the movement system, runs the
//! animation system, and commits pending entity mutations — in that order,
//! so the frame's contract is the exact composition of the four steps.

use vstd::prelude::*;

use crate::PLAYER_MOVEMENT_SPEED;
use crate::components::MovementAnimation;
use crate::components::Point;
use crate::components::PointV;
use crate::components::Position;
use crate::components::Rect;
use crate::components::RectV;
use crate::components::Sprite;
use crate::components::SpriteV;
use crate::components::Velocity;
use crate::components::VelocityV;
use crate::components::AnimationV;
use crate::components::sprites_view;
use crate::direction::Direction;
use crate::input::InputHandler;
use crate::input::effective_spec;
use crate::input::h_delta;
use crate::input::press_spec;
use crate::input::release_spec;
use crate::input::v_delta;
use crate::storage::marked;
use crate::storage::stored;
use crate::systems::animation_system;
use crate::systems::lemma_step_animation_wf;
use crate::systems::lemma_step_movement_wf;
use crate::systems::movement_fits;
use crate::systems::movement_system;
use crate::systems::step_animation;
use crate::systems::step_movement;
use crate::world::ComponentSet;
use crate::world::ComponentSetV;
use crate::world::World;
use crate::world::WorldView;
use crate::world::commit_spec;
use crate::world::create_spec;

verus! {

/// What the per-frame velocity write leaves in entity `e`'s velocity slot:
/// a player-marked entity takes the effective direction at the fixed
/// movement speed, or stops where there is none, keeping its last facing;
/// every other entity keeps its velocity.
pub open spec fn velocity_target(w: WorldView, eff: Option<Direction>, e: int) -> Option<
    VelocityV,
> {
    match stored(w.velocities, e) {
        Some(v) => if marked(w.players, e) {
            match eff {
                Some(d) => Some(VelocityV { speed: PLAYER_MOVEMENT_SPEED as int, direction: d }),
                None => Some(VelocityV { speed: 0, direction: v.direction }),
            }
        } else {
            Some(v)
        },
        None => None,
    }
}

/// The world after the frame's velocity write; nothing else changes.
pub open spec fn step_velocity(w: WorldView, eff: Option<Direction>) -> WorldView {
    WorldView {
        velocities: Seq::new(w.velocities.len(), |e: int| velocity_target(w, eff, e)),
        ..w
    }
}

/// The velocity write preserves the world's well-formedness.
pub proof fn lemma_step_velocity_wf(w: WorldView, eff: Option<Direction>)
    requires
        w.wf(),
    ensures
        step_velocity(w, eff).wf(),
{
    let r = step_velocity(w, eff);
    assert forall|i: int| 0 <= i < r.pending_creates.len() implies #[trigger] r.pending_ok(i) by {
        assert(w.pending_ok(i));
    }
    assert forall|e: int| (#[trigger] stored(r.animations, e)) is Some implies stored(
        r.animations,
        e,
    ).unwrap().wf() by {
        assert(stored(w.animations, e) == stored(r.animations, e));
    }
}

/// Writes the effective direction into every player-marked velocity: the
/// fixed movement speed towards `eff`, or a stop that keeps the last facing.
fn apply_player_velocity(world: &mut World, eff: Option<Direction>)
    ensures
        final(world)@ == step_velocity(old(world)@, eff),
{
    let ghost w0 = world@;
    let end = world.velocities.len();
    let mut e: usize = 0;
    while e < end
        invariant
            e <= end,
            end == w0.velocities.len(),
            world@.next_id == w0.next_id,
            world@.positions == w0.positions,
            world@.sprites == w0.sprites,
            world@.animations == w0.animations,
            world@.players == w0.players,
            world@.pending_creates == w0.pending_creates,
            world@.pending_destroys == w0.pending_destroys,
            world@.velocities.len() == w0.velocities.len(),
            forall|i: int| 0 <= i < e ==> world@.velocities[i] == velocity_target(w0, eff, i),
            forall|i: int|
                e <= i < w0.velocities.len() ==> world@.velocities[i] == w0.velocities[i],
        decreases end - e,
    {
        if world.players.contains(e) {
            if let Some(v) = world.velocities.get(e) {
                let nv = match eff {
                    Some(d) => Velocity { speed: PLAYER_MOVEMENT_SPEED, direction: d },
                    None => Velocity { speed: 0, direction: v.direction },
                };
                proof {
                    assert(stored(w0.velocities, e as int) == Some(v@));
                    assert(Some(nv@) == velocity_target(w0, eff, e as int));
                }
                world.velocities.insert(e, nv);
                proof {
                    assert(world@.velocities[e as int] == velocity_target(w0, eff, e as int));
                }
            }
        }
        e = e + 1;
    }
    proof {
        assert(world@.velocities =~= step_velocity(w0, eff).velocities);
        assert(world@ =~= step_velocity(w0, eff));
    }
}

/// Which row of the character spritesheet holds a facing's frames.
pub open spec fn direction_row(direction: Direction) -> int {
    match direction {
        Direction::Up => 3,
        Direction::Down => 0,
        Direction::Left => 1,
        Direction::Right => 2,
    }
}

/// Returns the row of the spritesheet corresponding to the given direction.
pub fn direction_spritesheet_row(direction: Direction) -> (r: i32)
    ensures
        r as int == direction_row(direction),
{
    match direction {
        Direction::Up => 3,
        Direction::Down => 0,
        Direction::Left => 1,
        Direction::Right => 2,
    }
}

/// The three walking frames a facing shows: one row of the spritesheet,
/// split into three frame-sized regions from left to right.
pub open spec fn frames_spec(spritesheet: int, top_left: RectV, direction: Direction) -> Seq<
    SpriteV,
> {
    let y = top_left.y + top_left.height * direction_row(direction);
    seq![
        SpriteV {
            spritesheet,
            region: RectV { x: top_left.x, y, width: top_left.width, height: top_left.height },
        },
        SpriteV {
            spritesheet,
            region: RectV {
                x: top_left.x + top_left.width,
                y,
                width: top_left.width,
                height: top_left.height,
            },
        },
        SpriteV {
            spritesheet,
            region: RectV {
                x: top_left.x + 2 * top_left.width,
                y,
                width: top_left.width,
                height: top_left.height,
            },
        },
    ]
}

/// Create animation frames for the standard character spritesheet.
pub fn character_animation_frames(spritesheet: usize, top_left_frame: Rect, direction: Direction)
    -> (r: Vec<Sprite>)
    requires
        top_left_frame.width <= i32::MAX as u32,
        top_left_frame.height <= i32::MAX as u32,
        top_left_frame.y + 3 * top_left_frame.height <= i32::MAX,
        top_left_frame.x + 2 * top_left_frame.width <= i32::MAX,
    ensures
        sprites_view(r@) == frames_spec(spritesheet as int, top_left_frame@, direction),
{
    let fw = top_left_frame.width as i32;
    let fh = top_left_frame.height as i32;
    let y_offset = match direction {
        Direction::Up => top_left_frame.y + fh + fh + fh,
        Direction::Down => top_left_frame.y,
        Direction::Left => top_left_frame.y + fh,
        Direction::Right => top_left_frame.y + fh + fh,
    };
    let mut frames: Vec<Sprite> = Vec::new();
    frames.push(
        Sprite {
            spritesheet,
            region: Rect::new(
                top_left_frame.x,
                y_offset,
                top_left_frame.width,
                top_left_frame.height,
            ),
        },
    );
    frames.push(
        Sprite {
            spritesheet,
            region: Rect::new(
                top_left_frame.x + fw,
                y_offset,
                top_left_frame.width,
                top_left_frame.height,
            ),
        },
    );
    frames.push(
        Sprite {
            spritesheet,
            region: Rect::new(
                top_left_frame.x + fw + fw,
                y_offset,
                top_left_frame.width,
                top_left_frame.height,
            ),
        },
    );
    proof {
        assert(sprites_view(frames@) =~= frames_spec(
            spritesheet as int,
            top_left_frame@,
            direction,
        ));
    }
    frames
}

/// The top-left frame of the character spritesheet the player is built
/// from.
pub open spec fn player_start_rect() -> RectV {
    RectV { x: 0, y: 0, width: 26, height: 36 }
}

/// The components the player entity is built with: the origin position,
/// a stopped velocity facing right, the first right-facing frame as the
/// visible sprite, the full walking animation, and the player marker.
pub open spec fn player_components() -> ComponentSetV {
    ComponentSetV {
        position: Some(PointV { x: 0, y: 0 }),
        velocity: Some(VelocityV { speed: 0, direction: Direction::Right }),
        sprite: Some(frames_spec(0, player_start_rect(), Direction::Right)[0]),
        animation: Some(
            AnimationV {
                current_frame: 0,
                up_frames: frames_spec(0, player_start_rect(), Direction::Up),
                down_frames: frames_spec(0, player_start_rect(), Direction::Down),
                left_frames: frames_spec(0, player_start_rect(), Direction::Left),
                right_frames: frames_spec(0, player_start_rect(), Direction::Right),
            },
        ),
        player: true,
    }
}

/// The game: the world of component storages and the input resolver.
pub struct Game {
    pub world: World,
    pub input_handler: InputHandler,
}

impl Game {
    /// A fresh game: an empty world with every storage registered, and an
    /// input resolver with nothing pressed.
    pub fn new() -> (r: Self)
        ensures
            r.world@.next_id == 0,
            r.world@.positions == Seq::<Option<PointV>>::empty(),
            r.world@.velocities == Seq::<Option<VelocityV>>::empty(),
            r.world@.sprites == Seq::<Option<SpriteV>>::empty(),
            r.world@.animations == Seq::<Option<AnimationV>>::empty(),
            r.world@.players == Seq::<bool>::empty(),
            r.world@.pending_creates == Seq::<crate::world::PendingV>::empty(),
            r.world@.pending_destroys == Seq::<int>::empty(),
            r.world@.wf(),
            r.input_handler@.stack == Seq::<Direction>::empty(),
            r.input_handler@.horizontal == 0,
            r.input_handler@.vertical == 0,
            r.input_handler@.wf(),
    {
        Game { world: World::new(), input_handler: InputHandler::new() }
    }

    /// One-time setup: builds the player entity with its five components
    /// and commits it, so the first frame's systems already see it.
    pub fn create_player(&mut self) -> (e: usize)
        requires
            old(self).world@.wf(),
            old(self).world.next_id < usize::MAX,
        ensures
            e as int == old(self).world@.next_id,
            final(self).input_handler == old(self).input_handler,
            final(self).world@ == commit_spec(create_spec(old(self).world@, player_components())),
            final(self).world@.wf(),
    {
        let player_spritesheet: usize = 0;
        let player_top_left_frame = Rect::new(0, 0, 26, 36);

        let player_animation = MovementAnimation {
            current_frame: 0,
            up_frames: character_animation_frames(
                player_spritesheet,
                player_top_left_frame,
                Direction::Up,
            ),
            down_frames: character_animation_frames(
                player_spritesheet,
                player_top_left_frame,
                Direction::Down,
            ),
            left_frames: character_animation_frames(
                player_spritesheet,
                player_top_left_frame,
                Direction::Left,
            ),
            right_frames: character_animation_frames(
                player_spritesheet,
                player_top_left_frame,
                Direction::Right,
            ),
        };
        proof {
            assert(frames_spec(0, player_start_rect(), Direction::Right).len() == 3);
            assert(sprites_view(player_animation.right_frames@).len()
                == player_animation.right_frames@.len());
            assert(player_animation.right_frames@.len() == 3);
        }
        let first_sprite = player_animation.right_frames[0];
        proof {
            assert(sprites_view(player_animation.right_frames@)[0]
                == player_animation.right_frames@[0]@);
        }
        let components = ComponentSet {
            position: Some(Position(Point::new(0, 0))),
            velocity: Some(Velocity { speed: 0, direction: Direction::Right }),
            sprite: Some(first_sprite),
            animation: Some(player_animation),
            player: true,
        };
        proof {
            assert(player_top_left_frame@ == player_start_rect());
            assert(first_sprite@ == frames_spec(0, player_start_rect(), Direction::Right)[0]);
            assert(components@ =~= player_components());
        }
        let e = self.world.create_entity(components);
        self.world.commit();
        e
    }

    /// Feeds one logical key transition into the input resolver; the world
    /// is untouched. The caller suppresses key repeat, so a held key sends
    /// one press and one release.
    pub fn handle_input(&mut self, direction: Direction, pressed: bool)
        requires
            pressed ==> i32::MIN <= old(self).input_handler@.horizontal + h_delta(direction)
                <= i32::MAX && i32::MIN <= old(self).input_handler@.vertical + v_delta(direction)
                <= i32::MAX,
            !pressed ==> i32::MIN <= old(self).input_handler@.horizontal - h_delta(direction)
                <= i32::MAX && i32::MIN <= old(self).input_handler@.vertical - v_delta(direction)
                <= i32::MAX,
        ensures
            final(self).world == old(self).world,
            final(self).input_handler@ == (if pressed {
                press_spec(old(self).input_handler@, direction)
            } else {
                release_spec(old(self).input_handler@, direction)
            }),
            old(self).input_handler@.wf() ==> final(self).input_handler@.wf(),
    {
        if pressed {
            self.input_handler.press_key(direction);
        } else {
            self.input_handler.release_key(direction);
        }
    }

    /// Advances one frame: resolves the effective direction, writes it into
    /// every player-marked velocity, runs movement, runs animation, and
    /// commits pending entity mutations — in that order.
    pub fn update(&mut self)
        requires
            old(self).world@.wf(),
            movement_fits(
                step_velocity(
                    old(self).world@,
                    effective_spec(old(self).input_handler@),
                ),
            ),
        ensures
            final(self).input_handler == old(self).input_handler,
            final(self).world@ == commit_spec(
                step_animation(
                    step_movement(
                        step_velocity(
                            old(self).world@,
                            effective_spec(old(self).input_handler@),
                        ),
                    ),
                ),
            ),
            final(self).world@.wf(),
    {
        let ghost w0 = self.world@;
        let ghost eff = effective_spec(self.input_handler@);
        let effective_direction = self.input_handler.get_effective_direction();
        apply_player_velocity(&mut self.world, effective_direction);
        proof {
            lemma_step_velocity_wf(w0, eff);
        }
        movement_system(&mut self.world);
        proof {
            lemma_step_movement_wf(step_velocity(w0, eff));
        }
        animation_system(&mut self.world);
        proof {
            lemma_step_animation_wf(step_movement(step_velocity(w0, eff)));
        }
        self.world.commit();
    }
}

} // verus!
