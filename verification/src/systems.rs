//! The movement and animation systems: pure transformations over joined
//! component sets, run once per frame.
//!
//! Each system's effect is pinned down by a spec-level transformer over the
//! world view, so the frame loop's contract can name the exact world that
//! results from a frame. Systems run strictly sequentially and each takes
//! the world by exclusive borrow, so no two ever hold conflicting access to
//! one storage.

use vstd::prelude::*;

use crate::components::AnimationV;
use crate::components::Point;
use crate::components::PointV;
use crate::components::Position;
use crate::components::Sprite;
use crate::components::SpriteV;
use crate::direction::Direction;
use crate::storage::stored;
use crate::world::World;
use crate::world::WorldView;

verus! {

/// What the movement system leaves in entity `e`'s position slot: an entity
/// joined over position and velocity advances by its direction's unit
/// offset scaled by its speed, once per invocation; an entity with zero
/// speed, or one missing either component, keeps its position.
pub open spec fn movement_target(w: WorldView, e: int) -> Option<PointV> {
    match stored(w.velocities, e) {
        Some(v) => match stored(w.positions, e) {
            Some(p) => if v.speed > 0 {
                Some(
                    PointV {
                        x: p.x + v.direction.offset().0 * v.speed,
                        y: p.y + v.direction.offset().1 * v.speed,
                    },
                )
            } else {
                Some(p)
            },
            None => None,
        },
        None => stored(w.positions, e),
    }
}

/// The world after one movement step: every position slot holds its
/// movement target; nothing else changes.
pub open spec fn step_movement(w: WorldView) -> WorldView {
    WorldView { positions: Seq::new(w.positions.len(), |e: int| movement_target(w, e)), ..w }
}

/// Every movement target fits the machine's coordinate type.
pub open spec fn movement_fits(w: WorldView) -> bool {
    forall|e: int|
        0 <= e < w.positions.len() ==> match #[trigger] movement_target(w, e) {
            Some(p) => i32::MIN <= p.x <= i32::MAX && i32::MIN <= p.y <= i32::MAX,
            None => true,
        }
}

/// Runs the movement system over the whole world: advances every entity
/// holding both a position and a velocity with positive speed, and leaves
/// every other entity untouched.
pub fn movement_system(world: &mut World)
    requires
        movement_fits(old(world)@),
    ensures
        final(world)@ == step_movement(old(world)@),
{
    let ghost w0 = world@;
    let end = world.positions.len();
    let mut e: usize = 0;
    while e < end
        invariant
            movement_fits(w0),
            e <= end,
            end == w0.positions.len(),
            world@.next_id == w0.next_id,
            world@.velocities == w0.velocities,
            world@.sprites == w0.sprites,
            world@.animations == w0.animations,
            world@.players == w0.players,
            world@.pending_creates == w0.pending_creates,
            world@.pending_destroys == w0.pending_destroys,
            world@.positions.len() == w0.positions.len(),
            forall|i: int| 0 <= i < e ==> world@.positions[i] == movement_target(w0, i),
            forall|i: int| e <= i < w0.positions.len() ==> world@.positions[i] == w0.positions[i],
        decreases end - e,
    {
        if let Some(v) = world.velocities.get(e) {
            if v.speed > 0 {
                if let Some(p) = world.positions.get(e) {
                    proof {
                        assert(stored(w0.positions, e as int) == Some(p@));
                        assert(stored(w0.velocities, e as int) == Some(v@));
                        assert(movement_target(w0, e as int) is Some);
                    }
                    let sp = v.speed;
                    let np: Point = match v.direction {
                        Direction::Left => Point::new(p.0.x - sp, p.0.y),
                        Direction::Right => Point::new(p.0.x + sp, p.0.y),
                        Direction::Up => Point::new(p.0.x, p.0.y - sp),
                        Direction::Down => Point::new(p.0.x, p.0.y + sp),
                    };
                    proof {
                        match v.direction {
                            Direction::Left => assert(np@ == (PointV {
                                x: p@.x + (-1) * v@.speed,
                                y: p@.y,
                            })),
                            Direction::Right => assert(np@ == (PointV {
                                x: p@.x + 1 * v@.speed,
                                y: p@.y,
                            })),
                            Direction::Up => assert(np@ == (PointV {
                                x: p@.x,
                                y: p@.y + (-1) * v@.speed,
                            })),
                            Direction::Down => assert(np@ == (PointV {
                                x: p@.x,
                                y: p@.y + 1 * v@.speed,
                            })),
                        }
                        assert(Some(np@) == movement_target(w0, e as int));
                    }
                    world.positions.insert(e, Position(np));
                    proof {
                        assert(world@.positions[e as int] == movement_target(w0, e as int));
                    }
                }
            }
        }
        e = e + 1;
    }
    proof {
        assert(world@.positions =~= step_movement(w0).positions);
        assert(world@ =~= step_movement(w0));
    }
}

/// Whether entity `e` holds a sprite, an animation and a velocity — the
/// join the animation system runs over.
pub open spec fn animation_joined(w: WorldView, e: int) -> bool {
    stored(w.sprites, e) is Some && stored(w.animations, e) is Some && stored(w.velocities, e)
        is Some
}

/// The frame index entity `e`'s animation shows after one animation step:
/// advanced cyclically while the entity moves, frozen while it stands.
pub open spec fn animation_new_frame(w: WorldView, e: int) -> int
    recommends
        animation_joined(w, e),
{
    let a = stored(w.animations, e).unwrap();
    let v = stored(w.velocities, e).unwrap();
    if v.speed > 0 {
        (a.current_frame + 1) % 3
    } else {
        a.current_frame
    }
}

/// What the animation system leaves in entity `e`'s animation slot.
pub open spec fn animation_target_anim(w: WorldView, e: int) -> Option<AnimationV> {
    if animation_joined(w, e) {
        let a = stored(w.animations, e).unwrap();
        Some(AnimationV { current_frame: animation_new_frame(w, e), ..a })
    } else {
        stored(w.animations, e)
    }
}

/// What the animation system leaves in entity `e`'s sprite slot: the frame
/// of the facing's list selected by the stepped frame index, or the old
/// sprite if the (malformed) list has no such entry.
pub open spec fn animation_target_sprite(w: WorldView, e: int) -> Option<SpriteV> {
    if animation_joined(w, e) {
        let a = stored(w.animations, e).unwrap();
        let v = stored(w.velocities, e).unwrap();
        let frames = a.frames_for(v.direction);
        let f = animation_new_frame(w, e);
        if 0 <= f < frames.len() {
            Some(frames[f])
        } else {
            stored(w.sprites, e)
        }
    } else {
        stored(w.sprites, e)
    }
}

/// The world after one animation step: every sprite and animation slot
/// holds its target; nothing else changes.
pub open spec fn step_animation(w: WorldView) -> WorldView {
    WorldView {
        sprites: Seq::new(w.sprites.len(), |e: int| animation_target_sprite(w, e)),
        animations: Seq::new(w.animations.len(), |e: int| animation_target_anim(w, e)),
        ..w
    }
}

/// Runs the animation system over the whole world: for every entity holding
/// a sprite, an animation and a velocity, advances the frame index while
/// the entity moves and re-selects the sprite from the facing's frame list.
pub fn animation_system(world: &mut World)
    requires
        old(world)@.anims_wf(),
    ensures
        final(world)@ == step_animation(old(world)@),
{
    let ghost w0 = world@;
    let end = world.sprites.len();
    let mut e: usize = 0;
    while e < end
        invariant
            w0.anims_wf(),
            e <= end,
            end == w0.sprites.len(),
            world@.next_id == w0.next_id,
            world@.positions == w0.positions,
            world@.velocities == w0.velocities,
            world@.players == w0.players,
            world@.pending_creates == w0.pending_creates,
            world@.pending_destroys == w0.pending_destroys,
            world@.sprites.len() == w0.sprites.len(),
            world@.animations.len() == w0.animations.len(),
            forall|i: int| 0 <= i < e ==> world@.sprites[i] == animation_target_sprite(w0, i),
            forall|i: int| e <= i < w0.sprites.len() ==> world@.sprites[i] == w0.sprites[i],
            forall|i: int|
                0 <= i < e && i < w0.animations.len() ==> world@.animations[i]
                    == animation_target_anim(w0, i),
            forall|i: int|
                e <= i < w0.animations.len() ==> world@.animations[i] == w0.animations[i],
        decreases end - e,
    {
        if let Some(v) = world.velocities.get(e) {
            if world.sprites.contains(e) {
                if let Some(mut anim) = world.animations.take(e) {
                    proof {
                        assert(stored(w0.animations, e as int) == Some(anim@));
                        assert(stored(w0.velocities, e as int) == Some(v@));
                        assert(animation_joined(w0, e as int));
                        assert(stored(w0.animations, e as int).unwrap().wf());
                    }
                    if v.speed > 0 {
                        anim.current_frame = (anim.current_frame + 1) % 3;
                    }
                    proof {
                        assert(anim@.current_frame == animation_new_frame(w0, e as int));
                    }
                    let fr = anim.current_frame;
                    let frames: &Vec<Sprite> = match v.direction {
                        Direction::Up => &anim.up_frames,
                        Direction::Down => &anim.down_frames,
                        Direction::Left => &anim.left_frames,
                        Direction::Right => &anim.right_frames,
                    };
                    let new_sprite: Option<Sprite> = if fr < frames.len() {
                        Some(frames[fr])
                    } else {
                        None
                    };
                    world.animations.insert(e, anim);
                    proof {
                        assert(Some(anim@) == animation_target_anim(w0, e as int));
                        assert(world@.animations[e as int] == animation_target_anim(w0, e as int));
                    }
                    if let Some(s) = new_sprite {
                        world.sprites.insert(e, s);
                        proof {
                            assert(Some(s@) == animation_target_sprite(w0, e as int));
                            assert(world@.sprites[e as int] == animation_target_sprite(
                                w0,
                                e as int,
                            ));
                        }
                    } else {
                        proof {
                            assert(world@.sprites[e as int] == animation_target_sprite(
                                w0,
                                e as int,
                            ));
                        }
                    }
                }
            }
        }
        e = e + 1;
    }
    proof {
        assert forall|i: int|
            0 <= i < w0.animations.len() implies world@.animations[i] == animation_target_anim(
            w0,
            i,
        ) by {
            if i >= end {
                assert(stored(w0.sprites, i) is None);
                assert(!animation_joined(w0, i));
            }
        }
        assert(world@.sprites =~= step_animation(w0).sprites);
        assert(world@.animations =~= step_animation(w0).animations);
        assert(world@ =~= step_animation(w0));
    }
}

/// A movement step preserves the world's well-formedness.
pub proof fn lemma_step_movement_wf(w: WorldView)
    requires
        w.wf(),
    ensures
        step_movement(w).wf(),
{
    let r = step_movement(w);
    assert forall|i: int| 0 <= i < r.pending_creates.len() implies #[trigger] r.pending_ok(i) by {
        assert(w.pending_ok(i));
    }
    assert forall|e: int| (#[trigger] stored(r.animations, e)) is Some implies stored(
        r.animations,
        e,
    ).unwrap().wf() by {
        assert(stored(w.animations, e) == stored(r.animations, e));
    }
}

/// An animation step preserves the world's well-formedness: a stepped frame
/// index stays in `[0, 3)`.
pub proof fn lemma_step_animation_wf(w: WorldView)
    requires
        w.wf(),
    ensures
        step_animation(w).wf(),
{
    let r = step_animation(w);
    assert forall|i: int| 0 <= i < r.pending_creates.len() implies #[trigger] r.pending_ok(i) by {
        assert(w.pending_ok(i));
    }
    assert forall|e: int| (#[trigger] stored(r.animations, e)) is Some implies stored(
        r.animations,
        e,
    ).unwrap().wf() by {
        assert(0 <= e < w.animations.len());
        if animation_joined(w, e) {
            assert(stored(w.animations, e).unwrap().wf());
        } else {
            assert(stored(r.animations, e) == stored(w.animations, e));
        }
    }
}

/// Movement's zero-speed invariant, as a law: an entity whose velocity is
/// absent or has zero speed keeps its position, bit for bit, through a
/// movement step.
pub proof fn lemma_movement_zero_speed(w: WorldView, e: int)
    requires
        match stored(w.velocities, e) {
            Some(v) => v.speed == 0,
            None => true,
        },
    ensures
        stored(step_movement(w).positions, e) == stored(w.positions, e),
{
}

/// The animation freeze, as a law: an entity standing still keeps its frame
/// index through an animation step, so repeated steps leave it unchanged.
pub proof fn lemma_animation_freeze(w: WorldView, e: int)
    requires
        animation_joined(w, e),
        stored(w.velocities, e).unwrap().speed == 0,
    ensures
        animation_target_anim(w, e).unwrap().current_frame == stored(
            w.animations,
            e,
        ).unwrap().current_frame,
        stored(step_animation(w).animations, e) == animation_target_anim(w, e),
{
    assert(0 <= e < w.animations.len());
}

/// The animation cycle, as a law: a moving entity's frame index advances by
/// one modulo three each step, so three steps return it to where it began.
pub proof fn lemma_animation_cycle(w: WorldView, e: int)
    requires
        animation_joined(w, e),
        stored(w.velocities, e).unwrap().speed > 0,
        0 <= stored(w.animations, e).unwrap().current_frame < 3,
    ensures
        animation_target_anim(w, e).unwrap().current_frame == (stored(
            w.animations,
            e,
        ).unwrap().current_frame + 1) % 3,
        stored(
            step_animation(step_animation(step_animation(w))).animations,
            e,
        ).unwrap().current_frame == stored(w.animations, e).unwrap().current_frame,
{
    let f = stored(w.animations, e).unwrap().current_frame;
    let w1 = step_animation(w);
    assert(0 <= e < w.animations.len());
    assert(stored(w1.animations, e) == animation_target_anim(w, e));
    assert(stored(w1.sprites, e) == animation_target_sprite(w, e));
    assert(stored(w1.sprites, e) is Some);
    assert(stored(w1.velocities, e) == stored(w.velocities, e));
    assert(animation_joined(w1, e));
    let w2 = step_animation(w1);
    assert(stored(w2.animations, e) == animation_target_anim(w1, e));
    assert(stored(w2.sprites, e) == animation_target_sprite(w1, e));
    assert(stored(w2.sprites, e) is Some);
    assert(stored(w2.velocities, e) == stored(w.velocities, e));
    assert(animation_joined(w2, e));
    let w3 = step_animation(w2);
    assert(stored(w3.animations, e) == animation_target_anim(w2, e));
}

} // verus!
