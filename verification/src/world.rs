//! The world: one storage per component kind, entity lifecycle, and the
//! commit barrier.
//!
//! Entities are created against a command buffer: [`World::create_entity`]
//! hands out a fresh identifier and queues the entity's components, and only
//! [`World::commit`] makes queued creations and removals take effect. A
//! system running before the commit point therefore never observes a
//! partially built entity.

use vstd::prelude::*;

use crate::components::AnimationV;
use crate::components::MovementAnimation;
use crate::components::PointV;
use crate::components::Position;
use crate::components::Sprite;
use crate::components::SpriteV;
use crate::components::Velocity;
use crate::components::VelocityV;
use crate::components::opt_view;
use crate::storage::MarkerStorage;
use crate::storage::Storage;
use crate::storage::clear_at;
use crate::storage::mark_at;
use crate::storage::marked;
use crate::storage::store_at;
use crate::storage::stored;
use crate::storage::unmark_at;

verus! {

/// The components a new entity is built from, assembled in full before the
/// entity is queued. The player marker carries no data, so presence is a
/// plain flag.
pub struct ComponentSet {
    pub position: Option<Position>,
    pub velocity: Option<Velocity>,
    pub sprite: Option<Sprite>,
    pub animation: Option<MovementAnimation>,
    pub player: bool,
}

/// Mathematical view of a [`ComponentSet`].
#[verifier::ext_equal]
pub ghost struct ComponentSetV {
    pub position: Option<PointV>,
    pub velocity: Option<VelocityV>,
    pub sprite: Option<SpriteV>,
    pub animation: Option<AnimationV>,
    pub player: bool,
}

impl View for ComponentSet {
    type V = ComponentSetV;

    open spec fn view(&self) -> ComponentSetV {
        ComponentSetV {
            position: opt_view(self.position),
            velocity: opt_view(self.velocity),
            sprite: opt_view(self.sprite),
            animation: opt_view(self.animation),
            player: self.player,
        }
    }
}

impl ComponentSetV {
    /// A well-formed set carries a well-formed animation, if any.
    pub open spec fn wf(self) -> bool {
        match self.animation {
            Some(a) => a.wf(),
            None => true,
        }
    }
}

/// A queued entity creation: the identifier already handed out and the
/// components it will hold once committed.
pub struct Pending {
    pub id: usize,
    pub components: ComponentSet,
}

/// Mathematical view of a [`Pending`] creation.
#[verifier::ext_equal]
pub ghost struct PendingV {
    pub id: int,
    pub components: ComponentSetV,
}

impl View for Pending {
    type V = PendingV;

    open spec fn view(&self) -> PendingV {
        PendingV { id: self.id as int, components: self.components@ }
    }
}

/// Mathematical view of a [`World`].
#[verifier::ext_equal]
pub ghost struct WorldView {
    pub next_id: int,
    pub positions: Seq<Option<PointV>>,
    pub velocities: Seq<Option<VelocityV>>,
    pub sprites: Seq<Option<SpriteV>>,
    pub animations: Seq<Option<AnimationV>>,
    pub players: Seq<bool>,
    pub pending_creates: Seq<PendingV>,
    pub pending_destroys: Seq<int>,
}

impl WorldView {
    /// The queued creation at index `i` is consistent with the world: its
    /// identifier was handed out but has no slot in any storage yet, and its
    /// components are well-formed.
    pub open spec fn pending_ok(self, i: int) -> bool {
        let p = self.pending_creates[i];
        &&& 0 <= p.id < self.next_id
        &&& self.positions.len() <= p.id
        &&& self.velocities.len() <= p.id
        &&& self.sprites.len() <= p.id
        &&& self.animations.len() <= p.id
        &&& self.players.len() <= p.id
        &&& p.components.wf()
    }

    /// Every stored animation keeps its frame index in `[0, 3)`.
    pub open spec fn anims_wf(self) -> bool {
        forall|e: int|
            (#[trigger] stored(self.animations, e)) is Some ==> stored(
                self.animations,
                e,
            ).unwrap().wf()
    }

    /// Well-formedness of the world: storages only hold identifiers that
    /// were handed out, queued creations are fresh and ordered, queued
    /// removals name handed-out identifiers, and animations are well-formed.
    pub open spec fn wf(self) -> bool {
        &&& 0 <= self.next_id
        &&& self.positions.len() <= self.next_id
        &&& self.velocities.len() <= self.next_id
        &&& self.sprites.len() <= self.next_id
        &&& self.animations.len() <= self.next_id
        &&& self.players.len() <= self.next_id
        &&& forall|i: int| 0 <= i < self.pending_creates.len() ==> #[trigger] self.pending_ok(i)
        &&& forall|i: int, j: int|
            0 <= i < j < self.pending_creates.len() ==> self.pending_creates[i].id
                < self.pending_creates[j].id
        &&& forall|i: int|
            0 <= i < self.pending_destroys.len() ==> 0 <= #[trigger] self.pending_destroys[i]
                < self.next_id
        &&& self.anims_wf()
    }
}

/// The world after queueing a new entity with components `c`: a fresh
/// identifier is consumed and the creation joins the command buffer, while
/// every storage stays as it was.
pub open spec fn create_spec(w: WorldView, c: ComponentSetV) -> WorldView {
    WorldView {
        next_id: w.next_id + 1,
        pending_creates: w.pending_creates.push(PendingV { id: w.next_id, components: c }),
        ..w
    }
}

/// The world after queueing entity `e` for removal.
pub open spec fn destroy_spec(w: WorldView, e: int) -> WorldView {
    WorldView { pending_destroys: w.pending_destroys.push(e), ..w }
}

/// One queued creation taking effect: each present component is stored under
/// the queued identifier.
pub open spec fn apply_create(w: WorldView, p: PendingV) -> WorldView {
    WorldView {
        positions: match p.components.position {
            Some(v) => store_at(w.positions, p.id, v),
            None => w.positions,
        },
        velocities: match p.components.velocity {
            Some(v) => store_at(w.velocities, p.id, v),
            None => w.velocities,
        },
        sprites: match p.components.sprite {
            Some(v) => store_at(w.sprites, p.id, v),
            None => w.sprites,
        },
        animations: match p.components.animation {
            Some(v) => store_at(w.animations, p.id, v),
            None => w.animations,
        },
        players: if p.components.player {
            mark_at(w.players, p.id)
        } else {
            w.players
        },
        ..w
    }
}

/// One queued removal taking effect: entity `e` loses every component.
pub open spec fn apply_destroy(w: WorldView, e: int) -> WorldView {
    WorldView {
        positions: clear_at(w.positions, e),
        velocities: clear_at(w.velocities, e),
        sprites: clear_at(w.sprites, e),
        animations: clear_at(w.animations, e),
        players: unmark_at(w.players, e),
        ..w
    }
}

/// The queued creations `ps` taking effect in order.
pub open spec fn apply_creates(w: WorldView, ps: Seq<PendingV>) -> WorldView
    decreases ps.len(),
{
    if ps.len() == 0 {
        w
    } else {
        apply_create(apply_creates(w, ps.drop_last()), ps.last())
    }
}

/// The queued removals `es` taking effect in order.
pub open spec fn apply_destroys(w: WorldView, es: Seq<int>) -> WorldView
    decreases es.len(),
{
    if es.len() == 0 {
        w
    } else {
        apply_destroy(apply_destroys(w, es.drop_last()), es.last())
    }
}

/// The commit barrier: queued creations take effect in order, then queued
/// removals, and both command buffers drain.
pub open spec fn commit_spec(w: WorldView) -> WorldView {
    WorldView {
        pending_creates: Seq::empty(),
        pending_destroys: Seq::empty(),
        ..apply_destroys(apply_creates(w, w.pending_creates), w.pending_destroys)
    }
}

/// Whether entity `e` holds both a position and a sprite, the pair the
/// external renderer draws.
pub open spec fn renderable(w: WorldView, e: int) -> bool {
    stored(w.positions, e) is Some && stored(w.sprites, e) is Some
}

/// Owns one storage per component kind and the entity command buffers.
pub struct World {
    pub next_id: usize,
    pub positions: Storage<Position>,
    pub velocities: Storage<Velocity>,
    pub sprites: Storage<Sprite>,
    pub animations: Storage<MovementAnimation>,
    pub players: MarkerStorage,
    pub pending_creates: Vec<Pending>,
    pub pending_destroys: Vec<usize>,
}

impl View for World {
    type V = WorldView;

    open spec fn view(&self) -> WorldView {
        WorldView {
            next_id: self.next_id as int,
            positions: self.positions@,
            velocities: self.velocities@,
            sprites: self.sprites@,
            animations: self.animations@,
            players: self.players@,
            pending_creates: self.pending_creates@.map_values(|p: Pending| p@),
            pending_destroys: self.pending_destroys@.map_values(|e: usize| e as int),
        }
    }
}

impl World {
    /// An empty world: no entities, every storage registered and empty.
    pub fn new() -> (r: Self)
        ensures
            r@.next_id == 0,
            r@.positions == Seq::<Option<PointV>>::empty(),
            r@.velocities == Seq::<Option<VelocityV>>::empty(),
            r@.sprites == Seq::<Option<SpriteV>>::empty(),
            r@.animations == Seq::<Option<AnimationV>>::empty(),
            r@.players == Seq::<bool>::empty(),
            r@.pending_creates == Seq::<PendingV>::empty(),
            r@.pending_destroys == Seq::<int>::empty(),
            r@.wf(),
    {
        let r = World {
            next_id: 0,
            positions: Storage::new(),
            velocities: Storage::new(),
            sprites: Storage::new(),
            animations: Storage::new(),
            players: MarkerStorage::new(),
            pending_creates: Vec::new(),
            pending_destroys: Vec::new(),
        };
        proof {
            assert(r@.pending_creates =~= Seq::<PendingV>::empty());
            assert(r@.pending_destroys =~= Seq::<int>::empty());
        }
        r
    }

    /// Hands out a fresh identifier and queues an entity holding the given
    /// components; nothing becomes visible before the next commit.
    pub fn create_entity(&mut self, components: ComponentSet) -> (e: usize)
        requires
            old(self).next_id < usize::MAX,
        ensures
            e as int == old(self)@.next_id,
            final(self)@ == create_spec(old(self)@, components@),
            old(self)@.wf() && components@.wf() ==> final(self)@.wf(),
    {
        let ghost w0 = self@;
        let ghost cv = components@;
        let e = self.next_id;
        self.next_id = self.next_id + 1;
        self.pending_creates.push(Pending { id: e, components });
        proof {
            assert(self@.pending_creates =~= w0.pending_creates.push(
                PendingV { id: e as int, components: cv },
            ));
            assert(self@ =~= create_spec(w0, cv));
            if w0.wf() && cv.wf() {
                let w1 = self@;
                assert forall|i: int| 0 <= i < w1.pending_creates.len() implies #[trigger] w1
                    .pending_ok(i) by {
                    if i < w0.pending_creates.len() {
                        assert(w0.pending_ok(i));
                    }
                }
                assert forall|i: int, j: int|
                    0 <= i < j < w1.pending_creates.len() implies w1.pending_creates[i].id
                    < w1.pending_creates[j].id by {
                    if j == w1.pending_creates.len() - 1 {
                        assert(w0.pending_ok(i));
                    }
                }
                assert(w1.wf());
            }
        }
        e
    }

    /// Queues entity `e` for removal at the next commit.
    pub fn destroy_entity(&mut self, e: usize)
        requires
            (e as int) < old(self)@.next_id,
        ensures
            final(self)@ == destroy_spec(old(self)@, e as int),
            old(self)@.wf() ==> final(self)@.wf(),
    {
        let ghost w0 = self@;
        self.pending_destroys.push(e);
        proof {
            assert(self@.pending_destroys =~= w0.pending_destroys.push(e as int));
            assert(self@ =~= destroy_spec(w0, e as int));
            if w0.wf() {
                assert forall|i: int| 0 <= i < self@.pending_creates.len() implies #[trigger] self@
                    .pending_ok(i) by {
                    assert(w0.pending_ok(i));
                }
            }
        }
    }

    /// The commit barrier: makes every queued creation, then every queued
    /// removal, take effect, and drains both command buffers. This is the
    /// only point at which entity creation and destruction become visible.
    pub fn commit(&mut self)
        requires
            old(self)@.wf(),
        ensures
            final(self)@ == commit_spec(old(self)@),
            final(self)@.wf(),
    {
        let ghost w0 = self@;
        let ghost mut k: int = 0;
        proof {
            assert(w0.pending_creates.take(0) =~= Seq::<PendingV>::empty());
        }
        while self.pending_creates.len() > 0
            invariant
                w0.wf(),
                0 <= k <= w0.pending_creates.len(),
                self@.next_id == w0.next_id,
                self@.pending_destroys == w0.pending_destroys,
                self@.pending_creates == w0.pending_creates.skip(k),
                self@.positions == apply_creates(w0, w0.pending_creates.take(k)).positions,
                self@.velocities == apply_creates(w0, w0.pending_creates.take(k)).velocities,
                self@.sprites == apply_creates(w0, w0.pending_creates.take(k)).sprites,
                self@.animations == apply_creates(w0, w0.pending_creates.take(k)).animations,
                self@.players == apply_creates(w0, w0.pending_creates.take(k)).players,
            decreases self.pending_creates@.len(),
        {
            let ghost wk = apply_creates(w0, w0.pending_creates.take(k));
            let ghost pend_pre = self.pending_creates@;
            proof {
                assert(pend_pre.map_values(|q: Pending| q@) == w0.pending_creates.skip(k));
                assert(pend_pre.len() == w0.pending_creates.len() - k);
                assert(0 <= k < w0.pending_creates.len());
            }
            let p = self.pending_creates.remove(0);
            let ghost pv = p@;
            proof {
                assert(pend_pre.map_values(|q: Pending| q@)[0] == pv);
                assert(w0.pending_creates.skip(k)[0] == w0.pending_creates[k]);
                assert(pv == w0.pending_creates[k]);
                assert(w0.pending_ok(k));
                assert forall|i: int|
                    0 <= i < self.pending_creates@.len() implies self.pending_creates@.map_values(
                    |q: Pending| q@,
                )[i] == #[trigger] w0.pending_creates.skip(k + 1)[i] by {
                    assert(self.pending_creates@[i] == pend_pre[i + 1]);
                    assert(pend_pre.map_values(|q: Pending| q@)[i + 1] == pend_pre[i + 1]@);
                    assert(w0.pending_creates.skip(k)[i + 1] == w0.pending_creates[k + 1 + i]);
                    assert(w0.pending_creates.skip(k + 1)[i] == w0.pending_creates[k + 1 + i]);
                }
                assert(self.pending_creates@.map_values(|q: Pending| q@) =~= w0.pending_creates
                    .skip(k + 1));
            }
            let Pending { id, components } = p;
            let ComponentSet { position, velocity, sprite, animation, player } = components;
            if let Some(v) = position {
                self.positions.insert(id, v);
            }
            if let Some(v) = velocity {
                self.velocities.insert(id, v);
            }
            if let Some(v) = sprite {
                self.sprites.insert(id, v);
            }
            if let Some(v) = animation {
                self.animations.insert(id, v);
            }
            if player {
                self.players.insert(id);
            }
            proof {
                let tk1 = w0.pending_creates.take(k + 1);
                assert(tk1.drop_last() =~= w0.pending_creates.take(k));
                assert(tk1.last() == w0.pending_creates[k]);
                assert(apply_creates(w0, tk1) == apply_create(wk, pv));
                k = k + 1;
            }
        }
        proof {
            assert(k == w0.pending_creates.len());
            assert(w0.pending_creates.take(k) =~= w0.pending_creates);
            assert(self@.pending_creates =~= Seq::<PendingV>::empty());
            assert(w0.pending_destroys.take(0) =~= Seq::<int>::empty());
        }
        let ghost w1 = apply_creates(w0, w0.pending_creates);
        let mut j: usize = 0;
        while j < self.pending_destroys.len()
            invariant
                w0.wf(),
                j <= w0.pending_destroys.len(),
                self@.next_id == w0.next_id,
                self@.pending_destroys == w0.pending_destroys,
                self@.pending_creates == Seq::<PendingV>::empty(),
                w1 == apply_creates(w0, w0.pending_creates),
                self@.positions == apply_destroys(w1, w0.pending_destroys.take(j as int)).positions,
                self@.velocities == apply_destroys(
                    w1,
                    w0.pending_destroys.take(j as int),
                ).velocities,
                self@.sprites == apply_destroys(w1, w0.pending_destroys.take(j as int)).sprites,
                self@.animations == apply_destroys(
                    w1,
                    w0.pending_destroys.take(j as int),
                ).animations,
                self@.players == apply_destroys(w1, w0.pending_destroys.take(j as int)).players,
            decreases w0.pending_destroys.len() - j,
        {
            let ghost wj = apply_destroys(w1, w0.pending_destroys.take(j as int));
            let e = self.pending_destroys[j];
            proof {
                assert(e as int == w0.pending_destroys[j as int]);
            }
            self.positions.remove(e);
            self.velocities.remove(e);
            self.sprites.remove(e);
            self.animations.remove(e);
            self.players.remove(e);
            proof {
                let tj1 = w0.pending_destroys.take(j + 1);
                assert(tj1.drop_last() =~= w0.pending_destroys.take(j as int));
                assert(tj1.last() == w0.pending_destroys[j as int]);
                assert(apply_destroys(w1, tj1) == apply_destroy(wj, e as int));
            }
            j = j + 1;
        }
        proof {
            assert(w0.pending_destroys.take(w0.pending_destroys.len() as int)
                =~= w0.pending_destroys);
        }
        self.pending_destroys.clear();
        proof {
            assert(self@.pending_destroys =~= Seq::<int>::empty());
            assert forall|i: int|
                0 <= i < w0.pending_creates.len() implies 0 <= (#[trigger] w0.pending_creates[i]).id
                < w0.next_id && w0.pending_creates[i].components.wf() by {
                assert(w0.pending_ok(i));
            }
            lemma_apply_creates_facts(w0, w0.pending_creates, w0.next_id);
            lemma_apply_creates_anims(w0, w0.pending_creates);
            lemma_apply_destroys_facts(w1, w0.pending_destroys);
            assert(self@ =~= commit_spec(w0));
            assert(self@.wf());
        }
    }

    /// Reads entity `e`'s position, if it holds one.
    pub fn get_position(&self, e: usize) -> (r: Option<Position>)
        ensures
            opt_view(r) == stored(self@.positions, e as int),
    {
        self.positions.get(e)
    }

    /// Reads entity `e`'s sprite, if it holds one.
    pub fn get_sprite(&self, e: usize) -> (r: Option<Sprite>)
        ensures
            opt_view(r) == stored(self@.sprites, e as int),
    {
        self.sprites.get(e)
    }

    /// The renderer's read pass: every entity holding both a position and a
    /// sprite, with copies of the two components, in ascending entity order.
    pub fn positions_and_sprites(&self) -> (r: Vec<(usize, Position, Sprite)>)
        ensures
            forall|i: int|
                0 <= i < r@.len() ==> stored(self@.positions, (#[trigger] r@[i]).0 as int)
                    == Some(r@[i].1@) && stored(self@.sprites, r@[i].0 as int) == Some(r@[i].2@),
            forall|i: int, j: int| 0 <= i < j < r@.len() ==> r@[i].0 < r@[j].0,
            forall|e: int|
                0 <= e && #[trigger] renderable(self@, e) ==> exists|i: int|
                    0 <= i < r@.len() && (#[trigger] r@[i]).0 == e,
    {
        let mut r: Vec<(usize, Position, Sprite)> = Vec::new();
        let mut e: usize = 0;
        while e < self.positions.len()
            invariant
                e <= self@.positions.len(),
                forall|i: int|
                    0 <= i < r@.len() ==> stored(self@.positions, (#[trigger] r@[i]).0 as int)
                        == Some(r@[i].1@) && stored(self@.sprites, r@[i].0 as int) == Some(
                        r@[i].2@,
                    ),
                forall|i: int| 0 <= i < r@.len() ==> (#[trigger] r@[i]).0 < e,
                forall|i: int, j: int| 0 <= i < j < r@.len() ==> r@[i].0 < r@[j].0,
                forall|ee: int|
                    0 <= ee < e && #[trigger] renderable(self@, ee) ==> exists|i: int|
                        0 <= i < r@.len() && (#[trigger] r@[i]).0 == ee,
            decreases self@.positions.len() - e,
        {
            let pos = self.positions.get(e);
            let spr = self.sprites.get(e);
            let ghost r_old = r@;
            match (pos, spr) {
                (Some(p), Some(s)) => {
                    r.push((e, p, s));
                    proof {
                        assert forall|ee: int|
                            0 <= ee < e + 1 && #[trigger] renderable(self@, ee) implies exists|
                            i: int,
                        |
                            0 <= i < r@.len() && (#[trigger] r@[i]).0 == ee by {
                            if ee == e {
                                assert(r@[r@.len() - 1].0 == ee);
                            } else {
                                let i = choose|i: int|
                                    0 <= i < r_old.len() && (#[trigger] r_old[i]).0 == ee;
                                assert(r@[i].0 == ee);
                            }
                        }
                    }
                },
                _ => {
                    proof {
                        assert(!renderable(self@, e as int));
                        assert forall|ee: int|
                            0 <= ee < e + 1 && #[trigger] renderable(self@, ee) implies exists|
                            i: int,
                        |
                            0 <= i < r@.len() && (#[trigger] r@[i]).0 == ee by {
                            let i = choose|i: int|
                                0 <= i < r_old.len() && (#[trigger] r_old[i]).0 == ee;
                            assert(r@[i].0 == ee);
                        }
                    }
                },
            }
            e = e + 1;
        }
        r
    }
}

/// What each slot holds after a store: the stored value under `e`, every
/// other slot as before.
proof fn lemma_stored_store_at<T>(s: Seq<Option<T>>, e: int, v: T, i: int)
    requires
        0 <= e,
    ensures
        stored(store_at(s, e, v), i) == (if i == e {
            Some(v)
        } else {
            stored(s, i)
        }),
{
    if e >= s.len() {
        let t = (s + Seq::new((e - s.len()) as nat, |x: int| None::<T>)).push(Some(v));
        assert(t.len() == e + 1);
        if i == e {
            assert(t[e] == Some(v));
        } else if 0 <= i < s.len() {
            assert(t[i] == s[i]);
        } else if s.len() <= i < e {
            assert(t[i] is None);
        }
    }
}

/// What each slot holds after a marker insert: present under `e`, every
/// other slot as before.
proof fn lemma_marked_mark_at(s: Seq<bool>, e: int, i: int)
    requires
        0 <= e,
    ensures
        marked(mark_at(s, e), i) == (if i == e {
            true
        } else {
            marked(s, i)
        }),
{
    if e >= s.len() {
        let t = (s + Seq::new((e - s.len()) as nat, |x: int| false)).push(true);
        assert(t.len() == e + 1);
        if i == e {
            assert(t[e]);
        } else if 0 <= i < s.len() {
            assert(t[i] == s[i]);
        } else if s.len() <= i < e {
            assert(!t[i]);
        }
    }
}

/// Applying queued creations below a bound keeps every storage length below
/// that bound and touches neither the identifier counter nor the buffers.
proof fn lemma_apply_creates_facts(w: WorldView, ps: Seq<PendingV>, bound: int)
    requires
        w.positions.len() <= bound,
        w.velocities.len() <= bound,
        w.sprites.len() <= bound,
        w.animations.len() <= bound,
        w.players.len() <= bound,
        forall|i: int| 0 <= i < ps.len() ==> 0 <= (#[trigger] ps[i]).id < bound,
    ensures
        apply_creates(w, ps).next_id == w.next_id,
        apply_creates(w, ps).pending_creates == w.pending_creates,
        apply_creates(w, ps).pending_destroys == w.pending_destroys,
        apply_creates(w, ps).positions.len() <= bound,
        apply_creates(w, ps).velocities.len() <= bound,
        apply_creates(w, ps).sprites.len() <= bound,
        apply_creates(w, ps).animations.len() <= bound,
        apply_creates(w, ps).players.len() <= bound,
    decreases ps.len(),
{
    if ps.len() > 0 {
        lemma_apply_creates_facts(w, ps.drop_last(), bound);
        assert(0 <= ps[ps.len() - 1].id < bound);
    }
}

/// Applying queued creations with well-formed animations keeps every stored
/// animation well-formed.
proof fn lemma_apply_creates_anims(w: WorldView, ps: Seq<PendingV>)
    requires
        w.anims_wf(),
        forall|i: int|
            0 <= i < ps.len() ==> 0 <= (#[trigger] ps[i]).id && ps[i].components.wf(),
    ensures
        apply_creates(w, ps).anims_wf(),
    decreases ps.len(),
{
    if ps.len() > 0 {
        lemma_apply_creates_anims(w, ps.drop_last());
        let wp = apply_creates(w, ps.drop_last());
        let p = ps.last();
        assert(0 <= ps[ps.len() - 1].id && ps[ps.len() - 1].components.wf());
        match p.components.animation {
            Some(a) => {
                assert forall|e: int|
                    (#[trigger] stored(apply_creates(w, ps).animations, e)) is Some implies stored(
                    apply_creates(w, ps).animations,
                    e,
                ).unwrap().wf() by {
                    lemma_stored_store_at(wp.animations, p.id, a, e);
                }
            },
            None => {},
        }
    }
}

/// Applying queued removals keeps every storage length, keeps stored
/// animations well-formed, and touches neither the identifier counter nor
/// the buffers.
proof fn lemma_apply_destroys_facts(w: WorldView, es: Seq<int>)
    ensures
        apply_destroys(w, es).next_id == w.next_id,
        apply_destroys(w, es).pending_creates == w.pending_creates,
        apply_destroys(w, es).pending_destroys == w.pending_destroys,
        apply_destroys(w, es).positions.len() == w.positions.len(),
        apply_destroys(w, es).velocities.len() == w.velocities.len(),
        apply_destroys(w, es).sprites.len() == w.sprites.len(),
        apply_destroys(w, es).animations.len() == w.animations.len(),
        apply_destroys(w, es).players.len() == w.players.len(),
        w.anims_wf() ==> apply_destroys(w, es).anims_wf(),
    decreases es.len(),
{
    if es.len() > 0 {
        lemma_apply_destroys_facts(w, es.drop_last());
        if w.anims_wf() {
            let wp = apply_destroys(w, es.drop_last());
            let r = apply_destroys(w, es);
            assert forall|i: int| (#[trigger] stored(r.animations, i)) is Some implies stored(
                r.animations,
                i,
            ).unwrap().wf() by {
                assert(stored(r.animations, i) == stored(wp.animations, i));
            }
        }
    }
}

/// Queued creations under other identifiers leave an entity's components
/// untouched.
proof fn lemma_apply_creates_other(w: WorldView, ps: Seq<PendingV>, e: int)
    requires
        forall|i: int| 0 <= i < ps.len() ==> 0 <= (#[trigger] ps[i]).id && ps[i].id != e,
    ensures
        stored(apply_creates(w, ps).positions, e) == stored(w.positions, e),
        stored(apply_creates(w, ps).velocities, e) == stored(w.velocities, e),
        stored(apply_creates(w, ps).sprites, e) == stored(w.sprites, e),
        stored(apply_creates(w, ps).animations, e) == stored(w.animations, e),
        marked(apply_creates(w, ps).players, e) == marked(w.players, e),
    decreases ps.len(),
{
    if ps.len() > 0 {
        lemma_apply_creates_other(w, ps.drop_last(), e);
        let wp = apply_creates(w, ps.drop_last());
        let p = ps.last();
        assert(0 <= ps[ps.len() - 1].id && ps[ps.len() - 1].id != e);
        match p.components.position {
            Some(v) => lemma_stored_store_at(wp.positions, p.id, v, e),
            None => {},
        }
        match p.components.velocity {
            Some(v) => lemma_stored_store_at(wp.velocities, p.id, v, e),
            None => {},
        }
        match p.components.sprite {
            Some(v) => lemma_stored_store_at(wp.sprites, p.id, v, e),
            None => {},
        }
        match p.components.animation {
            Some(v) => lemma_stored_store_at(wp.animations, p.id, v, e),
            None => {},
        }
        if p.components.player {
            lemma_marked_mark_at(wp.players, p.id, e);
        }
    }
}

/// Queued removals of other identifiers leave an entity's components
/// untouched.
proof fn lemma_apply_destroys_other(w: WorldView, es: Seq<int>, e: int)
    requires
        forall|i: int| 0 <= i < es.len() ==> (#[trigger] es[i]) != e,
    ensures
        stored(apply_destroys(w, es).positions, e) == stored(w.positions, e),
        stored(apply_destroys(w, es).velocities, e) == stored(w.velocities, e),
        stored(apply_destroys(w, es).sprites, e) == stored(w.sprites, e),
        stored(apply_destroys(w, es).animations, e) == stored(w.animations, e),
        marked(apply_destroys(w, es).players, e) == marked(w.players, e),
    decreases es.len(),
{
    if es.len() > 0 {
        lemma_apply_destroys_other(w, es.drop_last(), e);
        assert(es[es.len() - 1] != e);
    }
}

/// The commit barrier, as a law: queueing an entity changes no storage, so
/// a join performed later in the same frame cannot see it; after the next
/// commit the entity holds exactly the queued components.
pub proof fn lemma_commit_barrier(w: WorldView, c: ComponentSetV)
    requires
        w.wf(),
    ensures
        create_spec(w, c).positions == w.positions,
        create_spec(w, c).velocities == w.velocities,
        create_spec(w, c).sprites == w.sprites,
        create_spec(w, c).animations == w.animations,
        create_spec(w, c).players == w.players,
        stored(commit_spec(create_spec(w, c)).positions, w.next_id) == c.position,
        stored(commit_spec(create_spec(w, c)).velocities, w.next_id) == c.velocity,
        stored(commit_spec(create_spec(w, c)).sprites, w.next_id) == c.sprite,
        stored(commit_spec(create_spec(w, c)).animations, w.next_id) == c.animation,
        marked(commit_spec(create_spec(w, c)).players, w.next_id) == c.player,
{
    let id = w.next_id;
    let w1 = create_spec(w, c);
    let pnew = PendingV { id, components: c };
    assert(w1.pending_creates.drop_last() =~= w.pending_creates);
    assert(w1.pending_creates.last() == pnew);
    let a = apply_creates(w1, w.pending_creates);
    assert(apply_creates(w1, w1.pending_creates) == apply_create(a, pnew));
    assert forall|i: int|
        0 <= i < w.pending_creates.len() implies 0 <= (#[trigger] w.pending_creates[i]).id
        < w.next_id by {
        assert(w.pending_ok(i));
    }
    lemma_apply_creates_facts(w1, w.pending_creates, id);
    let b = apply_create(a, pnew);
    assert(stored(b.positions, id) == c.position) by {
        match c.position {
            Some(v) => lemma_stored_store_at(a.positions, id, v, id),
            None => {},
        }
    }
    assert(stored(b.velocities, id) == c.velocity) by {
        match c.velocity {
            Some(v) => lemma_stored_store_at(a.velocities, id, v, id),
            None => {},
        }
    }
    assert(stored(b.sprites, id) == c.sprite) by {
        match c.sprite {
            Some(v) => lemma_stored_store_at(a.sprites, id, v, id),
            None => {},
        }
    }
    assert(stored(b.animations, id) == c.animation) by {
        match c.animation {
            Some(v) => lemma_stored_store_at(a.animations, id, v, id),
            None => {},
        }
    }
    assert(marked(b.players, id) == c.player) by {
        if c.player {
            lemma_marked_mark_at(a.players, id, id);
        }
    }
    lemma_apply_destroys_other(b, w1.pending_destroys, id);
}

} // verus!
