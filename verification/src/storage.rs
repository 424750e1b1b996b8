//! Typed per-entity component containers.
//!
//! A [`Storage`] maps entity identifiers to optional component values: slot
//! `e` of the backing vector holds entity `e`'s value, a removed or never
//! inserted component is an empty slot, and every identifier beyond the
//! vector's length is absent as well. A [`MarkerStorage`] records presence
//! only, for components that carry no data.

use vstd::prelude::*;

use crate::components::opt_view;

verus! {

/// The component of entity `e` in the storage view `s`: slots beyond the
/// length are absent.
pub open spec fn stored<T>(s: Seq<Option<T>>, e: int) -> Option<T> {
    if 0 <= e < s.len() {
        s[e]
    } else {
        None
    }
}

/// The storage view `s` after inserting value `v` for entity `e`, growing
/// the slot vector with empty slots as needed.
pub open spec fn store_at<T>(s: Seq<Option<T>>, e: int, v: T) -> Seq<Option<T>>
    recommends
        0 <= e,
{
    if e < s.len() {
        s.update(e, Some(v))
    } else {
        (s + Seq::new((e - s.len()) as nat, |i: int| None::<T>)).push(Some(v))
    }
}

/// The storage view `s` after removing entity `e`'s component, if any.
pub open spec fn clear_at<T>(s: Seq<Option<T>>, e: int) -> Seq<Option<T>> {
    if 0 <= e < s.len() {
        s.update(e, None)
    } else {
        s
    }
}

/// Whether entity `e` is present in the marker view `s`.
pub open spec fn marked(s: Seq<bool>, e: int) -> bool {
    0 <= e < s.len() && s[e]
}

/// The marker view `s` with entity `e` present, grown as needed.
pub open spec fn mark_at(s: Seq<bool>, e: int) -> Seq<bool>
    recommends
        0 <= e,
{
    if e < s.len() {
        s.update(e, true)
    } else {
        (s + Seq::new((e - s.len()) as nat, |i: int| false)).push(true)
    }
}

/// The marker view `s` with entity `e` absent.
pub open spec fn unmark_at(s: Seq<bool>, e: int) -> Seq<bool> {
    if 0 <= e < s.len() {
        s.update(e, false)
    } else {
        s
    }
}

/// A typed container holding one optional component value per entity.
pub struct Storage<T> {
    pub slots: Vec<Option<T>>,
}

impl<T: View> View for Storage<T> {
    type V = Seq<Option<T::V>>;

    open spec fn view(&self) -> Seq<Option<T::V>> {
        self.slots@.map_values(
            |o: Option<T>|
                match o {
                    Some(v) => Some(v@),
                    None => None,
                },
        )
    }
}

impl<T: View> Storage<T> {
    /// An empty storage: every entity is absent.
    pub fn new() -> (r: Self)
        ensures
            r@ == Seq::<Option<T::V>>::empty(),
    {
        let r = Storage { slots: Vec::new() };
        proof {
            assert(r@ =~= Seq::<Option<T::V>>::empty());
        }
        r
    }

    /// Number of slots; every entity at this identifier or beyond is absent.
    pub fn len(&self) -> (r: usize)
        ensures
            r == self@.len(),
    {
        self.slots.len()
    }

    /// Whether entity `e` currently holds a component.
    pub fn contains(&self, e: usize) -> (r: bool)
        ensures
            r == (stored(self@, e as int) is Some),
    {
        e < self.slots.len() && self.slots[e].is_some()
    }

    /// Inserts value `v` for entity `e`, replacing any earlier value.
    pub fn insert(&mut self, e: usize, v: T)
        requires
            e < usize::MAX,
        ensures
            final(self)@ == store_at(old(self)@, e as int, v@),
    {
        let ghost s0 = self@;
        if e < self.slots.len() {
            self.slots.set(e, Some(v));
            proof {
                assert(self@ =~= store_at(s0, e as int, v@));
            }
        } else {
            let ghost sl0 = self.slots@;
            while self.slots.len() < e
                invariant
                    self.slots@.len() <= e < usize::MAX,
                    sl0.len() <= self.slots@.len(),
                    forall|i: int| 0 <= i < sl0.len() ==> self.slots@[i] == sl0[i],
                    forall|i: int| sl0.len() <= i < self.slots@.len() ==> self.slots@[i] is None,
                decreases e - self.slots@.len(),
            {
                self.slots.push(None);
            }
            self.slots.push(Some(v));
            proof {
                assert(self@ =~= store_at(s0, e as int, v@));
            }
        }
    }

    /// Removes entity `e`'s component; absent entities are left absent.
    pub fn remove(&mut self, e: usize)
        ensures
            final(self)@ == clear_at(old(self)@, e as int),
    {
        let ghost s0 = self@;
        if e < self.slots.len() {
            self.slots.set(e, None);
        }
        proof {
            assert(self@ =~= clear_at(s0, e as int));
        }
    }

    /// Removes and returns entity `e`'s component.
    pub fn take(&mut self, e: usize) -> (r: Option<T>)
        ensures
            final(self)@ == clear_at(old(self)@, e as int),
            opt_view(r) == stored(old(self)@, e as int),
    {
        let ghost s0 = self@;
        if e < self.slots.len() {
            let slot = self.slots.remove(e);
            self.slots.insert(e, None);
            proof {
                assert(self.slots@ =~= old(self).slots@.update(e as int, None));
                assert(self@ =~= clear_at(s0, e as int));
            }
            slot
        } else {
            proof {
                assert(self@ =~= clear_at(s0, e as int));
            }
            None
        }
    }
}

impl<T: View + Copy> Storage<T> {
    /// Reads entity `e`'s component, if any.
    pub fn get(&self, e: usize) -> (r: Option<T>)
        ensures
            opt_view(r) == stored(self@, e as int),
    {
        if e < self.slots.len() {
            self.slots[e]
        } else {
            None
        }
    }
}

/// A presence-only container: the set of entities that carry a marker
/// component, stored as one flag per entity identifier.
pub struct MarkerStorage {
    pub flags: Vec<bool>,
}

impl View for MarkerStorage {
    type V = Seq<bool>;

    open spec fn view(&self) -> Seq<bool> {
        self.flags@
    }
}

impl MarkerStorage {
    /// An empty marker set.
    pub fn new() -> (r: Self)
        ensures
            r@ == Seq::<bool>::empty(),
    {
        let r = MarkerStorage { flags: Vec::new() };
        proof {
            assert(r@ =~= Seq::<bool>::empty());
        }
        r
    }

    /// Number of slots; every entity at this identifier or beyond is absent.
    pub fn len(&self) -> (r: usize)
        ensures
            r == self@.len(),
    {
        self.flags.len()
    }

    /// Whether entity `e` carries the marker.
    pub fn contains(&self, e: usize) -> (r: bool)
        ensures
            r == marked(self@, e as int),
    {
        e < self.flags.len() && self.flags[e]
    }

    /// Adds entity `e` to the set.
    pub fn insert(&mut self, e: usize)
        requires
            e < usize::MAX,
        ensures
            final(self)@ == mark_at(old(self)@, e as int),
    {
        let ghost s0 = self@;
        if e < self.flags.len() {
            self.flags.set(e, true);
            proof {
                assert(self@ =~= mark_at(s0, e as int));
            }
        } else {
            while self.flags.len() < e
                invariant
                    self.flags@.len() <= e < usize::MAX,
                    s0.len() <= self.flags@.len(),
                    forall|i: int| 0 <= i < s0.len() ==> self.flags@[i] == s0[i],
                    forall|i: int| s0.len() <= i < self.flags@.len() ==> !self.flags@[i],
                decreases e - self.flags@.len(),
            {
                self.flags.push(false);
            }
            self.flags.push(true);
            proof {
                assert(self@ =~= mark_at(s0, e as int));
            }
        }
    }

    /// Removes entity `e` from the set.
    pub fn remove(&mut self, e: usize)
        ensures
            final(self)@ == unmark_at(old(self)@, e as int),
    {
        let ghost s0 = self@;
        if e < self.flags.len() {
            self.flags.set(e, false);
        }
        proof {
            assert(self@ =~= unmark_at(s0, e as int));
        }
    }
}

} // verus!
