//! Typed arenas and the stable handles that index them.
//!
//! Every entity of the circuit graph lives in an [`Arena`] and is referred to
//! by an [`Id`]. A deleted slot is never reused, so a handle stays stable for
//! the life of the arena: a lookup against a deleted entity returns `None`
//! rather than resolving to some unrelated later entity.

use vstd::prelude::*;

verus! {

/// A stable handle into an [`Arena`] of `T`.
///
/// The handle is just the slot index; the phantom parameter keeps handles of
/// different entity kinds from being mixed up.
pub struct Id<T> {
    pub id: usize,
    pub marker: core::marker::PhantomData<T>,
}

impl<T> Clone for Id<T> {
    fn clone(&self) -> (r: Self)
        ensures
            r == *self,
    {
        Id { id: self.id, marker: core::marker::PhantomData }
    }
}

impl<T> Copy for Id<T> {}

/// A growable store of `T` slots. Creation appends a fresh slot; deletion
/// empties the slot but keeps its index occupied, so older handles can never
/// alias a newer entity.
pub struct Arena<T> {
    slots: Vec<Option<T>>,
}

impl<T> View for Arena<T> {
    type V = Seq<Option<T>>;

    closed spec fn view(&self) -> Seq<Option<T>> {
        self.slots@
    }
}

impl<T> Arena<T> {
    /// Whether slot `i` currently holds a live entity.
    pub open spec fn live(&self, i: int) -> bool {
        0 <= i < self@.len() && self@[i] is Some
    }

    /// The entity in slot `i`, meaningful only while `live(i)`.
    pub open spec fn at(&self, i: int) -> T
        recommends
            self.live(i),
    {
        self@[i]->Some_0
    }

    pub fn new() -> (a: Arena<T>)
        ensures
            a@ =~= Seq::<Option<T>>::empty(),
    {
        Arena { slots: Vec::new() }
    }

    pub fn len(&self) -> (n: usize)
        ensures
            n == self@.len(),
    {
        self.slots.len()
    }

    /// How many of the first `k` slots hold a live entity.
    pub open spec fn live_count_to(s: Seq<Option<T>>, k: int) -> nat
        decreases k,
    {
        if k <= 0 {
            0
        } else {
            Self::live_count_to(s, k - 1) + if s[k - 1] is Some {
                1nat
            } else {
                0nat
            }
        }
    }

    /// How many entities are live in the whole arena.
    pub open spec fn spec_live_count(s: Seq<Option<T>>) -> nat {
        Self::live_count_to(s, s.len() as int)
    }

    /// Counts the live entities.
    #[verifier::loop_isolation(false)]
    pub fn live_count(&self) -> (r: usize)
        ensures
            r == Self::spec_live_count(self@),
    {
        let n = self.slots.len();
        let mut i: usize = 0;
        let mut count: usize = 0;
        while i < n
            invariant
                i <= n,
                count <= i,
                count == Self::live_count_to(self@, i as int),
            decreases n - i,
        {
            if self.slots[i].is_some() {
                count += 1;
            }
            i += 1;
        }
        count
    }

    /// Empties slot `h`; a handle to a missing slot is ignored. The arena
    /// keeps its length, so every other handle stays valid.
    pub fn remove(&mut self, h: Id<T>)
        ensures
            final(self)@.len() == old(self)@.len(),
            old(self).live(h.id as int) ==> final(self)@ =~= old(self)@.update(
                h.id as int,
                None,
            ),
            !old(self).live(h.id as int) ==> final(self)@ =~= old(self)@,
    {
        if h.id < self.slots.len() {
            if self.slots[h.id].is_some() {
                self.slots[h.id] = None;
            }
        }
        proof {
            if !old(self).live(h.id as int) {
                assert(final(self)@ =~= old(self)@);
            }
        }
    }
}

impl<T> Id<T> {
    /// The handle for slot `i`, for iteration inside the crate.
    pub(crate) fn at(i: usize) -> (r: Id<T>)
        ensures
            r.id == i,
    {
        Id { id: i, marker: core::marker::PhantomData }
    }

    /// Appends `value` to the arena in a fresh slot and hands back its handle.
    pub fn create(arena: &mut Arena<T>, value: T) -> (r: Id<T>)
        ensures
            final(arena)@ =~= old(arena)@.push(Some(value)),
            r.id == old(arena)@.len(),
    {
        let r = Id { id: arena.slots.len(), marker: core::marker::PhantomData };
        arena.slots.push(Some(value));
        r
    }

    /// Looks the handle up; `None` once the entity has been deleted (or if
    /// the handle belongs to another arena with fewer slots).
    pub fn get<'a>(self, arena: &'a Arena<T>) -> (r: Option<&'a T>)
        ensures
            arena.live(self.id as int) ==> (r matches Some(v) && *v == arena.at(self.id as int)),
            !arena.live(self.id as int) ==> r is None,
    {
        if self.id < arena.slots.len() {
            match &arena.slots[self.id] {
                Some(v) => Some(v),
                None => None,
            }
        } else {
            None
        }
    }

    /// Mutable lookup. The final arena differs from the old one exactly in
    /// this slot, which holds whatever the caller leaves behind the returned
    /// reference.
    pub fn get_mut<'a>(self, arena: &'a mut Arena<T>) -> (r: Option<&'a mut T>)
        ensures
            old(arena).live(self.id as int) ==> (r matches Some(v) && *v == old(arena).at(
                self.id as int,
            ) && final(arena)@ =~= old(arena)@.update(self.id as int, Some(*final(v)))),
            !old(arena).live(self.id as int) ==> (r is None && final(arena)@ =~= old(arena)@),
    {
        if self.id < arena.slots.len() {
            match &mut arena.slots[self.id] {
                Some(v) => Some(v),
                None => None,
            }
        } else {
            None
        }
    }

    /// Overwrites the entity behind the handle; a stale handle is ignored.
    pub fn set(self, arena: &mut Arena<T>, value: T)
        ensures
            old(arena).live(self.id as int) ==> final(arena)@ =~= old(arena)@.update(
                self.id as int,
                Some(value),
            ),
            !old(arena).live(self.id as int) ==> final(arena)@ =~= old(arena)@,
    {
        if self.id < arena.slots.len() {
            if self.resolves(arena) {
                arena.slots[self.id] = Some(value);
            }
        }
    }

    /// Whether the handle's slot currently holds an entity.
    fn resolves(self, arena: &Arena<T>) -> (r: bool)
        requires
            self.id < arena@.len(),
        ensures
            r == (arena@[self.id as int] is Some),
    {
        arena.slots[self.id].is_some()
    }
}

} // verus!
