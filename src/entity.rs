//! A generic, id-keyed collection of actors of one kind. Ids are handed out in
//! increasing order and never reused, so an id held elsewhere is a weak
//! reference: once its actor is retired, lookups treat it as finished.
use crate::geom::Point;
use vstd::prelude::*;

verus! {

/// What the manager needs of an actor.
pub trait Entity: Sized {
    /// The actor is done and may be retired.
    spec fn finished(&self) -> bool;

    /// The actor's own invariant.
    spec fn inv(&self) -> bool;

    fn is_finished(&self) -> (r: bool)
        ensures
            r == self.finished(),
    ;

    /// The actor after `set_pos(pos)`.
    spec fn placed(self, pos: Point) -> Self;

    /// Moves the actor, for those that follow an owner; never changes whether it is finished.
    fn set_pos(&mut self, pos: Point)
        requires
            old(self).inv(),
            pos.bounded(),
        ensures
            *final(self) == old(self).placed(pos),
            final(self).inv(),
            final(self).finished() == old(self).finished(),
    ;
}

/// An actor and its id.
pub struct Slot<T> {
    pub id: usize,
    pub entity: T,
}

pub struct EntityManager<T> {
    /// Live actors in the order they were inserted.
    pub slots: Vec<Slot<T>>,
    /// The id handed out last; zero names no actor.
    pub last_id: usize,
}

pub open spec fn unfinished<T: Entity>() -> spec_fn(Slot<T>) -> bool {
    |s: Slot<T>| !s.entity.finished()
}

impl<T: Entity> EntityManager<T> {
    /// Ids increase along the slots, and none is zero or above the last one handed out.
    pub open spec fn wf(&self) -> bool {
        &&& forall|i: int, j: int|
            0 <= i < j < self.slots@.len() ==> self.slots@[i].id < self.slots@[j].id
        &&& forall|i: int|
            0 <= i < self.slots@.len() ==> 1 <= #[trigger] self.slots@[i].id <= self.last_id
    }

    /// Every actor satisfies its invariant.
    pub open spec fn entities_ok(&self) -> bool {
        forall|i: int| 0 <= i < self.slots@.len() ==> (#[trigger] self.slots@[i]).entity.inv()
    }

    /// Whether `id` names a live actor.
    pub open spec fn has(&self, id: usize) -> bool {
        exists|i: int| 0 <= i < self.slots@.len() && #[trigger] self.slots@[i].id == id
    }

    /// What `is_finished(id)` answers: a missing id counts as finished.
    pub open spec fn finished_id(&self, id: usize) -> bool {
        forall|i: int|
            0 <= i < self.slots@.len() && #[trigger] self.slots@[i].id == id
                ==> self.slots@[i].entity.finished()
    }

    pub fn new() -> (r: Self)
        ensures
            r.wf(),
            r.entities_ok(),
            r.slots@.len() == 0,
            r.last_id == 0,
    {
        EntityManager { slots: Vec::new(), last_id: 0 }
    }

    pub fn len(&self) -> (r: usize)
        ensures
            r == self.slots@.len(),
    {
        self.slots.len()
    }

    /// Adds an actor under a fresh id, the next after the last one handed out.
    pub fn insert(&mut self, entity: T) -> (id: usize)
        requires
            old(self).wf(),
            old(self).last_id < usize::MAX,
        ensures
            final(self).wf(),
            old(self).entities_ok() && entity.inv() ==> final(self).entities_ok(),
            id == old(self).last_id + 1,
            final(self).last_id == id,
            final(self).slots@ == old(self).slots@.push(Slot { id, entity }),
    {
        self.last_id = self.last_id + 1;
        let id = self.last_id;
        self.slots.push(Slot { id, entity });
        id
    }

    /// The oldest live actor, if any.
    pub fn head(&self) -> (r: Option<&T>)
        ensures
            self.slots@.len() == 0 ==> r.is_none(),
            self.slots@.len() > 0 ==> r == Some(&self.slots@[0].entity),
    {
        if self.slots.len() == 0 {
            None
        } else {
            Some(&self.slots[0].entity)
        }
    }

    fn find(&self, id: usize) -> (r: Option<usize>)
        requires
            self.wf(),
        ensures
            r.is_none() ==> !self.has(id),
            r.is_some() ==> r.unwrap() < self.slots@.len() && self.slots@[r.unwrap() as int].id
                == id,
    {
        let mut i: usize = 0;
        while i < self.slots.len()
            invariant
                i <= self.slots@.len(),
                forall|j: int| 0 <= j < i ==> #[trigger] self.slots@[j].id != id,
            decreases self.slots@.len() - i,
        {
            if self.slots[i].id == id {
                return Some(i);
            }
            i = i + 1;
        }
        None
    }

    /// Whether the actor `id` is finished; a retired or unknown id is.
    pub fn is_finished(&self, id: usize) -> (r: bool)
        requires
            self.wf(),
        ensures
            r == self.finished_id(id),
    {
        match self.find(id) {
            Some(i) => {
                let r = self.slots[i].entity.is_finished();
                proof {
                    if r {
                        assert forall|j: int|
                            0 <= j < self.slots@.len() && #[trigger] self.slots@[j].id == id
                                implies self.slots@[j].entity.finished() by {
                            if j < i {
                                assert(self.slots@[j].id < self.slots@[i as int].id);
                            } else if j > i {
                                assert(self.slots@[i as int].id < self.slots@[j].id);
                            }
                        }
                    } else {
                        assert(self.slots@[i as int].id == id);
                    }
                }
                r
            },
            None => true,
        }
    }

    /// Moves the actor `id`; a retired or unknown id is left alone.
    pub fn set_pos(&mut self, id: usize, pos: Point)
        requires
            old(self).wf(),
            old(self).entities_ok(),
            pos.bounded(),
        ensures
            final(self).wf(),
            final(self).entities_ok(),
            final(self).last_id == old(self).last_id,
            final(self).slots@.len() == old(self).slots@.len(),
            forall|i: int|
                0 <= i < old(self).slots@.len() ==> #[trigger] final(self).slots@[i].id
                    == old(self).slots@[i].id,
            forall|i: int|
                0 <= i < old(self).slots@.len() ==> #[trigger] final(self).slots@[i].entity.finished()
                    == old(self).slots@[i].entity.finished(),
            forall|i: int|
                0 <= i < old(self).slots@.len() && old(self).slots@[i].id != id
                    ==> #[trigger] final(self).slots@[i] == old(self).slots@[i],
            forall|i: int|
                0 <= i < old(self).slots@.len() && old(self).slots@[i].id == id
                    ==> #[trigger] final(self).slots@[i] == (Slot {
                    id,
                    entity: old(self).slots@[i].entity.placed(pos),
                }),
            !old(self).has(id) ==> final(self).slots@ == old(self).slots@,
    {
        match self.find(id) {
            Some(i) => {
                self.slots[i].entity.set_pos(pos);
            },
            None => {},
        }
    }

    /// Drops every finished actor, keeping the others in order; true when none is left.
    pub fn retire_finished(&mut self) -> (empty: bool)
        requires
            old(self).wf(),
        ensures
            final(self).wf(),
            old(self).entities_ok() ==> final(self).entities_ok(),
            final(self).last_id == old(self).last_id,
            final(self).slots@ == old(self).slots@.filter(unfinished()),
            empty == (final(self).slots@.len() == 0),
    {
        let ghost old_slots = self.slots@;
        let mut rest: Vec<Slot<T>> = Vec::new();
        core::mem::swap(&mut self.slots, &mut rest);
        let n = rest.len();
        let mut k: usize = 0;
        while rest.len() > 0
            invariant
                n == old_slots.len(),
                k + rest@.len() == n,
                rest@ == old_slots.subrange(k as int, n as int),
                self.slots@ == old_slots.subrange(0, k as int).filter(unfinished()),
                self.last_id == old(self).last_id,
                forall|i: int, j: int|
                    0 <= i < j < old_slots.len() ==> old_slots[i].id < old_slots[j].id,
                forall|i: int| 0 <= i < old_slots.len() ==> 1 <= #[trigger] old_slots[i].id <= self.last_id,
                forall|i: int|
                    0 <= i < self.slots@.len() ==> exists|j: int|
                        0 <= j < k && old_slots[j].id == #[trigger] self.slots@[i].id,
                forall|i: int, j: int|
                    0 <= i < j < self.slots@.len() ==> self.slots@[i].id < self.slots@[j].id,
            decreases rest@.len(),
        {
            let slot = rest.remove(0);
            let ghost before = self.slots@;
            proof {
                assert(old_slots.subrange(0, k + 1) =~= old_slots.subrange(0, k as int).push(slot));
                old_slots.subrange(0, k as int).lemma_filter_push(slot, unfinished());
            }
            if !slot.entity.is_finished() {
                proof {
                    assert forall|i: int| 0 <= i < before.len() implies before[i].id < slot.id by {
                        let j = choose|j: int| 0 <= j < k && old_slots[j].id == #[trigger] before[i].id;
                        assert(old_slots[j].id < old_slots[k as int].id);
                    }
                }
                self.slots.push(slot);
                proof {
                    assert(self.slots@[self.slots@.len() - 1].id == old_slots[k as int].id);
                    assert forall|i: int| 0 <= i < self.slots@.len() implies exists|j: int|
                        0 <= j < k + 1 && old_slots[j].id == #[trigger] self.slots@[i].id by {
                        if i == self.slots@.len() - 1 {
                            assert(old_slots[k as int].id == self.slots@[i].id);
                        } else {
                            assert(self.slots@[i] == before[i]);
                        }
                    }
                }
            }
            proof {
                assert(rest@ =~= old_slots.subrange(k + 1, n as int));
            }
            k = k + 1;
        }
        proof {
            assert(old_slots.subrange(0, n as int) =~= old_slots);
            assert forall|i: int| 0 <= i < self.slots@.len() implies 1 <= #[trigger] self.slots@[i].id <= self.last_id by {
                let j = choose|j: int| 0 <= j < k && old_slots[j].id == #[trigger] self.slots@[i].id;
            }
            if old(self).entities_ok() {
                assert forall|i: int| 0 <= i < self.slots@.len() implies (#[trigger] self.slots@[i]).entity.inv() by {
                    old_slots.lemma_filter_contains_rev(unfinished(), self.slots@[i]);
                    let j = choose|j: int| 0 <= j < old_slots.len() && old_slots[j] == self.slots@[i];
                }
            }
        }
        self.slots.len() == 0
    }
}

} // verus!
