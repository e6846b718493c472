//! The store of entities and the questions the rules ask of it.
use crate::entity::{Entity, EntityId, Role, Tag};
use crate::model::{
    contains_id, count_tag, distinct_ids, has_tag, ids_with, ids_with_all, introduced,
    is_first_with, lemma_distinct_push, lemma_distinct_remove, lemma_distinct_update,
    lemma_slot_unique, lookup, oldest_with, outside_scene, slot_of, with_kill_wall,
    with_party_zone, with_role, without,
};
use vstd::prelude::*;

verus! {

/// All entities that the rules know of. Its view is the sequence of
/// [`crate::model`]; no identifier occurs in it twice.
pub struct World<P> {
    entities: Vec<Entity<P>>,
}

impl<P> View for World<P> {
    type V = Seq<Entity<P>>;

    closed spec fn view(&self) -> Seq<Entity<P>> {
        self.entities@
    }
}

impl<P: Copy> World<P> {
    /// What every world satisfies: identifiers are distinct.
    pub open spec fn wf(&self) -> bool {
        distinct_ids(self@)
    }

    /// A world without entities.
    pub fn new() -> (w: World<P>)
        ensures
            w.wf(),
            w@ == Seq::<Entity<P>>::empty(),
    {
        World { entities: Vec::new() }
    }

    /// The number of entities.
    pub fn len(&self) -> (n: usize)
        ensures
            n == self@.len(),
    {
        self.entities.len()
    }

    /// The place of the entity with this identifier.
    fn find(&self, id: EntityId) -> (r: Option<usize>)
        requires
            self.wf(),
        ensures
            match r {
                Some(i) => i < self@.len() && contains_id(self@, id) && slot_of(self@, id) == i,
                None => !contains_id(self@, id),
            },
    {
        let n: usize = self.entities.len();
        let mut i: usize = 0;
        while i < n
            invariant
                self.wf(),
                n == self.entities@.len(),
                i <= n,
                forall|k: int| 0 <= k < i ==> (#[trigger] self.entities@[k]).id != id,
            decreases n - i,
        {
            if self.entities[i].id == id {
                proof {
                    lemma_slot_unique(self@, i as int);
                }
                return Some(i);
            }
            i += 1;
        }
        None
    }

    /// Whether an entity with this identifier is in the world.
    pub fn contains(&self, id: EntityId) -> (r: bool)
        requires
            self.wf(),
        ensures
            r == contains_id(self@, id),
    {
        self.find(id).is_some()
    }

    /// The entity with this identifier.
    pub fn get(&self, id: EntityId) -> (r: Option<Entity<P>>)
        requires
            self.wf(),
        ensures
            r == lookup(self@, id),
    {
        match self.find(id) {
            Some(i) => Some(self.entities[i]),
            None => None,
        }
    }

    /// The role of the entity with this identifier; `None` where it has no role
    /// or is not in the world.
    pub fn role_of(&self, id: EntityId) -> (r: Option<Role<P>>)
        requires
            self.wf(),
        ensures
            r == match lookup(self@, id) {
                Some(e) => e.role,
                None => None,
            },
    {
        match self.find(id) {
            Some(i) => self.entities[i].role,
            None => None,
        }
    }

    /// Whether the entity with this identifier carries `tag`. An identifier
    /// that is not in the world carries nothing.
    pub fn has(&self, id: EntityId, tag: Tag) -> (r: bool)
        requires
            self.wf(),
        ensures
            r == has_tag(self@, id, tag),
    {
        match self.find(id) {
            Some(i) => self.entities[i].carries(tag),
            None => false,
        }
    }

    /// Whether either of two entities carries `tag`.
    pub fn either_has(&self, a: EntityId, b: EntityId, tag: Tag) -> (r: bool)
        requires
            self.wf(),
        ensures
            r == (has_tag(self@, a, tag) || has_tag(self@, b, tag)),
    {
        self.has(a, tag) || self.has(b, tag)
    }

    /// The rest position of a party zone; `None` for anything else.
    pub fn zone_anchor(&self, id: EntityId) -> (r: Option<P>)
        requires
            self.wf(),
        ensures
            r == match lookup(self@, id) {
                Some(e) => e.party_zone,
                None => None,
            },
    {
        match self.find(id) {
            Some(i) => self.entities[i].party_zone,
            None => None,
        }
    }

    /// How many entities carry `tag`.
    pub fn count(&self, tag: Tag) -> (n: usize)
        ensures
            n == count_tag(self@, tag),
    {
        let len: usize = self.entities.len();
        let mut n: usize = 0;
        let mut i: usize = 0;
        while i < len
            invariant
                len == self.entities@.len(),
                i <= len,
                n == count_tag(self.entities@.take(i as int), tag),
                n <= i,
            decreases len - i,
        {
            proof {
                let next = self.entities@.take(i + 1);
                assert(next.drop_last() =~= self.entities@.take(i as int));
                assert(next.last() == self.entities@[i as int]);
            }
            if self.entities[i].carries(tag) {
                n += 1;
            }
            i += 1;
        }
        proof {
            assert(self.entities@.take(len as int) =~= self.entities@);
        }
        n
    }

    /// The identifiers of the entities that carry `tag`, in world order.
    pub fn tagged(&self, tag: Tag) -> (ids: Vec<EntityId>)
        ensures
            ids@ == ids_with(self@, tag),
    {
        let len: usize = self.entities.len();
        let mut ids: Vec<EntityId> = Vec::new();
        let mut i: usize = 0;
        while i < len
            invariant
                len == self.entities@.len(),
                i <= len,
                ids@ == ids_with(self.entities@.take(i as int), tag),
            decreases len - i,
        {
            proof {
                let next = self.entities@.take(i + 1);
                assert(next.drop_last() =~= self.entities@.take(i as int));
                assert(next.last() == self.entities@[i as int]);
            }
            if self.entities[i].carries(tag) {
                ids.push(self.entities[i].id);
            }
            i += 1;
        }
        proof {
            assert(self.entities@.take(len as int) =~= self.entities@);
        }
        ids
    }

    /// The identifiers of the entities that carry every tag of `tags`, in
    /// world order. With no tag asked for, these are all entities.
    pub fn tagged_all(&self, tags: &Vec<Tag>) -> (ids: Vec<EntityId>)
        ensures
            ids@ == ids_with_all(self@, tags@),
    {
        let len: usize = self.entities.len();
        let mut ids: Vec<EntityId> = Vec::new();
        let mut i: usize = 0;
        while i < len
            invariant
                len == self.entities@.len(),
                i <= len,
                ids@ == ids_with_all(self.entities@.take(i as int), tags@),
            decreases len - i,
        {
            proof {
                let next = self.entities@.take(i + 1);
                assert(next.drop_last() =~= self.entities@.take(i as int));
                assert(next.last() == self.entities@[i as int]);
            }
            if self.entities[i].carries_all(tags) {
                ids.push(self.entities[i].id);
            }
            i += 1;
        }
        proof {
            assert(self.entities@.take(len as int) =~= self.entities@);
        }
        ids
    }

    /// The entity that has carried `tag` the longest.
    pub fn oldest(&self, tag: Tag) -> (r: Option<EntityId>)
        ensures
            r == oldest_with(self@, tag),
    {
        let len: usize = self.entities.len();
        let mut i: usize = 0;
        while i < len
            invariant
                len == self.entities@.len(),
                i <= len,
                forall|k: int| 0 <= k < i ==> !(#[trigger] self.entities@[k]).has(tag),
            decreases len - i,
        {
            if self.entities[i].carries(tag) {
                proof {
                    let s = self@;
                    assert(is_first_with(s, tag, i as int));
                    let c = choose|c: int| is_first_with(s, tag, c);
                    assert(is_first_with(s, tag, c));
                    if c < i {
                        assert(!s[c].has(tag));
                    } else if i < c {
                        assert(!s[i as int].has(tag));
                    }
                }
                return Some(self.entities[i].id);
            }
            i += 1;
        }
        proof {
            let s = self@;
            if exists|c: int| is_first_with(s, tag, c) {
                let c = choose|c: int| is_first_with(s, tag, c);
                assert(s[c].has(tag));
            }
        }
        None
    }

    /// Brings `entity` into the world, at the back. An identifier that is in
    /// the world already keeps its entity, and nothing changes. Returns whether
    /// the entity was added.
    pub fn spawn(&mut self, entity: Entity<P>) -> (added: bool)
        requires
            old(self).wf(),
        ensures
            final(self).wf(),
            final(self)@ == introduced(old(self)@, entity),
            added == !contains_id(old(self)@, entity.id),
    {
        match self.find(entity.id) {
            Some(_) => false,
            None => {
                proof {
                    lemma_distinct_push(self@, entity);
                }
                self.entities.push(entity);
                true
            },
        }
    }

    /// Takes the entity with this identifier out of the world and returns it.
    pub fn despawn(&mut self, id: EntityId) -> (gone: Option<Entity<P>>)
        requires
            old(self).wf(),
        ensures
            final(self).wf(),
            final(self)@ == without(old(self)@, id),
            gone == lookup(old(self)@, id),
            !contains_id(final(self)@, id),
    {
        match self.find(id) {
            Some(i) => {
                proof {
                    lemma_distinct_remove(self@, i as int);
                }
                let e = self.entities.remove(i);
                Some(e)
            },
            None => None,
        }
    }

    /// Sets the role slot of the entity with this identifier; the one setter
    /// through which every change of role goes. A new party animal moves to the
    /// back of the world. Returns whether the entity exists.
    pub fn set_role(&mut self, id: EntityId, role: Option<Role<P>>) -> (found: bool)
        requires
            old(self).wf(),
        ensures
            final(self).wf(),
            final(self)@ == with_role(old(self)@, id, role),
            found == contains_id(old(self)@, id),
    {
        match self.find(id) {
            Some(i) => {
                let current = self.entities[i];
                let e = Entity { role, ..current };
                if e.carries(Tag::PartyAnimal) {
                    proof {
                        lemma_distinct_remove(self@, i as int);
                        lemma_distinct_push(self@.remove(i as int), e);
                    }
                    self.entities.remove(i);
                    self.entities.push(e);
                } else {
                    proof {
                        lemma_distinct_update(self@, i as int, e);
                    }
                    self.entities.set(i, e);
                }
                true
            },
            None => false,
        }
    }

    /// Marks or unmarks the entity as a kill wall. Returns whether it exists.
    pub fn set_kill_wall(&mut self, id: EntityId, on: bool) -> (found: bool)
        requires
            old(self).wf(),
        ensures
            final(self).wf(),
            final(self)@ == with_kill_wall(old(self)@, id, on),
            found == contains_id(old(self)@, id),
    {
        match self.find(id) {
            Some(i) => {
                let current = self.entities[i];
                let e = Entity { kill_wall: on, ..current };
                proof {
                    lemma_distinct_update(self@, i as int, e);
                }
                self.entities.set(i, e);
                true
            },
            None => false,
        }
    }

    /// Attaches, replaces or removes the party-zone data of the entity.
    /// Returns whether it exists.
    pub fn set_party_zone(&mut self, id: EntityId, zone: Option<P>) -> (found: bool)
        requires
            old(self).wf(),
        ensures
            final(self).wf(),
            final(self)@ == with_party_zone(old(self)@, id, zone),
            found == contains_id(old(self)@, id),
    {
        match self.find(id) {
            Some(i) => {
                let current = self.entities[i];
                let e = Entity { party_zone: zone, ..current };
                proof {
                    lemma_distinct_update(self@, i as int, e);
                }
                self.entities.set(i, e);
                true
            },
            None => false,
        }
    }

    /// Removes every entity that belongs to the loaded scene and returns how
    /// many went.
    pub fn teardown_scene(&mut self) -> (removed: usize)
        requires
            old(self).wf(),
        ensures
            final(self).wf(),
            final(self)@ == outside_scene(old(self)@),
            removed == old(self)@.len() - final(self)@.len(),
    {
        let len: usize = self.entities.len();
        let mut kept: Vec<Entity<P>> = Vec::new();
        let mut i: usize = 0;
        while i < len
            invariant
                len == self.entities@.len(),
                i <= len,
                distinct_ids(self.entities@),
                kept@ == outside_scene(self.entities@.take(i as int)),
                kept@.len() <= i,
                distinct_ids(kept@),
                forall|k: int|
                    0 <= k < kept@.len() ==> exists|j: int|
                        0 <= j < i && self.entities@[j] == #[trigger] kept@[k],
            decreases len - i,
        {
            proof {
                let next = self.entities@.take(i + 1);
                assert(next.drop_last() =~= self.entities@.take(i as int));
                assert(next.last() == self.entities@[i as int]);
            }
            let e = self.entities[i];
            if !e.in_scene {
                proof {
                    let s = self.entities@;
                    let old_kept = kept@;
                    assert forall|k: int| 0 <= k < old_kept.len() implies (
                    #[trigger] old_kept[k]).id != e.id by {
                        let j = choose|j: int| 0 <= j < i && s[j] == old_kept[k];
                        assert(s[j].id != s[i as int].id);
                    }
                    lemma_distinct_push(old_kept, e);
                    assert forall|k: int| 0 <= k < old_kept.push(e).len() implies exists|j: int|
                        0 <= j < i + 1 && s[j] == #[trigger] old_kept.push(e)[k] by {
                        if k < old_kept.len() {
                            let j = choose|j: int| 0 <= j < i && s[j] == old_kept[k];
                            assert(s[j] == old_kept.push(e)[k]);
                        } else {
                            assert(s[i as int] == old_kept.push(e)[k]);
                        }
                    }
                }
                kept.push(e);
            }
            i += 1;
        }
        proof {
            assert(self.entities@.take(len as int) =~= self.entities@);
        }
        let removed: usize = len - kept.len();
        self.entities = kept;
        removed
    }
}

} // verus!
