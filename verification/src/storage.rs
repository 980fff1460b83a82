//! The per-kind component store: a map from entity to component value that
//! keeps its entries in first-insert order.

use vstd::prelude::*;

use crate::components::{ComponentKind, ComponentValue};
use crate::entity_builder::Entity;
use crate::error::WorldStorageError;

verus! {

/// One per-kind map from [`Entity`] to [`ComponentValue`].
///
/// Entries are kept in first-insert order; each entity appears at most once,
/// and every value carries the store's own kind.
pub struct ComponentStorage {
    pub kind: ComponentKind,
    pub entries: Vec<(Entity, ComponentValue)>,
}

impl ComponentStorage {
    /// The entities with an entry, in first-insert order.
    pub open spec fn entity_seq(self) -> Seq<Entity> {
        self.entries@.map_values(|p: (Entity, ComponentValue)| p.0)
    }

    pub open spec fn contains_entity(self, e: Entity) -> bool {
        exists|i: int| 0 <= i < self.entries@.len() && (#[trigger] self.entries@[i]).0 == e
    }

    /// The position of `e`'s entry; meaningful only under `unique_keys`.
    pub open spec fn index_of(self, e: Entity) -> int {
        choose|i: int| 0 <= i < self.entries@.len() && (#[trigger] self.entries@[i]).0 == e
    }

    /// The value stored for `e`, if any.
    pub open spec fn value_of(self, e: Entity) -> Option<ComponentValue> {
        if self.contains_entity(e) {
            Some(self.entries@[self.index_of(e)].1)
        } else {
            None
        }
    }

    /// No entity appears twice.
    pub open spec fn unique_keys(self) -> bool {
        forall|i: int, j: int|
            0 <= i < j < self.entries@.len() ==> (#[trigger] self.entries@[i]).0 != (
            #[trigger] self.entries@[j]).0
    }

    /// Every value carries the store's kind.
    pub open spec fn kinds_ok(self) -> bool {
        forall|i: int|
            0 <= i < self.entries@.len() ==> (#[trigger] self.entries@[i]).1.kind() == self.kind
    }

    pub open spec fn wf(self) -> bool {
        self.unique_keys() && self.kinds_ok()
    }

    /// Under unique keys, any position holding `e` is the position of `e`.
    pub proof fn lemma_key_index(self, i: int, e: Entity)
        requires
            self.unique_keys(),
            0 <= i < self.entries@.len(),
            self.entries@[i].0 == e,
        ensures
            self.contains_entity(e),
            self.index_of(e) == i,
    {
        assert(self.contains_entity(e));
        let j = self.index_of(e);
        if i < j {
            assert(self.entries@[i].0 != self.entries@[j].0);
        } else if j < i {
            assert(self.entries@[j].0 != self.entries@[i].0);
        }
    }

    /// Replacing the value at `e`'s entry changes `e`'s value, nothing else.
    pub proof fn lemma_update_frame(
        pre: ComponentStorage,
        post: ComponentStorage,
        i: int,
        e: Entity,
        c: ComponentValue,
    )
        requires
            pre.wf(),
            0 <= i < pre.entries@.len(),
            pre.entries@[i].0 == e,
            post.kind == pre.kind,
            post.entries@ == pre.entries@.update(i, (e, c)),
        ensures
            post.unique_keys(),
            post.entity_seq() == pre.entity_seq(),
            post.value_of(e) == Some(c),
            forall|e2: Entity| e2 != e ==> post.value_of(e2) == pre.value_of(e2),
            c.kind() == pre.kind ==> post.wf(),
    {
        assert(post.entity_seq() =~= pre.entity_seq());
        assert(post.unique_keys());
        post.lemma_key_index(i, e);
        assert forall|e2: Entity| e2 != e implies post.value_of(e2) == pre.value_of(e2) by {
            if pre.contains_entity(e2) {
                let j = pre.index_of(e2);
                assert(post.entries@[j].0 == e2);
                post.lemma_key_index(j, e2);
            } else {
                assert(!post.contains_entity(e2)) by {
                    if post.contains_entity(e2) {
                        let j = post.index_of(e2);
                        assert(pre.entries@[j].0 == e2);
                    }
                }
            }
        }
    }

    /// Appending a fresh entity leaves every other value in place.
    pub proof fn lemma_push_frame(
        pre: ComponentStorage,
        post: ComponentStorage,
        e: Entity,
        c: ComponentValue,
    )
        requires
            pre.wf(),
            !pre.contains_entity(e),
            post.kind == pre.kind,
            post.entries@ == pre.entries@.push((e, c)),
        ensures
            post.unique_keys(),
            post.entity_seq() == pre.entity_seq().push(e),
            post.value_of(e) == Some(c),
            forall|e2: Entity| e2 != e ==> post.value_of(e2) == pre.value_of(e2),
            c.kind() == pre.kind ==> post.wf(),
    {
        let n = pre.entries@.len() as int;
        assert(post.entity_seq() =~= pre.entity_seq().push(e));
        assert forall|i: int, j: int|
            0 <= i < j < post.entries@.len() implies (#[trigger] post.entries@[i]).0 != (
        #[trigger] post.entries@[j]).0 by {
            if j == n {
                assert(post.entries@[i] == pre.entries@[i]);
            }
        }
        post.lemma_key_index(n, e);
        assert forall|e2: Entity| e2 != e implies post.value_of(e2) == pre.value_of(e2) by {
            if pre.contains_entity(e2) {
                let j = pre.index_of(e2);
                assert(post.entries@[j].0 == e2);
                post.lemma_key_index(j, e2);
            } else {
                assert(!post.contains_entity(e2)) by {
                    if post.contains_entity(e2) {
                        let j = post.index_of(e2);
                        assert(0 <= j < n ==> pre.entries@[j].0 == e2);
                    }
                }
            }
        }
    }

    /// An entity has an entry iff it appears in the key sequence.
    pub proof fn lemma_entity_seq_contains(self, e: Entity)
        ensures
            self.contains_entity(e) <==> self.entity_seq().contains(e),
    {
        if self.contains_entity(e) {
            let i = self.index_of(e);
            assert(self.entity_seq()[i] == e);
        }
        if self.entity_seq().contains(e) {
            let i = choose|i: int| 0 <= i < self.entity_seq().len() && self.entity_seq()[i] == e;
            assert(self.entries@[i].0 == e);
        }
    }

    /// An empty store of the given kind.
    pub fn new(kind: ComponentKind) -> (r: ComponentStorage)
        ensures
            r.kind == kind,
            r.entries@.len() == 0,
            r.wf(),
    {
        ComponentStorage { kind, entries: Vec::new() }
    }

    /// The position of `e`'s entry, if it has one.
    fn find_index(&self, entity: Entity) -> (r: Option<usize>)
        ensures
            match r {
                Some(i) => i < self.entries@.len() && self.entries@[i as int].0 == entity,
                None => !self.contains_entity(entity),
            },
    {
        let n = self.entries.len();
        let mut i: usize = 0;
        while i < n
            invariant
                i <= n,
                n == self.entries@.len(),
                forall|j: int| 0 <= j < i ==> (#[trigger] self.entries@[j]).0 != entity,
            decreases n - i,
        {
            if self.entries[i].0 == entity {
                return Some(i);
            }
            i = i + 1;
        }
        None
    }

    /// A shared borrow of `e`'s value.
    pub fn get(&self, entity: Entity) -> (r: Option<&ComponentValue>)
        requires
            self.wf(),
        ensures
            match r {
                Some(v) => self.value_of(entity) == Some(*v),
                None => !self.contains_entity(entity),
            },
    {
        match self.find_index(entity) {
            Some(i) => {
                proof {
                    self.lemma_key_index(i as int, entity);
                }
                Some(&self.entries[i].1)
            },
            None => None,
        }
    }

    /// A mutable borrow of `e`'s value.
    pub fn get_mut(&mut self, entity: Entity) -> (r: Option<&mut ComponentValue>)
        requires
            old(self).wf(),
        ensures
            r is Some <==> old(self).contains_entity(entity),
            r is None ==> *final(self) == *old(self),
            r matches Some(v) ==> (
            {
                &&& old(self).value_of(entity) == Some(*v)
                &&& final(self).kind == old(self).kind
                &&& final(self).entries@ == old(self).entries@.update(
                    old(self).index_of(entity),
                    (entity, *final(v)),
                )
            }),
    {
        match self.find_index(entity) {
            Some(i) => {
                proof {
                    self.lemma_key_index(i as int, entity);
                }
                Some(&mut self.entries[i].1)
            },
            None => None,
        }
    }

    /// Sets `entity`'s value, overwriting any prior one; appends fresh
    /// entities at the back. Rejects values of a foreign kind.
    pub fn insert(&mut self, entity: Entity, component: ComponentValue) -> (r: Result<
        (),
        WorldStorageError,
    >)
        requires
            old(self).wf(),
        ensures
            final(self).kind == old(self).kind,
            component.kind() != old(self).kind ==> (r matches Err(e) && e == (
            WorldStorageError::ComponentTypeMismatch { expected: old(self).kind }) && *final(self)
                == *old(self)),
            component.kind() == old(self).kind ==> (
            {
                &&& r is Ok
                &&& final(self).wf()
                &&& final(self).value_of(entity) == Some(component)
                &&& forall|e2: Entity|
                    e2 != entity ==> final(self).value_of(e2) == old(self).value_of(e2)
                &&& final(self).entity_seq() == (if old(self).contains_entity(entity) {
                    old(self).entity_seq()
                } else {
                    old(self).entity_seq().push(entity)
                })
            }),
    {
        let ghost pre = *self;
        if component.kind() != self.kind {
            return Err(WorldStorageError::ComponentTypeMismatch { expected: self.kind });
        }
        match self.find_index(entity) {
            Some(i) => {
                proof {
                    self.lemma_key_index(i as int, entity);
                }
                self.entries[i] = (entity, component);
                proof {
                    ComponentStorage::lemma_update_frame(pre, *self, i as int, entity, component);
                }
                Ok(())
            },
            None => {
                self.entries.push((entity, component));
                proof {
                    ComponentStorage::lemma_push_frame(pre, *self, entity, component);
                }
                Ok(())
            },
        }
    }
}

} // verus!
