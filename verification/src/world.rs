//! The world: component stores, resources, the entity allocator, and the
//! event pass-throughs, aggregated behind one facade.

use vstd::prelude::*;

use crate::components::{ComponentKind, ComponentValue};
use crate::entity_builder::{Entity, EntityBuilder};
use crate::error::{WorldResourceError, WorldStorageError};
use crate::events::{DudoEvent, Event, EventQueue};
use crate::resources::{ResourceKind, ResourceValue};
use crate::storage::ComponentStorage;

verus! {

/// One game session's object graph: per-kind component stores, singleton
/// resources, the set of live entities, and the next-id counter.
pub struct World {
    pub component_storages: Vec<ComponentStorage>,
    pub resources: Vec<ResourceValue>,
    pub entities: Vec<Entity>,
    pub next_entity_id: u64,
}

impl World {
    /// A store for `k` exists iff a component of kind `k` was ever inserted.
    pub open spec fn has_storage(self, k: ComponentKind) -> bool {
        exists|i: int|
            0 <= i < self.component_storages@.len() && (#[trigger] self.component_storages@[i]).kind
                == k
    }

    /// The position of `k`'s store; meaningful only under `wf`.
    pub open spec fn storage_idx(self, k: ComponentKind) -> int {
        choose|i: int|
            0 <= i < self.component_storages@.len() && (#[trigger] self.component_storages@[i]).kind
                == k
    }

    pub open spec fn storage_for(self, k: ComponentKind) -> ComponentStorage {
        self.component_storages@[self.storage_idx(k)]
    }

    /// The component of kind `k` attached to `e`, if any.
    pub open spec fn component_value(self, k: ComponentKind, e: Entity) -> Option<ComponentValue> {
        if self.has_storage(k) {
            self.storage_for(k).value_of(e)
        } else {
            None
        }
    }

    pub open spec fn has_component(self, k: ComponentKind, e: Entity) -> bool {
        self.component_value(k, e) is Some
    }

    /// The entities holding a component of kind `k`, in first-insert order.
    pub open spec fn storage_keys(self, k: ComponentKind) -> Seq<Entity> {
        if self.has_storage(k) {
            self.storage_for(k).entity_seq()
        } else {
            Seq::<Entity>::empty()
        }
    }

    /// A resource of kind `k` exists iff one was ever inserted.
    pub open spec fn has_resource(self, k: ResourceKind) -> bool {
        exists|i: int|
            0 <= i < self.resources@.len() && (#[trigger] self.resources@[i]).kind() == k
    }

    /// The position of `k`'s resource; meaningful only under `wf`.
    pub open spec fn resource_idx(self, k: ResourceKind) -> int {
        choose|i: int|
            0 <= i < self.resources@.len() && (#[trigger] self.resources@[i]).kind() == k
    }

    /// The resource of kind `k`, if any.
    pub open spec fn resource_value(self, k: ResourceKind) -> Option<ResourceValue> {
        if self.has_resource(k) {
            Some(self.resources@[self.resource_idx(k)])
        } else {
            None
        }
    }

    /// The pending events, front first; empty when no queue is installed.
    pub open spec fn event_queue(self) -> Seq<Event<DudoEvent>> {
        match self.resource_value(ResourceKind::EventQueue) {
            Some(ResourceValue::EventQueue(q)) => q@,
            _ => Seq::<Event<DudoEvent>>::empty(),
        }
    }

    /// The phase of the installed game state, if one is installed.
    pub open spec fn game_phase(self) -> Option<crate::resources::GamePhase> {
        match self.resource_value(ResourceKind::GameState) {
            Some(ResourceValue::GameState(g)) => Some(g.phase),
            _ => None,
        }
    }

    /// At most one store per kind.
    pub open spec fn storage_kinds_unique(self) -> bool {
        forall|i: int, j: int|
            0 <= i < j < self.component_storages@.len() ==> (
            #[trigger] self.component_storages@[i]).kind != (
            #[trigger] self.component_storages@[j]).kind
    }

    /// At most one store per kind, each internally well formed.
    pub open spec fn storages_wf(self) -> bool {
        &&& self.storage_kinds_unique()
        &&& forall|i: int|
            0 <= i < self.component_storages@.len() ==> (
            #[trigger] self.component_storages@[i]).wf()
    }

    /// At most one resource per kind.
    pub open spec fn resources_wf(self) -> bool {
        forall|i: int, j: int|
            0 <= i < j < self.resources@.len() ==> (#[trigger] self.resources@[i]).kind() != (
            #[trigger] self.resources@[j]).kind()
    }

    /// Entity ids are strictly increasing and below the next id to issue.
    pub open spec fn entities_wf(self) -> bool {
        &&& forall|i: int|
            0 <= i < self.entities@.len() ==> (#[trigger] self.entities@[i]).id
                < self.next_entity_id
        &&& forall|i: int, j: int|
            0 <= i < j < self.entities@.len() ==> (#[trigger] self.entities@[i]).id < (
            #[trigger] self.entities@[j]).id
    }

    pub open spec fn wf(self) -> bool {
        self.storages_wf() && self.resources_wf() && self.entities_wf()
    }

    /// Under unique kinds, any position holding `k`'s store is its position.
    pub proof fn lemma_storage_key_index(self, i: int, k: ComponentKind)
        requires
            self.storage_kinds_unique(),
            0 <= i < self.component_storages@.len(),
            self.component_storages@[i].kind == k,
        ensures
            self.has_storage(k),
            self.storage_idx(k) == i,
    {
        assert(self.has_storage(k));
        let j = self.storage_idx(k);
        if i < j {
            assert(self.component_storages@[i].kind != self.component_storages@[j].kind);
        } else if j < i {
            assert(self.component_storages@[j].kind != self.component_storages@[i].kind);
        }
    }

    /// Under unique kinds, any position holding `k`'s resource is its
    /// position.
    pub proof fn lemma_resource_key_index(self, i: int, k: ResourceKind)
        requires
            self.resources_wf(),
            0 <= i < self.resources@.len(),
            self.resources@[i].kind() == k,
        ensures
            self.has_resource(k),
            self.resource_idx(k) == i,
    {
        assert(self.has_resource(k));
        let j = self.resource_idx(k);
        if i < j {
            assert(self.resources@[i].kind() != self.resources@[j].kind());
        } else if j < i {
            assert(self.resources@[j].kind() != self.resources@[i].kind());
        }
    }

    /// Stored component values carry the kind of their store.
    pub proof fn lemma_component_value_kind(self, k: ComponentKind, e: Entity)
        requires
            self.wf(),
            self.component_value(k, e) is Some,
        ensures
            self.component_value(k, e).unwrap().kind() == k,
    {
        let st = self.storage_for(k);
        let i = st.index_of(e);
        assert(st.entries@[i].1.kind() == st.kind);
    }

    /// Replacing one store by another of the same kind leaves every other
    /// store, and every store position, in place.
    pub proof fn lemma_storage_update_frame(pre: World, post: World, i: int)
        requires
            pre.storages_wf(),
            0 <= i < pre.component_storages@.len(),
            post.component_storages@.len() == pre.component_storages@.len(),
            post.component_storages@ == pre.component_storages@.update(
                i,
                post.component_storages@[i],
            ),
            post.component_storages@[i].kind == pre.component_storages@[i].kind,
        ensures
            forall|k2: ComponentKind| post.has_storage(k2) <==> pre.has_storage(k2),
            forall|k2: ComponentKind|
                pre.has_storage(k2) ==> post.storage_idx(k2) == pre.storage_idx(k2),
            forall|k2: ComponentKind|
                pre.has_storage(k2) && k2 != pre.component_storages@[i].kind
                    ==> post.storage_for(k2) == pre.storage_for(k2),
            post.has_storage(pre.component_storages@[i].kind),
            post.storage_for(pre.component_storages@[i].kind) == post.component_storages@[i],
            post.component_storages@[i].wf() ==> post.storages_wf(),
    {
        let k = pre.component_storages@[i].kind;
        assert forall|x: int|
            0 <= x < post.component_storages@.len() implies (
        #[trigger] post.component_storages@[x]).kind == pre.component_storages@[x].kind by {}
        assert(post.storage_kinds_unique());
        assert forall|k2: ComponentKind| post.has_storage(k2) implies pre.has_storage(k2) by {
            let j = post.storage_idx(k2);
            assert(pre.component_storages@[j].kind == k2 || j == i);
        }
        assert forall|k2: ComponentKind| pre.has_storage(k2) implies post.has_storage(k2)
            && post.storage_idx(k2) == pre.storage_idx(k2) by {
            let j = pre.storage_idx(k2);
            assert(post.component_storages@[j].kind == k2);
            post.lemma_storage_key_index(j, k2);
        }
        pre.lemma_storage_key_index(i, k);
        post.lemma_storage_key_index(i, k);
    }

    /// Appending a store of a fresh kind leaves every other store in place.
    pub proof fn lemma_storage_push_frame(pre: World, post: World, st: ComponentStorage)
        requires
            pre.storages_wf(),
            !pre.has_storage(st.kind),
            post.component_storages@ == pre.component_storages@.push(st),
        ensures
            forall|k2: ComponentKind|
                post.has_storage(k2) <==> (pre.has_storage(k2) || k2 == st.kind),
            forall|k2: ComponentKind|
                pre.has_storage(k2) ==> post.storage_idx(k2) == pre.storage_idx(k2)
                    && post.storage_for(k2) == pre.storage_for(k2),
            post.has_storage(st.kind),
            post.storage_for(st.kind) == st,
            st.wf() ==> post.storages_wf(),
    {
        let n = pre.component_storages@.len() as int;
        assert forall|k2: ComponentKind| post.has_storage(k2) implies (pre.has_storage(k2) || k2
            == st.kind) by {
            let j = post.storage_idx(k2);
            if j < n {
                assert(pre.component_storages@[j].kind == k2);
            }
        }
        assert forall|i: int, j: int|
            0 <= i < j < post.component_storages@.len() implies (
        #[trigger] post.component_storages@[i]).kind != (
        #[trigger] post.component_storages@[j]).kind by {
            if j == n {
                assert(pre.component_storages@[i].kind == post.component_storages@[i].kind);
                if post.component_storages@[i].kind == st.kind {
                    pre.lemma_storage_key_index(i, st.kind);
                }
            }
        }
        assert forall|k2: ComponentKind| pre.has_storage(k2) implies post.storage_idx(k2)
            == pre.storage_idx(k2) && post.storage_for(k2) == pre.storage_for(k2) by {
            let j = pre.storage_idx(k2);
            assert(post.component_storages@[j].kind == k2);
            post.lemma_storage_key_index(j, k2);
        }
        post.lemma_storage_key_index(n, st.kind);
    }

    /// Replacing one resource by another of the same kind leaves every other
    /// resource in place.
    pub proof fn lemma_resource_update_frame(pre: World, post: World, i: int)
        requires
            pre.resources_wf(),
            0 <= i < pre.resources@.len(),
            post.resources@ == pre.resources@.update(i, post.resources@[i]),
            post.resources@[i].kind() == pre.resources@[i].kind(),
        ensures
            forall|k2: ResourceKind| post.has_resource(k2) <==> pre.has_resource(k2),
            forall|k2: ResourceKind|
                pre.has_resource(k2) ==> post.resource_idx(k2) == pre.resource_idx(k2),
            forall|k2: ResourceKind|
                pre.has_resource(k2) && k2 != pre.resources@[i].kind() ==> post.resource_value(k2)
                    == pre.resource_value(k2),
            post.has_resource(pre.resources@[i].kind()),
            post.resource_value(pre.resources@[i].kind()) == Some(post.resources@[i]),
            post.resources_wf(),
    {
        let k = pre.resources@[i].kind();
        assert forall|k2: ResourceKind| post.has_resource(k2) implies pre.has_resource(k2) by {
            let j = post.resource_idx(k2);
            assert(pre.resources@[j].kind() == k2 || j == i);
        }
        assert forall|k2: ResourceKind| pre.has_resource(k2) implies post.has_resource(k2)
            && post.resource_idx(k2) == pre.resource_idx(k2) by {
            let j = pre.resource_idx(k2);
            assert(post.resources@[j].kind() == k2);
            post.lemma_resource_key_index(j, k2);
        }
        pre.lemma_resource_key_index(i, k);
        post.lemma_resource_key_index(i, k);
    }

    /// Appending a resource of a fresh kind leaves every other resource in
    /// place.
    pub proof fn lemma_resource_push_frame(pre: World, post: World, v: ResourceValue)
        requires
            pre.resources_wf(),
            !pre.has_resource(v.kind()),
            post.resources@ == pre.resources@.push(v),
        ensures
            forall|k2: ResourceKind|
                post.has_resource(k2) <==> (pre.has_resource(k2) || k2 == v.kind()),
            forall|k2: ResourceKind|
                pre.has_resource(k2) ==> post.resource_idx(k2) == pre.resource_idx(k2)
                    && post.resource_value(k2) == pre.resource_value(k2),
            post.has_resource(v.kind()),
            post.resource_value(v.kind()) == Some(v),
            post.resources_wf(),
    {
        let n = pre.resources@.len() as int;
        assert forall|k2: ResourceKind| post.has_resource(k2) implies (pre.has_resource(k2) || k2
            == v.kind()) by {
            let j = post.resource_idx(k2);
            if j < n {
                assert(pre.resources@[j].kind() == k2);
            }
        }
        assert forall|i: int, j: int|
            0 <= i < j < post.resources@.len() implies (#[trigger] post.resources@[i]).kind() != (
        #[trigger] post.resources@[j]).kind() by {
            if j == n {
                assert(pre.resources@[i].kind() == post.resources@[i].kind());
                if post.resources@[i].kind() == v.kind() {
                    pre.lemma_resource_key_index(i, v.kind());
                }
            }
        }
        assert forall|k2: ResourceKind| pre.has_resource(k2) implies post.resource_idx(k2)
            == pre.resource_idx(k2) && post.resource_value(k2) == pre.resource_value(k2) by {
            let j = pre.resource_idx(k2);
            assert(post.resources@[j].kind() == k2);
            post.lemma_resource_key_index(j, k2);
        }
        post.lemma_resource_key_index(n, v.kind());
    }

    /// A fresh world: no stores, no resources, no entities, next id zero.
    pub fn new() -> (r: World)
        ensures
            r.wf(),
            r.component_storages@.len() == 0,
            r.resources@.len() == 0,
            r.entities@.len() == 0,
            r.next_entity_id == 0,
            forall|k: ComponentKind| !r.has_storage(k),
            forall|k: ResourceKind| !r.has_resource(k),
    {
        World {
            component_storages: Vec::new(),
            resources: Vec::new(),
            entities: Vec::new(),
            next_entity_id: 0,
        }
    }

    /// Issues a fresh entity, records it as live, and bumps the counter.
    pub fn create_entity(&mut self) -> (r: Entity)
        requires
            old(self).wf(),
            old(self).next_entity_id < u64::MAX,
        ensures
            final(self).wf(),
            r.id == old(self).next_entity_id,
            final(self).next_entity_id == old(self).next_entity_id + 1,
            final(self).entities@ == old(self).entities@.push(r),
            final(self).component_storages == old(self).component_storages,
            final(self).resources == old(self).resources,
    {
        let id = self.next_entity_id;
        self.next_entity_id = self.next_entity_id + 1;
        let entity = Entity::new(id);
        self.entities.push(entity);
        entity
    }

    /// Issues a fresh entity and returns a builder bound to it.
    pub fn spawn(&mut self) -> (r: EntityBuilder)
        requires
            old(self).wf(),
            old(self).next_entity_id < u64::MAX,
        ensures
            final(self).wf(),
            r.entity.id == old(self).next_entity_id,
            final(self).next_entity_id == old(self).next_entity_id + 1,
            final(self).entities@ == old(self).entities@.push(r.entity),
            final(self).component_storages == old(self).component_storages,
            final(self).resources == old(self).resources,
    {
        let entity = self.create_entity();
        EntityBuilder::new(entity)
    }

    /// The position of `k`'s store, if one exists.
    fn find_storage(&self, k: ComponentKind) -> (r: Option<usize>)
        ensures
            match r {
                Some(i) => i < self.component_storages@.len()
                    && self.component_storages@[i as int].kind == k,
                None => !self.has_storage(k),
            },
    {
        let n = self.component_storages.len();
        let mut i: usize = 0;
        while i < n
            invariant
                i <= n,
                n == self.component_storages@.len(),
                forall|j: int| 0 <= j < i ==> (#[trigger] self.component_storages@[j]).kind != k,
            decreases n - i,
        {
            if self.component_storages[i].kind == k {
                return Some(i);
            }
            i = i + 1;
        }
        None
    }

    /// Attaches `component` to `entity`, creating the store for its kind on
    /// first use and overwriting any prior value. The result is always `Ok`:
    /// the defensive kind check inside the store is proved unreachable here.
    pub fn insert_component(&mut self, entity: Entity, component: ComponentValue) -> (r: Result<
        (),
        WorldStorageError,
    >)
        requires
            old(self).wf(),
        ensures
            r is Ok,
            final(self).wf(),
            final(self).component_value(component.kind(), entity) == Some(component),
            forall|k2: ComponentKind, e2: Entity|
                k2 != component.kind() || e2 != entity ==> final(self).component_value(k2, e2)
                    == old(self).component_value(k2, e2),
            forall|k2: ComponentKind|
                final(self).has_storage(k2) <==> (old(self).has_storage(k2) || k2
                    == component.kind()),
            final(self).storage_keys(component.kind()) == (if old(self).has_component(
                component.kind(),
                entity,
            ) {
                old(self).storage_keys(component.kind())
            } else {
                old(self).storage_keys(component.kind()).push(entity)
            }),
            forall|k2: ComponentKind|
                k2 != component.kind() ==> final(self).storage_keys(k2) == old(self).storage_keys(
                    k2,
                ),
            final(self).resources == old(self).resources,
            final(self).entities == old(self).entities,
            final(self).next_entity_id == old(self).next_entity_id,
    {
        let kind = component.kind();
        match self.find_storage(kind) {
            Some(i) => {
                proof {
                    self.lemma_storage_key_index(i as int, kind);
                }
                let st = &mut self.component_storages[i];
                let r = st.insert(entity, component);
                proof {
                    World::lemma_storage_update_frame(*old(self), *self, i as int);
                    assert forall|k2: ComponentKind, e2: Entity|
                        k2 != kind || e2 != entity implies self.component_value(k2, e2) == old(
                        self,
                    ).component_value(k2, e2) by {
                        if k2 == kind && old(self).has_storage(k2) {
                            assert(self.storage_for(kind) == self.component_storages@[i as int]);
                        }
                    }
                }
                r
            },
            None => {
                let mut st = ComponentStorage::new(kind);
                let r = st.insert(entity, component);
                self.component_storages.push(st);
                proof {
                    World::lemma_storage_push_frame(*old(self), *self, st);
                }
                r
            },
        }
    }

    /// The whole store for kind `k`, for query composition.
    pub fn query_component(&self, k: ComponentKind) -> (r: Result<
        &ComponentStorage,
        WorldStorageError,
    >)
        requires
            self.wf(),
        ensures
            self.has_storage(k) <==> r is Ok,
            r matches Ok(st) ==> *st == self.storage_for(k) && st.kind == k,
            r matches Err(e) ==> e == WorldStorageError::ComponentStorageDoesNotExist(k),
    {
        match self.find_storage(k) {
            Some(i) => {
                proof {
                    self.lemma_storage_key_index(i as int, k);
                }
                Ok(&self.component_storages[i])
            },
            None => Err(WorldStorageError::ComponentStorageDoesNotExist(k)),
        }
    }

    /// Mutable access to the whole store for kind `k`.
    ///
    /// On success the new world is the old one with `k`'s store replaced by
    /// whatever the borrow is left holding; callers reestablish `wf` through
    /// [`World::lemma_storage_update_frame`].
    pub fn query_component_mut(&mut self, k: ComponentKind) -> (r: Result<
        &mut ComponentStorage,
        WorldStorageError,
    >)
        requires
            old(self).wf(),
        ensures
            old(self).has_storage(k) <==> r is Ok,
            r matches Err(e) ==> *final(self) == *old(self)
                && e == WorldStorageError::ComponentStorageDoesNotExist(k),
            r matches Ok(st) ==> (
            {
                &&& *st == old(self).storage_for(k)
                &&& st.kind == k
                &&& final(self).component_storages@ == old(self).component_storages@.update(
                    old(self).storage_idx(k),
                    *final(st),
                )
                &&& final(self).resources == old(self).resources
                &&& final(self).entities == old(self).entities
                &&& final(self).next_entity_id == old(self).next_entity_id
            }),
    {
        match self.find_storage(k) {
            Some(i) => {
                proof {
                    self.lemma_storage_key_index(i as int, k);
                }
                Ok(&mut self.component_storages[i])
            },
            None => Err(WorldStorageError::ComponentStorageDoesNotExist(k)),
        }
    }

    /// The component of kind `k` attached to `entity`.
    ///
    /// Fails with `ComponentStorageDoesNotExist` when no component of kind
    /// `k` was ever inserted, and with `ComponentNotFoundForEntity` when the
    /// store exists but this entity holds no such component.
    pub fn component(&self, entity: Entity, k: ComponentKind) -> (r: Result<
        &ComponentValue,
        WorldStorageError,
    >)
        requires
            self.wf(),
        ensures
            self.has_component(k, entity) <==> r is Ok,
            r matches Ok(v) ==> self.component_value(k, entity) == Some(*v) && v.kind() == k,
            !self.has_storage(k) ==> (r matches Err(e) && e
                == WorldStorageError::ComponentStorageDoesNotExist(k)),
            self.has_storage(k) && !self.has_component(k, entity) ==> (r matches Err(e) && e == (
            WorldStorageError::ComponentNotFoundForEntity { component: k, entity: entity.id })),
    {
        let st = match self.query_component(k) {
            Ok(st) => st,
            Err(e) => {
                return Err(e);
            },
        };
        match st.get(entity) {
            Some(v) => Ok(v),
            None => Err(
                WorldStorageError::ComponentNotFoundForEntity { component: k, entity: entity.id },
            ),
        }
    }

    /// Mutable access to the component of kind `k` attached to `entity`.
    ///
    /// On success the new world is the old one with exactly that slot
    /// replaced by whatever the borrow is left holding; callers reestablish
    /// `wf` through [`World::lemma_component_update_frame`].
    pub fn component_mut(&mut self, entity: Entity, k: ComponentKind) -> (r: Result<
        &mut ComponentValue,
        WorldStorageError,
    >)
        requires
            old(self).wf(),
        ensures
            old(self).has_component(k, entity) <==> r is Ok,
            r matches Err(e) ==> *final(self) == *old(self),
            !old(self).has_storage(k) ==> (r matches Err(e) && e
                == WorldStorageError::ComponentStorageDoesNotExist(k)),
            old(self).has_storage(k) && !old(self).has_component(k, entity) ==> (r matches Err(e)
                && e == (WorldStorageError::ComponentNotFoundForEntity {
                component: k,
                entity: entity.id,
            })),
            r matches Ok(v) ==> (
            {
                let si = old(self).storage_idx(k);
                let st_pre = old(self).component_storages@[si];
                &&& old(self).component_value(k, entity) == Some(*v)
                &&& final(self).component_storages@.len()
                    == old(self).component_storages@.len()
                &&& final(self).component_storages@ == old(self).component_storages@.update(
                    si,
                    final(self).component_storages@[si],
                )
                &&& final(self).component_storages@[si].kind == k
                &&& final(self).component_storages@[si].entries@ == st_pre.entries@.update(
                    st_pre.index_of(entity),
                    (entity, *final(v)),
                )
                &&& final(self).resources == old(self).resources
                &&& final(self).entities == old(self).entities
                &&& final(self).next_entity_id == old(self).next_entity_id
            }),
    {
        match self.component(entity, k) {
            Ok(_) => (),
            Err(e) => {
                return Err(e);
            },
        };
        let st = match self.query_component_mut(k) {
            Ok(st) => st,
            Err(e) => {
                return Err(e);
            },
        };
        match st.get_mut(entity) {
            Some(v) => Ok(v),
            None => Err(
                WorldStorageError::ComponentNotFoundForEntity { component: k, entity: entity.id },
            ),
        }
    }

    /// After a mutation through [`World::component_mut`] that kept the
    /// value's kind, the world is well formed again and only that one slot
    /// changed.
    pub proof fn lemma_component_update_frame(
        pre: World,
        post: World,
        k: ComponentKind,
        e: Entity,
        c: ComponentValue,
    )
        requires
            pre.wf(),
            pre.has_component(k, e),
            post.component_storages@ == pre.component_storages@.update(
                pre.storage_idx(k),
                post.component_storages@[pre.storage_idx(k)],
            ),
            post.component_storages@[pre.storage_idx(k)].kind == k,
            post.component_storages@[pre.storage_idx(k)].entries@ == pre.storage_for(
                k,
            ).entries@.update(pre.storage_for(k).index_of(e), (e, c)),
            post.resources == pre.resources,
            post.entities == pre.entities,
            post.next_entity_id == pre.next_entity_id,
        ensures
            c.kind() == k ==> post.wf(),
            post.component_value(k, e) == Some(c),
            forall|k2: ComponentKind, e2: Entity|
                k2 != k || e2 != e ==> post.component_value(k2, e2) == pre.component_value(k2, e2),
            forall|k2: ComponentKind| post.has_storage(k2) <==> pre.has_storage(k2),
            forall|k2: ComponentKind| post.storage_keys(k2) == pre.storage_keys(k2),
    {
        let si = pre.storage_idx(k);
        let st_pre = pre.storage_for(k);
        let st_post = post.component_storages@[si];
        World::lemma_storage_update_frame(pre, post, si);
        ComponentStorage::lemma_update_frame(
            st_pre,
            st_post,
            st_pre.index_of(e),
            e,
            c,
        );
        assert(post.storage_for(k) == st_post);
        assert forall|k2: ComponentKind, e2: Entity|
            k2 != k || e2 != e implies post.component_value(k2, e2) == pre.component_value(
            k2,
            e2,
        ) by {
            if k2 == k && pre.has_storage(k2) {
                assert(post.storage_for(k2) == st_post);
            }
        }
        assert forall|k2: ComponentKind| post.storage_keys(k2) == pre.storage_keys(k2) by {
            if k2 == k {
                assert(post.storage_for(k).entity_seq() == st_pre.entity_seq());
            }
        }
    }

    /// Installs `resource`, replacing any prior resource of the same kind.
    pub fn insert_resource(&mut self, resource: ResourceValue)
        requires
            old(self).wf(),
        ensures
            final(self).wf(),
            final(self).resource_value(resource.kind()) == Some(resource),
            forall|k2: ResourceKind|
                k2 != resource.kind() ==> final(self).resource_value(k2) == old(
                    self,
                ).resource_value(k2),
            forall|k2: ResourceKind|
                final(self).has_resource(k2) <==> (old(self).has_resource(k2) || k2
                    == resource.kind()),
            final(self).component_storages == old(self).component_storages,
            final(self).entities == old(self).entities,
            final(self).next_entity_id == old(self).next_entity_id,
    {
        let ghost kind = resource.kind();
        match self.find_resource(resource.kind()) {
            Some(i) => {
                proof {
                    self.lemma_resource_key_index(i as int, kind);
                }
                self.resources[i] = resource;
                proof {
                    World::lemma_resource_update_frame(*old(self), *self, i as int);
                }
            },
            None => {
                self.resources.push(resource);
                proof {
                    World::lemma_resource_push_frame(
                        *old(self),
                        *self,
                        self.resources@.last(),
                    );
                }
            },
        }
    }

    /// The resource of kind `k`.
    ///
    /// Fails with `ResourceDoesNotExist` when none was ever installed.
    pub fn resource(&self, k: ResourceKind) -> (r: Result<&ResourceValue, WorldResourceError>)
        requires
            self.wf(),
        ensures
            self.has_resource(k) <==> r is Ok,
            r matches Ok(v) ==> self.resource_value(k) == Some(*v) && v.kind() == k,
            r matches Err(e) ==> e == WorldResourceError::ResourceDoesNotExist(k),
    {
        match self.find_resource(k) {
            Some(i) => {
                proof {
                    self.lemma_resource_key_index(i as int, k);
                }
                Ok(&self.resources[i])
            },
            None => Err(WorldResourceError::ResourceDoesNotExist(k)),
        }
    }

    /// Mutable access to the resource of kind `k`.
    ///
    /// On success the new world is the old one with `k`'s slot replaced by
    /// whatever the borrow is left holding; callers reestablish `wf` through
    /// [`World::lemma_resource_update_frame`].
    pub fn resource_mut(&mut self, k: ResourceKind) -> (r: Result<
        &mut ResourceValue,
        WorldResourceError,
    >)
        requires
            old(self).wf(),
        ensures
            old(self).has_resource(k) <==> r is Ok,
            r matches Err(e) ==> *final(self) == *old(self)
                && e == WorldResourceError::ResourceDoesNotExist(k),
            r matches Ok(v) ==> (
            {
                &&& old(self).resource_value(k) == Some(*v)
                &&& v.kind() == k
                &&& final(self).resources@ == old(self).resources@.update(
                    old(self).resource_idx(k),
                    *final(v),
                )
                &&& final(self).component_storages == old(self).component_storages
                &&& final(self).entities == old(self).entities
                &&& final(self).next_entity_id == old(self).next_entity_id
            }),
    {
        match self.find_resource(k) {
            Some(i) => {
                proof {
                    self.lemma_resource_key_index(i as int, k);
                }
                Ok(&mut self.resources[i])
            },
            None => Err(WorldResourceError::ResourceDoesNotExist(k)),
        }
    }

    /// Appends `event` to the installed event queue.
    ///
    /// Fails with `ResourceDoesNotExist` iff no queue resource is installed.
    pub fn emit_event(&mut self, event: DudoEvent, timestamp: u64) -> (r: Result<
        (),
        WorldResourceError,
    >)
        requires
            old(self).wf(),
        ensures
            old(self).has_resource(ResourceKind::EventQueue) <==> r is Ok,
            r matches Err(e) ==> *final(self) == *old(self)
                && e == WorldResourceError::ResourceDoesNotExist(ResourceKind::EventQueue),
            r is Ok ==> (
            {
                &&& final(self).wf()
                &&& final(self).event_queue() == old(self).event_queue().push(
                    Event { event, timestamp },
                )
                &&& forall|k2: ResourceKind|
                    k2 != ResourceKind::EventQueue ==> final(self).resource_value(k2) == old(
                        self,
                    ).resource_value(k2)
                &&& forall|k2: ResourceKind|
                    final(self).has_resource(k2) <==> old(self).has_resource(k2)
                &&& final(self).component_storages == old(self).component_storages
                &&& final(self).entities == old(self).entities
                &&& final(self).next_entity_id == old(self).next_entity_id
            }),
    {
        let res = match self.resource_mut(ResourceKind::EventQueue) {
            Ok(res) => res,
            Err(e) => {
                return Err(e);
            },
        };
        match res {
            ResourceValue::EventQueue(q) => {
                q.push(event, timestamp);
            },
            _ => {
                proof {
                    assert(false);
                }
            },
        }
        proof {
            World::lemma_resource_update_frame(
                *old(self),
                *self,
                old(self).resource_idx(ResourceKind::EventQueue),
            );
        }
        Ok(())
    }

    /// Removes and returns the front event of the installed queue, or `None`
    /// when it is empty.
    ///
    /// Fails with `ResourceDoesNotExist` iff no queue resource is installed.
    pub fn pop_event(&mut self) -> (r: Result<Option<Event<DudoEvent>>, WorldResourceError>)
        requires
            old(self).wf(),
        ensures
            old(self).has_resource(ResourceKind::EventQueue) <==> r is Ok,
            r matches Err(e) ==> *final(self) == *old(self)
                && e == WorldResourceError::ResourceDoesNotExist(ResourceKind::EventQueue),
            r matches Ok(opt) ==> (
            {
                &&& final(self).wf()
                &&& old(self).event_queue().len() == 0 ==> opt is None && final(self).event_queue()
                    == old(self).event_queue()
                &&& old(self).event_queue().len() > 0 ==> opt == Some(old(self).event_queue()[0])
                    && final(self).event_queue() == old(self).event_queue().drop_first()
                &&& forall|k2: ResourceKind|
                    k2 != ResourceKind::EventQueue ==> final(self).resource_value(k2) == old(
                        self,
                    ).resource_value(k2)
                &&& forall|k2: ResourceKind|
                    final(self).has_resource(k2) <==> old(self).has_resource(k2)
                &&& final(self).component_storages == old(self).component_storages
                &&& final(self).entities == old(self).entities
                &&& final(self).next_entity_id == old(self).next_entity_id
            }),
    {
        let res = match self.resource_mut(ResourceKind::EventQueue) {
            Ok(res) => res,
            Err(e) => {
                return Err(e);
            },
        };
        let out = match res {
            ResourceValue::EventQueue(q) => q.pop(),
            _ => {
                proof {
                    assert(false);
                }
                None
            },
        };
        proof {
            World::lemma_resource_update_frame(
                *old(self),
                *self,
                old(self).resource_idx(ResourceKind::EventQueue),
            );
        }
        Ok(out)
    }

    /// The position of `k`'s resource, if one exists.
    fn find_resource(&self, k: ResourceKind) -> (r: Option<usize>)
        ensures
            match r {
                Some(i) => i < self.resources@.len() && self.resources@[i as int].kind() == k,
                None => !self.has_resource(k),
            },
    {
        let n = self.resources.len();
        let mut i: usize = 0;
        while i < n
            invariant
                i <= n,
                n == self.resources@.len(),
                forall|j: int| 0 <= j < i ==> (#[trigger] self.resources@[j]).kind() != k,
            decreases n - i,
        {
            if self.resources[i].kind() == k {
                return Some(i);
            }
            i = i + 1;
        }
        None
    }
}

} // verus!
