//! Opaque entity handles and the fluent builder used to spawn them.

use vstd::prelude::*;

use crate::components::{ComponentKind, ComponentValue};
use crate::error::WorldStorageError;
use crate::world::World;

verus! {

/// An opaque handle identifying one logical game object.
///
/// It carries no data besides its id: it is purely a lookup key, issued by a
/// world's allocator and never reused.
#[derive(Debug, Eq, Hash, Clone, Copy, PartialEq, Structural)]
pub struct Entity {
    pub id: u64,
}

impl Entity {
    pub fn new(id: u64) -> (r: Entity)
        ensures
            r.id == id,
    {
        Entity { id }
    }
}

/// A fluent builder bound to one freshly spawned entity.
///
/// Each `with` step inserts one component for the bound entity into the
/// world it is given; components attached by earlier steps stay attached
/// whatever later steps do.
pub struct EntityBuilder {
    pub entity: Entity,
}

impl EntityBuilder {
    pub fn new(entity: Entity) -> (r: EntityBuilder)
        ensures
            r.entity == entity,
    {
        EntityBuilder { entity }
    }

    /// Inserts one component for the bound entity and hands the builder
    /// back for chaining. The result is always `Ok`; the error type is kept
    /// so that failures of the underlying insert would propagate.
    pub fn with(self, world: &mut World, component: ComponentValue) -> (r: Result<
        EntityBuilder,
        WorldStorageError,
    >)
        requires
            old(world).wf(),
        ensures
            r matches Ok(b) && b.entity == self.entity,
            final(world).wf(),
            final(world).component_value(component.kind(), self.entity) == Some(component),
            forall|k2: ComponentKind, e2: Entity|
                k2 != component.kind() || e2 != self.entity ==> final(world).component_value(
                    k2,
                    e2,
                ) == old(world).component_value(k2, e2),
            forall|k2: ComponentKind|
                final(world).has_storage(k2) <==> (old(world).has_storage(k2) || k2
                    == component.kind()),
            final(world).storage_keys(component.kind()) == (if old(world).has_component(
                component.kind(),
                self.entity,
            ) {
                old(world).storage_keys(component.kind())
            } else {
                old(world).storage_keys(component.kind()).push(self.entity)
            }),
            forall|k2: ComponentKind|
                k2 != component.kind() ==> final(world).storage_keys(k2) == old(
                    world,
                ).storage_keys(k2),
            final(world).resources == old(world).resources,
            final(world).entities == old(world).entities,
            final(world).next_entity_id == old(world).next_entity_id,
    {
        match world.insert_component(self.entity, component) {
            Ok(_) => Ok(self),
            Err(e) => Err(e),
        }
    }

    /// The bound entity; terminal operation.
    pub fn build(self) -> (r: Entity)
        ensures
            r == self.entity,
    {
        self.entity
    }
}

} // verus!
