//! Typed, recoverable failures of the component stores, the resource store,
//! and the game systems built on them.

use vstd::prelude::*;

use crate::components::ComponentKind;
use crate::resources::ResourceKind;

verus! {

/// Failures of component storage access.
#[derive(Copy, Clone, Debug, PartialEq, Eq, Structural)]
pub enum WorldStorageError {
    /// No store for this component kind has ever been created.
    ComponentStorageDoesNotExist(ComponentKind),
    /// The store exists, but this entity holds no such component.
    ComponentNotFoundForEntity { component: ComponentKind, entity: u64 },
    /// A value of another kind stood where `expected` was required.
    ComponentTypeMismatch { expected: ComponentKind },
}

/// Failures of resource access.
#[derive(Copy, Clone, Debug, PartialEq, Eq, Structural)]
pub enum WorldResourceError {
    /// No resource of this kind has been inserted.
    ResourceDoesNotExist(ResourceKind),
    /// A value of another kind stood where this kind was required.
    ResourceTypeMismatch(ResourceKind),
}

/// Failures of the game systems, layered over the storage errors.
#[derive(Copy, Clone, Debug, PartialEq, Eq, Structural)]
pub enum GameError {
    Storage(WorldStorageError),
    Resource(WorldResourceError),
    /// A challenge was resolved while no bid was standing.
    NoCurrentBid,
}

} // verus!
