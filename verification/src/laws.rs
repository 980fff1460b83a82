//! Laws the library states about its own operations, proved from the
//! public contracts.

use vstd::prelude::*;

use crate::components::ComponentValue;
use crate::entity_builder::Entity;
use crate::events::{Event, GameEvent};
use crate::resources::{ResourceKind, ResourceValue};
use crate::world::World;

verus! {

/// Once a component is attached to an entity — as `insert_component`
/// guarantees of the world it leaves behind — a query for that single kind
/// matches the entity.
pub proof fn lemma_inserted_component_visible(w: World, e: Entity, v: ComponentValue)
    requires
        w.wf(),
        w.component_value(v.kind(), e) == Some(v),
    ensures
        w.query_spec(seq![v.kind()]).contains(e),
{
    let kinds = seq![v.kind()];
    assert forall|j: int| 0 <= j < kinds.len() implies w.has_component(
        #[trigger] kinds[j],
        e,
    ) by {
        assert(j == 0);
    }
    w.lemma_query_characterization(kinds, e);
}

/// Installing a resource twice for one kind is a full replace: after the
/// two inserts the second value stands, and every other kind reads as it
/// did before either insert.
pub proof fn lemma_insert_resource_replaces(
    w0: World,
    w1: World,
    w2: World,
    v1: ResourceValue,
    v2: ResourceValue,
)
    requires
        v2.kind() == v1.kind(),
        w1.resource_value(v1.kind()) == Some(v1),
        forall|k2: ResourceKind| k2 != v1.kind() ==> w1.resource_value(k2) == w0.resource_value(k2),
        w2.resource_value(v2.kind()) == Some(v2),
        forall|k2: ResourceKind| k2 != v2.kind() ==> w2.resource_value(k2) == w1.resource_value(k2),
    ensures
        w2.resource_value(v1.kind()) == Some(v2),
        forall|k2: ResourceKind| k2 != v1.kind() ==> w2.resource_value(k2) == w0.resource_value(k2),
{
}

/// Event queues are strict FIFO: pushing two events onto an empty queue —
/// as `push` describes the queue it leaves behind — makes the first the
/// front, the second next, and nothing after; a drain returns exactly both
/// in that order.
pub proof fn lemma_event_queue_fifo<T: GameEvent>(
    q0: Seq<Event<T>>,
    q1: Seq<Event<T>>,
    q2: Seq<Event<T>>,
    e1: Event<T>,
    e2: Event<T>,
)
    requires
        q0.len() == 0,
        q1 == q0.push(e1),
        q2 == q1.push(e2),
    ensures
        q2 == seq![e1, e2],
        q2.len() > 0 && q2[0] == e1,
        q2.drop_first().len() > 0 && q2.drop_first()[0] == e2,
        q2.drop_first().drop_first().len() == 0,
{
    assert(q2 =~= seq![e1, e2]);
    assert(q2.drop_first() =~= seq![e2]);
}

/// Entity ids issued by consecutive `create_entity` calls — as its contract
/// describes the counter — are strictly increasing, so no id is ever
/// reused.
pub proof fn lemma_entity_ids_strictly_increase(w0: World, w1: World, e1: Entity, e2: Entity)
    requires
        e1.id == w0.next_entity_id,
        w1.next_entity_id == w0.next_entity_id + 1,
        e2.id == w1.next_entity_id,
    ensures
        e1.id < e2.id,
        e1 != e2,
{
}

/// All live entities of a well-formed world are pairwise distinct.
pub proof fn lemma_live_entities_distinct(w: World)
    requires
        w.wf(),
    ensures
        forall|i: int, j: int|
            0 <= i < j < w.entities@.len() ==> w.entities@[i] != w.entities@[j],
{
    assert forall|i: int, j: int|
        0 <= i < j < w.entities@.len() implies w.entities@[i] != w.entities@[j] by {
        assert(w.entities@[i].id < w.entities@[j].id);
    }
}

} // verus!
