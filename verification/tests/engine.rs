use dudo::{
    Bid, ComponentKind, ComponentValue, DudoEvent, Entity, EventQueue, GameState, Hand, Player,
    ResourceKind, ResourceValue, TurnOrder, World, WorldResourceError, WorldStorageError,
};

fn entity_with_bid(world: &mut World, quantity: u8, face: u8) -> Entity {
    let e = world.create_entity();
    world
        .insert_component(e, ComponentValue::Bid(Bid::new(e, quantity, face)))
        .unwrap();
    e
}

#[test]
fn inserted_component_can_be_read_back() {
    let mut world = World::new();
    let e = entity_with_bid(&mut world, 2, 5);
    match world.component(e, ComponentKind::Bid) {
        Ok(ComponentValue::Bid(b)) => {
            assert_eq!(*b, Bid::new(e, 2, 5));
        }
        _ => panic!("expected the bid back"),
    }
    let found = world.query(&[ComponentKind::Bid]);
    assert_eq!(found, vec![e]);
}

#[test]
fn insert_overwrites_prior_component() {
    let mut world = World::new();
    let e = entity_with_bid(&mut world, 2, 5);
    world
        .insert_component(e, ComponentValue::Bid(Bid::new(e, 4, 6)))
        .unwrap();
    match world.component(e, ComponentKind::Bid) {
        Ok(ComponentValue::Bid(b)) => assert_eq!(*b, Bid::new(e, 4, 6)),
        _ => panic!("expected the overwritten bid"),
    }
    assert_eq!(world.query(&[ComponentKind::Bid]).len(), 1);
}

#[test]
fn missing_store_and_missing_entity_are_distinct_errors() {
    let mut world = World::new();
    let e = world.create_entity();
    match world.component(e, ComponentKind::Hand) {
        Err(WorldStorageError::ComponentStorageDoesNotExist(k)) => {
            assert_eq!(k, ComponentKind::Hand);
        }
        _ => panic!("expected a missing store"),
    }
    let other = world.create_entity();
    world
        .insert_component(other, ComponentValue::Hand(Hand::new()))
        .unwrap();
    match world.component(e, ComponentKind::Hand) {
        Err(WorldStorageError::ComponentNotFoundForEntity { component, entity }) => {
            assert_eq!(component, ComponentKind::Hand);
            assert_eq!(entity, e.id);
        }
        _ => panic!("expected a missing component for the entity"),
    }
}

#[test]
fn query_is_strict_intersection() {
    let mut world = World::new();
    let e1 = world.create_entity();
    world.insert_component(e1, ComponentValue::Player(Player)).unwrap();
    world.insert_component(e1, ComponentValue::Hand(Hand::new())).unwrap();
    let e2 = world.create_entity();
    world.insert_component(e2, ComponentValue::Player(Player)).unwrap();

    let both = world.query(&[ComponentKind::Player, ComponentKind::Hand]);
    assert!(both.contains(&e1));
    assert!(!both.contains(&e2));
    let players = world.query(&[ComponentKind::Player]);
    assert!(players.contains(&e1));
    assert!(players.contains(&e2));
}

#[test]
fn query_for_unknown_kind_matches_nothing() {
    let mut world = World::new();
    let e = world.create_entity();
    world.insert_component(e, ComponentValue::Player(Player)).unwrap();
    assert_eq!(world.query(&[ComponentKind::Player, ComponentKind::Bid]), vec![]);
    assert_eq!(world.query(&[]), vec![]);
}

#[test]
fn storage_insert_rejects_foreign_kind() {
    let mut storage = dudo::ComponentStorage::new(ComponentKind::Hand);
    let e = Entity::new(0);
    match storage.insert(e, ComponentValue::Player(Player)) {
        Err(WorldStorageError::ComponentTypeMismatch { expected }) => {
            assert_eq!(expected, ComponentKind::Hand);
        }
        _ => panic!("expected a type mismatch"),
    }
    assert!(storage.insert(e, ComponentValue::Hand(Hand::new())).is_ok());
}

#[test]
fn resource_insert_is_full_replace() {
    let mut world = World::new();
    let mut gs1 = GameState::new();
    gs1.round = 1;
    world.insert_resource(ResourceValue::GameState(gs1));
    let mut gs2 = GameState::new();
    gs2.round = 9;
    world.insert_resource(ResourceValue::GameState(gs2));
    match world.resource(ResourceKind::GameState) {
        Ok(ResourceValue::GameState(g)) => assert_eq!(g.round, 9),
        _ => panic!("expected the second game state"),
    }
}

#[test]
fn missing_resource_is_an_error() {
    let world = World::new();
    match world.resource(ResourceKind::TurnOrder) {
        Err(WorldResourceError::ResourceDoesNotExist(k)) => {
            assert_eq!(k, ResourceKind::TurnOrder);
        }
        _ => panic!("expected a missing resource"),
    }
}

#[test]
fn resource_downcast_of_wrong_variant_is_type_mismatch() {
    let value = ResourceValue::TurnOrder(TurnOrder::new(vec![]));
    match value.as_game_state() {
        Err(WorldResourceError::ResourceTypeMismatch(k)) => {
            assert_eq!(k, ResourceKind::GameState);
        }
        _ => panic!("expected a type mismatch"),
    }
}

#[test]
fn entity_ids_strictly_increase() {
    let mut world = World::new();
    let mut last: Option<u64> = None;
    for _ in 0..10 {
        let e = world.create_entity();
        if let Some(prev) = last {
            assert!(prev < e.id);
        }
        last = Some(e.id);
    }
    assert_eq!(world.entities.len(), 10);
}

#[test]
fn event_queue_is_fifo() {
    let mut q: EventQueue<DudoEvent> = EventQueue::new();
    assert!(q.is_empty());
    assert!(q.pop().is_none());
    q.push(DudoEvent::RollDice, 10);
    q.push(DudoEvent::GameReady, 20);
    let first = q.pop().expect("first event");
    assert_eq!(first.event, DudoEvent::RollDice);
    assert_eq!(first.timestamp, 10);
    let second = q.pop().expect("second event");
    assert_eq!(second.event, DudoEvent::GameReady);
    assert_eq!(second.timestamp, 20);
    assert!(q.pop().is_none());
}

#[test]
fn drain_returns_all_in_order_and_empties() {
    let mut q: EventQueue<DudoEvent> = EventQueue::new();
    q.push(DudoEvent::RollDice, 1);
    q.push(DudoEvent::GameReady, 2);
    let drained = q.drain();
    assert_eq!(drained.len(), 2);
    assert_eq!(drained[0].event, DudoEvent::RollDice);
    assert_eq!(drained[1].event, DudoEvent::GameReady);
    assert!(q.is_empty());
}

#[test]
fn world_events_pass_through_the_queue_resource() {
    let mut world = World::new();
    match world.emit_event(DudoEvent::RollDice, 5) {
        Err(WorldResourceError::ResourceDoesNotExist(k)) => {
            assert_eq!(k, ResourceKind::EventQueue);
        }
        _ => panic!("expected a missing queue"),
    }
    world.insert_resource(ResourceValue::EventQueue(EventQueue::new()));
    world.emit_event(DudoEvent::RollDice, 5).unwrap();
    let ev = world.pop_event().unwrap().expect("one event");
    assert_eq!(ev.event, DudoEvent::RollDice);
    assert_eq!(ev.timestamp, 5);
    assert!(world.pop_event().unwrap().is_none());
}

#[test]
fn builder_attaches_components_to_its_entity() {
    let mut world = World::new();
    let b = world.spawn();
    let b = b.with(&mut world, ComponentValue::Player(Player)).unwrap();
    let b = b.with(&mut world, ComponentValue::Hand(Hand::new())).unwrap();
    let e = b.build();
    assert!(world.component(e, ComponentKind::Player).is_ok());
    assert!(world.component(e, ComponentKind::Hand).is_ok());
    assert!(world.component(e, ComponentKind::Gamertag).is_err());
}

#[test]
fn component_mut_changes_the_stored_value() {
    let mut world = World::new();
    let e = entity_with_bid(&mut world, 1, 1);
    match world.component_mut(e, ComponentKind::Bid) {
        Ok(ComponentValue::Bid(b)) => {
            b.quantity = 8;
        }
        _ => panic!("expected the bid"),
    }
    match world.component(e, ComponentKind::Bid) {
        Ok(ComponentValue::Bid(b)) => assert_eq!(b.quantity, 8),
        _ => panic!("expected the changed bid"),
    }
}
