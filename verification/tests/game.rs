use dudo::{
    count_total_dice, is_higher_bid, process_events, remove_die_from_player, resolve_challenge,
    roll_hand, Bid, ComponentKind, ComponentValue, Dice, DudoEvent, Entity, GameError, GamePhase,
    Hand, PlaceBidSystem, ResourceKind, ResourceValue, RollDiceSystem, World,
};

fn names(list: &[&str]) -> Vec<String> {
    list.iter().map(|s| String::from(*s)).collect()
}

fn game_state_of(world: &World) -> dudo::GameState {
    match world.resource(ResourceKind::GameState) {
        Ok(ResourceValue::GameState(g)) => dudo::GameState {
            round: g.round,
            current_bid: g.current_bid,
            phase: g.phase,
        },
        _ => panic!("expected a game state"),
    }
}

fn seated_players(world: &World) -> Vec<Entity> {
    match world.resource(ResourceKind::TurnOrder) {
        Ok(ResourceValue::TurnOrder(t)) => t.players.clone(),
        _ => panic!("expected a turn order"),
    }
}

fn set_hand(world: &mut World, e: Entity, faces: &[u8]) {
    let dice = faces.iter().map(|f| Dice { face: Some(*f) }).collect();
    world
        .insert_component(e, ComponentValue::Hand(Hand { dice }))
        .unwrap();
}

#[test]
fn setup_game_installs_everything() {
    let world = dudo::setup_game(names(&["ana", "bo", "cy"])).unwrap();
    let state = game_state_of(&world);
    assert_eq!(state.round, 1);
    assert_eq!(state.current_bid, None);
    assert_eq!(state.phase, GamePhase::Bidding);
    let players = seated_players(&world);
    assert_eq!(players.len(), 3);
    for (i, p) in players.iter().enumerate() {
        assert_eq!(p.id, i as u64);
        match world.component(*p, ComponentKind::Gamertag) {
            Ok(ComponentValue::Gamertag(tag)) => {
                assert_eq!(tag.name, ["ana", "bo", "cy"][i]);
            }
            _ => panic!("expected a gamertag"),
        }
    }
}

#[test]
fn three_spawned_players_match_the_query_in_order() {
    let world = dudo::setup_game(names(&["p1", "p2", "p3"])).unwrap();
    let players = seated_players(&world);
    let found = world.query(&[ComponentKind::Player, ComponentKind::Hand]);
    assert_eq!(found, players);
}

#[test]
fn turn_order_advances_and_wraps() {
    let world = dudo::setup_game(names(&["a", "b"])).unwrap();
    let mut order = match world.resource(ResourceKind::TurnOrder) {
        Ok(ResourceValue::TurnOrder(t)) => dudo::TurnOrder::new(t.players.clone()),
        _ => panic!("expected a turn order"),
    };
    let first = order.current_player();
    assert_eq!(order.player_count(), 2);
    assert_eq!(order.previous_player().id, 1);
    let second = order.advance();
    assert_ne!(first, second);
    let wrapped = order.advance();
    assert_eq!(wrapped, first);
}

#[test]
fn bid_history_remembers_and_clears() {
    let mut history = dudo::BidHistory::new();
    assert!(history.last_bid().is_none());
    history.bids.push(Bid::new(Entity::new(0), 2, 3));
    history.bids.push(Bid::new(Entity::new(1), 3, 3));
    assert_eq!(history.last_bid().unwrap().quantity, 3);
    history.clear_round();
    assert!(history.last_bid().is_none());
}

#[test]
fn place_bid_records_the_current_bid() {
    let mut world = dudo::setup_game(names(&["a", "b"])).unwrap();
    let players = seated_players(&world);
    PlaceBidSystem::run(&mut world, players[0], 3, 4).unwrap();
    let state = game_state_of(&world);
    assert_eq!(state.current_bid, Some(Bid::new(players[0], 3, 4)));
}

#[test]
fn roll_dice_system_rolls_only_at_round_start() {
    let mut world = dudo::setup_game(names(&["a", "b"])).unwrap();
    let players = seated_players(&world);
    RollDiceSystem::run(&mut world).unwrap();
    match world.component(players[0], ComponentKind::Hand) {
        Ok(ComponentValue::Hand(h)) => {
            assert!(h.dice.iter().all(|d| d.face.is_none()));
        }
        _ => panic!("expected a hand"),
    }

    match world.resource_mut(ResourceKind::GameState) {
        Ok(ResourceValue::GameState(g)) => g.phase = GamePhase::RoundStart,
        _ => panic!("expected a game state"),
    }
    RollDiceSystem::run(&mut world).unwrap();
    assert_eq!(game_state_of(&world).phase, GamePhase::Bidding);
    for p in players {
        match world.component(p, ComponentKind::Hand) {
            Ok(ComponentValue::Hand(h)) => {
                assert_eq!(h.dice.len(), 5);
                for d in &h.dice {
                    let f = d.face.expect("every die rolled");
                    assert!((1..=6).contains(&f));
                }
            }
            _ => panic!("expected a hand"),
        }
    }
}

#[test]
fn rolled_hand_stays_in_range() {
    let mut hand = Hand::new();
    roll_hand(&mut hand);
    assert_eq!(hand.dice.len(), 5);
    for d in &hand.dice {
        let f = d.face.expect("rolled");
        assert!((1..=6).contains(&f));
    }
}

#[test]
fn count_total_dice_counts_exactly() {
    let mut world = dudo::setup_game(names(&["a", "b", "c"])).unwrap();
    let players = seated_players(&world);
    set_hand(&mut world, players[0], &[4, 4, 1, 2, 6]);
    set_hand(&mut world, players[1], &[4, 3, 3, 5, 5]);
    set_hand(&mut world, players[2], &[2, 2, 4, 4, 1]);
    assert_eq!(count_total_dice(&world, 4).unwrap(), 5);
    assert_eq!(count_total_dice(&world, 3).unwrap(), 2);
    assert_eq!(count_total_dice(&world, 6).unwrap(), 1);
}

#[test]
fn resolve_challenge_picks_the_loser() {
    let mut world = dudo::setup_game(names(&["a", "b"])).unwrap();
    let players = seated_players(&world);
    set_hand(&mut world, players[0], &[4, 4, 1, 1, 1]);
    set_hand(&mut world, players[1], &[4, 2, 2, 2, 2]);

    match resolve_challenge(&world, players[1], players[0]) {
        Err(GameError::NoCurrentBid) => {}
        _ => panic!("expected no current bid"),
    }

    PlaceBidSystem::run(&mut world, players[0], 3, 4).unwrap();
    assert_eq!(
        resolve_challenge(&world, players[1], players[0]).unwrap(),
        players[1]
    );

    PlaceBidSystem::run(&mut world, players[0], 4, 4).unwrap();
    assert_eq!(
        resolve_challenge(&world, players[1], players[0]).unwrap(),
        players[0]
    );
}

#[test]
fn remove_die_shrinks_the_hand() {
    let mut world = dudo::setup_game(names(&["a"])).unwrap();
    let players = seated_players(&world);
    set_hand(&mut world, players[0], &[1, 2, 3, 4, 5]);
    let removed = remove_die_from_player(&mut world, players[0])
        .unwrap()
        .expect("a die");
    match world.component(players[0], ComponentKind::Hand) {
        Ok(ComponentValue::Hand(h)) => {
            assert_eq!(h.dice.len(), 4);
            assert!((1..=5).contains(&removed.face.unwrap()));
        }
        _ => panic!("expected a hand"),
    }
}

#[test]
fn systems_fail_without_their_resources() {
    let mut world = World::new();
    match PlaceBidSystem::run(&mut world, Entity::new(0), 1, 1) {
        Err(GameError::Resource(e)) => {
            assert_eq!(
                e,
                dudo::WorldResourceError::ResourceDoesNotExist(ResourceKind::GameState)
            );
        }
        _ => panic!("expected a missing game state"),
    }
    match RollDiceSystem::run(&mut world) {
        Err(GameError::Resource(_)) => {}
        _ => panic!("expected a missing game state"),
    }
}

#[test]
fn removing_a_die_from_a_handless_entity_is_a_storage_error() {
    let mut world = World::new();
    let e = world.create_entity();
    match remove_die_from_player(&mut world, e) {
        Err(GameError::Storage(_)) => {}
        _ => panic!("expected a storage error"),
    }
}

#[test]
fn is_higher_bid_orders_by_quantity_then_face() {
    let e = Entity::new(0);
    assert!(is_higher_bid(&Bid::new(e, 4, 2), &Bid::new(e, 3, 6)));
    assert!(is_higher_bid(&Bid::new(e, 3, 5), &Bid::new(e, 3, 4)));
    assert!(!is_higher_bid(&Bid::new(e, 3, 4), &Bid::new(e, 3, 4)));
    assert!(!is_higher_bid(&Bid::new(e, 2, 6), &Bid::new(e, 3, 1)));
}

#[test]
fn emitted_events_drain_in_order_with_timestamps() {
    let mut world = dudo::setup_game(names(&["a", "b"])).unwrap();
    let players = seated_players(&world);
    world.emit_event(DudoEvent::RollDice, 100).unwrap();
    world
        .emit_event(
            DudoEvent::BidMade { player: players[0], quantity: 3, face: 4 },
            150,
        )
        .unwrap();
    let drained = match world.resource_mut(ResourceKind::EventQueue) {
        Ok(ResourceValue::EventQueue(q)) => q.drain(),
        _ => panic!("expected the queue"),
    };
    assert_eq!(drained.len(), 2);
    assert_eq!(drained[0].event, DudoEvent::RollDice);
    match drained[1].event {
        DudoEvent::BidMade { player, quantity, face } => {
            assert_eq!(player, players[0]);
            assert_eq!(quantity, 3);
            assert_eq!(face, 4);
        }
        _ => panic!("expected the bid event"),
    }
    assert!(drained[0].timestamp <= drained[1].timestamp);
    match world.resource(ResourceKind::EventQueue) {
        Ok(ResourceValue::EventQueue(q)) => assert!(q.is_empty()),
        _ => panic!("expected the queue"),
    }
}

#[test]
fn process_events_dispatches_and_empties_the_queue() {
    let mut world = dudo::setup_game(names(&["a", "b"])).unwrap();
    let players = seated_players(&world);
    world.emit_event(DudoEvent::GameReady, 1).unwrap();
    world
        .emit_event(
            DudoEvent::BidMade { player: players[1], quantity: 2, face: 6 },
            2,
        )
        .unwrap();
    process_events(&mut world).unwrap();
    let state = game_state_of(&world);
    assert_eq!(state.current_bid, Some(Bid::new(players[1], 2, 6)));
    assert!(world.pop_event().unwrap().is_none());
}
