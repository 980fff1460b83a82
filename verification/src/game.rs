//! Session setup: spawning the players with their components, installing
//! the resources one game needs, and the bid ordering rule.

use vstd::prelude::*;

use crate::components::{Bid, ComponentKind, ComponentValue, Dice, Gamertag, Hand, Player};
use crate::entity_builder::Entity;
use crate::error::WorldStorageError;
use crate::events::{DudoEvent, Event, EventQueue};
use crate::resources::{BidHistory, GamePhase, GameState, ResourceKind, ResourceValue, TurnOrder};
use crate::world::World;

verus! {

/// Whether `new_bid` outbids `prev_bid`: more dice, or as many dice of a
/// higher face.
pub fn is_higher_bid(new_bid: &Bid, prev_bid: &Bid) -> (r: bool)
    ensures
        r == (new_bid.quantity > prev_bid.quantity || (new_bid.quantity == prev_bid.quantity
            && new_bid.face > prev_bid.face)),
{
    if new_bid.quantity > prev_bid.quantity {
        return true;
    }
    if new_bid.quantity == prev_bid.quantity && new_bid.face > prev_bid.face {
        return true;
    }
    false
}

/// `e` carries the full player outfit: the player marker, the gamertag
/// `name`, and a fresh hand of five unrolled dice.
pub open spec fn player_set_up(w: World, e: Entity, name: Seq<char>) -> bool {
    &&& w.component_value(ComponentKind::Player, e) == Some(ComponentValue::Player(Player))
    &&& (match w.component_value(ComponentKind::Gamertag, e) {
        Some(ComponentValue::Gamertag(g)) => g.name@ == name,
        _ => false,
    })
    &&& (match w.component_value(ComponentKind::Hand, e) {
        Some(ComponentValue::Hand(h)) => h.dice@.len() == 5 && (forall|x: int|
            0 <= x < 5 ==> h.dice@[x] == (Dice { face: None })),
        _ => false,
    })
}

/// Spawns one entity per name and outfits each with a player marker, its
/// gamertag, and a fresh hand. Always succeeds; the error type is kept so
/// that failures of the underlying inserts would propagate.
pub fn add_players(world: &mut World, player_names: Vec<String>) -> (r: Result<
    Vec<Entity>,
    WorldStorageError,
>)
    requires
        old(world).wf(),
        old(world).next_entity_id + player_names@.len() <= u64::MAX,
    ensures
        r is Ok,
        final(world).wf(),
        r matches Ok(players) ==> (
        {
            &&& players@.len() == player_names@.len()
            &&& forall|x: int|
                0 <= x < players@.len() ==> (#[trigger] players@[x]).id == old(
                    world,
                ).next_entity_id + x
            &&& final(world).next_entity_id == old(world).next_entity_id + player_names@.len()
            &&& final(world).entities@ == old(world).entities@ + players@
            &&& forall|x: int|
                0 <= x < players@.len() ==> player_set_up(
                    *final(world),
                    #[trigger] players@[x],
                    player_names@[x]@,
                )
            &&& forall|k2: ComponentKind, e2: Entity|
                !players@.contains(e2) ==> final(world).component_value(k2, e2) == old(
                    world,
                ).component_value(k2, e2)
            &&& final(world).resources == old(world).resources
        }),
{
    let mut players: Vec<Entity> = Vec::new();
    let n = player_names.len();
    let mut i: usize = 0;
    while i < n
        invariant
            i <= n,
            n == player_names@.len(),
            world.wf(),
            old(world).next_entity_id + n <= u64::MAX,
            world.next_entity_id == old(world).next_entity_id + i,
            world.entities@ == old(world).entities@ + players@,
            players@.len() == i,
            forall|x: int|
                0 <= x < i ==> (#[trigger] players@[x]).id == old(world).next_entity_id + x,
            forall|x: int|
                0 <= x < i ==> player_set_up(*world, #[trigger] players@[x], player_names@[x]@),
            forall|k2: ComponentKind, e2: Entity|
                !players@.contains(e2) ==> world.component_value(k2, e2) == old(
                    world,
                ).component_value(k2, e2),
            world.resources == old(world).resources,
        decreases n - i,
    {
        let name = player_names[i].clone();
        let ghost w0 = *world;
        let ghost players0 = players@;
        let b = world.spawn();
        let e = b.entity;
        let b = match b.with(world, ComponentValue::Player(Player)) {
            Ok(b) => b,
            Err(err) => {
                return Err(err);
            },
        };
        let b = match b.with(world, ComponentValue::Gamertag(Gamertag::new(name))) {
            Ok(b) => b,
            Err(err) => {
                return Err(err);
            },
        };
        let b = match b.with(world, ComponentValue::Hand(Hand::new())) {
            Ok(b) => b,
            Err(err) => {
                return Err(err);
            },
        };
        let player = b.build();
        players.push(player);
        proof {
            assert(player == e);
            assert(world.entities@ =~= old(world).entities@ + players@);
            assert forall|x: int| 0 <= x < players@.len() implies player_set_up(
                *world,
                #[trigger] players@[x],
                player_names@[x]@,
            ) by {
                if x < players0.len() {
                    assert(players0[x] == players@[x]);
                    assert(players@[x].id < w0.next_entity_id);
                    assert(players@[x] != e);
                }
            }
            assert forall|k2: ComponentKind, e2: Entity| !players@.contains(
                e2,
            ) implies world.component_value(k2, e2) == old(world).component_value(k2, e2) by {
                assert(players@[players@.len() - 1] == e);
                assert(e2 != e);
                if players0.contains(e2) {
                    let ii = choose|ii: int| 0 <= ii < players0.len() && players0[ii] == e2;
                    assert(players@[ii] == e2);
                } else {
                    assert(w0.component_value(k2, e2) == old(world).component_value(k2, e2));
                }
            }
        }
        i = i + 1;
    }
    Ok(players)
}

/// Builds the world for one game session: installs the event queue, a fresh
/// game state, an empty bid history, spawns one fully outfitted entity per
/// player name, and seats them in that order.
pub fn setup_game(player_names: Vec<String>) -> (r: Result<World, WorldStorageError>)
    requires
        player_names@.len() <= u64::MAX,
    ensures
        r is Ok,
        r matches Ok(w) ==> (
        {
            &&& w.wf()
            &&& w.has_resource(ResourceKind::EventQueue)
            &&& w.event_queue() == Seq::<Event<DudoEvent>>::empty()
            &&& (match w.resource_value(ResourceKind::GameState) {
                Some(ResourceValue::GameState(g)) => g.round == 1 && g.current_bid is None
                    && g.phase == GamePhase::Bidding,
                _ => false,
            })
            &&& (match w.resource_value(ResourceKind::BidHistory) {
                Some(ResourceValue::BidHistory(b)) => b.bids@.len() == 0,
                _ => false,
            })
            &&& (match w.resource_value(ResourceKind::TurnOrder) {
                Some(ResourceValue::TurnOrder(t)) => t.current_index == 0 && t.players@.len()
                    == player_names@.len() && (forall|x: int|
                    0 <= x < t.players@.len() ==> (#[trigger] t.players@[x]).id == x
                        && player_set_up(w, t.players@[x], player_names@[x]@)),
                _ => false,
            })
        }),
{
    let mut world = World::new();
    world.insert_resource(ResourceValue::EventQueue(EventQueue::new()));
    world.insert_resource(ResourceValue::GameState(GameState::new()));
    world.insert_resource(ResourceValue::BidHistory(BidHistory::new()));
    let players = match add_players(&mut world, player_names) {
        Ok(p) => p,
        Err(e) => {
            return Err(e);
        },
    };
    world.insert_resource(ResourceValue::TurnOrder(TurnOrder::new(players)));
    Ok(world)
}

} // verus!
