//! The game systems: rolling dice, placing bids, resolving challenges, and
//! the event dispatch loop that drives them.

use vstd::prelude::*;

use crate::components::{Bid, ComponentKind, ComponentValue, Dice, Hand};
use crate::entity_builder::Entity;
use crate::error::{GameError, WorldResourceError, WorldStorageError};
use crate::events::{DudoEvent, Event};
use crate::resources::{GamePhase, ResourceKind, ResourceValue};
use crate::world::World;

verus! {

/// Relies on rand::random_range over `0..bound`: it panics only on an empty
/// range and returns a uniform sample within the range.
#[verifier::external_body]
fn random_below(bound: usize) -> (r: usize)
    requires
        bound > 0,
    ensures
        r < bound,
{
    rand::random_range(0..bound)
}

/// A die that has been rolled: its face shows one through six.
pub open spec fn die_rolled(d: Dice) -> bool {
    match d.face {
        Some(f) => 1 <= f <= 6,
        None => false,
    }
}

/// Rolls one die to a face between one and six.
pub fn roll_dice(dice: &mut Dice)
    ensures
        die_rolled(*final(dice)),
{
    let f = random_below(6);
    dice.face = Some((f + 1) as u8);
}

/// Rolls every die of a hand; the hand keeps its size.
pub fn roll_hand(hand: &mut Hand)
    ensures
        final(hand).dice@.len() == old(hand).dice@.len(),
        forall|i: int|
            0 <= i < final(hand).dice@.len() ==> die_rolled(#[trigger] final(hand).dice@[i]),
{
    let n = hand.dice.len();
    let mut i: usize = 0;
    while i < n
        invariant
            i <= n,
            n == hand.dice@.len(),
            forall|j: int| 0 <= j < i ==> die_rolled(#[trigger] hand.dice@[j]),
        decreases n - i,
    {
        let mut d = hand.dice[i];
        roll_dice(&mut d);
        hand.dice[i] = d;
        i = i + 1;
    }
}

/// The system that records a bid.
pub struct PlaceBidSystem;

impl PlaceBidSystem {
    /// Sets the current bid of the game state to `player`'s bid.
    ///
    /// Fails iff no game state resource is installed; nothing else of the
    /// world changes.
    pub fn run(world: &mut World, player: Entity, quantity: u8, face: u8) -> (r: Result<
        (),
        GameError,
    >)
        requires
            old(world).wf(),
        ensures
            old(world).has_resource(ResourceKind::GameState) <==> r is Ok,
            r matches Err(e) ==> *final(world) == *old(world) && e == GameError::Resource(
                WorldResourceError::ResourceDoesNotExist(ResourceKind::GameState),
            ),
            r is Ok ==> (
            {
                &&& final(world).wf()
                &&& (match (
                    old(world).resource_value(ResourceKind::GameState),
                    final(world).resource_value(ResourceKind::GameState),
                ) {
                    (
                        Some(ResourceValue::GameState(g0)),
                        Some(ResourceValue::GameState(g1)),
                    ) => g1.current_bid == Some(Bid { player, quantity, face }) && g1.round
                        == g0.round && g1.phase == g0.phase,
                    _ => false,
                })
                &&& forall|k2: ResourceKind|
                    k2 != ResourceKind::GameState ==> final(world).resource_value(k2) == old(world).resource_value(k2)
                &&& forall|k2: ResourceKind|
                    final(world).has_resource(k2) <==> old(world).has_resource(k2)
                &&& final(world).component_storages == old(world).component_storages
                &&& final(world).entities == old(world).entities
                &&& final(world).next_entity_id == old(world).next_entity_id
            }),
    {
        let res = match world.resource_mut(ResourceKind::GameState) {
            Ok(res) => res,
            Err(e) => {
                return Err(GameError::Resource(e));
            },
        };
        match res {
            ResourceValue::GameState(gs) => {
                gs.current_bid = Some(Bid::new(player, quantity, face));
            },
            _ => {
                proof {
                    assert(false);
                }
            },
        }
        proof {
            World::lemma_resource_update_frame(
                *old(world),
                *world,
                old(world).resource_idx(ResourceKind::GameState),
            );
        }
        Ok(())
    }
}

/// What one hand became when the dice were rolled: same size, every face
/// showing one through six.
pub open spec fn hand_rolled_from(pre: Option<ComponentValue>, post: Option<ComponentValue>) -> bool {
    match (pre, post) {
        (Some(ComponentValue::Hand(h0)), Some(ComponentValue::Hand(h1))) => h1.dice@.len()
            == h0.dice@.len() && (forall|i: int|
            0 <= i < h1.dice@.len() ==> die_rolled(#[trigger] h1.dice@[i])),
        _ => false,
    }
}

/// `w1` is `w0` with exactly the hands of the entities in `rolled` re-rolled.
pub open spec fn hands_rolled_except(w0: World, w1: World, rolled: Seq<Entity>) -> bool {
    &&& w1.wf()
    &&& forall|k2: ComponentKind, e2: Entity|
        k2 != ComponentKind::Hand || !rolled.contains(e2) ==> w1.component_value(k2, e2)
            == w0.component_value(k2, e2)
    &&& forall|e2: Entity|
        rolled.contains(e2) ==> hand_rolled_from(
            w0.component_value(ComponentKind::Hand, e2),
            w1.component_value(ComponentKind::Hand, e2),
        )
    &&& forall|k2: ComponentKind| w1.has_storage(k2) <==> w0.has_storage(k2)
    &&& forall|k2: ComponentKind| w1.storage_keys(k2) == w0.storage_keys(k2)
    &&& w1.resources == w0.resources
    &&& w1.entities == w0.entities
    &&& w1.next_entity_id == w0.next_entity_id
}

/// The system that rolls every player's hand at the start of a round.
pub struct RollDiceSystem;

impl RollDiceSystem {
    /// When the round is starting, rolls the hand of every entity holding
    /// both a player marker and a hand, then moves the phase to bidding.
    ///
    /// Fails iff no game state resource is installed; nothing else of the
    /// world changes in that case.
    pub fn run(world: &mut World) -> (r: Result<(), GameError>)
        requires
            old(world).wf(),
        ensures
            old(world).has_resource(ResourceKind::GameState) <==> r is Ok,
            r matches Err(e) ==> *final(world) == *old(world) && e == GameError::Resource(
                WorldResourceError::ResourceDoesNotExist(ResourceKind::GameState),
            ),
            r is Ok ==> (
            {
                let rolled = if old(world).game_phase() == Some(GamePhase::RoundStart) {
                    old(world).query_spec(seq![ComponentKind::Player, ComponentKind::Hand])
                } else {
                    Seq::<Entity>::empty()
                };
                &&& final(world).wf()
                &&& forall|k2: ComponentKind, e2: Entity|
                    k2 != ComponentKind::Hand || !rolled.contains(e2) ==> final(world).component_value(k2, e2) == old(world).component_value(k2, e2)
                &&& forall|e2: Entity|
                    rolled.contains(e2) ==> hand_rolled_from(
                        old(world).component_value(ComponentKind::Hand, e2),
                        final(world).component_value(ComponentKind::Hand, e2),
                    )
                &&& forall|k2: ComponentKind|
                    final(world).has_storage(k2) <==> old(world).has_storage(k2)
                &&& forall|k2: ComponentKind|
                    final(world).storage_keys(k2) == old(world).storage_keys(k2)
                &&& (match (
                    old(world).resource_value(ResourceKind::GameState),
                    final(world).resource_value(ResourceKind::GameState),
                ) {
                    (
                        Some(ResourceValue::GameState(g0)),
                        Some(ResourceValue::GameState(g1)),
                    ) => g1.phase == GamePhase::Bidding && g1.round == g0.round && g1.current_bid
                        == g0.current_bid,
                    _ => false,
                })
                &&& forall|k2: ResourceKind|
                    k2 != ResourceKind::GameState ==> final(world).resource_value(k2) == old(world).resource_value(k2)
                &&& forall|k2: ResourceKind|
                    final(world).has_resource(k2) <==> old(world).has_resource(k2)
                &&& final(world).entities == old(world).entities
                &&& final(world).next_entity_id == old(world).next_entity_id
            }),
    {
        let mut kinds: Vec<ComponentKind> = Vec::new();
        kinds.push(ComponentKind::Player);
        kinds.push(ComponentKind::Hand);
        proof {
            assert(kinds@ =~= seq![ComponentKind::Player, ComponentKind::Hand]);
        }
        let players_to_roll = world.query(kinds.as_slice());
        let ghost w0 = *old(world);
        let state = match world.resource(ResourceKind::GameState) {
            Ok(res) => res,
            Err(e) => {
                return Err(GameError::Resource(e));
            },
        };
        let phase = match state.as_game_state() {
            Ok(gs) => gs.phase,
            Err(_) => {
                proof {
                    assert(false);
                }
                GamePhase::Bidding
            },
        };
        if phase == GamePhase::RoundStart {
            let n = players_to_roll.len();
            let mut x: usize = 0;
            while x < n
                invariant
                    x <= n,
                    n == players_to_roll@.len(),
                    w0.wf(),
                    players_to_roll@ == w0.query_spec(
                        seq![ComponentKind::Player, ComponentKind::Hand],
                    ),
                    hands_rolled_except(w0, *world, players_to_roll@.take(x as int)),
                decreases n - x,
            {
                let e = players_to_roll[x];
                proof {
                    assert(players_to_roll@.contains(e));
                    w0.lemma_query_characterization(
                        seq![ComponentKind::Player, ComponentKind::Hand],
                        e,
                    );
                    assert(w0.has_component(ComponentKind::Hand, e));
                }
                let ghost wi = *world;
                match world.component_mut(e, ComponentKind::Hand) {
                    Ok(v) => {
                        match v {
                            ComponentValue::Hand(h) => {
                                roll_hand(h);
                            },
                            _ => {
                                proof {
                                    assert(false);
                                }
                            },
                        }
                        proof {
                            let c = world.component_storages@[wi.storage_idx(
                                ComponentKind::Hand,
                            )].entries@[wi.storage_for(ComponentKind::Hand).index_of(e)].1;
                            World::lemma_component_update_frame(
                                wi,
                                *world,
                                ComponentKind::Hand,
                                e,
                                c,
                            );
                            assert(players_to_roll@.take(x + 1 as int) =~= players_to_roll@.take(
                                x as int,
                            ).push(e));
                            assert forall|e2: Entity|
                                players_to_roll@.take(x + 1 as int).contains(
                                    e2,
                                ) implies hand_rolled_from(
                                w0.component_value(ComponentKind::Hand, e2),
                                world.component_value(ComponentKind::Hand, e2),
                            ) by {
                                if e2 != e {
                                    assert(players_to_roll@.take(x as int).contains(e2));
                                }
                            }
                            assert forall|k2: ComponentKind, e2: Entity|
                                k2 != ComponentKind::Hand || !players_to_roll@.take(
                                    x + 1 as int,
                                ).contains(e2) implies world.component_value(k2, e2)
                                == w0.component_value(k2, e2) by {
                                let t1 = players_to_roll@.take(x + 1 as int);
                                let t0 = players_to_roll@.take(x as int);
                                if k2 == ComponentKind::Hand && e2 == e {
                                    assert(t1[x as int] == e);
                                    assert(t1.contains(e2));
                                } else {
                                    assert(world.component_value(k2, e2) == wi.component_value(
                                        k2,
                                        e2,
                                    ));
                                    if k2 == ComponentKind::Hand && t0.contains(e2) {
                                        let ii = choose|ii: int|
                                            0 <= ii < t0.len() && t0[ii] == e2;
                                        assert(t1[ii] == e2);
                                        assert(t1.contains(e2));
                                    } else {
                                        assert(wi.component_value(k2, e2) == w0.component_value(
                                            k2,
                                            e2,
                                        ));
                                    }
                                }
                            }
                        }
                    },
                    Err(_) => {
                        proof {
                            assert(false);
                        }
                    },
                }
                x = x + 1;
            }
            proof {
                assert(players_to_roll@.take(n as int) =~= players_to_roll@);
            }
        }
        let ghost w1 = *world;
        let res = match world.resource_mut(ResourceKind::GameState) {
            Ok(res) => res,
            Err(_) => {
                proof {
                    assert(false);
                }
                return Err(
                    GameError::Resource(
                        WorldResourceError::ResourceDoesNotExist(ResourceKind::GameState),
                    ),
                );
            },
        };
        match res {
            ResourceValue::GameState(gs) => {
                gs.phase = GamePhase::Bidding;
            },
            _ => {
                proof {
                    assert(false);
                }
            },
        }
        proof {
            World::lemma_resource_update_frame(
                w1,
                *world,
                w1.resource_idx(ResourceKind::GameState),
            );
        }
        Ok(())
    }
}

/// How many dice in `dice` show `face`.
pub open spec fn count_face(dice: Seq<Dice>, face: u8) -> nat
    decreases dice.len(),
{
    if dice.len() == 0 {
        0
    } else {
        count_face(dice.drop_last(), face) + (if dice.last().face == Some(face) {
            1nat
        } else {
            0nat
        })
    }
}

proof fn lemma_count_face_le(dice: Seq<Dice>, face: u8)
    ensures
        count_face(dice, face) <= dice.len(),
    decreases dice.len(),
{
    if dice.len() > 0 {
        lemma_count_face_le(dice.drop_last(), face);
    }
}

/// Counts the dice of one hand showing `face`.
fn count_in_dice(dice: &Vec<Dice>, face: u8) -> (r: usize)
    ensures
        r == count_face(dice@, face),
{
    let n = dice.len();
    let mut count: usize = 0;
    let mut i: usize = 0;
    while i < n
        invariant
            i <= n,
            n == dice@.len(),
            count == count_face(dice@.take(i as int), face),
            count <= i,
        decreases n - i,
    {
        proof {
            assert(dice@.take(i + 1 as int).drop_last() =~= dice@.take(i as int));
            assert(dice@.take(i + 1 as int).last() == dice@[i as int]);
        }
        let matches_face = match dice[i].face {
            Some(f) => f == face,
            None => false,
        };
        if matches_face {
            count = count + 1;
        }
        i = i + 1;
    }
    proof {
        assert(dice@.take(n as int) =~= dice@);
    }
    count
}

/// The hand component attached to `e`, if any.
pub open spec fn hand_of(w: World, e: Entity) -> Option<Hand> {
    match w.component_value(ComponentKind::Hand, e) {
        Some(ComponentValue::Hand(h)) => Some(h),
        _ => None,
    }
}

/// How many dice across the hands of `players` show `face`; a player
/// without a hand contributes nothing.
pub open spec fn total_face(w: World, players: Seq<Entity>, face: u8) -> nat
    decreases players.len(),
{
    if players.len() == 0 {
        0
    } else {
        total_face(w, players.drop_last(), face) + (match hand_of(w, players.last()) {
            Some(h) => count_face(h.dice@, face),
            None => 0nat,
        })
    }
}

proof fn lemma_total_face_prefix_le(w: World, players: Seq<Entity>, face: u8, i: int)
    requires
        0 <= i <= players.len(),
    ensures
        total_face(w, players.take(i), face) <= total_face(w, players, face),
    decreases players.len() - i,
{
    if i == players.len() {
        assert(players.take(i) =~= players);
    } else {
        assert(players.take(i + 1).drop_last() =~= players.take(i));
        lemma_total_face_prefix_le(w, players, face, i + 1);
    }
}

/// The seating order of the installed turn order resource; empty when none
/// is installed.
pub open spec fn turn_players(w: World) -> Seq<Entity> {
    match w.resource_value(ResourceKind::TurnOrder) {
        Some(ResourceValue::TurnOrder(t)) => t.players@,
        _ => Seq::<Entity>::empty(),
    }
}

/// The position of the first player in `players` without a hand component.
pub open spec fn first_without_hand(w: World, players: Seq<Entity>) -> int {
    choose|j: int|
        0 <= j < players.len() && !w.has_component(ComponentKind::Hand, players[j]) && (forall|
            x: int,
        |
            0 <= x < j ==> w.has_component(ComponentKind::Hand, #[trigger] players[x]))
}

/// Counts the dice across all seated players' hands that show `face`.
///
/// Fails with `ResourceDoesNotExist` iff no turn order is installed, and
/// with the storage error of the first seated player without a hand.
pub fn count_total_dice(world: &World, face: u8) -> (r: Result<usize, GameError>)
    requires
        world.wf(),
        total_face(*world, turn_players(*world), face) <= usize::MAX,
    ensures
        !world.has_resource(ResourceKind::TurnOrder) ==> r == Err::<usize, GameError>(
            GameError::Resource(WorldResourceError::ResourceDoesNotExist(ResourceKind::TurnOrder)),
        ),
        world.has_resource(ResourceKind::TurnOrder) ==> (
        {
            let players = turn_players(*world);
            &&& (r is Ok <==> (forall|j: int|
                0 <= j < players.len() ==> world.has_component(
                    ComponentKind::Hand,
                    #[trigger] players[j],
                )))
            &&& r matches Ok(c) ==> c == total_face(*world, players, face)
            &&& r matches Err(e) ==> (
            {
                let j = first_without_hand(*world, players);
                &&& 0 <= j < players.len()
                &&& !world.has_component(ComponentKind::Hand, players[j])
                &&& e == GameError::Storage(
                    if !world.has_storage(ComponentKind::Hand) {
                        WorldStorageError::ComponentStorageDoesNotExist(ComponentKind::Hand)
                    } else {
                        WorldStorageError::ComponentNotFoundForEntity {
                            component: ComponentKind::Hand,
                            entity: players[j].id,
                        }
                    },
                )
            })
        }),
{
    let turn_order = match world.resource(ResourceKind::TurnOrder) {
        Ok(res) => res,
        Err(e) => {
            return Err(GameError::Resource(e));
        },
    };
    let to = match turn_order.as_turn_order() {
        Ok(t) => t,
        Err(e) => {
            proof {
                assert(false);
            }
            return Err(GameError::Resource(e));
        },
    };
    let ghost players = to.players@;
    let n = to.players.len();
    let mut count: usize = 0;
    let mut i: usize = 0;
    while i < n
        invariant
            i <= n,
            n == players.len(),
            world.wf(),
            players == turn_players(*world),
            to.players@ == players,
            total_face(*world, players, face) <= usize::MAX,
            forall|x: int|
                0 <= x < i ==> world.has_component(ComponentKind::Hand, #[trigger] players[x]),
            count == total_face(*world, players.take(i as int), face),
        decreases n - i,
    {
        let p = to.players[i];
        let cv = match world.component(p, ComponentKind::Hand) {
            Ok(cv) => cv,
            Err(e) => {
                proof {
                    let j = first_without_hand(*world, players);
                    assert(0 <= j < players.len() && !world.has_component(
                        ComponentKind::Hand,
                        players[j],
                    ) && (forall|x: int|
                        0 <= x < j ==> world.has_component(
                            ComponentKind::Hand,
                            #[trigger] players[x],
                        )));
                    if j < i {
                        assert(world.has_component(ComponentKind::Hand, players[j]));
                    }
                    if i < j {
                        assert(world.has_component(ComponentKind::Hand, players[i as int]));
                    }
                }
                return Err(GameError::Storage(e));
            },
        };
        let hand = match cv.as_hand() {
            Ok(h) => h,
            Err(e) => {
                proof {
                    world.lemma_component_value_kind(ComponentKind::Hand, p);
                    assert(false);
                }
                return Err(GameError::Storage(e));
            },
        };
        let c = count_in_dice(&hand.dice, face);
        proof {
            assert(players.take(i + 1 as int).drop_last() =~= players.take(i as int));
            assert(players.take(i + 1 as int).last() == players[i as int]);
            lemma_total_face_prefix_le(*world, players, face, i + 1 as int);
        }
        count = count + c;
        i = i + 1;
    }
    proof {
        assert(players.take(n as int) =~= players);
    }
    Ok(count)
}

/// The current bid of the installed game state, if any.
pub open spec fn current_bid_of(w: World) -> Option<Bid> {
    match w.resource_value(ResourceKind::GameState) {
        Some(ResourceValue::GameState(g)) => g.current_bid,
        _ => None,
    }
}

/// Decides a challenge against the current bid: if at least `quantity` dice
/// across all seated hands show the bid's face, the bid stood and the
/// challenger loses; otherwise the challenged bidder loses.
///
/// Returns the loser. Fails when no game state is installed, when no bid is
/// standing, and with `count_total_dice`'s failures otherwise.
pub fn resolve_challenge(world: &World, challenger: Entity, challenged: Entity) -> (r: Result<
    Entity,
    GameError,
>)
    requires
        world.wf(),
        (match current_bid_of(*world) {
            Some(b) => total_face(*world, turn_players(*world), b.face) <= usize::MAX,
            None => true,
        }),
    ensures
        !world.has_resource(ResourceKind::GameState) ==> r == Err::<Entity, GameError>(
            GameError::Resource(WorldResourceError::ResourceDoesNotExist(ResourceKind::GameState)),
        ),
        world.has_resource(ResourceKind::GameState) && current_bid_of(*world) is None ==> r
            == Err::<Entity, GameError>(GameError::NoCurrentBid),
        (world.has_resource(ResourceKind::GameState) && current_bid_of(*world) is Some) ==> (
        {
            let b = current_bid_of(*world).unwrap();
            let players = turn_players(*world);
            &&& !world.has_resource(ResourceKind::TurnOrder) ==> r == Err::<Entity, GameError>(
                GameError::Resource(
                    WorldResourceError::ResourceDoesNotExist(ResourceKind::TurnOrder),
                ),
            )
            &&& world.has_resource(ResourceKind::TurnOrder) ==> (
            {
                &&& (r is Ok <==> (forall|j: int|
                    0 <= j < players.len() ==> world.has_component(
                        ComponentKind::Hand,
                        #[trigger] players[j],
                    )))
                &&& r matches Ok(loser) ==> loser == (if total_face(*world, players, b.face)
                    >= b.quantity {
                    challenger
                } else {
                    challenged
                })
            })
        }),
{
    let state = match world.resource(ResourceKind::GameState) {
        Ok(s) => s,
        Err(e) => {
            return Err(GameError::Resource(e));
        },
    };
    let gs = match state.as_game_state() {
        Ok(g) => g,
        Err(e) => {
            proof {
                assert(false);
            }
            return Err(GameError::Resource(e));
        },
    };
    let current_bid = match gs.current_bid {
        Some(b) => b,
        None => {
            return Err(GameError::NoCurrentBid);
        },
    };
    let total = match count_total_dice(world, current_bid.face) {
        Ok(t) => t,
        Err(e) => {
            return Err(e);
        },
    };
    if total >= current_bid.quantity as usize {
        Ok(challenger)
    } else {
        Ok(challenged)
    }
}

/// Removes one die, chosen at random, from `player`'s hand and returns it.
///
/// Fails with the storage error of a player without a hand; a player whose
/// hand is present must hold at least one die.
pub fn remove_die_from_player(world: &mut World, player: Entity) -> (r: Result<
    Option<Dice>,
    GameError,
>)
    requires
        old(world).wf(),
        (match hand_of(*old(world), player) {
            Some(h) => h.dice@.len() > 0,
            None => true,
        }),
    ensures
        old(world).has_component(ComponentKind::Hand, player) <==> r is Ok,
        r matches Err(e) ==> *final(world) == *old(world) && e == GameError::Storage(
            if !old(world).has_storage(ComponentKind::Hand) {
                WorldStorageError::ComponentStorageDoesNotExist(ComponentKind::Hand)
            } else {
                WorldStorageError::ComponentNotFoundForEntity {
                    component: ComponentKind::Hand,
                    entity: player.id,
                }
            },
        ),
        r matches Ok(d) ==> (
        {
            let h0 = hand_of(*old(world), player).unwrap();
            &&& final(world).wf()
            &&& (exists|i: int|
                0 <= i < h0.dice@.len() && d == Some(h0.dice@[i]) && (match hand_of(
                    *final(world),
                    player,
                ) {
                    Some(h1) => h1.dice@ == h0.dice@.update(i, h0.dice@.last()).drop_last(),
                    None => false,
                }))
            &&& forall|k2: ComponentKind, e2: Entity|
                k2 != ComponentKind::Hand || e2 != player ==> final(world).component_value(k2, e2)
                    == old(world).component_value(k2, e2)
            &&& forall|k2: ComponentKind|
                final(world).has_storage(k2) <==> old(world).has_storage(k2)
            &&& forall|k2: ComponentKind|
                final(world).storage_keys(k2) == old(world).storage_keys(k2)
            &&& final(world).resources == old(world).resources
            &&& final(world).entities == old(world).entities
            &&& final(world).next_entity_id == old(world).next_entity_id
        }),
{
    let v = match world.component_mut(player, ComponentKind::Hand) {
        Ok(v) => v,
        Err(e) => {
            return Err(GameError::Storage(e));
        },
    };
    match v {
        ComponentValue::Hand(hand) => {
            let n = hand.dice.len();
            let idx = random_below(n);
            let die = hand.dice.swap_remove(idx);
            proof {
                let c = world.component_storages@[old(world).storage_idx(
                    ComponentKind::Hand,
                )].entries@[old(world).storage_for(ComponentKind::Hand).index_of(player)].1;
                World::lemma_component_update_frame(
                    *old(world),
                    *world,
                    ComponentKind::Hand,
                    player,
                    c,
                );
            }
            Ok(Some(die))
        },
        _ => {
            proof {
                old(world).lemma_component_value_kind(ComponentKind::Hand, player);
                assert(false);
            }
            Ok(None)
        },
    }
}

/// Whether dispatching this event requires the game state resource.
pub open spec fn needs_state(ev: DudoEvent) -> bool {
    ev is BidMade || ev is RollDice
}

/// Whether any pending event requires the game state resource.
pub open spec fn any_needs_state(q: Seq<Event<DudoEvent>>) -> bool {
    exists|i: int| 0 <= i < q.len() && needs_state((#[trigger] q[i]).event)
}

/// Pops every pending event and dispatches it: bids to the bid system and
/// roll requests to the dice system; other events are consumed unhandled.
///
/// Succeeds, leaving the queue empty, iff a queue is installed and the game
/// state resource is there for every event that needs it.
pub fn process_events(world: &mut World) -> (r: Result<(), GameError>)
    requires
        old(world).wf(),
    ensures
        r is Ok <==> (old(world).has_resource(ResourceKind::EventQueue) && (old(
            world,
        ).has_resource(ResourceKind::GameState) || !any_needs_state(old(world).event_queue()))),
        !old(world).has_resource(ResourceKind::EventQueue) ==> (r matches Err(e) && e
            == GameError::Resource(
            WorldResourceError::ResourceDoesNotExist(ResourceKind::EventQueue),
        ) && *final(world) == *old(world)),
        (old(world).has_resource(ResourceKind::EventQueue) && !old(world).has_resource(
            ResourceKind::GameState,
        ) && any_needs_state(old(world).event_queue())) ==> (r matches Err(e) && e
            == GameError::Resource(
            WorldResourceError::ResourceDoesNotExist(ResourceKind::GameState),
        )),
        (r is Err && old(world).has_resource(ResourceKind::EventQueue)) ==> (
        {
            &&& final(world).wf()
            &&& final(world).component_storages == old(world).component_storages
            &&& forall|k2: ResourceKind|
                k2 != ResourceKind::EventQueue ==> final(world).resource_value(k2) == old(
                    world,
                ).resource_value(k2)
            &&& forall|k2: ResourceKind|
                final(world).has_resource(k2) <==> old(world).has_resource(k2)
            &&& final(world).entities == old(world).entities
            &&& final(world).next_entity_id == old(world).next_entity_id
        }),
        r is Ok ==> (
        {
            &&& final(world).wf()
            &&& final(world).event_queue().len() == 0
            &&& forall|k2: ComponentKind, e2: Entity|
                k2 != ComponentKind::Hand ==> final(world).component_value(k2, e2) == old(
                    world,
                ).component_value(k2, e2)
            &&& forall|k2: ComponentKind|
                final(world).has_storage(k2) <==> old(world).has_storage(k2)
            &&& forall|k2: ComponentKind|
                final(world).storage_keys(k2) == old(world).storage_keys(k2)
            &&& final(world).resource_value(ResourceKind::TurnOrder) == old(world).resource_value(
                ResourceKind::TurnOrder,
            )
            &&& final(world).resource_value(ResourceKind::BidHistory) == old(
                world,
            ).resource_value(ResourceKind::BidHistory)
            &&& forall|k2: ResourceKind|
                final(world).has_resource(k2) <==> old(world).has_resource(k2)
            &&& final(world).entities == old(world).entities
            &&& final(world).next_entity_id == old(world).next_entity_id
        }),
{
    match world.resource(ResourceKind::EventQueue) {
        Ok(_) => (),
        Err(e) => {
            return Err(GameError::Resource(e));
        },
    }
    let ghost q0 = old(world).event_queue();
    let ghost k: int = 0;
    loop
        invariant
            world.wf(),
            world.has_resource(ResourceKind::EventQueue),
            0 <= k <= q0.len(),
            world.event_queue() == q0.skip(k),
            q0 == old(world).event_queue(),
            world.has_resource(ResourceKind::GameState) <==> old(world).has_resource(
                ResourceKind::GameState,
            ),
            !old(world).has_resource(ResourceKind::GameState) ==> (forall|i: int|
                0 <= i < k ==> !needs_state((#[trigger] q0[i]).event)),
            !old(world).has_resource(ResourceKind::GameState) ==> world.component_storages
                == old(world).component_storages,
            !old(world).has_resource(ResourceKind::GameState) ==> (forall|k2: ResourceKind|
                k2 != ResourceKind::EventQueue ==> world.resource_value(k2) == old(
                    world,
                ).resource_value(k2)),
            forall|k2: ComponentKind, e2: Entity|
                k2 != ComponentKind::Hand ==> world.component_value(k2, e2) == old(
                    world,
                ).component_value(k2, e2),
            forall|k2: ComponentKind| world.has_storage(k2) <==> old(world).has_storage(k2),
            forall|k2: ComponentKind| world.storage_keys(k2) == old(world).storage_keys(k2),
            world.resource_value(ResourceKind::TurnOrder) == old(world).resource_value(
                ResourceKind::TurnOrder,
            ),
            world.resource_value(ResourceKind::BidHistory) == old(world).resource_value(
                ResourceKind::BidHistory,
            ),
            forall|k2: ResourceKind| world.has_resource(k2) <==> old(world).has_resource(k2),
            world.entities == old(world).entities,
            world.next_entity_id == old(world).next_entity_id,
        decreases q0.len() - k,
    {
        let ev_opt = match world.pop_event() {
            Ok(o) => o,
            Err(e) => {
                proof {
                    assert(false);
                }
                return Err(GameError::Resource(e));
            },
        };
        let ev = match ev_opt {
            Some(ev) => ev,
            None => {
                proof {
                    assert(q0.skip(k).len() == 0);
                    if !old(world).has_resource(ResourceKind::GameState) {
                        assert forall|i: int| 0 <= i < q0.len() implies !needs_state(
                            (#[trigger] q0[i]).event,
                        ) by {
                            assert(i < k);
                        }
                        assert(!any_needs_state(q0));
                    }
                }
                return Ok(());
            },
        };
        proof {
            assert(q0.skip(k)[0] == q0[k]);
            assert(world.event_queue() =~= q0.skip(k + 1));
        }
        match ev.event {
            DudoEvent::BidMade { player, quantity, face } => {
                match PlaceBidSystem::run(world, player, quantity, face) {
                    Ok(_) => (),
                    Err(e) => {
                        proof {
                            assert(needs_state(q0[k].event));
                            assert(any_needs_state(q0));
                        }
                        return Err(e);
                    },
                }
            },
            DudoEvent::RollDice => {
                match RollDiceSystem::run(world) {
                    Ok(_) => (),
                    Err(e) => {
                        proof {
                            assert(needs_state(q0[k].event));
                            assert(any_needs_state(q0));
                        }
                        return Err(e);
                    },
                }
            },
            _ => {},
        }
        proof {
            k = k + 1;
        }
    }
}

} // verus!
