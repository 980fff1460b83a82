//! Singleton resources of the game, and the closed kind/value pair that
//! stands in for type-erased resource storage.

use vstd::prelude::*;

use crate::components::Bid;
use crate::entity_builder::Entity;
use crate::error::WorldResourceError;
use crate::events::{DudoEvent, EventQueue};

verus! {

/// The phase a round is in.
#[derive(Debug, Clone, Copy, PartialEq, Eq, Structural)]
pub enum GamePhase {
    RoundStart,
    Bidding,
    Challenge,
    RoundEnd,
    GameOver,
}

/// The global state of one game session.
pub struct GameState {
    pub round: u32,
    pub current_bid: Option<Bid>,
    pub phase: GamePhase,
}

impl GameState {
    pub fn new() -> (r: GameState)
        ensures
            r.round == 1,
            r.current_bid is None,
            r.phase == GamePhase::Bidding,
    {
        GameState { round: 1, current_bid: None, phase: GamePhase::Bidding }
    }
}

/// The seating order of the players and whose turn it is.
pub struct TurnOrder {
    pub players: Vec<Entity>,
    pub current_index: usize,
}

impl TurnOrder {
    pub fn new(players: Vec<Entity>) -> (r: TurnOrder)
        ensures
            r.players == players,
            r.current_index == 0,
    {
        TurnOrder { players, current_index: 0 }
    }

    pub fn current_player(&self) -> (r: Entity)
        requires
            self.current_index < self.players@.len(),
        ensures
            r == self.players@[self.current_index as int],
    {
        self.players[self.current_index]
    }

    /// The player seated before the current one, wrapping around the table.
    pub fn previous_player(&self) -> (r: Entity)
        requires
            self.current_index < self.players@.len(),
        ensures
            r == self.players@[if self.current_index == 0 {
                self.players@.len() - 1
            } else {
                self.current_index - 1
            }],
    {
        let prev_idx: usize = if self.current_index == 0 {
            self.players.len() - 1
        } else {
            self.current_index - 1
        };
        self.players[prev_idx]
    }

    /// Moves the turn to the next seat and returns its player.
    pub fn advance(&mut self) -> (r: Entity)
        requires
            old(self).current_index < old(self).players@.len(),
        ensures
            final(self).players == old(self).players,
            final(self).current_index == (old(self).current_index + 1) % (
            old(self).players@.len() as int),
            r == final(self).players@[final(self).current_index as int],
    {
        let n = self.players.len();
        self.current_index = (self.current_index + 1) % n;
        self.current_player()
    }

    pub fn player_count(&self) -> (r: usize)
        ensures
            r == self.players@.len(),
    {
        self.players.len()
    }
}

/// The bids made in the current round, oldest first.
pub struct BidHistory {
    pub bids: Vec<Bid>,
}

impl BidHistory {
    pub fn new() -> (r: BidHistory)
        ensures
            r.bids@.len() == 0,
    {
        BidHistory { bids: Vec::new() }
    }

    pub fn last_bid(&self) -> (r: Option<&Bid>)
        ensures
            self.bids@.len() == 0 ==> r is None,
            self.bids@.len() > 0 ==> (r matches Some(b) && *b == self.bids@.last()),
    {
        if self.bids.len() == 0 {
            None
        } else {
            Some(&self.bids[self.bids.len() - 1])
        }
    }

    pub fn clear_round(&mut self)
        ensures
            final(self).bids@.len() == 0,
    {
        self.bids.clear();
    }
}

/// The type identity of a resource: the key of the singleton store.
#[derive(Debug, Clone, Copy, PartialEq, Eq, Structural)]
pub enum ResourceKind {
    GameState,
    TurnOrder,
    BidHistory,
    EventQueue,
}

/// A type-erased resource value; the variant is its type identity.
pub enum ResourceValue {
    GameState(GameState),
    TurnOrder(TurnOrder),
    BidHistory(BidHistory),
    EventQueue(EventQueue<DudoEvent>),
}

impl ResourceValue {
    pub open spec fn spec_kind(&self) -> ResourceKind {
        match self {
            ResourceValue::GameState(_) => ResourceKind::GameState,
            ResourceValue::TurnOrder(_) => ResourceKind::TurnOrder,
            ResourceValue::BidHistory(_) => ResourceKind::BidHistory,
            ResourceValue::EventQueue(_) => ResourceKind::EventQueue,
        }
    }

    /// The type identity of this value.
    #[verifier::when_used_as_spec(spec_kind)]
    pub fn kind(&self) -> (k: ResourceKind)
        ensures
            k == self.spec_kind(),
    {
        match self {
            ResourceValue::GameState(_) => ResourceKind::GameState,
            ResourceValue::TurnOrder(_) => ResourceKind::TurnOrder,
            ResourceValue::BidHistory(_) => ResourceKind::BidHistory,
            ResourceValue::EventQueue(_) => ResourceKind::EventQueue,
        }
    }

    /// Checked downcast to [`GameState`].
    pub fn as_game_state(&self) -> (r: Result<&GameState, WorldResourceError>)
        ensures
            self is GameState <==> r is Ok,
            r matches Ok(v) ==> *self == ResourceValue::GameState(*v),
            r matches Err(e) ==> e == WorldResourceError::ResourceTypeMismatch(
                ResourceKind::GameState,
            ),
    {
        match self {
            ResourceValue::GameState(v) => Ok(v),
            _ => Err(WorldResourceError::ResourceTypeMismatch(ResourceKind::GameState)),
        }
    }

    /// Checked downcast to [`TurnOrder`].
    pub fn as_turn_order(&self) -> (r: Result<&TurnOrder, WorldResourceError>)
        ensures
            self is TurnOrder <==> r is Ok,
            r matches Ok(v) ==> *self == ResourceValue::TurnOrder(*v),
            r matches Err(e) ==> e == WorldResourceError::ResourceTypeMismatch(
                ResourceKind::TurnOrder,
            ),
    {
        match self {
            ResourceValue::TurnOrder(v) => Ok(v),
            _ => Err(WorldResourceError::ResourceTypeMismatch(ResourceKind::TurnOrder)),
        }
    }

    /// Checked downcast to [`BidHistory`].
    pub fn as_bid_history(&self) -> (r: Result<&BidHistory, WorldResourceError>)
        ensures
            self is BidHistory <==> r is Ok,
            r matches Ok(v) ==> *self == ResourceValue::BidHistory(*v),
            r matches Err(e) ==> e == WorldResourceError::ResourceTypeMismatch(
                ResourceKind::BidHistory,
            ),
    {
        match self {
            ResourceValue::BidHistory(v) => Ok(v),
            _ => Err(WorldResourceError::ResourceTypeMismatch(ResourceKind::BidHistory)),
        }
    }

    /// Checked downcast to the [`EventQueue`] of [`DudoEvent`]s.
    pub fn as_event_queue(&self) -> (r: Result<&EventQueue<DudoEvent>, WorldResourceError>)
        ensures
            self is EventQueue <==> r is Ok,
            r matches Ok(v) ==> *self == ResourceValue::EventQueue(*v),
            r matches Err(e) ==> e == WorldResourceError::ResourceTypeMismatch(
                ResourceKind::EventQueue,
            ),
    {
        match self {
            ResourceValue::EventQueue(v) => Ok(v),
            _ => Err(WorldResourceError::ResourceTypeMismatch(ResourceKind::EventQueue)),
        }
    }

    /// Checked downcast to a mutable [`GameState`].
    pub fn as_game_state_mut(&mut self) -> (r: Result<&mut GameState, WorldResourceError>)
        ensures
            *old(self) is GameState <==> r is Ok,
            r matches Ok(v) ==> *old(self) == ResourceValue::GameState(*v) && *final(self)
                == ResourceValue::GameState(*final(v)),
            r matches Err(e) ==> *final(self) == *old(self) && e
                == WorldResourceError::ResourceTypeMismatch(ResourceKind::GameState),
    {
        match self {
            ResourceValue::GameState(v) => Ok(v),
            _ => Err(WorldResourceError::ResourceTypeMismatch(ResourceKind::GameState)),
        }
    }

    /// Checked downcast to a mutable [`TurnOrder`].
    pub fn as_turn_order_mut(&mut self) -> (r: Result<&mut TurnOrder, WorldResourceError>)
        ensures
            *old(self) is TurnOrder <==> r is Ok,
            r matches Ok(v) ==> *old(self) == ResourceValue::TurnOrder(*v) && *final(self)
                == ResourceValue::TurnOrder(*final(v)),
            r matches Err(e) ==> *final(self) == *old(self) && e
                == WorldResourceError::ResourceTypeMismatch(ResourceKind::TurnOrder),
    {
        match self {
            ResourceValue::TurnOrder(v) => Ok(v),
            _ => Err(WorldResourceError::ResourceTypeMismatch(ResourceKind::TurnOrder)),
        }
    }

    /// Checked downcast to a mutable [`BidHistory`].
    pub fn as_bid_history_mut(&mut self) -> (r: Result<&mut BidHistory, WorldResourceError>)
        ensures
            *old(self) is BidHistory <==> r is Ok,
            r matches Ok(v) ==> *old(self) == ResourceValue::BidHistory(*v) && *final(self)
                == ResourceValue::BidHistory(*final(v)),
            r matches Err(e) ==> *final(self) == *old(self) && e
                == WorldResourceError::ResourceTypeMismatch(ResourceKind::BidHistory),
    {
        match self {
            ResourceValue::BidHistory(v) => Ok(v),
            _ => Err(WorldResourceError::ResourceTypeMismatch(ResourceKind::BidHistory)),
        }
    }

    /// Checked downcast to a mutable [`EventQueue`] of [`DudoEvent`]s.
    pub fn as_event_queue_mut(&mut self) -> (r: Result<
        &mut EventQueue<DudoEvent>,
        WorldResourceError,
    >)
        ensures
            *old(self) is EventQueue <==> r is Ok,
            r matches Ok(v) ==> *old(self) == ResourceValue::EventQueue(*v) && *final(self)
                == ResourceValue::EventQueue(*final(v)),
            r matches Err(e) ==> *final(self) == *old(self) && e
                == WorldResourceError::ResourceTypeMismatch(ResourceKind::EventQueue),
    {
        match self {
            ResourceValue::EventQueue(v) => Ok(v),
            _ => Err(WorldResourceError::ResourceTypeMismatch(ResourceKind::EventQueue)),
        }
    }
}

} // verus!
