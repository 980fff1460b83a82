//! A minimal entity/component/resource substrate for a dice game.
//!
//! A [`World`](world::World) owns per-type component stores keyed by
//! [`ComponentKind`](components::ComponentKind), singleton resources keyed by
//! [`ResourceKind`](resources::ResourceKind), a monotone entity id allocator,
//! and FIFO event queues. Game systems read and mutate the world through the
//! typed accessors and exchange messages through the event queue.

pub mod components;
pub mod entity_builder;
pub mod error;
pub mod storage;
pub mod systems;
pub mod query;
pub mod world;
pub mod events;
pub mod game;
pub mod laws;
pub mod resources;

pub use components::{Bid, ComponentKind, ComponentValue, Dice, Gamertag, Hand, Player};
pub use entity_builder::{Entity, EntityBuilder};
pub use error::{GameError, WorldResourceError, WorldStorageError};
pub use events::{DudoEvent, Event, EventQueue, GameEvent};
pub use game::{add_players, is_higher_bid, setup_game};
pub use resources::{BidHistory, GamePhase, GameState, ResourceKind, ResourceValue, TurnOrder};
pub use storage::ComponentStorage;
pub use systems::{
    count_total_dice, process_events, remove_die_from_player, resolve_challenge, roll_dice,
    roll_hand, PlaceBidSystem, RollDiceSystem,
};
pub use world::World;
