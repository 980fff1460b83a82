//! Typed, timestamped events and the FIFO queues that carry them.

use vstd::prelude::*;

use crate::entity_builder::Entity;

verus! {

/// Marker trait for event payload types.
pub trait GameEvent {}

/// An immutable payload plus the tick at which it was emitted.
///
/// Timestamps are unsigned ticks since a fixed epoch; the queue itself does
/// not interpret them.
#[derive(Debug, Clone)]
pub struct Event<T: GameEvent> {
    pub event: T,
    pub timestamp: u64,
}

/// A strict FIFO queue of typed events, housed in a world as a resource.
///
/// Its view is the sequence of pending events, front first.
pub struct EventQueue<T: GameEvent> {
    events: Vec<Event<T>>,
}

impl<T: GameEvent> View for EventQueue<T> {
    type V = Seq<Event<T>>;

    closed spec fn view(&self) -> Seq<Event<T>> {
        self.events@
    }
}

impl<T: GameEvent> EventQueue<T> {
    pub fn new() -> (r: EventQueue<T>)
        ensures
            r@ == Seq::<Event<T>>::empty(),
    {
        EventQueue { events: Vec::new() }
    }

    /// Appends to the back of the queue.
    pub fn push(&mut self, event: T, timestamp: u64)
        ensures
            final(self)@ == old(self)@.push(Event { event, timestamp }),
    {
        self.events.push(Event { event, timestamp });
    }

    /// Removes and returns the front event, or `None` when empty.
    pub fn pop(&mut self) -> (r: Option<Event<T>>)
        ensures
            old(self)@.len() == 0 ==> r is None && final(self)@ == old(self)@,
            old(self)@.len() > 0 ==> r == Some(old(self)@[0]) && final(self)@ == old(
                self,
            )@.drop_first(),
    {
        if self.events.is_empty() {
            None
        } else {
            let ev = self.events.remove(0);
            assert(self.events@ =~= old(self)@.drop_first());
            Some(ev)
        }
    }

    /// Removes and returns all pending events in order, leaving the queue
    /// empty.
    pub fn drain(&mut self) -> (r: Vec<Event<T>>)
        ensures
            r@ == old(self)@,
            final(self)@ == Seq::<Event<T>>::empty(),
    {
        let mut out: Vec<Event<T>> = Vec::new();
        core::mem::swap(&mut self.events, &mut out);
        out
    }

    pub fn is_empty(&self) -> (r: bool)
        ensures
            r <==> self@.len() == 0,
    {
        self.events.is_empty()
    }
}

/// The events of the dice game.
#[derive(Debug, Clone, Copy, PartialEq, Eq, Structural)]
pub enum DudoEvent {
    BidMade { player: Entity, quantity: u8, face: u8 },
    ChallengeMade { challenger: Entity },
    GameReady,
    RollDice,
}

impl GameEvent for DudoEvent {}

} // verus!
