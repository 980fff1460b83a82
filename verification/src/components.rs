//! Component data attached to entities, and the closed kind/value pair that
//! stands in for type-erased component storage.
//!
//! Type erasure here is a closed family: [`ComponentKind`] is the process
//! wide type identity that keys the per-type stores, [`ComponentValue`] the
//! erased value, and the `as_*` accessors are the checked downcasts that
//! turn a typed failure, never an unchecked reinterpretation.

use vstd::prelude::*;
use vstd::string::StringExecFns;

use crate::entity_builder::Entity;
use crate::error::WorldStorageError;

verus! {

/// One die; `face` is `None` until the first roll.
#[derive(Copy, Clone, Debug, PartialEq)]
pub struct Dice {
    pub face: Option<u8>,
}

impl Dice {
    pub fn new() -> (r: Dice)
        ensures
            r.face is None,
    {
        Dice { face: None }
    }
}

/// The dice one player holds.
#[derive(Clone, Debug)]
pub struct Hand {
    pub dice: Vec<Dice>,
}

impl Hand {
    /// A fresh hand of five unrolled dice.
    pub fn new() -> (r: Hand)
        ensures
            r.dice@.len() == 5,
            forall|i: int| 0 <= i < 5 ==> r.dice@[i] == (Dice { face: None }),
    {
        let mut dice: Vec<Dice> = Vec::new();
        dice.push(Dice { face: None });
        dice.push(Dice { face: None });
        dice.push(Dice { face: None });
        dice.push(Dice { face: None });
        dice.push(Dice { face: None });
        Hand { dice }
    }
}

/// The glyph pair shown for one die: its face as a die character (or a
/// question mark while unrolled, or the replacement character for a face no
/// die has), then a space.
pub open spec fn die_glyph(face: Option<u8>) -> Seq<char> {
    match face {
        Some(f) => if f == 1 {
            seq!['\u{2680}', ' ']
        } else if f == 2 {
            seq!['\u{2681}', ' ']
        } else if f == 3 {
            seq!['\u{2682}', ' ']
        } else if f == 4 {
            seq!['\u{2683}', ' ']
        } else if f == 5 {
            seq!['\u{2684}', ' ']
        } else if f == 6 {
            seq!['\u{2685}', ' ']
        } else {
            seq!['\u{FFFD}', ' ']
        },
        None => seq!['?', ' '],
    }
}

/// The glyphs of a whole hand, one die after the other.
pub open spec fn hand_glyphs(dice: Seq<Dice>) -> Seq<char>
    decreases dice.len(),
{
    if dice.len() == 0 {
        Seq::<char>::empty()
    } else {
        hand_glyphs(dice.drop_last()) + die_glyph(dice.last().face)
    }
}

impl Hand {
    /// The hand as one line of text: a die emoji, then each die's glyph.
    pub fn render(&self) -> (r: String)
        ensures
            r@ == seq!['\u{1F3B2}', ' '] + hand_glyphs(self.dice@),
    {
        proof {
            reveal_strlit("\u{1F3B2} ");
            reveal_strlit("\u{2680} ");
            reveal_strlit("\u{2681} ");
            reveal_strlit("\u{2682} ");
            reveal_strlit("\u{2683} ");
            reveal_strlit("\u{2684} ");
            reveal_strlit("\u{2685} ");
            reveal_strlit("\u{FFFD} ");
            reveal_strlit("? ");
        }
        let mut s = String::new();
        s.append("\u{1F3B2} ");
        let n = self.dice.len();
        let mut i: usize = 0;
        while i < n
            invariant
                i <= n,
                n == self.dice@.len(),
                s@ == seq!['\u{1F3B2}', ' '] + hand_glyphs(self.dice@.take(i as int)),
            decreases n - i,
        {
            proof {
                reveal_strlit("\u{2680} ");
                reveal_strlit("\u{2681} ");
                reveal_strlit("\u{2682} ");
                reveal_strlit("\u{2683} ");
                reveal_strlit("\u{2684} ");
                reveal_strlit("\u{2685} ");
                reveal_strlit("\u{FFFD} ");
                reveal_strlit("? ");
                assert(self.dice@.take(i + 1 as int).drop_last() =~= self.dice@.take(i as int));
                assert(self.dice@.take(i + 1 as int).last() == self.dice@[i as int]);
            }
            match self.dice[i].face {
                Some(f) => {
                    if f == 1 {
                        s.append("\u{2680} ");
                    } else if f == 2 {
                        s.append("\u{2681} ");
                    } else if f == 3 {
                        s.append("\u{2682} ");
                    } else if f == 4 {
                        s.append("\u{2683} ");
                    } else if f == 5 {
                        s.append("\u{2684} ");
                    } else if f == 6 {
                        s.append("\u{2685} ");
                    } else {
                        s.append("\u{FFFD} ");
                    }
                },
                None => {
                    s.append("? ");
                },
            }
            proof {
                assert(s@ =~= seq!['\u{1F3B2}', ' '] + hand_glyphs(
                    self.dice@.take(i + 1 as int),
                ));
            }
            i = i + 1;
        }
        proof {
            assert(self.dice@.take(n as int) =~= self.dice@);
        }
        s
    }
}

/// Marker component for player entities.
#[derive(Copy, Clone, Debug, PartialEq, Eq, Structural)]
pub struct Player;

/// A player's display name.
#[derive(Clone, Debug)]
pub struct Gamertag {
    pub name: String,
}

impl Gamertag {
    pub fn new(name: String) -> (r: Gamertag)
        ensures
            r.name == name,
    {
        Gamertag { name }
    }
}

/// One bid: `quantity` dice showing `face`, claimed by `player`.
#[derive(Copy, Clone, Debug, PartialEq, Eq, Structural)]
pub struct Bid {
    pub player: Entity,
    pub quantity: u8,
    pub face: u8,
}

impl Bid {
    pub fn new(player: Entity, quantity: u8, face: u8) -> (r: Bid)
        ensures
            r == (Bid { player, quantity, face }),
    {
        Bid { player, quantity, face }
    }
}

/// The type identity of a component: the key of the per-type stores.
#[derive(Copy, Clone, Debug, PartialEq, Eq, Structural)]
pub enum ComponentKind {
    Player,
    Gamertag,
    Hand,
    Bid,
}

/// A type-erased component value; the variant is its type identity.
#[derive(Clone, Debug)]
pub enum ComponentValue {
    Player(Player),
    Gamertag(Gamertag),
    Hand(Hand),
    Bid(Bid),
}

impl ComponentValue {
    pub open spec fn spec_kind(&self) -> ComponentKind {
        match self {
            ComponentValue::Player(_) => ComponentKind::Player,
            ComponentValue::Gamertag(_) => ComponentKind::Gamertag,
            ComponentValue::Hand(_) => ComponentKind::Hand,
            ComponentValue::Bid(_) => ComponentKind::Bid,
        }
    }

    /// The type identity of this value.
    #[verifier::when_used_as_spec(spec_kind)]
    pub fn kind(&self) -> (k: ComponentKind)
        ensures
            k == self.spec_kind(),
    {
        match self {
            ComponentValue::Player(_) => ComponentKind::Player,
            ComponentValue::Gamertag(_) => ComponentKind::Gamertag,
            ComponentValue::Hand(_) => ComponentKind::Hand,
            ComponentValue::Bid(_) => ComponentKind::Bid,
        }
    }

    /// Checked downcast to [`Player`].
    pub fn as_player(&self) -> (r: Result<&Player, WorldStorageError>)
        ensures
            self is Player <==> r is Ok,
            r matches Ok(v) ==> *self == ComponentValue::Player(*v),
            r matches Err(e) ==> e == (WorldStorageError::ComponentTypeMismatch {
                expected: ComponentKind::Player,
            }),
    {
        match self {
            ComponentValue::Player(v) => Ok(v),
            _ => Err(WorldStorageError::ComponentTypeMismatch { expected: ComponentKind::Player }),
        }
    }

    /// Checked downcast to [`Gamertag`].
    pub fn as_gamertag(&self) -> (r: Result<&Gamertag, WorldStorageError>)
        ensures
            self is Gamertag <==> r is Ok,
            r matches Ok(v) ==> *self == ComponentValue::Gamertag(*v),
            r matches Err(e) ==> e == (WorldStorageError::ComponentTypeMismatch {
                expected: ComponentKind::Gamertag,
            }),
    {
        match self {
            ComponentValue::Gamertag(v) => Ok(v),
            _ => Err(
                WorldStorageError::ComponentTypeMismatch { expected: ComponentKind::Gamertag },
            ),
        }
    }

    /// Checked downcast to [`Hand`].
    pub fn as_hand(&self) -> (r: Result<&Hand, WorldStorageError>)
        ensures
            self is Hand <==> r is Ok,
            r matches Ok(v) ==> *self == ComponentValue::Hand(*v),
            r matches Err(e) ==> e == (WorldStorageError::ComponentTypeMismatch {
                expected: ComponentKind::Hand,
            }),
    {
        match self {
            ComponentValue::Hand(v) => Ok(v),
            _ => Err(WorldStorageError::ComponentTypeMismatch { expected: ComponentKind::Hand }),
        }
    }

    /// Checked downcast to [`Bid`].
    pub fn as_bid(&self) -> (r: Result<&Bid, WorldStorageError>)
        ensures
            self is Bid <==> r is Ok,
            r matches Ok(v) ==> *self == ComponentValue::Bid(*v),
            r matches Err(e) ==> e == (WorldStorageError::ComponentTypeMismatch {
                expected: ComponentKind::Bid,
            }),
    {
        match self {
            ComponentValue::Bid(v) => Ok(v),
            _ => Err(WorldStorageError::ComponentTypeMismatch { expected: ComponentKind::Bid }),
        }
    }

    /// Checked downcast to a mutable [`Hand`].
    pub fn as_hand_mut(&mut self) -> (r: Result<&mut Hand, WorldStorageError>)
        ensures
            *old(self) is Hand <==> r is Ok,
            r matches Ok(v) ==> *old(self) == ComponentValue::Hand(*v) && *final(self)
                == ComponentValue::Hand(*final(v)),
            r matches Err(e) ==> *final(self) == *old(self) && e == (
            WorldStorageError::ComponentTypeMismatch { expected: ComponentKind::Hand }),
    {
        match self {
            ComponentValue::Hand(v) => Ok(v),
            _ => Err(WorldStorageError::ComponentTypeMismatch { expected: ComponentKind::Hand }),
        }
    }
}

} // verus!
