//! The messages that the peers of a relayed match send each other.

use crate::wire::{de_triple, de_u8, ser_triple, ser_u8, DecodeError};
use vstd::prelude::*;

verus! {

/// A peer tells where its player stands: the packed state of the player.
#[derive(Debug, Clone, Copy, PartialEq, Eq)]
pub struct Move(pub [u8; 3]);

/// A peer tells the health that is left to its player.
#[derive(Debug, Clone, Copy, PartialEq, Eq, Structural)]
pub struct SelfDamage(pub u8);

/// A peer tells that its player died.
#[derive(Debug, Clone, Copy, PartialEq, Eq, Structural)]
pub struct Died;

/// What a message reads as where it is taken for a move: its first three
/// bytes. What follows them is ignored.
pub open spec fn decoded_move(bytes: Seq<u8>) -> Result<Seq<u8>, DecodeError> {
    if bytes.len() < 3 {
        Err(DecodeError::Truncated)
    } else {
        Ok(bytes.take(3))
    }
}

/// What a message reads as where it is taken for a report of health: its
/// first byte. What follows it is ignored.
pub open spec fn decoded_self_damage(bytes: Seq<u8>) -> Result<SelfDamage, DecodeError> {
    if bytes.len() < 1 {
        Err(DecodeError::Truncated)
    } else {
        Ok(SelfDamage(bytes[0]))
    }
}

impl Move {
    /// The code under which a move travels.
    pub const OPCODE: i32 = 1;

    /// The message on the wire: the three bytes.
    pub fn to_bytes(&self) -> (bytes: Vec<u8>)
        ensures
            bytes@ == self.0@,
    {
        ser_triple(&self.0)
    }

    /// Reads a move. A message of fewer than three bytes is refused.
    pub fn from_bytes(bytes: &[u8]) -> (message: Result<Move, DecodeError>)
        ensures
            match message {
                Ok(m) => decoded_move(bytes@) == Ok::<Seq<u8>, DecodeError>(m.0@),
                Err(e) => decoded_move(bytes@) == Err::<Seq<u8>, DecodeError>(e),
            },
    {
        match de_triple(bytes) {
            Ok(packed) => Ok(Move(packed)),
            Err(_) => Err(DecodeError::Truncated),
        }
    }
}

impl SelfDamage {
    /// The code under which a report of health travels.
    pub const OPCODE: i32 = 2;

    /// The message on the wire: the one byte.
    pub fn to_bytes(&self) -> (bytes: Vec<u8>)
        ensures
            bytes@ == seq![self.0],
    {
        ser_u8(self.0)
    }

    /// Reads a report of health. An empty message is refused.
    pub fn from_bytes(bytes: &[u8]) -> (message: Result<SelfDamage, DecodeError>)
        ensures
            message == decoded_self_damage(bytes@),
    {
        match de_u8(bytes) {
            Ok(health) => Ok(SelfDamage(health)),
            Err(_) => Err(DecodeError::Truncated),
        }
    }
}

impl Died {
    /// The code under which the news of a death travels.
    pub const OPCODE: i32 = 3;

    /// The message on the wire: nothing but the code.
    pub fn to_bytes(&self) -> (bytes: Vec<u8>)
        ensures
            bytes@ == Seq::<u8>::empty(),
    {
        Vec::new()
    }
}

} // verus!
