//! The two messages of the lobby: what a peer sends to be seated, and what
//! the lobby answers when the match starts.

use crate::wire::{
    de_lines, de_u16, decoded_lines, holds_list, le_bytes, le_value, list_bytes, read_le,
    ser_lines, ser_u16, DecodeError,
};
use vstd::prelude::*;

verus! {

/// A peer asks for a seat and names the port it listens on.
#[derive(Debug, Clone, Copy, PartialEq, Eq, Structural)]
pub struct Join(pub u16);

/// The lobby starts the match: the port of every seated peer, in the order of
/// their seats, each with the place where its player appears.
#[derive(Debug, Clone, PartialEq)]
pub struct Start(pub Vec<(u16, (u16, u8))>);

impl View for Start {
    type V = Seq<(u16, (u16, u8))>;

    open spec fn view(&self) -> Seq<(u16, (u16, u8))> {
        self.0@
    }
}

/// How a seated peer takes part in the session of one machine.
#[derive(Debug, Clone, Copy, PartialEq, Eq, Structural)]
pub enum Seat {
    /// The player of this machine.
    Local,
    /// A player of another machine, which listens on this port.
    Remote(u16),
}

/// The seat of the peer in a line of the start message, as the machine that
/// listens on `local_port` sees it.
pub open spec fn seat_of(line: (u16, (u16, u8)), local_port: u16) -> Seat {
    if line.0 == local_port {
        Seat::Local
    } else {
        Seat::Remote(line.0)
    }
}

/// Whether `index` is the last line of the start message with this port.
pub open spec fn is_last_with_port(lines: Seq<(u16, (u16, u8))>, port: u16, index: int) -> bool {
    &&& 0 <= index < lines.len()
    &&& lines[index].0 == port
    &&& forall|j: int| index < j < lines.len() ==> lines[j].0 != port
}

impl Start {
    /// The seats of the session, one for each line and in their order, as the
    /// machine that listens on `local_port` has to add them.
    pub fn seats(&self, local_port: u16) -> (seats: Vec<Seat>)
        ensures
            seats@.len() == self@.len(),
            forall|i: int| 0 <= i < self@.len() ==> seats@[i] == seat_of(self@[i], local_port),
    {
        let mut seats: Vec<Seat> = Vec::new();
        let mut i: usize = 0;
        while i < self.0.len()
            invariant
                i <= self@.len(),
                seats@.len() == i,
                forall|j: int| 0 <= j < i ==> seats@[j] == seat_of(self@[j], local_port),
            decreases self@.len() - i,
        {
            let port = self.0[i].0;
            if port == local_port {
                seats.push(Seat::Local);
            } else {
                seats.push(Seat::Remote(port));
            }
            i += 1;
        }
        seats
    }

    /// The line of the player of this machine: the last line that names
    /// `local_port`, or `None` where no line does.
    pub fn local_seat(&self, local_port: u16) -> (seat: Option<usize>)
        ensures
            match seat {
                Some(index) => is_last_with_port(self@, local_port, index as int),
                None => forall|j: int| 0 <= j < self@.len() ==> self@[j].0 != local_port,
            },
    {
        let mut seat: Option<usize> = None;
        let mut i: usize = 0;
        while i < self.0.len()
            invariant
                i <= self@.len(),
                match seat {
                    Some(index) => {
                        &&& index < i
                        &&& self@[index as int].0 == local_port
                        &&& forall|j: int| index < j < i ==> self@[j].0 != local_port
                    },
                    None => forall|j: int| 0 <= j < i ==> self@[j].0 != local_port,
                },
            decreases self@.len() - i,
        {
            if self.0[i].0 == local_port {
                seat = Some(i);
            }
            i += 1;
        }
        seat
    }
}

/// What a message reads as where it is taken for a request to join: the
/// port that its first two bytes spell. What follows them is ignored.
pub open spec fn decoded_join(bytes: Seq<u8>) -> Result<Join, DecodeError> {
    if bytes.len() < 2 {
        Err(DecodeError::Truncated)
    } else {
        Ok(Join(le_value(bytes.take(2)) as u16))
    }
}

impl Join {
    /// The message on the wire: the two bytes of the port, the low byte
    /// first.
    pub fn to_bytes(&self) -> (bytes: Vec<u8>)
        ensures
            bytes@ == le_bytes(self.0 as nat, 2),
    {
        ser_u16(self.0)
    }

    /// Reads a request to join. A message of fewer than two bytes is
    /// refused.
    pub fn from_bytes(bytes: &[u8]) -> (join: Result<Join, DecodeError>)
        ensures
            join == decoded_join(bytes@),
    {
        match de_u16(bytes) {
            Ok(port) => Ok(Join(port)),
            Err(_) => Err(DecodeError::Truncated),
        }
    }
}

impl Start {
    /// The message on the wire: the number of lines as eight bytes, then
    /// five bytes for each line.
    pub fn to_bytes(&self) -> (bytes: Vec<u8>)
        ensures
            bytes@ == list_bytes(self@),
    {
        ser_lines(&self.0)
    }

    /// Reads a start message. A message that is shorter than its count of
    /// lines claims is refused; what follows the last line is ignored.
    ///
    /// The count is held against the length of the message before the lines
    /// are read, so that a false count costs nothing.
    pub fn from_bytes(bytes: &[u8]) -> (start: Result<Start, DecodeError>)
        ensures
            match start {
                Ok(message) => holds_list(bytes@) && message@ == decoded_lines(bytes@),
                Err(e) => !holds_list(bytes@) && e == DecodeError::Truncated,
            },
    {
        let len = bytes.len();
        if len < 8 {
            return Err(DecodeError::Truncated);
        }
        let count = read_le(bytes, 0, 8);
        assert(bytes@.subrange(0, 8) =~= bytes@.take(8));
        let room = (len - 8) / 5;
        if count > room as u64 {
            return Err(DecodeError::Truncated);
        }
        match de_lines(bytes) {
            Ok(lines) => Ok(Start(lines)),
            Err(_) => Err(DecodeError::Truncated),
        }
    }
}

/// A request to join reads back as it was written, whatever follows it.
pub proof fn lemma_join_round_trip(join: Join, rest: Seq<u8>)
    ensures
        decoded_join(le_bytes(join.0 as nat, 2) + rest) == Ok::<Join, DecodeError>(join),
{
    let bytes = le_bytes(join.0 as nat, 2) + rest;
    crate::wire::lemma_le_bytes_len(join.0 as nat, 2);
    assert(bytes.take(2) =~= le_bytes(join.0 as nat, 2));
    reveal_with_fuel(crate::wire::pow256, 3);
    crate::wire::lemma_le_round_trip(join.0 as nat, 2);
}

} // verus!
