//! The relay of a match: what it delivers to a peer, and the relay of a
//! match that is played alone.
//!
//! A peer that runs in a browser reaches a real relay through the page it
//! runs in. Everywhere else [`send`], [`try_recv`] and [`events`] stand in
//! for it: nothing is sent and nothing ever arrives.

use vstd::prelude::*;

verus! {

/// A message of another peer, as the relay delivers it.
#[derive(Debug, Clone, PartialEq, Eq)]
pub struct MatchData {
    pub data: Vec<u8>,
    pub opcode: i32,
    pub user_id: String,
}

/// A peer came or went.
#[derive(Debug, Clone, PartialEq, Eq)]
pub enum Event {
    Join(String),
    Leave(String),
}

/// The code that the relay gives to the arrival of a peer.
pub const EVENT_JOIN: u32 = 1;

/// The code that the relay gives to the departure of a peer.
pub const EVENT_LEAVE: u32 = 2;

/// The version of this interface, as the page that hosts the match asks for
/// it: major, minor and patch number in the three low bytes.
pub fn quad_nakama_crate_version() -> (version: u32)
    ensures
        version == 0x1_0000,
{
    assert((0u32 << 24) == 0 && (1u32 << 16) == 0x1_0000) by (bit_vector);
    (0 << 24) + (1 << 16) + 0
}

/// Sends a message to the other peers. Played alone, there is nobody to
/// send to.
pub fn send(_opcode: i32, _data: &[u8]) {
}

/// The next message of another peer. Played alone, there is never one.
pub fn try_recv() -> (message: Option<MatchData>)
    ensures
        message is None,
{
    None
}

/// The next arrival or departure. Played alone, there is never one.
pub fn events() -> (event: Option<Event>)
    ensures
        event is None,
{
    None
}

impl MatchData {
    /// A message as the relay hands it over: the sender, the code as an
    /// unsigned number, and the payload. The code is kept bit for bit.
    pub fn new(opcode: u32, data: Vec<u8>, user_id: String) -> (message: MatchData)
        ensures
            message.opcode == opcode as i32,
            message.data@ == data@,
            message.user_id@ == user_id@,
    {
        MatchData { data, opcode: #[verifier::truncate] (opcode as i32), user_id }
    }
}

impl Event {
    /// The event that the relay reports with this code for this peer, or
    /// `None` for a code that stands for no event.
    pub fn from_code(code: u32, user_id: String) -> (event: Option<Event>)
        ensures
            code == EVENT_JOIN ==> (event matches Some(Event::Join(id)) && id@ == user_id@),
            code == EVENT_LEAVE ==> (event matches Some(Event::Leave(id)) && id@ == user_id@),
            code != EVENT_JOIN && code != EVENT_LEAVE ==> event is None,
    {
        if code == EVENT_JOIN {
            Some(Event::Join(user_id))
        } else if code == EVENT_LEAVE {
            Some(Event::Leave(user_id))
        } else {
            None
        }
    }
}

} // verus!
