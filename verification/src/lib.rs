//! Host-side logic of a small networked platformer.
//!
//! The match is played in two ways. Over a rollback session every peer
//! simulates the whole match, saves a snapshot after each frame and, when a
//! guessed input turns out wrong, loads a snapshot and steps forward again:
//! [`session`] holds the decisions of the host loop, [`game`] what the input
//! of a frame and the flight of a bullet do to the players, and [`snapshot`]
//! the saving and loading, with the laws that make a replay repeat the first
//! run. Over a relay every peer simulates its own player and reports it:
//! [`world`] decides what is reported and what a report changes, [`message`]
//! and [`bits`] say how a report travels, and [`nakama`] is the relay's face.
//! Before a match, [`lobby`] seats the peers and [`shared`] holds the two
//! messages they exchange with it. [`input`] is the set of buttons a player
//! holds, and [`wire`] spells numbers as bytes.
//!
//! The session, the collision world, the window and the sockets are not
//! here. The library takes what they find as plain values and says what to
//! do next.

pub mod bits;
pub mod game;
pub mod input;
pub mod lobby;
pub mod message;
pub mod nakama;
pub mod session;
pub mod shared;
pub mod snapshot;
pub mod wire;
pub mod world;
