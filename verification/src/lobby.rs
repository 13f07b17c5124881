//! The lobby that seats the peers before a match.
//!
//! A seat is a place in a list. A peer that leaves before the start frees its
//! seat but the list does not close up, so that the seat numbers of the
//! others stay good.

use crate::shared::{Join, Start};
use rand::seq::SliceRandom;
use vstd::prelude::*;

verus! {

/// A place of the map where a player can appear.
#[derive(Clone, Copy, Debug, PartialEq, Eq, Structural)]
pub struct Spawn {
    pub x: u16,
    pub y: u8,
}

/// A seated peer: the port it listens on and the place where its player
/// appears.
#[derive(Clone, Copy, Debug, PartialEq, Eq, Structural)]
pub struct Player {
    pub port: u16,
    pub x: u16,
    pub y: u8,
}

/// The seats of one match in the making.
#[derive(Debug)]
pub struct Lobby {
    pub players: Vec<Option<Player>>,
    pub started: bool,
}

/// What the lobby remembers of one connection.
#[derive(Clone, Copy, Debug, PartialEq, Eq, Structural)]
pub struct ClientState {
    /// The seat of the peer.
    pub index: usize,
    /// Whether the peer was told that the match starts.
    pub started: bool,
}

/// The line of a start message that stands for a seated peer.
pub open spec fn entry_of(player: Player) -> (u16, (u16, u8)) {
    (player.port, (player.x, player.y))
}

/// The start message for a list of seats: the taken seats, in order.
pub open spec fn roster_of(seats: Seq<Option<Player>>) -> Seq<(u16, (u16, u8))>
    decreases seats.len(),
{
    if seats.len() == 0 {
        Seq::empty()
    } else if seats.last() is Some {
        roster_of(seats.drop_last()).push(entry_of(seats.last().unwrap()))
    } else {
        roster_of(seats.drop_last())
    }
}

/// Picks one of the places at random.
///
/// Calls `choose` of rand's `SliceRandom` on the slice, with the generator
/// of the thread. Trusted: the result is `None` for an empty slice and an
/// element of the slice otherwise. Which element is left open.
#[verifier::external_body]
fn choose_spawn(spawners: &Vec<Spawn>) -> (spawn: Option<Spawn>)
    ensures
        spawners@.len() == 0 ==> spawn is None,
        spawners@.len() > 0 ==> spawn is Some && spawners@.contains(spawn.unwrap()),
{
    spawners.choose(&mut rand::thread_rng()).copied()
}

impl Lobby {
    /// An empty lobby whose match has not started.
    pub fn new() -> (lobby: Lobby)
        ensures
            lobby.players@ == Seq::<Option<Player>>::empty(),
            !lobby.started,
    {
        Lobby { players: Vec::new(), started: false }
    }

    /// Seats a peer on a new seat at the end and returns the seat.
    pub fn join(&mut self, player: Player) -> (client: ClientState)
        ensures
            client.index == old(self).players@.len(),
            !client.started,
            final(self).players@ == old(self).players@.push(Some(player)),
            final(self).started == old(self).started,
    {
        let index = self.players.len();
        self.players.push(Some(player));
        ClientState { index, started: false }
    }

    /// Seats the peer that sent `join`, at one of the places of the map,
    /// picked at random.
    pub fn seat(&mut self, join: Join, spawners: &Vec<Spawn>) -> (client: ClientState)
        requires
            spawners@.len() > 0,
        ensures
            client.index == old(self).players@.len(),
            !client.started,
            exists|i: int|
                0 <= i < spawners@.len() && final(self).players@ == old(self).players@.push(
                    Some(Player { port: join.0, x: #[trigger] spawners@[i].x, y: spawners@[i].y }),
                ),
            final(self).started == old(self).started,
    {
        let picked = choose_spawn(spawners);
        let spawn = picked.unwrap();
        self.join(Player { port: join.0, x: spawn.x, y: spawn.y })
    }

    /// Frees the seat of a peer whose connection ended, unless the peer was
    /// already told that the match starts.
    pub fn on_disconnect(&mut self, client: ClientState)
        requires
            !client.started ==> client.index < old(self).players@.len(),
        ensures
            final(self).started == old(self).started,
            final(self).players@ == if client.started {
                old(self).players@
            } else {
                old(self).players@.update(client.index as int, None)
            },
    {
        if !client.started {
            self.players.set(client.index, None);
        }
    }

    /// Starts the match.
    pub fn start(&mut self)
        ensures
            final(self).started,
            final(self).players@ == old(self).players@,
    {
        self.started = true;
    }

    /// The start message: the taken seats, in order.
    pub fn roster(&self) -> (start: Start)
        ensures
            start@ == roster_of(self.players@),
    {
        let mut lines: Vec<(u16, (u16, u8))> = Vec::new();
        let mut i: usize = 0;
        assert(self.players@.take(0) =~= Seq::<Option<Player>>::empty());
        while i < self.players.len()
            invariant
                i <= self.players@.len(),
                lines@ == roster_of(self.players@.take(i as int)),
            decreases self.players@.len() - i,
        {
            proof {
                assert(self.players@.take(i + 1).drop_last() =~= self.players@.take(i as int));
                assert(self.players@.take(i + 1).last() == self.players@[i as int]);
            }
            match self.players[i] {
                Some(player) => {
                    lines.push((player.port, (player.x, player.y)));
                },
                None => {},
            }
            i += 1;
        }
        assert(self.players@.take(i as int) =~= self.players@);
        Start(lines)
    }

    /// What the lobby tells a connection when its timer fires: nothing
    /// before the start; after it the start message, once, and the connection
    /// is then done.
    pub fn on_timer(&self, client: &mut ClientState) -> (message: Option<Start>)
        ensures
            final(client).index == old(client).index,
            final(client).started == (old(client).started || self.started),
            self.started ==> message is Some && message.unwrap()@ == roster_of(self.players@),
            !self.started ==> message is None,
    {
        if self.started {
            client.started = true;
            Some(self.roster())
        } else {
            None
        }
    }
}

/// The start message of two lists of seats in a row is the start message of
/// the first followed by that of the second.
pub proof fn lemma_roster_of_concat(a: Seq<Option<Player>>, b: Seq<Option<Player>>)
    ensures
        roster_of(a + b) == roster_of(a) + roster_of(b),
    decreases b.len(),
{
    if b.len() == 0 {
        assert(a + b =~= a);
        assert(roster_of(a) + roster_of(b) =~= roster_of(a));
    } else {
        lemma_roster_of_concat(a, b.drop_last());
        assert((a + b).drop_last() =~= a + b.drop_last());
        assert((a + b).last() == b.last());
        if b.last() is Some {
            assert(roster_of(a + b) =~= roster_of(a) + roster_of(b));
        }
    }
}

/// A peer that joins comes last in the start message, and the lines of the
/// others stay as they are.
pub proof fn lemma_join_extends_roster(seats: Seq<Option<Player>>, player: Player)
    ensures
        roster_of(seats.push(Some(player))) == roster_of(seats).push(entry_of(player)),
{
    assert(seats.push(Some(player)).drop_last() =~= seats);
}

/// A peer that leaves takes its own line out of the start message and no
/// other: the lines of the seats before it and of the seats after it stay,
/// in order.
pub proof fn lemma_leave_removes_one_line(seats: Seq<Option<Player>>, index: int)
    requires
        0 <= index < seats.len(),
        seats[index] is Some,
    ensures
        roster_of(seats) == roster_of(seats.take(index)).push(entry_of(seats[index].unwrap()))
            + roster_of(seats.skip(index + 1)),
        roster_of(seats.update(index, None)) == roster_of(seats.take(index)) + roster_of(
            seats.skip(index + 1),
        ),
{
    let before = seats.take(index);
    let after = seats.skip(index + 1);
    let taken = seq![seats[index]];
    let freed = seq![None::<Player>];
    assert(seats =~= before + taken + after);
    assert(seats.update(index, None) =~= before + freed + after);
    lemma_roster_of_concat(before + taken, after);
    lemma_roster_of_concat(before, taken);
    lemma_roster_of_concat(before + freed, after);
    lemma_roster_of_concat(before, freed);
    assert(taken.drop_last() =~= Seq::<Option<Player>>::empty());
    assert(freed.drop_last() =~= Seq::<Option<Player>>::empty());
    assert(roster_of(taken) =~= seq![entry_of(seats[index].unwrap())]) by {
        assert(roster_of(taken.drop_last()) =~= Seq::<(u16, (u16, u8))>::empty());
    }
    assert(roster_of(freed) =~= Seq::<(u16, (u16, u8))>::empty()) by {
        assert(roster_of(freed.drop_last()) =~= Seq::<(u16, (u16, u8))>::empty());
    }
    assert(roster_of(before) + roster_of(taken) =~= roster_of(before).push(
        entry_of(seats[index].unwrap()),
    ));
    assert(roster_of(before) + roster_of(freed) =~= roster_of(before));
}

/// A peer that sits when the match starts is in the start message, after
/// the peers on the seats before it: every seated peer will find its own
/// port there.
pub proof fn lemma_seated_peer_is_listed(seats: Seq<Option<Player>>, index: int)
    requires
        0 <= index < seats.len(),
        seats[index] is Some,
    ensures
        roster_of(seats.take(index)).len() < roster_of(seats).len(),
        roster_of(seats)[roster_of(seats.take(index)).len() as int] == entry_of(
            seats[index].unwrap(),
        ),
{
    lemma_leave_removes_one_line(seats, index);
}

} // verus!
