//! What one peer of a relayed match knows of the others and tells them of
//! itself.
//!
//! Every peer simulates its own player and reports it; the others are drawn
//! from their reports. This module decides what is reported and when, and
//! what a report of another peer changes.

use crate::bits::{
    bytes_of, facing_in, packed_word, shooting_in, word_of, x_in, y_in, PlayerStateBits,
};
use crate::game::Fate;
use crate::message::{Died, Move, SelfDamage};
use crate::nakama::{Event, MatchData};
use crate::wire::DecodeError;
use vstd::prelude::*;

verus! {

/// The health a player starts with.
pub const FULL_HEALTH: i32 = 100;

/// What a peer knows of the player of another peer.
#[derive(Clone, Copy, Debug, PartialEq, Eq, Structural)]
pub struct Other {
    pub x: u32,
    pub y: u32,
    pub facing: bool,
    pub health: i32,
}

/// What the peer last told the others of its own player.
#[derive(Clone, Copy, Debug, PartialEq, Eq)]
pub struct NetworkCache {
    pub sent_health: i32,
    pub sent_position: [u8; 3],
    /// The time of the last report, in seconds, as the 64 bits of a
    /// double-precision number.
    pub last_send_time: u64,
}

/// A message for the other peers.
#[derive(Clone, Copy, Debug, PartialEq, Eq)]
pub enum Outbound {
    Move(Move),
    SelfDamage(SelfDamage),
    Died(Died),
}

/// A bullet that another player released, with the place and the direction
/// of that player.
#[derive(Clone, Copy, Debug, PartialEq, Eq, Structural)]
pub struct Shot {
    pub x: u32,
    pub y: u32,
    pub facing: bool,
}

/// What a message of another peer came to.
#[derive(Clone, Copy, Debug, PartialEq, Eq, Structural)]
pub enum Incoming {
    /// The sender is not among the known peers: nothing changed.
    Stranger,
    /// The sender's player moved, and perhaps released a bullet.
    Moved(Option<Shot>),
    /// The sender's player has a new health.
    Damaged,
    /// The sender's player died: nothing changed.
    Died,
    /// The message has a code that stands for nothing: nothing changed.
    Unknown,
}

/// The players of the other peers, each under the name of its peer.
#[derive(Debug)]
pub struct Others {
    entries: Vec<(String, Other)>,
}

/// Whether some entry has this name.
pub open spec fn has_name(entries: Seq<(String, Other)>, name: Seq<char>) -> bool {
    exists|i: int| 0 <= i < entries.len() && (#[trigger] entries[i]).0@ == name
}

/// No name occurs twice.
pub open spec fn distinct_names(entries: Seq<(String, Other)>) -> bool {
    forall|i: int, j: int|
        0 <= i < j < entries.len() ==> (#[trigger] entries[i]).0@ != (#[trigger] entries[j]).0@
}

/// The entries as a map from names to players.
pub open spec fn as_map(entries: Seq<(String, Other)>) -> Map<Seq<char>, Other> {
    Map::new(
        |name: Seq<char>| has_name(entries, name),
        |name: Seq<char>|
            entries[choose|i: int| 0 <= i < entries.len() && (#[trigger] entries[i]).0@ == name].1,
    )
}

/// Where no name occurs twice, every entry is found under its name.
pub proof fn lemma_entry_in_map(entries: Seq<(String, Other)>, i: int)
    requires
        distinct_names(entries),
        0 <= i < entries.len(),
    ensures
        as_map(entries).contains_key(entries[i].0@),
        as_map(entries)[entries[i].0@] == entries[i].1,
{
    let name = entries[i].0@;
    assert(has_name(entries, name));
    let j = choose|j: int| 0 <= j < entries.len() && (#[trigger] entries[j]).0@ == name;
    if j < i {
        assert(entries[j].0@ != entries[i].0@);
    } else if i < j {
        assert(entries[i].0@ != entries[j].0@);
    }
}

/// Where no name occurs twice, there are as many names as entries.
pub proof fn lemma_as_many_names_as_entries(entries: Seq<(String, Other)>)
    requires
        distinct_names(entries),
    ensures
        as_map(entries).dom().finite(),
        as_map(entries).dom().len() == entries.len(),
    decreases entries.len(),
{
    if entries.len() == 0 {
        assert(as_map(entries).dom() =~= Set::<Seq<char>>::empty());
    } else {
        let front = entries.drop_last();
        let name = entries.last().0@;
        assert(distinct_names(front)) by {
            assert forall|i: int, j: int| 0 <= i < j < front.len() implies (#[trigger] front[i]).0@
                != (#[trigger] front[j]).0@ by {
                assert(front[i] == entries[i]);
                assert(front[j] == entries[j]);
            }
        }
        lemma_as_many_names_as_entries(front);
        assert(!has_name(front, name)) by {
            if has_name(front, name) {
                let k = choose|k: int| 0 <= k < front.len() && (#[trigger] front[k]).0@ == name;
                assert(front[k] == entries[k]);
                assert(entries[k].0@ != entries[entries.len() - 1].0@);
            }
        }
        assert forall|n: Seq<char>| has_name(entries, n) == (n == name || has_name(front, n)) by {
            if has_name(entries, n) && n != name {
                let k = choose|k: int| 0 <= k < entries.len() && (#[trigger] entries[k]).0@ == n;
                assert(front[k] == entries[k]);
            }
            if has_name(front, n) {
                let k = choose|k: int| 0 <= k < front.len() && (#[trigger] front[k]).0@ == n;
                assert(entries[k] == front[k]);
            }
            if n == name {
                assert(entries[entries.len() - 1].0@ == n);
            }
        }
        assert(as_map(entries).dom() =~= as_map(front).dom().insert(name));
    }
}

impl View for Others {
    type V = Map<Seq<char>, Other>;

    closed spec fn view(&self) -> Map<Seq<char>, Other> {
        as_map(self.entries@)
    }
}

impl Others {
    /// No name occurs twice.
    pub closed spec fn wf(&self) -> bool {
        distinct_names(self.entries@)
    }

    /// Nobody.
    pub fn new() -> (others: Others)
        ensures
            others.wf(),
            others@ == Map::<Seq<char>, Other>::empty(),
    {
        let others = Others { entries: Vec::new() };
        assert(others@ =~= Map::<Seq<char>, Other>::empty());
        others
    }

    fn position(&self, name: &String) -> (found: Option<usize>)
        requires
            self.wf(),
        ensures
            match found {
                Some(i) => i < self.entries@.len() && self.entries@[i as int].0@ == name@,
                None => !has_name(self.entries@, name@),
            },
    {
        let mut i: usize = 0;
        while i < self.entries.len()
            invariant
                i <= self.entries@.len(),
                forall|j: int| 0 <= j < i ==> (#[trigger] self.entries@[j]).0@ != name@,
            decreases self.entries@.len() - i,
        {
            if self.entries[i].0 == *name {
                return Some(i);
            }
            i += 1;
        }
        None
    }

    /// The player of the peer with this name, if the peer is known.
    pub fn get(&self, name: &String) -> (other: Option<Other>)
        requires
            self.wf(),
        ensures
            other == if self@.contains_key(name@) {
                Some(self@[name@])
            } else {
                None
            },
    {
        match self.position(name) {
            Some(i) => {
                proof {
                    lemma_entry_in_map(self.entries@, i as int);
                }
                Some(self.entries[i].1)
            },
            None => None,
        }
    }

    /// Puts a player under a name; a player that the name stood for is
    /// replaced.
    pub fn insert(&mut self, name: String, other: Other)
        requires
            old(self).wf(),
        ensures
            final(self).wf(),
            final(self)@ == old(self)@.insert(name@, other),
    {
        let ghost before = self.entries@;
        let ghost at: int;
        match self.position(&name) {
            Some(i) => {
                proof {
                    at = i as int;
                }
                self.entries.set(i, (name, other));
            },
            None => {
                proof {
                    at = before.len() as int;
                }
                self.entries.push((name, other));
            },
        }
        proof {
            let after = self.entries@;
            assert(after[at].0@ == name@ && after[at].1 == other);
            assert(forall|k: int| 0 <= k < after.len() && k != at ==> after[k] == before[k]);
            assert forall|a: int, b: int| 0 <= a < b < after.len() implies (#[trigger] after[a]).0@
                != (#[trigger] after[b]).0@ by {
                if a != at && b != at {
                    assert(before[a].0@ != before[b].0@);
                } else if at < before.len() {
                    if a == at {
                        assert(before[a].0@ != before[b].0@);
                    } else {
                        assert(before[a].0@ != before[b].0@);
                    }
                } else {
                    assert(before[a].0@ != name@);
                }
            }
            assert forall|n: Seq<char>| has_name(after, n) == (n == name@ || has_name(
                before,
                n,
            )) by {
                if has_name(after, n) && n != name@ {
                    let k = choose|k: int| 0 <= k < after.len() && (#[trigger] after[k]).0@ == n;
                    assert(before[k].0@ == n);
                }
                if has_name(before, n) && n != name@ {
                    let k = choose|k: int| 0 <= k < before.len() && (#[trigger] before[k]).0@ == n;
                    assert(after[k].0@ == n);
                }
                if n == name@ {
                    assert(after[at].0@ == n);
                }
            }
            assert forall|n: Seq<char>| has_name(after, n) implies as_map(after)[n] == (if n
                == name@ {
                other
            } else {
                as_map(before)[n]
            }) by {
                if n != name@ {
                    let k = choose|k: int| 0 <= k < after.len() && (#[trigger] after[k]).0@ == n;
                    lemma_entry_in_map(after, k);
                    assert(before[k] == after[k]);
                    lemma_entry_in_map(before, k);
                } else {
                    lemma_entry_in_map(after, at);
                }
            }
            assert(as_map(after) =~= as_map(before).insert(name@, other));
        }
    }

    /// Takes the player of the peer with this name away, if the peer is
    /// known.
    pub fn remove(&mut self, name: &String)
        requires
            old(self).wf(),
        ensures
            final(self).wf(),
            final(self)@ == old(self)@.remove(name@),
    {
        let ghost before = self.entries@;
        match self.position(name) {
            Some(i) => {
                self.entries.remove(i);
                proof {
                    let after = self.entries@;
                    assert(after =~= before.remove(i as int));
                    assert forall|a: int, b: int| 0 <= a < b < after.len() implies (
                    #[trigger] after[a]).0@ != (#[trigger] after[b]).0@ by {
                        let a0 = if a < i { a } else { a + 1 };
                        let b0 = if b < i { b } else { b + 1 };
                        assert(after[a] == before[a0]);
                        assert(after[b] == before[b0]);
                    }
                    assert forall|n: Seq<char>| has_name(after, n) == (n != name@ && has_name(
                        before,
                        n,
                    )) by {
                        if has_name(after, n) {
                            let k = choose|k: int|
                                0 <= k < after.len() && (#[trigger] after[k]).0@ == n;
                            let k0 = if k < i { k } else { k + 1 };
                            assert(before[k0] == after[k]);
                            if n == name@ {
                                if k0 < i {
                                    assert(before[k0].0@ != before[i as int].0@);
                                } else {
                                    assert(before[i as int].0@ != before[k0].0@);
                                }
                            }
                        }
                        if n != name@ && has_name(before, n) {
                            let k = choose|k: int|
                                0 <= k < before.len() && (#[trigger] before[k]).0@ == n;
                            let k1 = if k < i { k } else { k - 1 };
                            assert(after[k1] == before[k]);
                        }
                    }
                    assert forall|n: Seq<char>| has_name(after, n) implies as_map(after)[n]
                        == as_map(before)[n] by {
                        let k = choose|k: int|
                            0 <= k < after.len() && (#[trigger] after[k]).0@ == n;
                        let k0 = if k < i { k } else { k + 1 };
                        assert(before[k0] == after[k]);
                        lemma_entry_in_map(after, k);
                        lemma_entry_in_map(before, k0);
                    }
                    assert(as_map(after) =~= as_map(before).remove(name@));
                }
            },
            None => {
                assert(as_map(before) =~= as_map(before).remove(name@));
            },
        }
    }

    /// How many peers are known.
    pub fn len(&self) -> (len: usize)
        requires
            self.wf(),
        ensures
            self@.dom().finite(),
            len == self@.dom().len(),
    {
        proof {
            lemma_as_many_names_as_entries(self.entries@);
        }
        self.entries.len()
    }

    /// The players, one for each known peer, in no order that means
    /// anything.
    pub fn values(&self) -> (players: Vec<Other>)
        requires
            self.wf(),
        ensures
            self@.dom().finite(),
            players@.len() == self@.dom().len(),
            forall|i: int| 0 <= i < players@.len() ==> self@.contains_value(#[trigger] players@[i]),
            forall|name: Seq<char>|
                self@.contains_key(name) ==> players@.contains(#[trigger] self@[name]),
    {
        let mut players: Vec<Other> = Vec::new();
        let mut i: usize = 0;
        while i < self.entries.len()
            invariant
                i <= self.entries@.len(),
                players@.len() == i,
                forall|j: int| 0 <= j < i ==> players@[j] == (#[trigger] self.entries@[j]).1,
            decreases self.entries@.len() - i,
        {
            players.push(self.entries[i].1);
            i += 1;
        }
        proof {
            lemma_as_many_names_as_entries(self.entries@);
            assert forall|j: int| 0 <= j < players@.len() implies self@.contains_value(
                #[trigger] players@[j],
            ) by {
                lemma_entry_in_map(self.entries@, j);
            }
            assert forall|name: Seq<char>| self@.contains_key(name) implies players@.contains(
                #[trigger] self@[name],
            ) by {
                let k = choose|k: int|
                    0 <= k < self.entries@.len() && (#[trigger] self.entries@[k]).0@ == name;
                lemma_entry_in_map(self.entries@, k);
                assert(players@[k] == self@[name]);
            }
        }
        players
    }
}

/// One peer's picture of a relayed match.
#[derive(Debug)]
pub struct World {
    /// The health of the peer's own player.
    pub health: i32,
    pub others: Others,
    pub network_cache: NetworkCache,
}

/// What the relay's deliveries of one round came to.
#[derive(Clone, Debug, PartialEq, Eq)]
pub struct Inbox {
    /// The bullets that the other players released, in the order in which
    /// the relay told of them.
    pub shots: Vec<Shot>,
    /// The codes that stand for nothing, of the messages of known peers that
    /// bore one, in their order.
    pub unknown: Vec<i32>,
    /// Why the round ended early, where it did: at a message too short to
    /// read. The messages before it were taken in, those after it were not.
    pub error: Option<DecodeError>,
}

/// What the peer did in one round with the relay.
#[derive(Clone, Debug, PartialEq, Eq)]
pub struct Round {
    /// The messages to send, in order.
    pub out: Vec<Outbound>,
    pub inbox: Inbox,
}

/// A cache as plain values.
pub struct CacheView {
    pub sent_health: i32,
    pub sent_position: Seq<u8>,
    pub last_send_time: u64,
}

/// A world as plain values.
pub struct WorldView {
    pub health: i32,
    pub others: Map<Seq<char>, Other>,
    pub cache: CacheView,
}

/// A message for the other peers as plain values.
pub enum OutboundView {
    Move(Seq<u8>),
    SelfDamage(u8),
    Died,
}

impl View for NetworkCache {
    type V = CacheView;

    open spec fn view(&self) -> CacheView {
        CacheView {
            sent_health: self.sent_health,
            sent_position: self.sent_position@,
            last_send_time: self.last_send_time,
        }
    }
}

impl View for World {
    type V = WorldView;

    open spec fn view(&self) -> WorldView {
        WorldView { health: self.health, others: self.others@, cache: self.network_cache@ }
    }
}

impl View for Outbound {
    type V = OutboundView;

    open spec fn view(&self) -> OutboundView {
        match *self {
            Outbound::Move(m) => OutboundView::Move(m.0@),
            Outbound::SelfDamage(m) => OutboundView::SelfDamage(m.0),
            Outbound::Died(_) => OutboundView::Died,
        }
    }
}

/// The views of a list of messages.
pub open spec fn views_of(out: Seq<Outbound>) -> Seq<OutboundView> {
    Seq::new(out.len(), |i: int| out[i]@)
}

/// A cache that holds nothing told.
pub open spec fn flushed() -> CacheView {
    CacheView { sent_health: FULL_HEALTH, sent_position: seq![0u8, 0u8, 0u8], last_send_time: 0 }
}

/// A player of whom nothing was heard yet: at the origin, facing right, in
/// full health.
pub open spec fn newcomer() -> Other {
    Other { x: 0, y: 0, facing: true, health: FULL_HEALTH }
}

/// Whether a report is due: the player shoots, or the time for the next
/// regular report has come.
pub open spec fn report_due(shooting: bool, network_frame: bool) -> bool {
    shooting || network_frame
}

/// Whether a due report tells the move: the packed state differs from the
/// one last told.
pub open spec fn tells_move(v: WorldView, packed: Seq<u8>) -> bool {
    v.cache.sent_position != packed
}

/// Whether a due report tells the health: it differs from the one last told.
pub open spec fn tells_health(v: WorldView) -> bool {
    v.cache.sent_health != v.health
}

/// Whether a due report tells a death: the health is to be told and has
/// fallen below zero.
pub open spec fn tells_death(v: WorldView) -> bool {
    tells_health(v) && v.health < 0
}

/// The messages of one report: the move where it is to be told, then the
/// death or the health, cut to one byte, where the health is to be told.
pub open spec fn told(
    v: WorldView,
    shooting: bool,
    network_frame: bool,
    x: u32,
    y: u32,
    facing: bool,
) -> Seq<OutboundView> {
    let packed = bytes_of(packed_word(x, y, facing, shooting));
    if !report_due(shooting, network_frame) {
        Seq::empty()
    } else {
        (if tells_move(v, packed) {
            seq![OutboundView::Move(packed)]
        } else {
            Seq::empty()
        }) + (if tells_death(v) {
            seq![OutboundView::Died]
        } else if tells_health(v) {
            seq![OutboundView::SelfDamage(v.health as u8)]
        } else {
            Seq::empty()
        })
    }
}

/// The world after one report: the cache holds the time and what was told;
/// a player who was told dead starts over in full health.
pub open spec fn published(
    v: WorldView,
    now: u64,
    shooting: bool,
    network_frame: bool,
    x: u32,
    y: u32,
    facing: bool,
) -> WorldView {
    if !report_due(shooting, network_frame) {
        v
    } else {
        let health = if tells_death(v) {
            FULL_HEALTH
        } else {
            v.health
        };
        WorldView {
            health,
            others: v.others,
            cache: CacheView {
                sent_health: health,
                sent_position: bytes_of(packed_word(x, y, facing, shooting)),
                last_send_time: now,
            },
        }
    }
}

/// The world after a peer came or went. A peer that comes is known from then
/// on as a newcomer, and the cache is flushed so that the next report tells
/// everything again. A peer that goes is forgotten.
pub open spec fn after_event(v: WorldView, event: Event) -> WorldView {
    match event {
        Event::Join(name) => WorldView {
            health: v.health,
            others: v.others.insert(name@, newcomer()),
            cache: flushed(),
        },
        Event::Leave(name) => WorldView {
            health: v.health,
            others: v.others.remove(name@),
            cache: v.cache,
        },
    }
}

/// The world after a list of arrivals and departures, in order.
pub open spec fn after_events(v: WorldView, events: Seq<Event>) -> WorldView
    decreases events.len(),
{
    if events.len() == 0 {
        v
    } else {
        after_event(after_events(v, events.drop_last()), events.last())
    }
}

/// What a message comes to.
///
/// A message of a peer that is not known is taken for a stranger's,
/// whatever it holds. Of a known peer, a move needs three bytes and a report
/// of health one: a shorter one is an error. A death and any other code are
/// told apart and need nothing.
pub open spec fn incoming(v: WorldView, message: MatchData) -> Result<Incoming, DecodeError> {
    let data = message.data@;
    if !v.others.contains_key(message.user_id@) {
        Ok(Incoming::Stranger)
    } else if message.opcode == Move::OPCODE {
        if data.len() < 3 {
            Err(DecodeError::Truncated)
        } else {
            let word = word_of(data.take(3));
            Ok(
                Incoming::Moved(
                    if shooting_in(word) {
                        Some(Shot { x: x_in(word), y: y_in(word), facing: facing_in(word) })
                    } else {
                        None
                    },
                ),
            )
        }
    } else if message.opcode == SelfDamage::OPCODE {
        if data.len() < 1 {
            Err(DecodeError::Truncated)
        } else {
            Ok(Incoming::Damaged)
        }
    } else if message.opcode == Died::OPCODE {
        Ok(Incoming::Died)
    } else {
        Ok(Incoming::Unknown)
    }
}

/// The world after a message. A move of a known peer sets the place and the
/// direction of its player, a report of health sets the health; nothing else
/// changes anything, an error least of all.
pub open spec fn after_message(v: WorldView, message: MatchData) -> WorldView {
    let name = message.user_id@;
    let data = message.data@;
    match incoming(v, message) {
        Ok(Incoming::Moved(_)) => {
            let word = word_of(data.take(3));
            WorldView {
                health: v.health,
                others: v.others.insert(
                    name,
                    Other {
                        x: x_in(word),
                        y: y_in(word),
                        facing: facing_in(word),
                        health: v.others[name].health,
                    },
                ),
                cache: v.cache,
            }
        },
        Ok(Incoming::Damaged) => WorldView {
            health: v.health,
            others: v.others.insert(
                name,
                Other {
                    x: v.others[name].x,
                    y: v.others[name].y,
                    facing: v.others[name].facing,
                    health: data[0] as i32,
                },
            ),
            cache: v.cache,
        },
        _ => v,
    }
}

/// The first message of the list that cannot be read by the world it
/// meets, if there is one.
pub open spec fn first_error(v: WorldView, messages: Seq<MatchData>) -> Option<int>
    decreases messages.len(),
{
    if messages.len() == 0 {
        None
    } else {
        match first_error(v, messages.drop_last()) {
            Some(i) => Some(i),
            None => if incoming(after_messages(v, messages.drop_last()), messages.last()) is Err {
                Some(messages.len() - 1)
            } else {
                None
            },
        }
    }
}

/// The world after a list of messages, in order.
pub open spec fn after_messages(v: WorldView, messages: Seq<MatchData>) -> WorldView
    decreases messages.len(),
{
    if messages.len() == 0 {
        v
    } else {
        after_message(after_messages(v, messages.drop_last()), messages.last())
    }
}

/// The bullets that a list of messages tells of, in order.
pub open spec fn shots_of(v: WorldView, messages: Seq<MatchData>) -> Seq<Shot>
    decreases messages.len(),
{
    if messages.len() == 0 {
        Seq::empty()
    } else {
        let before = shots_of(v, messages.drop_last());
        match incoming(after_messages(v, messages.drop_last()), messages.last()) {
            Ok(Incoming::Moved(Some(shot))) => before.push(shot),
            _ => before,
        }
    }
}

/// The codes that stand for nothing among a list of messages, in order.
pub open spec fn unknown_of(v: WorldView, messages: Seq<MatchData>) -> Seq<i32>
    decreases messages.len(),
{
    if messages.len() == 0 {
        Seq::empty()
    } else {
        let before = unknown_of(v, messages.drop_last());
        match incoming(after_messages(v, messages.drop_last()), messages.last()) {
            Ok(Incoming::Unknown) => before.push(messages.last().opcode),
            _ => before,
        }
    }
}

/// How many messages of a list are taken in: all of them, or those before
/// the first that cannot be read.
pub open spec fn taken(v: WorldView, messages: Seq<MatchData>) -> int {
    match first_error(v, messages) {
        Some(i) => i,
        None => messages.len() as int,
    }
}

/// What becomes of a bullet of a relayed match: it bursts on a wall, on
/// another player and on the peer's own player, and otherwise flies on for
/// as long as it is younger than its lifetime.
pub open spec fn fate_of(solid: bool, hits_other: bool, hits_self: bool, fresh: bool) -> Fate {
    if solid || hits_other || hits_self {
        Fate::Bursts
    } else if fresh {
        Fate::Flies
    } else {
        Fate::Fades
    }
}

fn same_bytes(a: &[u8; 3], b: &[u8; 3]) -> (same: bool)
    ensures
        same == (a@ == b@),
{
    let same = a[0] == b[0] && a[1] == b[1] && a[2] == b[2];
    if same {
        assert(a@ =~= b@);
    }
    same
}

impl Other {
    /// A player of whom nothing was heard yet.
    pub fn new() -> (other: Other)
        ensures
            other == newcomer(),
    {
        Other { x: 0, y: 0, facing: true, health: FULL_HEALTH }
    }
}

impl NetworkCache {
    /// The cache of a peer that has told nothing yet.
    pub fn new() -> (cache: NetworkCache)
        ensures
            cache@ == flushed(),
    {
        let cache = NetworkCache {
            sent_health: FULL_HEALTH,
            sent_position: [0, 0, 0],
            last_send_time: 0,
        };
        assert(cache.sent_position@ =~= seq![0u8, 0u8, 0u8]);
        cache
    }

    /// Forgets what was told, so that the next report tells everything
    /// again.
    pub fn flush(&mut self)
        ensures
            final(self)@ == flushed(),
    {
        self.sent_health = FULL_HEALTH;
        self.sent_position = [0, 0, 0];
        self.last_send_time = 0;
        assert(self.sent_position@ =~= seq![0u8, 0u8, 0u8]);
    }
}

impl World {
    /// No peer is known under two names.
    pub open spec fn wf(&self) -> bool {
        self.others.wf()
    }

    /// The world of a peer that has just entered: its player in full health,
    /// nobody else known, nothing told.
    pub fn new() -> (world: World)
        ensures
            world.wf(),
            world@ == (WorldView {
                health: FULL_HEALTH,
                others: Map::<Seq<char>, Other>::empty(),
                cache: flushed(),
            }),
    {
        World { health: FULL_HEALTH, others: Others::new(), network_cache: NetworkCache::new() }
    }

    /// Decides what the peer tells the others now, and remembers it.
    ///
    /// `now` is the time, `x` and `y` the place of the peer's own player;
    /// `network_frame` says whether the time for the next regular report has
    /// come.
    pub fn publish(
        &mut self,
        now: u64,
        shooting: bool,
        network_frame: bool,
        x: u32,
        y: u32,
        facing: bool,
    ) -> (out: Vec<Outbound>)
        requires
            old(self).wf(),
        ensures
            final(self).wf(),
            final(self)@ == published(old(self)@, now, shooting, network_frame, x, y, facing),
            views_of(out@) == told(old(self)@, shooting, network_frame, x, y, facing),
    {
        let mut out: Vec<Outbound> = Vec::new();
        if shooting || network_frame {
            self.network_cache.last_send_time = now;
            let state = PlayerStateBits::pack(x, y, facing, shooting);
            if !same_bytes(&self.network_cache.sent_position, &state.0) {
                self.network_cache.sent_position = state.0;
                out.push(Outbound::Move(Move(state.0)));
            }
            if self.network_cache.sent_health != self.health {
                if self.health < 0 {
                    self.network_cache.sent_health = FULL_HEALTH;
                    self.health = FULL_HEALTH;
                    out.push(Outbound::Died(Died));
                } else {
                    out.push(
                        Outbound::SelfDamage(SelfDamage(#[verifier::truncate] (self.health as u8))),
                    );
                    self.network_cache.sent_health = self.health;
                }
            }
        }
        assert(views_of(out@) =~= told(old(self)@, shooting, network_frame, x, y, facing));
        out
    }

    /// Takes note of a peer that came or went.
    pub fn on_event(&mut self, event: &Event)
        requires
            old(self).wf(),
        ensures
            final(self).wf(),
            final(self)@ == after_event(old(self)@, *event),
    {
        match event {
            Event::Leave(leaver) => {
                self.others.remove(leaver);
            },
            Event::Join(joined) => {
                self.network_cache.flush();
                self.others.insert(joined.clone(), Other::new());
            },
        }
    }

    /// Takes in a message of another peer. A message that is too short to
    /// read is an error and changes nothing.
    pub fn on_message(&mut self, message: &MatchData) -> (result: Result<Incoming, DecodeError>)
        requires
            old(self).wf(),
        ensures
            final(self).wf(),
            result == incoming(old(self)@, *message),
            final(self)@ == after_message(old(self)@, *message),
    {
        let other = match self.others.get(&message.user_id) {
            Some(other) => other,
            None => {
                return Ok(Incoming::Stranger);
            },
        };
        if message.opcode == Move::OPCODE {
            match Move::from_bytes(message.data.as_slice()) {
                Ok(Move(data)) => {
                    let state = PlayerStateBits(data);
                    let facing = state.facing();
                    let shooting = state.shooting();
                    let x = state.x();
                    let y = state.y();
                    self.others.insert(
                        message.user_id.clone(),
                        Other { x, y, facing, health: other.health },
                    );
                    let shot = if shooting {
                        Some(Shot { x, y, facing })
                    } else {
                        None
                    };
                    Ok(Incoming::Moved(shot))
                },
                Err(e) => Err(e),
            }
        } else if message.opcode == SelfDamage::OPCODE {
            match SelfDamage::from_bytes(message.data.as_slice()) {
                Ok(SelfDamage(health)) => {
                    self.others.insert(
                        message.user_id.clone(),
                        Other { x: other.x, y: other.y, facing: other.facing, health: health as i32 },
                    );
                    Ok(Incoming::Damaged)
                },
                Err(e) => Err(e),
            }
        } else if message.opcode == Died::OPCODE {
            Ok(Incoming::Died)
        } else {
            Ok(Incoming::Unknown)
        }
    }

    /// Takes in what the relay delivered: first the peers that came and
    /// went, then the messages of the others, each list in its order.
    ///
    /// The round ends at the first message that is too short to read.
    /// Everything before that message has then taken effect, and nothing
    /// after it.
    pub fn receive(&mut self, events: &Vec<Event>, messages: &Vec<MatchData>) -> (inbox: Inbox)
        requires
            old(self).wf(),
        ensures
            final(self).wf(),
            ({
                let met = after_events(old(self)@, events@);
                let read = messages@.take(taken(met, messages@));
                &&& final(self)@ == after_messages(met, read)
                &&& inbox.shots@ == shots_of(met, read)
                &&& inbox.unknown@ == unknown_of(met, read)
                &&& inbox.error == if first_error(met, messages@) is Some {
                    Some(DecodeError::Truncated)
                } else {
                    None
                }
            }),
    {
        let mut i: usize = 0;
        assert(events@.take(0) =~= Seq::<Event>::empty());
        while i < events.len()
            invariant
                self.wf(),
                i <= events@.len(),
                self@ == after_events(old(self)@, events@.take(i as int)),
            decreases events@.len() - i,
        {
            proof {
                assert(events@.take(i + 1).drop_last() =~= events@.take(i as int));
                assert(events@.take(i + 1).last() == events@[i as int]);
            }
            self.on_event(&events[i]);
            i += 1;
        }
        assert(events@.take(i as int) =~= events@);
        let ghost met = self@;
        let mut shots: Vec<Shot> = Vec::new();
        let mut unknown: Vec<i32> = Vec::new();
        let mut k: usize = 0;
        assert(messages@.take(0) =~= Seq::<MatchData>::empty());
        while k < messages.len()
            invariant
                self.wf(),
                k <= messages@.len(),
                met == after_events(old(self)@, events@),
                first_error(met, messages@.take(k as int)) is None,
                self@ == after_messages(met, messages@.take(k as int)),
                shots@ == shots_of(met, messages@.take(k as int)),
                unknown@ == unknown_of(met, messages@.take(k as int)),
            decreases messages@.len() - k,
        {
            proof {
                assert(messages@.take(k + 1).drop_last() =~= messages@.take(k as int));
                assert(messages@.take(k + 1).last() == messages@[k as int]);
            }
            match self.on_message(&messages[k]) {
                Ok(Incoming::Moved(Some(shot))) => {
                    shots.push(shot);
                },
                Ok(Incoming::Unknown) => {
                    unknown.push(messages[k].opcode);
                },
                Ok(_) => {},
                Err(e) => {
                    proof {
                        assert(first_error(met, messages@.take(k + 1)) == Some(k as int));
                        lemma_first_error_stays(met, messages@, k + 1);
                    }
                    return Inbox { shots, unknown, error: Some(e) };
                },
            }
            k += 1;
        }
        assert(messages@.take(k as int) =~= messages@);
        Inbox { shots, unknown, error: None }
    }

    /// One round with the relay for a host that has the deliveries at hand:
    /// reports the peer's own player as [`World::publish`] does, then takes
    /// the deliveries in as [`World::receive`] does.
    pub fn sync_state(
        &mut self,
        now: u64,
        shooting: bool,
        network_frame: bool,
        x: u32,
        y: u32,
        facing: bool,
        events: &Vec<Event>,
        messages: &Vec<MatchData>,
    ) -> (round: Round)
        requires
            old(self).wf(),
        ensures
            final(self).wf(),
            views_of(round.out@) == told(old(self)@, shooting, network_frame, x, y, facing),
            ({
                let reported = published(old(self)@, now, shooting, network_frame, x, y, facing);
                let met = after_events(reported, events@);
                let read = messages@.take(taken(met, messages@));
                &&& final(self)@ == after_messages(met, read)
                &&& round.inbox.shots@ == shots_of(met, read)
                &&& round.inbox.unknown@ == unknown_of(met, read)
                &&& round.inbox.error == if first_error(met, messages@) is Some {
                    Some(DecodeError::Truncated)
                } else {
                    None
                }
            }),
    {
        let out = self.publish(now, shooting, network_frame, x, y, facing);
        let inbox = self.receive(events, messages);
        Round { out, inbox }
    }

    /// Settles one bullet at the end of a frame. A bullet inside the box of
    /// the peer's own player takes [`crate::game::BULLET_DAMAGE`] from the
    /// player's health.
    pub fn strike(&mut self, solid: bool, hits_other: bool, hits_self: bool, fresh: bool) -> (fate:
        Fate)
        requires
            hits_self ==> old(self).health >= i32::MIN + crate::game::BULLET_DAMAGE,
        ensures
            fate == fate_of(solid, hits_other, hits_self, fresh),
            final(self).others == old(self).others,
            final(self).network_cache == old(self).network_cache,
            final(self).health == if hits_self {
                old(self).health - crate::game::BULLET_DAMAGE
            } else {
                old(self).health as int
            },
    {
        if hits_self {
            self.health = self.health - crate::game::BULLET_DAMAGE;
        }
        if solid || hits_other || hits_self {
            Fate::Bursts
        } else if fresh {
            Fate::Flies
        } else {
            Fate::Fades
        }
    }
}

/// An error among the first messages of a list is the first error of the
/// whole list.
pub proof fn lemma_first_error_stays(v: WorldView, messages: Seq<MatchData>, n: int)
    requires
        0 <= n <= messages.len(),
        first_error(v, messages.take(n)) is Some,
    ensures
        first_error(v, messages) == first_error(v, messages.take(n)),
    decreases messages.len() - n,
{
    if n < messages.len() {
        assert(messages.take(n + 1).drop_last() =~= messages.take(n));
        lemma_first_error_stays(v, messages, n + 1);
    } else {
        assert(messages.take(n) =~= messages);
    }
}

} // verus!
