//! The decisions of the host loop around a rollback session.
//!
//! The session itself lives outside this library. Once per tick the host
//! drains the session's events, asks [`Game::update`] what to do, hands the
//! local input to the session where that is the answer, and asks [`judge`]
//! what the session's reply means.

use crate::game::{Bullet, Game, Player};
use vstd::prelude::*;

verus! {

/// What a session reports of its connections.
#[derive(Clone, Copy, Debug, PartialEq, Eq, Structural)]
pub enum SessionEvent {
    /// A first reply of the remote player has arrived.
    Connected(usize),
    /// The handshake with a remote player has made a step.
    Synchronizing { player: usize, count: u8, total: u8 },
    /// The handshake with a remote player is complete.
    Synchronized(usize),
    /// Every remote player is synchronized: the match can run.
    Running,
    /// A remote player is gone.
    Disconnected(usize),
    /// This peer runs ahead of the others and should sit out
    /// `frames_ahead` frames.
    TimeSync { frames_ahead: u8 },
    /// Nothing has arrived from a remote player for a while; after the
    /// timeout the player counts as gone.
    ConnectionInterrupted { player: usize, timeout_secs: u64, timeout_nanos: u32 },
    /// A remote player whose connection was interrupted is back.
    ConnectionResumed(usize),
}

/// Why a session refused the local input.
#[derive(Clone, Copy, Debug, PartialEq, Eq, Structural)]
pub enum SessionError {
    MultipleLocalPlayers,
    InRollback,
    NotSynchronized,
    /// This peer has run as far ahead of the confirmed frame as the session
    /// lets it.
    ReachedPredictionBarrier,
    InvalidPlayer(usize),
    PlayerDisconnected(usize),
}

/// What the host does in one tick, after it has drained the session.
#[derive(Clone, Copy, Debug, PartialEq, Eq, Structural)]
pub enum Tick {
    /// Sit this tick out: a stall request is being served.
    Stall,
    /// Do nothing: the session is not synchronized yet.
    Wait,
    /// Hand the local input to the session.
    Submit,
}

/// What the host does after the session has answered the local input.
#[derive(Clone, Copy, Debug, PartialEq, Eq, Structural)]
pub enum Verdict {
    /// The input was taken: advance the session by one frame and carry out
    /// its commands.
    Advance,
    /// The prediction barrier is reached: do not advance, and try again in
    /// the next tick.
    Hold,
    /// The session is broken: give up with this error.
    Abort(SessionError),
}

/// The stall counter after an event: a stall request sets it, no other event
/// touches it.
pub open spec fn stall_after_event(frames_to_stall: u8, event: SessionEvent) -> u8 {
    match event {
        SessionEvent::TimeSync { frames_ahead } => frames_ahead,
        _ => frames_to_stall,
    }
}

/// What the host does in a tick that starts with this stall counter.
pub open spec fn tick_of(frames_to_stall: u8, synchronized: bool) -> Tick {
    if frames_to_stall > 0 {
        Tick::Stall
    } else if synchronized {
        Tick::Submit
    } else {
        Tick::Wait
    }
}

/// The stall counter after one tick.
pub open spec fn stall_after_tick(frames_to_stall: u8) -> u8 {
    if frames_to_stall > 0 {
        (frames_to_stall - 1) as u8
    } else {
        0
    }
}

/// The stall counter after `ticks` ticks in which no event arrives.
pub open spec fn stall_after_ticks(frames_to_stall: u8, ticks: nat) -> u8
    decreases ticks,
{
    if ticks == 0 {
        frames_to_stall
    } else {
        stall_after_tick(stall_after_ticks(frames_to_stall, (ticks - 1) as nat))
    }
}

/// What the session's answer to the local input means for the host.
pub open spec fn verdict_of(answer: Result<(), SessionError>) -> Verdict {
    match answer {
        Ok(_) => Verdict::Advance,
        Err(SessionError::ReachedPredictionBarrier) => Verdict::Hold,
        Err(e) => Verdict::Abort(e),
    }
}

/// What the session's answer to the local input means for the host: only the
/// prediction barrier is a reason to wait, every other error ends the match.
pub fn judge(answer: Result<(), SessionError>) -> (verdict: Verdict)
    ensures
        verdict == verdict_of(answer),
{
    match answer {
        Ok(_) => Verdict::Advance,
        Err(SessionError::ReachedPredictionBarrier) => Verdict::Hold,
        Err(e) => Verdict::Abort(e),
    }
}

impl Game {
    /// A match about to start: the given players, no bullet, no stall.
    pub fn new(local_player: usize, players: Vec<Player>) -> (game: Game)
        ensures
            game.local_player == local_player,
            game.players@ == players@,
            game.bullets@ == Seq::<Bullet>::empty(),
            game.frames_to_stall == 0,
    {
        Game { local_player, players, bullets: Vec::new(), frames_to_stall: 0 }
    }

    /// Takes note of an event of the session. A stall request sets the stall
    /// counter; no event changes a player or a bullet.
    pub fn on_event(&mut self, event: SessionEvent)
        ensures
            final(self).frames_to_stall == stall_after_event(old(self).frames_to_stall, event),
            final(self).players@ == old(self).players@,
            final(self).bullets@ == old(self).bullets@,
            final(self).local_player == old(self).local_player,
    {
        match event {
            SessionEvent::TimeSync { frames_ahead } => {
                self.frames_to_stall = frames_ahead;
            },
            _ => {},
        }
    }

    /// Decides what the host does in this tick, and counts one stalled frame
    /// down where it stalls. `synchronized` is what the session says of
    /// itself.
    pub fn update(&mut self, synchronized: bool) -> (tick: Tick)
        ensures
            tick == tick_of(old(self).frames_to_stall, synchronized),
            final(self).frames_to_stall == stall_after_tick(old(self).frames_to_stall),
            final(self).players@ == old(self).players@,
            final(self).bullets@ == old(self).bullets@,
            final(self).local_player == old(self).local_player,
    {
        if self.frames_to_stall > 0 {
            self.frames_to_stall = self.frames_to_stall - 1;
            Tick::Stall
        } else if synchronized {
            Tick::Submit
        } else {
            Tick::Wait
        }
    }
}

/// A stall request is served in full and no longer. After a request for
/// `frames_ahead` frames, and with no further request, the host stalls in
/// each of the next `frames_ahead` ticks and in none after them.
pub proof fn lemma_stall_request_is_served(
    frames_to_stall: u8,
    frames_ahead: u8,
    ticks: nat,
    synchronized: bool,
)
    ensures
        ({
            let requested = stall_after_event(
                frames_to_stall,
                SessionEvent::TimeSync { frames_ahead },
            );
            &&& ticks < frames_ahead ==> stall_after_ticks(requested, ticks) == frames_ahead - ticks
            &&& ticks >= frames_ahead ==> stall_after_ticks(requested, ticks) == 0
            &&& (tick_of(stall_after_ticks(requested, ticks), synchronized) == Tick::Stall) == (
            ticks < frames_ahead)
        }),
    decreases ticks,
{
    if ticks > 0 {
        lemma_stall_request_is_served(
            frames_to_stall,
            frames_ahead,
            (ticks - 1) as nat,
            synchronized,
        );
    }
}

} // verus!
