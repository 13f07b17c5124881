//! Saving the match into a snapshot and loading a snapshot back.
//!
//! A rollback loads the snapshot of an earlier frame and steps the match
//! forward again. The replay can only repeat the first run if a load brings
//! back exactly what the save took, whatever the match has become in
//! between: the laws at the end of this module say so.

use crate::game::{Bullet, BulletState, Game, Placement, Player, PlayerState, State, Vec2};
use crate::input::Input;
use vstd::prelude::*;

verus! {

/// A snapshot as two sequences.
pub struct StateView {
    pub players: Seq<PlayerState>,
    pub bullets: Seq<BulletState>,
}

impl View for State {
    type V = StateView;

    open spec fn view(&self) -> StateView {
        StateView { players: self.players@, bullets: self.bullets@ }
    }
}

/// What a snapshot keeps of a player who stands at `pos`.
pub open spec fn player_state(p: Player, pos: Vec2) -> PlayerState {
    PlayerState {
        handle: p.handle,
        collider: p.collider,
        x: pos.x,
        y: pos.y,
        vx: p.speed.x,
        vy: p.speed.y,
        prev_jump_down: p.prev_jump_down,
        facing_right: p.facing_right,
        health: p.health,
        gun_clock: p.gun_clock,
    }
}

/// What a snapshot keeps of a bullet.
pub open spec fn bullet_state(b: Bullet) -> BulletState {
    BulletState {
        x: b.pos.x,
        y: b.pos.y,
        vx: b.speed.x,
        vy: b.speed.y,
        lived: b.lived,
        lifetime: b.lifetime,
    }
}

/// The snapshot of players who stand at `positions`, and of bullets.
pub open spec fn saved(players: Seq<Player>, positions: Seq<Vec2>, bullets: Seq<Bullet>)
    -> StateView {
    StateView {
        players: Seq::new(players.len(), |i: int| player_state(players[i], positions[i])),
        bullets: Seq::new(bullets.len(), |i: int| bullet_state(bullets[i])),
    }
}

/// A player brought back from a snapshot.
pub open spec fn restored_player(s: PlayerState) -> Player {
    Player {
        handle: s.handle,
        collider: s.collider,
        speed: Vec2 { x: s.vx, y: s.vy },
        prev_jump_down: s.prev_jump_down,
        facing_right: s.facing_right,
        health: s.health,
        gun_clock: s.gun_clock,
    }
}

/// A bullet brought back from a snapshot.
pub open spec fn restored_bullet(s: BulletState) -> Bullet {
    Bullet {
        pos: Vec2 { x: s.x, y: s.y },
        speed: Vec2 { x: s.vx, y: s.vy },
        lived: s.lived,
        lifetime: s.lifetime,
    }
}

/// The players after a load: those of the snapshot, as many and in their
/// order.
pub open spec fn loaded_players(state: Seq<PlayerState>) -> Seq<Player> {
    Seq::new(state.len(), |i: int| restored_player(state[i]))
}

/// The bullets after a load: those of the snapshot, as many and in their
/// order.
pub open spec fn loaded_bullets(state: Seq<BulletState>) -> Seq<Bullet> {
    Seq::new(state.len(), |i: int| restored_bullet(state[i]))
}

/// Where a load puts the bodies of the players: each where the snapshot
/// found it.
pub open spec fn placements(state: Seq<PlayerState>) -> Seq<Placement> {
    Seq::new(
        state.len(),
        |i: int| Placement { collider: state[i].collider, pos: Vec2 { x: state[i].x, y: state[i].y } },
    )
}

/// The positions that a sequence of placements names, in order.
pub open spec fn positions_of(moves: Seq<Placement>) -> Seq<Vec2> {
    Seq::new(moves.len(), |i: int| moves[i].pos)
}

/// What a save takes right after `state` was loaded and the bodies were
/// moved as the load said: the state that a replay starts from.
pub open spec fn after_load(state: StateView) -> StateView {
    saved(
        loaded_players(state.players),
        positions_of(placements(state.players)),
        loaded_bullets(state.bullets),
    )
}

impl Game {
    /// Takes a snapshot of the match. `positions[i]` is where the body of
    /// player `i` stands in the collision world.
    pub fn save(&self, positions: &Vec<Vec2>) -> (state: State)
        requires
            positions@.len() == self.players@.len(),
        ensures
            state@ == saved(self.players@, positions@, self.bullets@),
    {
        let mut players: Vec<PlayerState> = Vec::new();
        let mut i: usize = 0;
        while i < self.players.len()
            invariant
                i <= self.players@.len(),
                positions@.len() == self.players@.len(),
                players@.len() == i,
                forall|j: int|
                    0 <= j < i ==> players@[j] == player_state(self.players@[j], positions@[j]),
            decreases self.players@.len() - i,
        {
            let p = self.players[i];
            let pos = positions[i];
            players.push(
                PlayerState {
                    handle: p.handle,
                    collider: p.collider,
                    x: pos.x,
                    y: pos.y,
                    vx: p.speed.x,
                    vy: p.speed.y,
                    prev_jump_down: p.prev_jump_down,
                    facing_right: p.facing_right,
                    health: p.health,
                    gun_clock: p.gun_clock,
                },
            );
            i += 1;
        }
        let mut bullets: Vec<BulletState> = Vec::new();
        let mut k: usize = 0;
        while k < self.bullets.len()
            invariant
                k <= self.bullets@.len(),
                bullets@.len() == k,
                forall|j: int| 0 <= j < k ==> bullets@[j] == bullet_state(self.bullets@[j]),
            decreases self.bullets@.len() - k,
        {
            let b = self.bullets[k];
            bullets.push(
                BulletState {
                    x: b.pos.x,
                    y: b.pos.y,
                    vx: b.speed.x,
                    vy: b.speed.y,
                    lived: b.lived,
                    lifetime: b.lifetime,
                },
            );
            k += 1;
        }
        let state = State { players, bullets };
        assert(state@.players =~= saved(self.players@, positions@, self.bullets@).players);
        assert(state@.bullets =~= saved(self.players@, positions@, self.bullets@).bullets);
        state
    }

    /// Replaces the match by a snapshot, and returns where the host has to
    /// move the bodies of the players.
    ///
    /// Nothing of the players and bullets that the match held is kept: a
    /// bullet released since the save is gone, and a player who left since
    /// is back. The stall counter and the local player are no part of a
    /// snapshot and stay.
    pub fn load(&mut self, state: &State) -> (moves: Vec<Placement>)
        ensures
            final(self).players@ == loaded_players(state@.players),
            final(self).bullets@ == loaded_bullets(state@.bullets),
            moves@ == placements(state@.players),
            final(self).local_player == old(self).local_player,
            final(self).frames_to_stall == old(self).frames_to_stall,
    {
        let mut players: Vec<Player> = Vec::new();
        let mut moves: Vec<Placement> = Vec::new();
        let mut i: usize = 0;
        while i < state.players.len()
            invariant
                i <= state.players@.len(),
                players@.len() == i,
                moves@.len() == i,
                forall|j: int| 0 <= j < i ==> players@[j] == restored_player(state.players@[j]),
                forall|j: int|
                    0 <= j < i ==> moves@[j] == (Placement {
                        collider: state.players@[j].collider,
                        pos: Vec2 { x: state.players@[j].x, y: state.players@[j].y },
                    }),
            decreases state.players@.len() - i,
        {
            let s = state.players[i];
            players.push(
                Player {
                    handle: s.handle,
                    collider: s.collider,
                    speed: Vec2 { x: s.vx, y: s.vy },
                    prev_jump_down: s.prev_jump_down,
                    facing_right: s.facing_right,
                    health: s.health,
                    gun_clock: s.gun_clock,
                },
            );
            moves.push(Placement { collider: s.collider, pos: Vec2 { x: s.x, y: s.y } });
            i += 1;
        }
        let mut bullets: Vec<Bullet> = Vec::new();
        let mut k: usize = 0;
        while k < state.bullets.len()
            invariant
                k <= state.bullets@.len(),
                bullets@.len() == k,
                forall|j: int| 0 <= j < k ==> bullets@[j] == restored_bullet(state.bullets@[j]),
            decreases state.bullets@.len() - k,
        {
            let s = state.bullets[k];
            bullets.push(
                Bullet {
                    pos: Vec2 { x: s.x, y: s.y },
                    speed: Vec2 { x: s.vx, y: s.vy },
                    lived: s.lived,
                    lifetime: s.lifetime,
                },
            );
            k += 1;
        }
        assert(players@ =~= loaded_players(state@.players));
        assert(bullets@ =~= loaded_bullets(state@.bullets));
        assert(moves@ =~= placements(state@.players));
        self.players = players;
        self.bullets = bullets;
        moves
    }
}

/// A load brings back what the save took, whatever the match has become
/// since: the players and bullets are those of the save, as many and in
/// their order, and every body is sent to where it stood.
pub proof fn lemma_load_restores_saved(
    players: Seq<Player>,
    positions: Seq<Vec2>,
    bullets: Seq<Bullet>,
)
    requires
        positions.len() == players.len(),
    ensures
        loaded_players(saved(players, positions, bullets).players) == players,
        loaded_bullets(saved(players, positions, bullets).bullets) == bullets,
        positions_of(placements(saved(players, positions, bullets).players)) == positions,
        forall|i: int|
            0 <= i < players.len() ==> (#[trigger] placements(
                saved(players, positions, bullets).players,
            )[i]).collider == players[i].collider,
{
    let state = saved(players, positions, bullets);
    assert(loaded_players(state.players) =~= players);
    assert(loaded_bullets(state.bullets) =~= bullets);
    assert(positions_of(placements(state.players)) =~= positions);
}

/// A save right after a load gives the snapshot back: the match after the
/// load, with the bodies moved as the load said, saves to that very
/// snapshot, bit for bit.
pub proof fn lemma_save_after_load(state: StateView)
    ensures
        after_load(state) == state,
{
    assert(after_load(state).players =~= state.players);
    assert(after_load(state).bullets =~= state.bullets);
}

/// The state after stepping `start` through `inputs`, one element per frame,
/// with a step that is a function of the state and the frame's inputs alone.
pub open spec fn simulate(
    step: spec_fn(StateView, Seq<Input>) -> StateView,
    start: StateView,
    inputs: Seq<Seq<Input>>,
) -> StateView
    decreases inputs.len(),
{
    if inputs.len() == 0 {
        start
    } else {
        step(simulate(step, start, inputs.drop_last()), inputs.last())
    }
}

/// A rollback ends where the straight run ends. Let the match be saved after
/// the first `confirmed` frames and then run on, on whatever guesses. Loading
/// that snapshot and stepping through the remaining frames with their true
/// inputs gives the state that stepping through all frames from the start
/// gives. The state the match had run to plays no part: a load takes nothing
/// from the match it replaces.
pub proof fn lemma_replay_matches_straight_run(
    step: spec_fn(StateView, Seq<Input>) -> StateView,
    start: StateView,
    inputs: Seq<Seq<Input>>,
    confirmed: int,
)
    requires
        0 <= confirmed <= inputs.len(),
    ensures
        simulate(
            step,
            after_load(simulate(step, start, inputs.take(confirmed))),
            inputs.skip(confirmed),
        ) == simulate(step, start, inputs),
    decreases inputs.len(),
{
    lemma_save_after_load(simulate(step, start, inputs.take(confirmed)));
    if confirmed == inputs.len() {
        assert(inputs.take(confirmed) =~= inputs);
        assert(inputs.skip(confirmed).len() == 0);
    } else {
        let shorter = inputs.drop_last();
        lemma_replay_matches_straight_run(step, start, shorter, confirmed);
        lemma_save_after_load(simulate(step, start, shorter.take(confirmed)));
        assert(shorter.take(confirmed) =~= inputs.take(confirmed));
        assert(inputs.skip(confirmed).drop_last() =~= shorter.skip(confirmed));
        assert(inputs.skip(confirmed).last() == inputs.last());
    }
}

} // verus!
