//! The simulated match: the players and bullets that a host steps once per
//! frame, and what the input of a frame and the flight of a bullet decide.
//!
//! Positions, speeds and ages are single-precision numbers. This library never
//! computes with them: it carries each as its 32 bits, so that a snapshot is
//! compared and hashed bit for bit. Gravity, movement and collision are the
//! host's; what they find is handed in as plain flags.

use crate::input::{Button, Input};
use vstd::prelude::*;

verus! {

/// A single-precision number, carried as its 32 bits.
pub type Scalar = u32;

/// The bits of `0.0`.
pub const ZERO: Scalar = 0;

/// The bits of `150.0`: the horizontal speed of a player who runs right.
pub const RUN_SPEED: Scalar = 0x4316_0000;

/// The bits of `-150.0`: the horizontal speed of a player who runs left.
pub const RUN_SPEED_BACK: Scalar = 0xc316_0000;

/// The bits of `-250.0`: the vertical speed of a player who leaves the ground.
pub const JUMP_SPEED_UP: Scalar = 0xc37a_0000;

/// The bits of `300.0`: the horizontal speed of a bullet shot to the right.
pub const BULLET_SPEED: Scalar = 0x4396_0000;

/// The bits of `-300.0`: the horizontal speed of a bullet shot to the left.
pub const BULLET_SPEED_BACK: Scalar = 0xc396_0000;

/// The bits of `0.7`: the seconds a bullet lives.
pub const BULLET_LIFETIME: Scalar = 0x3f33_3333;

/// The frames between two bullets of a player who keeps shooting.
pub const BULLET_INTERVAL_TICKS: u32 = 10;

/// The health a player starts with.
pub const START_HEALTH: i32 = 100;

/// The health a bullet takes from the player it hits.
pub const BULLET_DAMAGE: i32 = 5;

/// A point or a velocity in the plane.
#[derive(Clone, Copy, Debug, PartialEq, Eq, Hash, Structural)]
pub struct Vec2 {
    pub x: Scalar,
    pub y: Scalar,
}

/// One player of the running match.
#[derive(Clone, Copy, Debug, PartialEq, Eq, Structural)]
pub struct Player {
    /// The slot of this player in the session: it selects the player's input
    /// in each frame and never changes.
    pub handle: usize,
    /// The body of this player in the collision world, which holds the
    /// player's position.
    pub collider: usize,
    pub speed: Vec2,
    pub prev_jump_down: bool,
    pub facing_right: bool,
    pub health: i32,
    pub gun_clock: u32,
}

/// One bullet in flight.
#[derive(Clone, Copy, Debug, PartialEq, Eq, Structural)]
pub struct Bullet {
    pub pos: Vec2,
    pub speed: Vec2,
    pub lived: Scalar,
    pub lifetime: Scalar,
}

/// What a snapshot keeps of a player: everything, the position included,
/// so that a player who has left the match since can be brought back.
#[derive(Clone, Copy, Debug, PartialEq, Eq, Hash, Structural)]
pub struct PlayerState {
    pub handle: usize,
    pub collider: usize,
    pub x: Scalar,
    pub y: Scalar,
    pub vx: Scalar,
    pub vy: Scalar,
    pub prev_jump_down: bool,
    pub facing_right: bool,
    pub health: i32,
    pub gun_clock: u32,
}

/// What a snapshot keeps of a bullet.
#[derive(Clone, Copy, Debug, PartialEq, Eq, Hash, Structural)]
pub struct BulletState {
    pub x: Scalar,
    pub y: Scalar,
    pub vx: Scalar,
    pub vy: Scalar,
    pub lived: Scalar,
    pub lifetime: Scalar,
}

/// A snapshot of the match at the end of one frame.
#[derive(Clone, Debug, PartialEq, Eq, Hash)]
pub struct State {
    pub players: Vec<PlayerState>,
    pub bullets: Vec<BulletState>,
}

/// The match as one peer simulates it.
#[derive(Debug)]
pub struct Game {
    /// The handle of the player who sits at this machine.
    pub local_player: usize,
    pub players: Vec<Player>,
    pub bullets: Vec<Bullet>,
    /// The frames this peer still has to sit out so that the others catch up.
    pub frames_to_stall: u8,
}

/// The horizontal intent of a player in one frame.
#[derive(Clone, Copy, Debug, PartialEq, Eq, Structural)]
pub enum Run {
    Left,
    Right,
    Still,
}

/// What the host has to carry out for a player after the player's input was
/// read.
#[derive(Clone, Copy, Debug, PartialEq, Eq, Structural)]
pub struct Control {
    pub run: Run,
    /// The player left the ground in this frame.
    pub jumped: bool,
    /// The player released a bullet in this frame.
    pub fired: bool,
    /// The direction the player faced when the input was read, which is the
    /// direction of a bullet released in this frame.
    pub aim_right: bool,
}

/// What becomes of a bullet at the end of a frame.
#[derive(Clone, Copy, Debug, PartialEq, Eq, Structural)]
pub enum Fate {
    /// The bullet stays in flight.
    Flies,
    /// The bullet has outlived its lifetime and is removed.
    Fades,
    /// The bullet hit a wall or a player: it is removed and explodes where
    /// it is.
    Bursts,
}

/// Where the host has to move a body of the collision world.
#[derive(Clone, Copy, Debug, PartialEq, Eq, Structural)]
pub struct Placement {
    pub collider: usize,
    pub pos: Vec2,
}

/// The horizontal intent that an input expresses: right wins over left.
pub open spec fn run_of(input: Input) -> Run {
    if input.has(Button::Right) {
        Run::Right
    } else if input.has(Button::Left) {
        Run::Left
    } else {
        Run::Still
    }
}

/// The horizontal speed of a player with the given intent.
pub open spec fn run_speed(run: Run) -> Scalar {
    match run {
        Run::Right => RUN_SPEED,
        Run::Left => RUN_SPEED_BACK,
        Run::Still => ZERO,
    }
}

/// The direction a player faces after a frame: a player who runs faces the
/// way of the run, a player who stands keeps facing as before.
pub open spec fn facing_after(run: Run, facing_right: bool) -> bool {
    match run {
        Run::Right => true,
        Run::Left => false,
        Run::Still => facing_right,
    }
}

/// The horizontal intent that the keys of a peer's own player express:
/// right wins over left.
pub open spec fn run_of_keys(right: bool, left: bool) -> Run {
    if right {
        Run::Right
    } else if left {
        Run::Left
    } else {
        Run::Still
    }
}

/// Whether a player leaves the ground: the jump button went down in this
/// frame while the player stood on the ground.
pub open spec fn jumps(p: Player, input: Input, on_ground: bool) -> bool {
    input.has(Button::Jump) && !p.prev_jump_down && on_ground
}

/// Whether a player releases a bullet: the shoot button is held and the gun
/// clock stands at zero.
pub open spec fn fires(p: Player, input: Input) -> bool {
    input.has(Button::Shoot) && p.gun_clock == 0
}

/// The gun clock after a frame: it counts the frames the shoot button has
/// been held, modulo the interval between two bullets, and falls back to
/// zero when the button is released.
pub open spec fn gun_clock_after(clock: u32, shooting: bool) -> int {
    if shooting {
        (clock + 1) % (BULLET_INTERVAL_TICKS as int)
    } else {
        0
    }
}

/// The player after the input of one frame was read.
pub open spec fn steered(p: Player, input: Input, on_ground: bool) -> Player {
    Player {
        handle: p.handle,
        collider: p.collider,
        speed: Vec2 {
            x: run_speed(run_of(input)),
            y: if jumps(p, input, on_ground) {
                JUMP_SPEED_UP
            } else {
                p.speed.y
            },
        },
        prev_jump_down: input.has(Button::Jump),
        facing_right: facing_after(run_of(input), p.facing_right),
        health: p.health,
        gun_clock: gun_clock_after(p.gun_clock, input.has(Button::Shoot)) as u32,
    }
}

/// What the host has to carry out after `p` read `input`.
pub open spec fn control_of(p: Player, input: Input, on_ground: bool) -> Control {
    Control {
        run: run_of(input),
        jumped: jumps(p, input, on_ground),
        fired: fires(p, input),
        aim_right: p.facing_right,
    }
}

impl Run {
    /// The horizontal speed of a player with this intent.
    pub fn speed(self) -> (speed: Scalar)
        ensures
            speed == run_speed(self),
    {
        match self {
            Run::Right => RUN_SPEED,
            Run::Left => RUN_SPEED_BACK,
            Run::Still => ZERO,
        }
    }

    /// The direction a player with this intent faces after the frame, given
    /// the direction the player faced before.
    pub fn turn(self, facing_right: bool) -> (facing: bool)
        ensures
            facing == facing_after(self, facing_right),
    {
        match self {
            Run::Right => true,
            Run::Left => false,
            Run::Still => facing_right,
        }
    }
}

/// What the keys of a peer's own player decide in one frame of a relayed
/// match: the horizontal intent, and whether the player leaves the ground.
/// The player jumps when the jump key went down in this frame while the
/// player stood on the ground.
pub fn steer_keys(right: bool, left: bool, jump_pressed: bool, on_ground: bool) -> (r: (Run, bool))
    ensures
        r.0 == run_of_keys(right, left),
        r.1 == (jump_pressed && on_ground),
{
    let run = if right {
        Run::Right
    } else if left {
        Run::Left
    } else {
        Run::Still
    };
    (run, jump_pressed && on_ground)
}

impl Player {
    /// A player at the start of a match: at rest, facing right, in full
    /// health, with the gun ready.
    pub fn new(handle: usize, collider: usize) -> (p: Player)
        ensures
            p == (Player {
                handle,
                collider,
                speed: Vec2 { x: ZERO, y: ZERO },
                prev_jump_down: false,
                facing_right: true,
                health: START_HEALTH,
                gun_clock: 0,
            }),
    {
        Player {
            handle,
            collider,
            speed: Vec2 { x: ZERO, y: ZERO },
            prev_jump_down: false,
            facing_right: true,
            health: START_HEALTH,
            gun_clock: 0,
        }
    }

    /// Reads the input of one frame: sets the horizontal speed, starts a jump,
    /// runs the gun clock and turns the player, and tells the host what is
    /// left to do. Gravity and movement are the host's.
    pub fn steer(&mut self, input: Input, on_ground: bool) -> (control: Control)
        requires
            input.has(Button::Shoot) ==> old(self).gun_clock < u32::MAX,
        ensures
            *final(self) == steered(*old(self), input, on_ground),
            control == control_of(*old(self), input, on_ground),
            final(self).gun_clock < BULLET_INTERVAL_TICKS,
    {
        let aim_right = self.facing_right;
        let run = if input.contains(Button::Right) {
            Run::Right
        } else if input.contains(Button::Left) {
            Run::Left
        } else {
            Run::Still
        };
        match run {
            Run::Right => {
                self.speed.x = RUN_SPEED;
                self.facing_right = true;
            },
            Run::Left => {
                self.speed.x = RUN_SPEED_BACK;
                self.facing_right = false;
            },
            Run::Still => {
                self.speed.x = ZERO;
            },
        }
        let jump_down = input.contains(Button::Jump);
        let jumped = jump_down && !self.prev_jump_down && on_ground;
        if jumped {
            self.speed.y = JUMP_SPEED_UP;
        }
        self.prev_jump_down = jump_down;
        let mut fired = false;
        if input.contains(Button::Shoot) {
            fired = self.gun_clock == 0;
            self.gun_clock = (self.gun_clock + 1) % BULLET_INTERVAL_TICKS;
        } else {
            self.gun_clock = 0;
        }
        Control { run, jumped, fired, aim_right }
    }
}

impl Bullet {
    /// A bullet that leaves the muzzle at `pos`, to the right or to the left.
    pub fn fired(pos: Vec2, aim_right: bool) -> (b: Bullet)
        ensures
            b == (Bullet {
                pos,
                speed: Vec2 {
                    x: if aim_right {
                        BULLET_SPEED
                    } else {
                        BULLET_SPEED_BACK
                    },
                    y: ZERO,
                },
                lived: ZERO,
                lifetime: BULLET_LIFETIME,
            }),
    {
        let x = if aim_right {
            BULLET_SPEED
        } else {
            BULLET_SPEED_BACK
        };
        Bullet { pos, speed: Vec2 { x, y: ZERO }, lived: ZERO, lifetime: BULLET_LIFETIME }
    }
}

/// Whether `i` is the first player, in order, whose box holds the bullet.
pub open spec fn is_first_hit(overlaps: Seq<bool>, i: int) -> bool {
    &&& 0 <= i < overlaps.len()
    &&& overlaps[i]
    &&& forall|j: int| 0 <= j < i ==> !overlaps[j]
}

/// Whether the box of any player holds the bullet.
pub open spec fn hits_someone(overlaps: Seq<bool>) -> bool {
    exists|i: int| 0 <= i < overlaps.len() && overlaps[i]
}

/// A wall stops a bullet before any player does; a bullet that meets nothing
/// flies on for as long as it is younger than its lifetime.
pub open spec fn fate_of(solid: bool, overlaps: Seq<bool>, fresh: bool) -> Fate {
    if solid || hits_someone(overlaps) {
        Fate::Bursts
    } else if fresh {
        Fate::Flies
    } else {
        Fate::Fades
    }
}

/// The player after a bullet hit.
pub open spec fn wounded(p: Player) -> Player {
    Player {
        handle: p.handle,
        collider: p.collider,
        speed: p.speed,
        prev_jump_down: p.prev_jump_down,
        facing_right: p.facing_right,
        health: (p.health - BULLET_DAMAGE) as i32,
        gun_clock: p.gun_clock,
    }
}

/// The players after a bullet was settled: unless a wall stopped the bullet,
/// the first player whose box holds it is wounded; nobody else changes.
pub open spec fn struck(players: Seq<Player>, solid: bool, overlaps: Seq<bool>) -> Seq<Player> {
    Seq::new(
        players.len(),
        |i: int|
            if !solid && is_first_hit(overlaps, i) {
                wounded(players[i])
            } else {
                players[i]
            },
    )
}

/// Whether a player is still in the match.
pub open spec fn alive(p: Player) -> bool {
    p.health > 0
}

/// Settles one bullet at the end of a frame.
///
/// `solid` says whether the bullet is inside a wall, `overlaps[i]` whether it
/// is inside the box of player `i`, and `fresh` whether it is younger than its
/// lifetime. Unless a wall stopped it, the first player whose box holds the
/// bullet loses [`BULLET_DAMAGE`]; nobody else changes.
pub fn strike(players: &mut Vec<Player>, solid: bool, overlaps: &Vec<bool>, fresh: bool) -> (fate:
    Fate)
    requires
        overlaps@.len() == old(players)@.len(),
        forall|i: int|
            !solid && is_first_hit(overlaps@, i) ==> old(players)@[i].health >= i32::MIN
                + BULLET_DAMAGE,
    ensures
        fate == fate_of(solid, overlaps@, fresh),
        final(players)@ == struck(old(players)@, solid, overlaps@),
{
    if solid {
        assert(players@ =~= struck(players@, solid, overlaps@));
        return Fate::Bursts;
    }
    let mut i: usize = 0;
    while i < overlaps.len()
        invariant
            !solid,
            i <= overlaps@.len(),
            overlaps@.len() == players@.len(),
            players@ == old(players)@,
            forall|j: int| 0 <= j < i ==> !overlaps@[j],
            forall|j: int|
                is_first_hit(overlaps@, j) ==> players@[j].health >= i32::MIN + BULLET_DAMAGE,
        decreases overlaps@.len() - i,
    {
        if overlaps[i] {
            assert(is_first_hit(overlaps@, i as int));
            let mut p = players[i];
            p.health = p.health - BULLET_DAMAGE;
            players.set(i, p);
            assert(p == wounded(old(players)@[i as int]));
            assert forall|k: int| 0 <= k < players@.len() && k != i implies !is_first_hit(
                overlaps@,
                k,
            ) by {
                if k > i {
                    assert(overlaps@[i as int]);
                }
            }
            assert(players@ =~= struck(old(players)@, solid, overlaps@));
            return Fate::Bursts;
        }
        i += 1;
    }
    assert(!hits_someone(overlaps@));
    assert(players@ =~= struck(old(players)@, solid, overlaps@));
    if fresh {
        Fate::Flies
    } else {
        Fate::Fades
    }
}

/// Takes the players without health out of the match; the others keep their
/// order.
pub fn remove_dead(players: &mut Vec<Player>)
    ensures
        final(players)@ == old(players)@.filter(|p: Player| alive(p)),
{
    let ghost survives = |p: Player| alive(p);
    let mut kept: Vec<Player> = Vec::new();
    let mut i: usize = 0;
    assert(players@.take(0) =~= Seq::<Player>::empty());
    proof {
        reveal(Seq::filter);
    }
    while i < players.len()
        invariant
            i <= players@.len(),
            players@ == old(players)@,
            survives == (|p: Player| alive(p)),
            kept@ == players@.take(i as int).filter(survives),
        decreases players@.len() - i,
    {
        let p = players[i];
        proof {
            reveal(Seq::filter);
            assert(players@.take(i + 1).drop_last() =~= players@.take(i as int));
            assert(players@.take(i + 1).last() == p);
        }
        if p.health > 0 {
            kept.push(p);
        }
        i += 1;
    }
    assert(players@.take(i as int) =~= players@);
    *players = kept;
}

/// The health that the bar above a player shows: the health itself, but no
/// less than nothing and no more than the full bar.
pub fn health_shown(health: i32) -> (shown: i32)
    ensures
        shown == if health < 0 {
            0
        } else if health > START_HEALTH {
            START_HEALTH
        } else {
            health
        },
{
    if health < 0 {
        0
    } else if health > START_HEALTH {
        START_HEALTH
    } else {
        health
    }
}

impl Game {
    /// Whether a player is drawn with a name: every player is but the one
    /// who sits at this machine.
    pub fn shows_name(&self, player: &Player) -> (shown: bool)
        ensures
            shown == (player.handle != self.local_player),
    {
        player.handle != self.local_player
    }
}

/// What the host found out about one bullet at the end of a frame: whether
/// the bullet is inside a wall, for each player in order whether it is inside
/// the player's box, and whether it is younger than its lifetime.
#[derive(Clone, Debug, PartialEq, Eq)]
pub struct Contact {
    pub solid: bool,
    pub overlaps: Vec<bool>,
    pub fresh: bool,
}

impl Contact {
    /// What becomes of the bullet.
    pub open spec fn fate(self) -> Fate {
        fate_of(self.solid, self.overlaps@, self.fresh)
    }
}

/// The players after each of them read the input that the frame holds under
/// the player's handle.
pub open spec fn all_steered(players: Seq<Player>, inputs: Seq<Input>, on_ground: Seq<bool>)
    -> Seq<Player> {
    Seq::new(
        players.len(),
        |i: int| steered(players[i], inputs[players[i].handle as int], on_ground[i]),
    )
}

/// What the host has to carry out for each player after the inputs of a
/// frame were read.
pub open spec fn all_controls(players: Seq<Player>, inputs: Seq<Input>, on_ground: Seq<bool>)
    -> Seq<Control> {
    Seq::new(
        players.len(),
        |i: int| control_of(players[i], inputs[players[i].handle as int], on_ground[i]),
    )
}

/// The players after the bullets were settled, one bullet after the other.
pub open spec fn players_after(players: Seq<Player>, contacts: Seq<Contact>) -> Seq<Player>
    decreases contacts.len(),
{
    if contacts.len() == 0 {
        players
    } else {
        struck(
            players_after(players, contacts.drop_last()),
            contacts.last().solid,
            contacts.last().overlaps@,
        )
    }
}

/// The bullets that stay in flight, in their order.
pub open spec fn flying(bullets: Seq<Bullet>, contacts: Seq<Contact>) -> Seq<Bullet>
    decreases bullets.len(),
{
    if bullets.len() == 0 || contacts.len() == 0 {
        Seq::empty()
    } else {
        let before = flying(bullets.drop_last(), contacts.drop_last());
        if contacts.last().fate() == Fate::Flies {
            before.push(bullets.last())
        } else {
            before
        }
    }
}

/// The places where a bullet bursts, in the order of the bullets.
pub open spec fn bursts(bullets: Seq<Bullet>, contacts: Seq<Contact>) -> Seq<Vec2>
    decreases bullets.len(),
{
    if bullets.len() == 0 || contacts.len() == 0 {
        Seq::empty()
    } else {
        let before = bursts(bullets.drop_last(), contacts.drop_last());
        if contacts.last().fate() == Fate::Bursts {
            before.push(bullets.last().pos)
        } else {
            before
        }
    }
}

/// Whether every hit that the bullets deal, one bullet after the other,
/// finds health to take: the health of a player who is hit is at least
/// [`BULLET_DAMAGE`] above the lowest number there is.
pub open spec fn room_for_hits(players: Seq<Player>, contacts: Seq<Contact>) -> bool {
    forall|k: int, i: int|
        0 <= k < contacts.len() && !contacts[k].solid && is_first_hit(contacts[k].overlaps@, i)
            ==> (#[trigger] players_after(players, contacts.take(k))[i]).health >= i32::MIN
            + BULLET_DAMAGE
}

/// The first player, in order, whose box holds the bullet.
fn first_hit(overlaps: &Vec<bool>) -> (hit: Option<usize>)
    ensures
        match hit {
            Some(i) => is_first_hit(overlaps@, i as int),
            None => forall|i: int| !is_first_hit(overlaps@, i),
        },
{
    let mut i: usize = 0;
    while i < overlaps.len()
        invariant
            i <= overlaps@.len(),
            forall|j: int| 0 <= j < i ==> !overlaps@[j],
        decreases overlaps@.len() - i,
    {
        if overlaps[i] {
            return Some(i);
        }
        i += 1;
    }
    None
}

impl Game {
    /// Reads the inputs of one frame for all players, as [`Player::steer`]
    /// does for one. `inputs` holds the input of each handle and
    /// `on_ground[i]` says whether player `i` stands. A player is found in
    /// `inputs` by the handle, not by the place among the players: the two
    /// differ once a player has left the match.
    pub fn read_inputs(&mut self, inputs: &Vec<Input>, on_ground: &Vec<bool>) -> (controls: Vec<
        Control,
    >)
        requires
            on_ground@.len() == old(self).players@.len(),
            forall|i: int|
                0 <= i < old(self).players@.len() ==> (#[trigger] old(self).players@[i]).handle
                    < inputs@.len(),
            forall|i: int|
                0 <= i < old(self).players@.len() && inputs@[(
                #[trigger] old(self).players@[i]).handle as int].has(Button::Shoot) ==> old(
                    self,
                ).players@[i].gun_clock < u32::MAX,
        ensures
            final(self).players@ == all_steered(old(self).players@, inputs@, on_ground@),
            controls@ == all_controls(old(self).players@, inputs@, on_ground@),
            final(self).bullets@ == old(self).bullets@,
            final(self).local_player == old(self).local_player,
            final(self).frames_to_stall == old(self).frames_to_stall,
    {
        let mut controls: Vec<Control> = Vec::new();
        let mut i: usize = 0;
        while i < self.players.len()
            invariant
                i <= self.players@.len(),
                self.players@.len() == old(self).players@.len(),
                on_ground@.len() == self.players@.len(),
                self.bullets@ == old(self).bullets@,
                self.local_player == old(self).local_player,
                self.frames_to_stall == old(self).frames_to_stall,
                controls@.len() == i,
                forall|j: int|
                    0 <= j < old(self).players@.len() ==> (#[trigger] old(self).players@[j]).handle
                        < inputs@.len(),
                forall|j: int|
                    0 <= j < old(self).players@.len() && inputs@[(
                    #[trigger] old(self).players@[j]).handle as int].has(Button::Shoot) ==> old(
                        self,
                    ).players@[j].gun_clock < u32::MAX,
                forall|j: int| i <= j < self.players@.len() ==> self.players@[j] == old(self).players@[j],
                forall|j: int|
                    0 <= j < i ==> self.players@[j] == steered(
                        old(self).players@[j],
                        inputs@[old(self).players@[j].handle as int],
                        on_ground@[j],
                    ),
                forall|j: int|
                    0 <= j < i ==> controls@[j] == control_of(
                        old(self).players@[j],
                        inputs@[old(self).players@[j].handle as int],
                        on_ground@[j],
                    ),
            decreases self.players@.len() - i,
        {
            let mut player = self.players[i];
            assert(player == old(self).players@[i as int]);
            let control = player.steer(inputs[player.handle], on_ground[i]);
            self.players.set(i, player);
            controls.push(control);
            i += 1;
        }
        assert(self.players@ =~= all_steered(old(self).players@, inputs@, on_ground@));
        assert(controls@ =~= all_controls(old(self).players@, inputs@, on_ground@));
        controls
    }

    /// Whether [`Game::settle_bullets`] can settle these bullets: whether
    /// every hit finds health to take.
    pub fn has_room_for_hits(&self, contacts: &Vec<Contact>) -> (room: bool)
        requires
            forall|k: int|
                0 <= k < contacts@.len() ==> (#[trigger] contacts@[k]).overlaps@.len()
                    == self.players@.len(),
        ensures
            room == room_for_hits(self.players@, contacts@),
    {
        let mut players: Vec<Player> = Vec::new();
        let mut n: usize = 0;
        while n < self.players.len()
            invariant
                n <= self.players@.len(),
                players@ == self.players@.take(n as int),
            decreases self.players@.len() - n,
        {
            players.push(self.players[n]);
            assert(players@ =~= self.players@.take(n + 1));
            n += 1;
        }
        assert(players@ =~= self.players@);
        let mut k: usize = 0;
        assert(contacts@.take(0) =~= Seq::<Contact>::empty());
        while k < contacts.len()
            invariant
                k <= contacts@.len(),
                players@.len() == self.players@.len(),
                forall|j: int|
                    0 <= j < contacts@.len() ==> (#[trigger] contacts@[j]).overlaps@.len()
                        == self.players@.len(),
                players@ == players_after(self.players@, contacts@.take(k as int)),
                forall|j: int, i: int|
                    0 <= j < k && !contacts@[j].solid && is_first_hit(contacts@[j].overlaps@, i)
                        ==> (#[trigger] players_after(self.players@, contacts@.take(j))[i]).health
                        >= i32::MIN + BULLET_DAMAGE,
            decreases contacts@.len() - k,
        {
            let contact = &contacts[k];
            proof {
                assert(contacts@.take(k + 1).drop_last() =~= contacts@.take(k as int));
                assert(contacts@.take(k + 1).last() == contacts@[k as int]);
            }
            if !contact.solid {
                match first_hit(&contact.overlaps) {
                    Some(i) => {
                        if players[i].health < i32::MIN + BULLET_DAMAGE {
                            assert(players_after(self.players@, contacts@.take(k as int))[i as int].health
                                < i32::MIN + BULLET_DAMAGE);
                            return false;
                        }
                        assert forall|h: int| is_first_hit(contact.overlaps@, h) implies h
                            == i by {
                            if h < i {
                                assert(!contact.overlaps@[h]);
                            } else if h > i {
                                assert(contact.overlaps@[i as int]);
                            }
                        }
                    },
                    None => {},
                }
            }
            strike(&mut players, contact.solid, &contact.overlaps, contact.fresh);
            k += 1;
        }
        true
    }

    /// Settles all bullets at the end of a frame, one after the other as
    /// [`strike`] does: the bullets that burst or fade leave, the players
    /// that were hit lose health, and the places where a bullet burst are
    /// returned for the host to show. `contacts[i]` is what the host found
    /// out about bullet `i`.
    pub fn settle_bullets(&mut self, contacts: &Vec<Contact>) -> (burst: Vec<Vec2>)
        requires
            contacts@.len() == old(self).bullets@.len(),
            forall|k: int|
                0 <= k < contacts@.len() ==> (#[trigger] contacts@[k]).overlaps@.len() == old(
                    self,
                ).players@.len(),
            room_for_hits(old(self).players@, contacts@),
        ensures
            final(self).players@ == players_after(old(self).players@, contacts@),
            final(self).bullets@ == flying(old(self).bullets@, contacts@),
            burst@ == bursts(old(self).bullets@, contacts@),
            final(self).local_player == old(self).local_player,
            final(self).frames_to_stall == old(self).frames_to_stall,
    {
        let mut kept: Vec<Bullet> = Vec::new();
        let mut burst: Vec<Vec2> = Vec::new();
        let mut k: usize = 0;
        let total = contacts.len();
        assert(contacts@.take(0) =~= Seq::<Contact>::empty());
        assert(self.bullets@.take(0) =~= Seq::<Bullet>::empty());
        while k < total
            invariant
                k <= total,
                total == contacts@.len(),
                total == self.bullets@.len(),
                self.bullets@ == old(self).bullets@,
                self.local_player == old(self).local_player,
                self.frames_to_stall == old(self).frames_to_stall,
                self.players@.len() == old(self).players@.len(),
                forall|j: int|
                    0 <= j < contacts@.len() ==> (#[trigger] contacts@[j]).overlaps@.len()
                        == self.players@.len(),
                room_for_hits(old(self).players@, contacts@),
                self.players@ == players_after(old(self).players@, contacts@.take(k as int)),
                kept@ == flying(self.bullets@.take(k as int), contacts@.take(k as int)),
                burst@ == bursts(self.bullets@.take(k as int), contacts@.take(k as int)),
            decreases total - k,
        {
            let contact = &contacts[k];
            let bullet = self.bullets[k];
            proof {
                assert(contacts@.take(k + 1).drop_last() =~= contacts@.take(k as int));
                assert(contacts@.take(k + 1).last() == contacts@[k as int]);
                assert(self.bullets@.take(k + 1).drop_last() =~= self.bullets@.take(k as int));
                assert(self.bullets@.take(k + 1).last() == bullet);
                assert forall|i: int|
                    !contact.solid && is_first_hit(
                        contact.overlaps@,
                        i,
                    ) implies self.players@[i].health >= i32::MIN + BULLET_DAMAGE by {
                    assert(players_after(old(self).players@, contacts@.take(k as int))[i].health
                        >= i32::MIN + BULLET_DAMAGE);
                }
            }
            match strike(&mut self.players, contact.solid, &contact.overlaps, contact.fresh) {
                Fate::Flies => {
                    kept.push(bullet);
                },
                Fate::Bursts => {
                    burst.push(bullet.pos);
                },
                Fate::Fades => {},
            }
            k += 1;
        }
        assert(contacts@.take(k as int) =~= contacts@);
        assert(self.bullets@.take(k as int) =~= self.bullets@);
        self.bullets = kept;
        burst
    }
}

} // verus!
