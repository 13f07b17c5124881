use rollback_platformer::game::{
    health_shown, remove_dead, steer_keys, strike, Bullet, Contact, Control, Fate, Game, Player,
    Run, Vec2, BULLET_DAMAGE,
    BULLET_INTERVAL_TICKS, BULLET_LIFETIME, BULLET_SPEED, BULLET_SPEED_BACK, JUMP_SPEED_UP,
    RUN_SPEED, RUN_SPEED_BACK, START_HEALTH, ZERO,
};
use rollback_platformer::input::{Button, Input};

fn input(buttons: &[Button]) -> Input {
    let mut input = Input::empty();
    for button in buttons {
        input.insert(*button);
    }
    input
}

#[test]
fn constants_are_the_bits_of_the_numbers() {
    assert_eq!(f32::from_bits(ZERO), 0.0);
    assert_eq!(f32::from_bits(RUN_SPEED), 150.0);
    assert_eq!(f32::from_bits(RUN_SPEED_BACK), -150.0);
    assert_eq!(f32::from_bits(JUMP_SPEED_UP), -250.0);
    assert_eq!(f32::from_bits(BULLET_SPEED), 300.0);
    assert_eq!(f32::from_bits(BULLET_SPEED_BACK), -300.0);
    assert_eq!(f32::from_bits(BULLET_LIFETIME), 0.7);
    assert_eq!(BULLET_INTERVAL_TICKS, 10);
    assert_eq!(START_HEALTH, 100);
    assert_eq!(BULLET_DAMAGE, 5);
}

#[test]
fn new_player_is_at_rest() {
    let p = Player::new(3, 7);
    assert_eq!(
        p,
        Player {
            handle: 3,
            collider: 7,
            speed: Vec2 { x: ZERO, y: ZERO },
            prev_jump_down: false,
            facing_right: true,
            health: 100,
            gun_clock: 0,
        }
    );
}

#[test]
fn right_wins_over_left() {
    let mut p = Player::new(0, 0);
    let c = p.steer(input(&[Button::Left, Button::Right]), true);
    assert_eq!(c.run, Run::Right);
    assert_eq!(p.speed.x, RUN_SPEED);
    assert!(p.facing_right);
    let c = p.steer(input(&[Button::Left]), true);
    assert_eq!(c.run, Run::Left);
    assert_eq!(p.speed.x, RUN_SPEED_BACK);
    assert!(!p.facing_right);
    let c = p.steer(Input::empty(), true);
    assert_eq!(c.run, Run::Still);
    assert_eq!(p.speed.x, ZERO);
    assert!(!p.facing_right);
}

#[test]
fn jump_needs_ground_and_a_fresh_press() {
    let mut p = Player::new(0, 0);
    p.speed.y = 0x4000_0000;
    let c = p.steer(input(&[Button::Jump]), false);
    assert!(!c.jumped);
    assert_eq!(p.speed.y, 0x4000_0000);
    assert!(p.prev_jump_down);
    // Still held: no jump although the player stands now.
    let c = p.steer(input(&[Button::Jump]), true);
    assert!(!c.jumped);
    assert_eq!(p.speed.y, 0x4000_0000);
    let c = p.steer(Input::empty(), true);
    assert!(!c.jumped);
    assert!(!p.prev_jump_down);
    let c = p.steer(input(&[Button::Jump]), true);
    assert!(c.jumped);
    assert_eq!(p.speed.y, JUMP_SPEED_UP);
    assert!(p.prev_jump_down);
}

#[test]
fn gun_fires_every_tenth_frame() {
    let mut p = Player::new(0, 0);
    let mut fired = Vec::new();
    for frame in 0..25 {
        let c = p.steer(input(&[Button::Shoot]), true);
        if c.fired {
            fired.push(frame);
        }
        assert_eq!(p.gun_clock, (frame + 1) % 10);
    }
    assert_eq!(fired, vec![0, 10, 20]);
    p.steer(Input::empty(), true);
    assert_eq!(p.gun_clock, 0);
    let c = p.steer(input(&[Button::Shoot]), true);
    assert!(c.fired);
    assert_eq!(p.gun_clock, 1);
}

#[test]
fn bullet_flies_where_the_player_faced_before_turning() {
    let mut p = Player::new(0, 0);
    assert!(p.facing_right);
    let c = p.steer(input(&[Button::Shoot, Button::Left]), true);
    assert_eq!(
        c,
        Control { run: Run::Left, jumped: false, fired: true, aim_right: true }
    );
    assert!(!p.facing_right);
    let b = Bullet::fired(Vec2 { x: 1, y: 2 }, c.aim_right);
    assert_eq!(
        b,
        Bullet {
            pos: Vec2 { x: 1, y: 2 },
            speed: Vec2 { x: BULLET_SPEED, y: ZERO },
            lived: ZERO,
            lifetime: BULLET_LIFETIME,
        }
    );
    assert_eq!(Bullet::fired(Vec2 { x: 1, y: 2 }, false).speed.x, BULLET_SPEED_BACK);
}

#[test]
fn steer_keeps_what_it_does_not_own() {
    let mut p = Player::new(5, 9);
    p.health = 42;
    p.steer(input(&[Button::Right, Button::Jump, Button::Shoot]), true);
    assert_eq!(p.handle, 5);
    assert_eq!(p.collider, 9);
    assert_eq!(p.health, 42);
}

fn three_players() -> Vec<Player> {
    vec![Player::new(0, 10), Player::new(1, 11), Player::new(2, 12)]
}

#[test]
fn wall_stops_a_bullet_before_any_player() {
    let mut players = three_players();
    let fate = strike(&mut players, true, &vec![true, true, true], true);
    assert_eq!(fate, Fate::Bursts);
    assert_eq!(players, three_players());
}

#[test]
fn first_player_in_the_way_is_hit() {
    let mut players = three_players();
    let fate = strike(&mut players, false, &vec![false, true, true], true);
    assert_eq!(fate, Fate::Bursts);
    assert_eq!(players[0].health, 100);
    assert_eq!(players[1].health, 95);
    assert_eq!(players[2].health, 100);
    let fate = strike(&mut players, false, &vec![false, true, false], false);
    assert_eq!(fate, Fate::Bursts);
    assert_eq!(players[1].health, 90);
}

#[test]
fn bullet_that_meets_nothing_flies_or_fades() {
    let mut players = three_players();
    assert_eq!(strike(&mut players, false, &vec![false, false, false], true), Fate::Flies);
    assert_eq!(strike(&mut players, false, &vec![false, false, false], false), Fate::Fades);
    assert_eq!(players, three_players());
    let mut nobody: Vec<Player> = Vec::new();
    assert_eq!(strike(&mut nobody, false, &vec![], true), Fate::Flies);
}

#[test]
fn dead_players_leave_and_the_rest_keep_their_order() {
    let mut players = three_players();
    players[0].health = 0;
    players[2].health = 1;
    let mut more = Player::new(3, 13);
    more.health = -5;
    players.push(more);
    remove_dead(&mut players);
    assert_eq!(players.len(), 2);
    assert_eq!(players[0].handle, 1);
    assert_eq!(players[1].handle, 2);
    remove_dead(&mut players);
    assert_eq!(players.len(), 2);
}

#[test]
fn twenty_hits_kill() {
    let mut players = vec![Player::new(0, 0)];
    for _ in 0..19 {
        strike(&mut players, false, &vec![true], true);
    }
    assert_eq!(players[0].health, 5);
    remove_dead(&mut players);
    assert_eq!(players.len(), 1);
    strike(&mut players, false, &vec![true], true);
    assert_eq!(players[0].health, 0);
    remove_dead(&mut players);
    assert!(players.is_empty());
}

#[test]
fn health_bar_is_never_empty_below_nothing_nor_fuller_than_full() {
    assert_eq!(health_shown(-5), 0);
    assert_eq!(health_shown(0), 0);
    assert_eq!(health_shown(1), 1);
    assert_eq!(health_shown(100), 100);
    assert_eq!(health_shown(101), 100);
    assert_eq!(health_shown(i32::MAX), 100);
    assert_eq!(health_shown(i32::MIN), 0);
}

#[test]
fn only_the_others_are_named() {
    let game = Game::new(1, three_players());
    assert!(game.shows_name(&game.players[0]));
    assert!(!game.shows_name(&game.players[1]));
    assert!(game.shows_name(&game.players[2]));
}

#[test]
fn inputs_are_found_by_handle() {
    // The player with handle 1 has left: handle 2 now stands at place 1.
    let mut game = Game::new(0, vec![Player::new(0, 10), Player::new(2, 12)]);
    let inputs = vec![
        input(&[Button::Left]),
        input(&[Button::Jump]),
        input(&[Button::Right, Button::Shoot]),
    ];
    let controls = game.read_inputs(&inputs, &vec![true, false]);
    assert_eq!(
        controls,
        vec![
            Control { run: Run::Left, jumped: false, fired: false, aim_right: true },
            Control { run: Run::Right, jumped: false, fired: true, aim_right: true },
        ]
    );
    assert_eq!(game.players[0].speed.x, RUN_SPEED_BACK);
    assert!(!game.players[0].facing_right);
    assert_eq!(game.players[1].speed.x, RUN_SPEED);
    assert_eq!(game.players[1].gun_clock, 1);
    assert!(!game.players[1].prev_jump_down);
    assert!(game.bullets.is_empty());
}

#[test]
fn read_inputs_agrees_with_steer() {
    let mut game = Game::new(0, three_players());
    let mut alone = three_players();
    let inputs = vec![
        input(&[Button::Jump, Button::Shoot]),
        input(&[]),
        input(&[Button::Left, Button::Right]),
    ];
    let grounded = vec![true, true, false];
    for _ in 0..12 {
        let controls = game.read_inputs(&inputs, &grounded);
        for (i, p) in alone.iter_mut().enumerate() {
            assert_eq!(p.steer(inputs[i], grounded[i]), controls[i]);
        }
        assert_eq!(game.players, alone);
    }
}

fn bullet_at(x: u32) -> Bullet {
    Bullet::fired(Vec2 { x, y: x + 1 }, true)
}

#[test]
fn bullets_are_settled_in_order() {
    let mut game = Game::new(0, three_players());
    game.bullets = vec![bullet_at(1), bullet_at(2), bullet_at(3), bullet_at(4), bullet_at(5)];
    let miss = vec![false, false, false];
    let contacts = vec![
        Contact { solid: false, overlaps: miss.clone(), fresh: true },
        Contact { solid: false, overlaps: vec![false, true, true], fresh: true },
        Contact { solid: false, overlaps: miss.clone(), fresh: false },
        Contact { solid: true, overlaps: vec![true, false, false], fresh: true },
        Contact { solid: false, overlaps: vec![false, true, false], fresh: false },
    ];
    let burst = game.settle_bullets(&contacts);
    assert_eq!(game.bullets, vec![bullet_at(1)]);
    assert_eq!(
        burst,
        vec![Vec2 { x: 2, y: 3 }, Vec2 { x: 4, y: 5 }, Vec2 { x: 5, y: 6 }]
    );
    assert_eq!(game.players[0].health, 100);
    assert_eq!(game.players[1].health, 90);
    assert_eq!(game.players[2].health, 100);
}

#[test]
fn no_bullets_nothing_to_settle() {
    let mut game = Game::new(0, three_players());
    assert!(game.settle_bullets(&vec![]).is_empty());
    assert_eq!(game.players, three_players());
}

#[test]
fn keys_steer_the_own_player_of_a_relayed_match() {
    assert_eq!(steer_keys(true, true, false, true), (Run::Right, false));
    assert_eq!(steer_keys(true, false, true, true), (Run::Right, true));
    assert_eq!(steer_keys(false, true, true, false), (Run::Left, false));
    assert_eq!(steer_keys(false, false, true, true), (Run::Still, true));
    assert_eq!(steer_keys(false, false, false, false), (Run::Still, false));
}

#[test]
fn run_gives_speed_and_direction() {
    assert_eq!(f32::from_bits(Run::Right.speed()), 150.0);
    assert_eq!(f32::from_bits(Run::Left.speed()), -150.0);
    assert_eq!(f32::from_bits(Run::Still.speed()), 0.0);
    assert!(Run::Right.turn(false));
    assert!(!Run::Left.turn(true));
    assert!(Run::Still.turn(true));
    assert!(!Run::Still.turn(false));
}

#[test]
fn only_a_player_who_is_hit_needs_room_for_the_hit() {
    let mut players = three_players();
    players[0].health = i32::MIN;
    players[1].health = i32::MIN + 9;
    let mut game = Game::new(0, players);
    game.bullets = vec![bullet_at(1), bullet_at(2), bullet_at(3)];
    let hit_second = Contact { solid: false, overlaps: vec![false, true, true], fresh: true };
    let wall = Contact { solid: true, overlaps: vec![true, false, false], fresh: true };
    // One hit on the second player fits, a wall shields the first.
    let fits = vec![hit_second.clone(), wall.clone(), wall.clone()];
    assert!(game.has_room_for_hits(&fits));
    // Two hits on the second player do not.
    let too_many = vec![hit_second.clone(), hit_second.clone(), wall.clone()];
    assert!(!game.has_room_for_hits(&too_many));
    // Nor does a hit on the first.
    let first = Contact { solid: false, overlaps: vec![true, true, false], fresh: true };
    assert!(!game.has_room_for_hits(&vec![wall.clone(), wall.clone(), first]));

    let burst = game.settle_bullets(&fits);
    assert_eq!(burst.len(), 3);
    assert_eq!(game.players[0].health, i32::MIN);
    assert_eq!(game.players[1].health, i32::MIN + 4);
    assert!(game.bullets.is_empty());
}

#[test]
fn gun_clock_at_the_limit_is_no_matter_while_the_player_does_not_shoot() {
    let mut p = Player::new(0, 0);
    p.gun_clock = u32::MAX;
    p.steer(input(&[Button::Left]), true);
    assert_eq!(p.gun_clock, 0);
}
