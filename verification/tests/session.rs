use rollback_platformer::game::{Game, Player};
use rollback_platformer::session::{judge, SessionError, SessionEvent, Tick, Verdict};

fn game() -> Game {
    Game::new(0, vec![Player::new(0, 0), Player::new(1, 1)])
}

#[test]
fn new_game_does_not_stall() {
    let mut game = game();
    assert_eq!(game.frames_to_stall, 0);
    assert!(game.bullets.is_empty());
    assert_eq!(game.local_player, 0);
    assert_eq!(game.update(true), Tick::Submit);
}

#[test]
fn unsynchronized_session_waits() {
    let mut game = game();
    assert_eq!(game.update(false), Tick::Wait);
    assert_eq!(game.update(false), Tick::Wait);
    assert_eq!(game.update(true), Tick::Submit);
}

#[test]
fn stall_request_of_ten_frames_is_served_in_ten_ticks() {
    let mut game = game();
    game.on_event(SessionEvent::TimeSync { frames_ahead: 10 });
    assert_eq!(game.frames_to_stall, 10);
    for left in (0..10).rev() {
        assert_eq!(game.update(true), Tick::Stall);
        assert_eq!(game.frames_to_stall, left);
    }
    assert_eq!(game.update(true), Tick::Submit);
    assert_eq!(game.frames_to_stall, 0);
    // A report that the peers are level asks for no stall.
    game.on_event(SessionEvent::TimeSync { frames_ahead: 0 });
    assert_eq!(game.update(true), Tick::Submit);
}

#[test]
fn stalling_goes_before_waiting() {
    let mut game = game();
    game.on_event(SessionEvent::TimeSync { frames_ahead: 2 });
    assert_eq!(game.update(false), Tick::Stall);
    assert_eq!(game.update(false), Tick::Stall);
    assert_eq!(game.update(false), Tick::Wait);
}

#[test]
fn later_stall_request_replaces_the_earlier() {
    let mut game = game();
    game.on_event(SessionEvent::TimeSync { frames_ahead: 9 });
    assert_eq!(game.update(true), Tick::Stall);
    game.on_event(SessionEvent::TimeSync { frames_ahead: 1 });
    assert_eq!(game.frames_to_stall, 1);
    assert_eq!(game.update(true), Tick::Stall);
    assert_eq!(game.update(true), Tick::Submit);
    game.on_event(SessionEvent::TimeSync { frames_ahead: 255 });
    assert_eq!(game.frames_to_stall, 255);
}

#[test]
fn interrupted_and_resumed_connection_changes_nothing() {
    let mut game = game();
    let players = game.players.clone();
    game.on_event(SessionEvent::ConnectionInterrupted {
        player: 1,
        timeout_secs: 4,
        timeout_nanos: 250_000_000,
    });
    assert_eq!(game.update(true), Tick::Submit);
    game.on_event(SessionEvent::ConnectionResumed(1));
    assert_eq!(game.update(true), Tick::Submit);
    assert_eq!(game.players, players);
    assert_eq!(game.frames_to_stall, 0);
}

#[test]
fn only_a_stall_request_sets_the_counter() {
    let events = [
        SessionEvent::Connected(1),
        SessionEvent::Synchronizing { player: 1, count: 2, total: 5 },
        SessionEvent::Synchronized(1),
        SessionEvent::Running,
        SessionEvent::Disconnected(1),
        SessionEvent::ConnectionInterrupted { player: 1, timeout_secs: 0, timeout_nanos: 0 },
        SessionEvent::ConnectionResumed(1),
    ];
    let mut game = game();
    game.frames_to_stall = 3;
    for event in events {
        game.on_event(event);
        assert_eq!(game.frames_to_stall, 3);
        assert_eq!(game.players.len(), 2);
    }
}

#[test]
fn prediction_barrier_holds_and_every_other_error_aborts() {
    assert_eq!(judge(Ok(())), Verdict::Advance);
    assert_eq!(judge(Err(SessionError::ReachedPredictionBarrier)), Verdict::Hold);
    for error in [
        SessionError::MultipleLocalPlayers,
        SessionError::InRollback,
        SessionError::NotSynchronized,
        SessionError::InvalidPlayer(9),
        SessionError::PlayerDisconnected(1),
    ] {
        assert_eq!(judge(Err(error)), Verdict::Abort(error));
    }
}

#[test]
fn host_tries_again_after_the_barrier() {
    let mut game = game();
    assert_eq!(game.update(true), Tick::Submit);
    assert_eq!(judge(Err(SessionError::ReachedPredictionBarrier)), Verdict::Hold);
    // Nothing was counted down and nothing is stalled: the next tick submits again.
    assert_eq!(game.frames_to_stall, 0);
    assert_eq!(game.update(true), Tick::Submit);
    assert_eq!(judge(Ok(())), Verdict::Advance);
}
