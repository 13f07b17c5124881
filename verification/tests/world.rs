use rollback_platformer::bits::PlayerStateBits;
use rollback_platformer::message::{Died, Move, SelfDamage};
use rollback_platformer::nakama::{Event, MatchData};
use rollback_platformer::wire::DecodeError;
use rollback_platformer::game::Fate;
use rollback_platformer::world::{
    Inbox, Incoming, NetworkCache, Other, Others, Outbound, Round, Shot, World, FULL_HEALTH,
};

fn name(s: &str) -> String {
    s.to_string()
}

#[test]
fn new_world_knows_nobody() {
    let world = World::new();
    assert_eq!(world.health, 100);
    assert_eq!(FULL_HEALTH, 100);
    assert!(world.others.values().is_empty());
    assert_eq!(
        world.network_cache,
        NetworkCache { sent_health: 100, sent_position: [0; 3], last_send_time: 0 }
    );
    assert_eq!(Other::new(), Other { x: 0, y: 0, facing: true, health: 100 });
}

#[test]
fn nothing_is_told_before_a_report_is_due() {
    let mut world = World::new();
    world.health = 60;
    let out = world.publish(77, false, false, 10, 20, true);
    assert!(out.is_empty());
    assert_eq!(world.health, 60);
    assert_eq!(
        world.network_cache,
        NetworkCache { sent_health: 100, sent_position: [0; 3], last_send_time: 0 }
    );
}

#[test]
fn first_report_tells_the_move() {
    let mut world = World::new();
    let out = world.publish(77, false, true, 345, 567, true);
    let packed = PlayerStateBits::pack(345, 567, true, false).0;
    assert_eq!(out, vec![Outbound::Move(Move(packed))]);
    assert_eq!(
        world.network_cache,
        NetworkCache { sent_health: 100, sent_position: packed, last_send_time: 77 }
    );
    // Nothing changed: the next report tells nothing, but the time is taken.
    let out = world.publish(78, false, true, 345, 567, true);
    assert!(out.is_empty());
    assert_eq!(world.network_cache.last_send_time, 78);
}

#[test]
fn shot_is_told_at_once() {
    let mut world = World::new();
    world.publish(1, false, true, 5, 6, false);
    let out = world.publish(2, true, false, 5, 6, false);
    assert_eq!(out, vec![Outbound::Move(Move(PlayerStateBits::pack(5, 6, false, true).0))]);
}

#[test]
fn move_at_the_origin_facing_left_is_not_told() {
    // The packed state is all zero, which is what a flushed cache holds.
    let mut world = World::new();
    let out = world.publish(1, false, true, 0, 0, false);
    assert!(out.is_empty());
    let out = world.publish(1, false, true, 1024, 2048, false);
    assert!(out.is_empty());
}

#[test]
fn health_is_told_when_it_changed() {
    let mut world = World::new();
    world.publish(1, false, true, 1, 1, true);
    world.health = 95;
    let out = world.publish(2, false, true, 1, 1, true);
    assert_eq!(out, vec![Outbound::SelfDamage(SelfDamage(95))]);
    assert_eq!(world.network_cache.sent_health, 95);
    assert_eq!(world.health, 95);
    assert!(world.publish(3, false, true, 1, 1, true).is_empty());
    world.health = 0;
    let out = world.publish(4, false, true, 2, 1, true);
    assert_eq!(
        out,
        vec![
            Outbound::Move(Move(PlayerStateBits::pack(2, 1, true, false).0)),
            Outbound::SelfDamage(SelfDamage(0)),
        ]
    );
}

#[test]
fn player_below_zero_dies_and_starts_over() {
    let mut world = World::new();
    world.publish(1, false, true, 1, 1, true);
    world.health = -5;
    let out = world.publish(2, false, true, 1, 1, true);
    assert_eq!(out, vec![Outbound::Died(Died)]);
    assert_eq!(world.health, 100);
    assert_eq!(world.network_cache.sent_health, 100);
    assert!(world.publish(3, false, true, 1, 1, true).is_empty());
}

#[test]
fn health_above_a_byte_is_cut() {
    let mut world = World::new();
    world.health = 300;
    let out = world.publish(1, false, true, 0, 0, false);
    assert_eq!(out, vec![Outbound::SelfDamage(SelfDamage(44))]);
    assert_eq!(world.network_cache.sent_health, 300);
}

#[test]
fn newcomer_flushes_the_cache() {
    let mut world = World::new();
    world.health = 70;
    world.publish(9, false, true, 3, 4, true);
    assert_eq!(world.network_cache.sent_health, 70);
    world.on_event(&Event::Join(name("ann")));
    assert_eq!(
        world.network_cache,
        NetworkCache { sent_health: 100, sent_position: [0; 3], last_send_time: 0 }
    );
    assert_eq!(world.others.get(&name("ann")), Some(Other::new()));
    assert_eq!(world.health, 70);
    // The next report tells the newcomer everything.
    let out = world.publish(10, false, true, 3, 4, true);
    assert_eq!(
        out,
        vec![
            Outbound::Move(Move(PlayerStateBits::pack(3, 4, true, false).0)),
            Outbound::SelfDamage(SelfDamage(70)),
        ]
    );
}

#[test]
fn peer_that_goes_is_forgotten() {
    let mut world = World::new();
    world.on_event(&Event::Join(name("ann")));
    world.on_event(&Event::Join(name("bob")));
    world.publish(5, false, true, 3, 4, true);
    let cache = world.network_cache;
    world.on_event(&Event::Leave(name("ann")));
    assert_eq!(world.others.get(&name("ann")), None);
    assert_eq!(world.others.get(&name("bob")), Some(Other::new()));
    assert_eq!(world.network_cache, cache);
    world.on_event(&Event::Leave(name("nobody")));
    assert_eq!(world.others.values().len(), 1);
}

#[test]
fn peer_that_comes_again_starts_anew() {
    let mut world = World::new();
    world.on_event(&Event::Join(name("ann")));
    let hurt = MatchData { data: vec![40], opcode: 2, user_id: name("ann") };
    assert_eq!(world.on_message(&hurt), Ok(Incoming::Damaged));
    assert_eq!(world.others.get(&name("ann")).unwrap().health, 40);
    world.on_event(&Event::Join(name("ann")));
    assert_eq!(world.others.get(&name("ann")), Some(Other::new()));
    assert_eq!(world.others.values().len(), 1);
}

fn moved(user: &str, x: u32, y: u32, facing: bool, shooting: bool) -> MatchData {
    MatchData {
        data: Move(PlayerStateBits::pack(x, y, facing, shooting).0).to_bytes(),
        opcode: Move::OPCODE,
        user_id: name(user),
    }
}

#[test]
fn move_of_a_known_peer_places_its_player() {
    let mut world = World::new();
    world.on_event(&Event::Join(name("ann")));
    world.on_event(&Event::Join(name("bob")));
    assert_eq!(world.on_message(&moved("ann", 345, 567, false, false)), Ok(Incoming::Moved(None)));
    assert_eq!(
        world.others.get(&name("ann")),
        Some(Other { x: 345, y: 567, facing: false, health: 100 })
    );
    assert_eq!(world.others.get(&name("bob")), Some(Other::new()));
    assert_eq!(
        world.on_message(&moved("ann", 1, 2, true, true)),
        Ok(Incoming::Moved(Some(Shot { x: 1, y: 2, facing: true })))
    );
    assert_eq!(
        world.others.get(&name("ann")),
        Some(Other { x: 1, y: 2, facing: true, health: 100 })
    );
}

#[test]
fn report_of_health_keeps_the_place() {
    let mut world = World::new();
    world.on_event(&Event::Join(name("ann")));
    world.on_message(&moved("ann", 9, 8, false, false)).unwrap();
    let hurt = MatchData { data: vec![255], opcode: 2, user_id: name("ann") };
    assert_eq!(world.on_message(&hurt), Ok(Incoming::Damaged));
    assert_eq!(
        world.others.get(&name("ann")),
        Some(Other { x: 9, y: 8, facing: false, health: 255 })
    );
}

#[test]
fn stranger_changes_nothing_whatever_it_sends() {
    let mut world = World::new();
    world.on_event(&Event::Join(name("ann")));
    assert_eq!(world.on_message(&moved("eve", 1, 2, true, true)), Ok(Incoming::Stranger));
    let broken = MatchData { data: vec![], opcode: 1, user_id: name("eve") };
    assert_eq!(world.on_message(&broken), Ok(Incoming::Stranger));
    assert_eq!(world.others.get(&name("ann")), Some(Other::new()));
    assert_eq!(world.others.get(&name("eve")), None);
}

#[test]
fn death_and_unknown_codes_change_nothing() {
    let mut world = World::new();
    world.on_event(&Event::Join(name("ann")));
    world.on_message(&moved("ann", 9, 8, false, false)).unwrap();
    let before = world.others.get(&name("ann"));
    let died = MatchData { data: vec![], opcode: 3, user_id: name("ann") };
    assert_eq!(world.on_message(&died), Ok(Incoming::Died));
    for opcode in [0, 4, -1, i32::MAX] {
        let odd = MatchData { data: vec![1, 2, 3], opcode, user_id: name("ann") };
        assert_eq!(world.on_message(&odd), Ok(Incoming::Unknown));
    }
    assert_eq!(world.others.get(&name("ann")), before);
}

#[test]
fn short_message_of_a_known_peer_is_an_error() {
    let mut world = World::new();
    world.on_event(&Event::Join(name("ann")));
    let short_move = MatchData { data: vec![1, 2], opcode: 1, user_id: name("ann") };
    assert_eq!(world.on_message(&short_move), Err(DecodeError::Truncated));
    let short_health = MatchData { data: vec![], opcode: 2, user_id: name("ann") };
    assert_eq!(world.on_message(&short_health), Err(DecodeError::Truncated));
    assert_eq!(world.others.get(&name("ann")), Some(Other::new()));
}

#[test]
fn others_behave_as_a_map() {
    let mut others = Others::new();
    assert_eq!(others.get(&name("a")), None);
    others.insert(name("a"), Other { x: 1, y: 1, facing: true, health: 1 });
    others.insert(name("b"), Other { x: 2, y: 2, facing: true, health: 2 });
    others.insert(name("c"), Other { x: 3, y: 3, facing: true, health: 3 });
    others.insert(name("b"), Other { x: 9, y: 9, facing: false, health: 9 });
    assert_eq!(others.values().len(), 3);
    assert_eq!(others.len(), 3);
    assert_eq!(others.get(&name("b")), Some(Other { x: 9, y: 9, facing: false, health: 9 }));
    others.remove(&name("a"));
    assert_eq!(others.get(&name("a")), None);
    assert_eq!(others.get(&name("c")), Some(Other { x: 3, y: 3, facing: true, health: 3 }));
    others.remove(&name("a"));
    assert_eq!(others.values().len(), 2);
    others.remove(&name("c"));
    others.remove(&name("b"));
    assert!(others.values().is_empty());
    assert_eq!(others.len(), 0);
}

#[test]
fn round_reports_then_meets_then_listens() {
    let mut world = World::new();
    world.on_event(&Event::Join(name("old")));
    world.health = 90;
    let events = vec![Event::Join(name("ann")), Event::Leave(name("old")), Event::Join(name("bob"))];
    let messages = vec![
        moved("ann", 10, 20, false, true),
        moved("old", 1, 1, true, true),
        MatchData { data: vec![55], opcode: 2, user_id: name("bob") },
        MatchData { data: vec![], opcode: 77, user_id: name("bob") },
        moved("bob", 30, 40, true, true),
        MatchData { data: vec![], opcode: -4, user_id: name("eve") },
        moved("ann", 11, 20, false, false),
        MatchData { data: vec![1, 2, 3], opcode: 0, user_id: name("ann") },
    ];
    let round = world.sync_state(5, false, true, 3, 4, true, &events, &messages);
    // The report was made by the world as it was before anybody came.
    assert_eq!(
        round.out,
        vec![
            Outbound::Move(Move(PlayerStateBits::pack(3, 4, true, false).0)),
            Outbound::SelfDamage(SelfDamage(90)),
        ]
    );
    // The newcomers flushed the cache after the report.
    assert_eq!(
        world.network_cache,
        NetworkCache { sent_health: 100, sent_position: [0; 3], last_send_time: 0 }
    );
    assert_eq!(
        round.inbox,
        Inbox {
            shots: vec![Shot { x: 10, y: 20, facing: false }, Shot { x: 30, y: 40, facing: true }],
            // The stranger's odd code is a stranger's matter.
            unknown: vec![77, 0],
            error: None,
        }
    );
    assert_eq!(
        world.others.get(&name("ann")),
        Some(Other { x: 11, y: 20, facing: false, health: 100 })
    );
    assert_eq!(
        world.others.get(&name("bob")),
        Some(Other { x: 30, y: 40, facing: true, health: 55 })
    );
    assert_eq!(world.others.get(&name("old")), None);
}

#[test]
fn quiet_round_changes_nothing() {
    let mut world = World::new();
    let round = world.sync_state(5, false, false, 3, 4, true, &vec![], &vec![]);
    assert_eq!(
        round,
        Round { out: vec![], inbox: Inbox { shots: vec![], unknown: vec![], error: None } }
    );
    assert_eq!(
        world.network_cache,
        NetworkCache { sent_health: 100, sent_position: [0; 3], last_send_time: 0 }
    );
}

#[test]
fn round_ends_at_the_first_short_message() {
    let mut world = World::new();
    let events = vec![Event::Join(name("ann"))];
    let messages = vec![
        moved("ann", 10, 20, false, true),
        MatchData { data: vec![1], opcode: 1, user_id: name("ann") },
        moved("ann", 99, 99, true, true),
    ];
    let round = world.sync_state(5, true, false, 3, 4, true, &events, &messages);
    // What was to be sent is not lost, nor what was read before the error.
    assert_eq!(
        round.out,
        vec![Outbound::Move(Move(PlayerStateBits::pack(3, 4, true, true).0))]
    );
    assert_eq!(
        round.inbox,
        Inbox {
            shots: vec![Shot { x: 10, y: 20, facing: false }],
            unknown: vec![],
            error: Some(DecodeError::Truncated),
        }
    );
    assert_eq!(
        world.others.get(&name("ann")),
        Some(Other { x: 10, y: 20, facing: false, health: 100 })
    );
}

#[test]
fn receive_agrees_with_taking_the_deliveries_one_by_one() {
    let events = vec![Event::Join(name("ann")), Event::Join(name("bob")), Event::Leave(name("bob"))];
    let messages = vec![
        moved("ann", 10, 20, false, true),
        moved("bob", 1, 2, true, true),
        MatchData { data: vec![9], opcode: 2, user_id: name("ann") },
        MatchData { data: vec![], opcode: 3, user_id: name("ann") },
        MatchData { data: vec![], opcode: 9, user_id: name("ann") },
    ];
    let mut batch = World::new();
    let inbox = batch.receive(&events, &messages);

    let mut single = World::new();
    for event in &events {
        single.on_event(event);
    }
    let mut shots = Vec::new();
    let mut unknown = Vec::new();
    for message in &messages {
        match single.on_message(message).unwrap() {
            Incoming::Moved(Some(shot)) => shots.push(shot),
            Incoming::Unknown => unknown.push(message.opcode),
            _ => {}
        }
    }
    assert_eq!(inbox, Inbox { shots, unknown, error: None });
    assert_eq!(batch.others.get(&name("ann")), single.others.get(&name("ann")));
    assert_eq!(batch.others.get(&name("bob")), None);
    assert_eq!(batch.network_cache, single.network_cache);
}

#[test]
fn own_bullet_hurts_and_bursts() {
    let mut world = World::new();
    assert_eq!(world.strike(false, false, true, true), Fate::Bursts);
    assert_eq!(world.health, 95);
    assert_eq!(world.strike(true, false, true, false), Fate::Bursts);
    assert_eq!(world.health, 90);
    assert_eq!(world.strike(true, false, false, true), Fate::Bursts);
    assert_eq!(world.strike(false, true, false, true), Fate::Bursts);
    assert_eq!(world.strike(false, false, false, true), Fate::Flies);
    assert_eq!(world.strike(false, false, false, false), Fate::Fades);
    assert_eq!(world.health, 90);
}
