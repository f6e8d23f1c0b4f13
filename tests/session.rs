use bong::lobby::{Ball, StaleReference};
use bong::protocol::{decode_player_input, encode_player_input, PlayerSpawn};
use bong::session::{Effects, SessionError};
use bong::wire::WireVec2;
use bong::{
    receive_player_inputs, DirectionVector, GameState, InputReceivedEvent, PlayerInput,
    ServerMessage, Session,
};

const A: u64 = 11;
const B: u64 = 22;
const C: u64 = 33;

fn dir(x: u32, y: u32) -> DirectionVector {
    DirectionVector(WireVec2 { x_bits: x, y_bits: y })
}

fn ball_of(s: &Session, id: u64) -> Ball {
    s.lobby().get(id).unwrap().entity.unwrap()
}

/// A session in game with A and B, each with a ball (handles 100 and 200).
fn game_with_two() -> Session {
    let mut s = Session::new();
    s.on_connect(A).unwrap();
    s.on_connect(B).unwrap();
    let fx = s.check_player_count();
    assert_eq!(fx.spawn.len(), 2);
    s.attach_ball(A, 100).unwrap();
    s.attach_ball(B, 200).unwrap();
    s
}

fn is_empty(fx: &Effects) -> bool {
    fx.broadcasts.is_empty() && fx.spawn.is_empty() && fx.despawn.is_empty()
}

#[test]
fn threshold_connect_two_then_one_leaves() {
    let mut s = Session::new();
    assert_eq!(s.state(), GameState::Lobby);
    s.on_connect(A).unwrap();
    assert!(is_empty(&s.check_player_count()));
    assert_eq!(s.state(), GameState::Lobby);
    s.on_connect(B).unwrap();
    let fx = s.check_player_count();
    assert_eq!(s.state(), GameState::InGame);
    let expected = vec![
        PlayerSpawn { player_id: A, location: WireVec2 { x_bits: 0xC2C8_0000, y_bits: 0 } },
        PlayerSpawn { player_id: B, location: WireVec2 { x_bits: 0x42C8_0000, y_bits: 0 } },
    ];
    assert_eq!(fx.spawn, expected);
    assert_eq!(fx.broadcasts, vec![ServerMessage::EnterGame { players: expected.clone() }]);
    s.attach_ball(A, 100).unwrap();
    s.attach_ball(B, 200).unwrap();
    let fx = s.on_disconnect(B);
    assert_eq!(fx.broadcasts, vec![ServerMessage::PlayerLeft { player_id: B }]);
    assert_eq!(fx.despawn, vec![200]);
    assert_eq!(s.state(), GameState::InGame);
    let fx = s.check_player_count();
    assert_eq!(s.state(), GameState::Lobby);
    assert_eq!(fx.broadcasts, vec![ServerMessage::EnterLobby]);
    assert_eq!(fx.despawn, vec![100]);
    assert!(s.lobby().get(A).unwrap().entity.is_none());
}

#[test]
fn threshold_stays_in_game_with_three() {
    let mut s = game_with_two();
    s.on_connect(C).unwrap();
    assert!(is_empty(&s.check_player_count()));
    assert_eq!(s.state(), GameState::InGame);
    s.on_disconnect(A);
    assert!(is_empty(&s.check_player_count()));
    assert_eq!(s.state(), GameState::InGame);
}

#[test]
fn duplicate_connect_is_refused() {
    let mut s = Session::new();
    s.on_connect(A).unwrap();
    assert!(s.on_connect(A).is_err());
    assert_eq!(s.lobby().len(), 1);
}

#[test]
fn disconnect_of_unknown_identity_is_a_no_op() {
    let mut s = game_with_two();
    let fx = s.on_disconnect(C);
    assert!(is_empty(&fx));
    assert_eq!(s.lobby().len(), 2);
    assert_eq!(s.state(), GameState::InGame);
    let mut l = Session::new();
    l.on_connect(A).unwrap();
    assert!(is_empty(&l.on_disconnect(B)));
    assert_eq!(l.lobby().len(), 1);
}

#[test]
fn disconnect_in_lobby_broadcasts_nothing() {
    let mut s = Session::new();
    s.on_connect(A).unwrap();
    let fx = s.on_disconnect(A);
    assert!(is_empty(&fx));
    assert_eq!(s.lobby().len(), 0);
}

#[test]
fn attach_errors() {
    let mut s = Session::new();
    s.on_connect(A).unwrap();
    assert_eq!(s.attach_ball(A, 1), Err(SessionError::NotInGame));
    let mut g = game_with_two();
    assert_eq!(g.attach_ball(C, 1), Err(SessionError::UnknownPlayer));
    assert_eq!(g.attach_ball(A, 1), Err(SessionError::AlreadyAttached));
    let b = ball_of(&g, A);
    assert_eq!(b.handle, 100);
    assert_eq!(b.position, WireVec2 { x_bits: 0xC2C8_0000, y_bits: 0 });
}

#[test]
fn last_input_of_a_tick_wins() {
    let mut s = game_with_two();
    let x = PlayerInput { direction: dir(1, 2), heavy: true };
    let y = PlayerInput { direction: dir(3, 4), heavy: false };
    let events = vec![
        InputReceivedEvent { origin: A, input: x },
        InputReceivedEvent { origin: A, input: y },
    ];
    let fx = s.apply_player_inputs(&events);
    let b = ball_of(&s, A);
    assert_eq!(b.direction, dir(3, 4));
    assert!(!b.heavy.heaviness());
    // The heaviness never changed in the end: nothing to push.
    assert!(fx.broadcasts.is_empty());
}

#[test]
fn heaviness_toggle_is_broadcast() {
    let mut s = game_with_two();
    let events = vec![InputReceivedEvent { origin: B, input: PlayerInput { direction: dir(0, 0), heavy: true } }];
    let fx = s.apply_player_inputs(&events);
    assert_eq!(
        fx.broadcasts,
        vec![ServerMessage::PlayerHeavinessChange { player_id: B, heaviness: true }]
    );
    assert!(ball_of(&s, B).heavy.heaviness());
}

#[test]
fn stale_input_is_dropped() {
    let mut s = game_with_two();
    let before_a = ball_of(&s, A);
    let before_b = ball_of(&s, B);
    let events = vec![InputReceivedEvent { origin: C, input: PlayerInput { direction: dir(9, 9), heavy: true } }];
    let fx = s.apply_player_inputs(&events);
    assert!(is_empty(&fx));
    assert_eq!(ball_of(&s, A).direction, before_a.direction);
    assert_eq!(ball_of(&s, B).direction, before_b.direction);
    assert!(!ball_of(&s, A).heavy.heaviness());
}

#[test]
fn snapshot_has_exactly_the_live_balls() {
    let mut s = Session::new();
    s.on_connect(A).unwrap();
    s.on_connect(B).unwrap();
    s.on_connect(C).unwrap();
    s.check_player_count();
    s.attach_ball(A, 100).unwrap();
    s.attach_ball(C, 300).unwrap();
    s.set_position(C, WireVec2 { x_bits: 7, y_bits: 8 }).unwrap();
    let snap = s.broadcast_networked_entities();
    let ids: Vec<u64> = snap.entities.iter().map(|e| e.player_id).collect();
    assert_eq!(ids, vec![A, C]);
    assert_eq!(snap.entities[1].position, WireVec2 { x_bits: 7, y_bits: 8 });
    assert_eq!(s.set_position(B, WireVec2 { x_bits: 1, y_bits: 1 }), Err(StaleReference::NoBall));
    assert_eq!(s.set_position(99, WireVec2 { x_bits: 1, y_bits: 1 }), Err(StaleReference::UnknownPlayer));
}

#[test]
fn receive_drops_malformed_inputs() {
    let good = PlayerInput { direction: dir(5, 6), heavy: true };
    let raw = vec![
        (A, encode_player_input(&good)),
        (B, vec![1, 5, 0]),
        (C, vec![9, 9, 9]),
    ];
    let events = receive_player_inputs(&raw);
    assert_eq!(events, vec![InputReceivedEvent { origin: A, input: good }]);
    assert_eq!(decode_player_input(&raw[1].1), Err(bong::ProtocolError::Malformed));
}

#[test]
fn heavy_timer_ticks_in_session() {
    let mut s = game_with_two();
    let events = vec![InputReceivedEvent { origin: A, input: PlayerInput { direction: dir(0, 0), heavy: true } }];
    s.apply_player_inputs(&events);
    s.tick(2_000_000_000);
    assert_eq!(ball_of(&s, A).heavy.elapsed_nanos(), 2_000_000_000);
    assert_eq!(ball_of(&s, B).heavy.elapsed_nanos(), 0);
    assert_eq!(ball_of(&s, A).heavy.mass_basis_nanos(), 3_000_000_000);
}

#[test]
fn shutdown_sends_stop() {
    let s = game_with_two();
    assert_eq!(s.shutdown(), ServerMessage::Stop);
}

#[test]
fn tick_orders_ingestion_check_and_snapshot() {
    let mut s = Session::new();
    s.on_connect(A).unwrap();
    s.on_connect(B).unwrap();
    let out = s.run_tick(&vec![], 20_000_000);
    assert_eq!(s.state(), GameState::InGame);
    assert_eq!(out.effects.spawn.len(), 2);
    assert!(matches!(out.effects.broadcasts[0], ServerMessage::EnterGame { .. }));
    assert_eq!(out.snapshot.unwrap().entities.len(), 0);
    s.attach_ball(A, 100).unwrap();
    s.attach_ball(B, 200).unwrap();
    let heavy = PlayerInput { direction: dir(0, 0x3F80_0000), heavy: true };
    let out = s.run_tick(&vec![InputReceivedEvent { origin: A, input: heavy }], 1_000_000_000);
    assert_eq!(
        out.effects.broadcasts,
        vec![ServerMessage::PlayerHeavinessChange { player_id: A, heaviness: true }]
    );
    let snap = out.snapshot.unwrap();
    assert_eq!(snap.entities.len(), 2);
    assert!(snap.entities[0].heaviness);
    assert_eq!(ball_of(&s, A).heavy.elapsed_nanos(), 1_000_000_000);
    s.on_disconnect(B);
    let out = s.run_tick(&vec![], 1_000_000_000);
    assert_eq!(s.state(), GameState::Lobby);
    assert_eq!(out.effects.broadcasts, vec![ServerMessage::EnterLobby]);
    assert_eq!(out.effects.despawn, vec![100]);
    assert!(out.snapshot.is_none());
}
