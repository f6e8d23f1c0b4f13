use bong::client::ClientSession;
use bong::input::{input_from_keys, InputRecorder};
use bong::protocol::{EntityState, NetworkedEntities, PlayerSpawn};
use bong::wire::WireVec2;
use bong::{DirectionVector, GameState, InputDirection, PlayerInput, ServerMessage};

fn v(x: u32, y: u32) -> WireVec2 {
    WireVec2 { x_bits: x, y_bits: y }
}

fn client_in_game() -> ClientSession {
    let mut c = ClientSession::new();
    let fx = c.receive_server_message(ServerMessage::EnterGame {
        players: vec![
            PlayerSpawn { player_id: 1, location: v(10, 0) },
            PlayerSpawn { player_id: 2, location: v(20, 0) },
            PlayerSpawn { player_id: 1, location: v(30, 0) },
        ],
    });
    assert_eq!(fx.spawn.len(), 2);
    assert_eq!(fx.spawn[0].location, v(10, 0));
    c.attach_ball(1, 100).unwrap();
    c.attach_ball(2, 200).unwrap();
    c
}

#[test]
fn enter_game_builds_the_mirror() {
    let c = client_in_game();
    assert_eq!(c.state(), GameState::InGame);
    assert_eq!(c.lobby().len(), 2);
    assert_eq!(c.lobby().get(1).unwrap().spawning_location, v(10, 0));
}

#[test]
fn snapshot_updates_known_balls_and_ignores_others() {
    let mut c = client_in_game();
    let snap = NetworkedEntities {
        entities: vec![
            EntityState { player_id: 1, position: v(5, 5), direction: DirectionVector(v(1, 0)), heaviness: true },
            EntityState { player_id: 9, position: v(6, 6), direction: DirectionVector(v(0, 1)), heaviness: true },
        ],
    };
    c.receive_networked_entities(&snap);
    let b1 = c.lobby().get(1).unwrap().entity.unwrap();
    assert_eq!(b1.position, v(5, 5));
    assert!(b1.heavy.heaviness());
    let b2 = c.lobby().get(2).unwrap().entity.unwrap();
    assert_eq!(b2.position, v(20, 0));
    assert!(c.lobby().get(9).is_none());
}

#[test]
fn player_left_then_lobby_then_stop() {
    let mut c = client_in_game();
    let fx = c.receive_server_message(ServerMessage::PlayerLeft { player_id: 2 });
    assert_eq!(fx.despawn, vec![200]);
    assert!(c.lobby().get(2).is_none());
    let fx = c.receive_server_message(ServerMessage::PlayerLeft { player_id: 2 });
    assert!(fx.despawn.is_empty());
    let fx = c.receive_server_message(ServerMessage::PlayerHeavinessChange { player_id: 1, heaviness: true });
    assert!(fx.despawn.is_empty() && !fx.exit);
    assert!(c.lobby().get(1).unwrap().entity.unwrap().heavy.heaviness());
    let fx = c.receive_server_message(ServerMessage::EnterLobby);
    assert_eq!(c.state(), GameState::Lobby);
    assert_eq!(fx.despawn, vec![100]);
    let fx = c.receive_server_message(ServerMessage::Stop);
    assert!(fx.exit);
}

#[test]
fn keys_give_directions() {
    assert_eq!(InputDirection::from_keys(true, false, false, true), InputDirection::UpRight);
    assert_eq!(InputDirection::from_keys(true, true, true, true), InputDirection::Zero);
    assert_eq!(InputDirection::from_keys(false, true, true, false), InputDirection::DownLeft);
    assert_eq!(InputDirection::from_keys(false, false, true, false).vector(), DirectionVector(v(0xBF80_0000, 0)));
    let i = input_from_keys(true, false, false, true, true);
    assert_eq!(i.direction, DirectionVector(v(0x3F35_04F3, 0x3F35_04F3)));
    assert!(i.heavy);
    let d = InputDirection::UpRight.vector().0;
    let (x, y) = (f32::from_bits(d.x_bits), f32::from_bits(d.y_bits));
    assert!(((x * x + y * y) - 1.0).abs() < 1e-6);
}

#[test]
fn recorder_sends_only_changes() {
    let mut r = InputRecorder::new();
    let still = PlayerInput { direction: DirectionVector(v(0, 0)), heavy: false };
    assert_eq!(r.record(still), None);
    let up = input_from_keys(true, false, false, false, false);
    assert_eq!(r.record(up), Some(up));
    assert_eq!(r.record(up), None);
    assert_eq!(r.record(still), Some(still));
}
