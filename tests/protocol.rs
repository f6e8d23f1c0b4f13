use bong::protocol::{
    decode_networked_entities, decode_player_input, decode_server_message,
    encode_networked_entities, encode_player_input, encode_server_message, EntityState,
    NetworkedEntities, PlayerSpawn,
};
use bong::wire::WireVec2;
use bong::{DirectionVector, PlayerInput, ProtocolError, ServerMessage};

fn v(x: u32, y: u32) -> WireVec2 {
    WireVec2 { x_bits: x, y_bits: y }
}

#[test]
fn control_messages_round_trip() {
    let messages = vec![
        ServerMessage::EnterLobby,
        ServerMessage::EnterGame {
            players: vec![
                PlayerSpawn { player_id: 1, location: v(0xC2C8_0000, 0) },
                PlayerSpawn { player_id: u64::MAX, location: v(0x42C8_0000, 5) },
            ],
        },
        ServerMessage::EnterGame { players: vec![] },
        ServerMessage::Stop,
        ServerMessage::PlayerLeft { player_id: 0x0102_0304_0506_0708 },
        ServerMessage::PlayerHeavinessChange { player_id: 9, heaviness: true },
    ];
    for m in messages {
        let bytes = encode_server_message(&m);
        assert_eq!(decode_server_message(&bytes), Ok(m));
    }
}

#[test]
fn control_message_layout() {
    assert_eq!(encode_server_message(&ServerMessage::EnterLobby), vec![1, 0]);
    assert_eq!(encode_server_message(&ServerMessage::Stop), vec![1, 2]);
    assert_eq!(
        encode_server_message(&ServerMessage::PlayerLeft { player_id: 0x0102_0304_0506_0708 }),
        vec![1, 3, 8, 7, 6, 5, 4, 3, 2, 1]
    );
    assert_eq!(
        encode_server_message(&ServerMessage::PlayerHeavinessChange { player_id: 2, heaviness: true }),
        vec![1, 4, 2, 0, 0, 0, 0, 0, 0, 0, 1]
    );
    let game = encode_server_message(&ServerMessage::EnterGame {
        players: vec![PlayerSpawn { player_id: 3, location: v(0x4000_0001, 0x11) }],
    });
    assert_eq!(
        game,
        vec![1, 1, 1, 0, 0, 0, 3, 0, 0, 0, 0, 0, 0, 0, 1, 0, 0, 0x40, 0x11, 0, 0, 0]
    );
}

#[test]
fn control_message_errors() {
    assert_eq!(decode_server_message(&vec![]), Err(ProtocolError::BadHeader));
    assert_eq!(decode_server_message(&vec![1]), Err(ProtocolError::BadHeader));
    assert_eq!(decode_server_message(&vec![2, 0]), Err(ProtocolError::BadHeader));
    assert_eq!(decode_server_message(&vec![1, 5]), Err(ProtocolError::UnknownTag));
    assert_eq!(decode_server_message(&vec![1, 200]), Err(ProtocolError::UnknownTag));
    assert_eq!(decode_server_message(&vec![1, 0, 0]), Err(ProtocolError::Malformed));
    assert_eq!(decode_server_message(&vec![1, 3, 1, 2]), Err(ProtocolError::Malformed));
    assert_eq!(
        decode_server_message(&vec![1, 4, 2, 0, 0, 0, 0, 0, 0, 0, 7]),
        Err(ProtocolError::Malformed)
    );
    // A count of two with a single record: truncated.
    let mut game = encode_server_message(&ServerMessage::EnterGame {
        players: vec![PlayerSpawn { player_id: 3, location: v(1, 2) }],
    });
    game[2] = 2;
    assert_eq!(decode_server_message(&game), Err(ProtocolError::Malformed));
    assert_eq!(decode_server_message(&vec![1, 1, 0, 0]), Err(ProtocolError::Malformed));
}

#[test]
fn input_round_trip_and_errors() {
    let i = PlayerInput { direction: DirectionVector(v(0x3F35_04F3, 0xBF35_04F3)), heavy: true };
    let bytes = encode_player_input(&i);
    assert_eq!(bytes, vec![1, 5, 0xF3, 0x04, 0x35, 0x3F, 0xF3, 0x04, 0x35, 0xBF, 1]);
    assert_eq!(decode_player_input(&bytes), Ok(i));
    let mut bad = bytes.clone();
    bad[10] = 2;
    assert_eq!(decode_player_input(&bad), Err(ProtocolError::Malformed));
    assert_eq!(decode_player_input(&bytes[..10].to_vec()), Err(ProtocolError::Malformed));
    assert_eq!(decode_player_input(&vec![1, 0]), Err(ProtocolError::UnknownTag));
    assert_eq!(decode_player_input(&vec![0, 5]), Err(ProtocolError::BadHeader));
}

#[test]
fn snapshot_round_trip_and_errors() {
    let s = NetworkedEntities {
        entities: vec![
            EntityState { player_id: 1, position: v(10, 20), direction: DirectionVector(v(0x3F80_0000, 0)), heaviness: false },
            EntityState { player_id: 2, position: v(30, 40), direction: DirectionVector(v(0, 0)), heaviness: true },
        ],
    };
    let bytes = encode_networked_entities(&s);
    assert_eq!(bytes.len(), 6 + 2 * 25);
    assert_eq!(&bytes[..6], &[1, 6, 2, 0, 0, 0]);
    assert_eq!(decode_networked_entities(&bytes), Ok(s.clone()));
    let empty = NetworkedEntities { entities: vec![] };
    assert_eq!(decode_networked_entities(&encode_networked_entities(&empty)), Ok(empty));
    let mut bad = bytes.clone();
    bad[6 + 25 + 24] = 3;
    assert_eq!(decode_networked_entities(&bad), Err(ProtocolError::Malformed));
    assert_eq!(decode_networked_entities(&bytes[..bytes.len() - 1].to_vec()), Err(ProtocolError::Malformed));
    assert_eq!(decode_networked_entities(&vec![1, 0]), Err(ProtocolError::UnknownTag));
    assert_eq!(decode_networked_entities(&vec![1]), Err(ProtocolError::BadHeader));
}
