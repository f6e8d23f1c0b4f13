//! Session synchronisation for a two-player physics arena: the channel
//! layout, the wire format of every message, the heaviness timer, the
//! server's player registry and lobby/game state machine, and the client's
//! mirror of what the server announces.
#![allow(unused_imports)]

use vstd::prelude::*;

pub mod channel;
pub mod client;
pub mod heavy;
pub mod input;
pub mod lobby;
pub mod protocol;
pub mod records;
pub mod session;
pub mod wire;

pub use channel::{connection_config, ClientChannel, ServerChannel};
pub use heavy::{Heavy, HEAVINESS_DURATION_NANOS};
pub use input::InputDirection;
pub use lobby::{HeavinessReceivedEvent, InputReceivedEvent, Lobby, PlayerData};
pub use protocol::{DirectionVector, PlayerInput, ProtocolError, ServerMessage};
pub use session::{
    broadcast_players_heaviness, receive_player_inputs, ApplicationSide, GameState, Session,
};

