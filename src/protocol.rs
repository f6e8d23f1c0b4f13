//! The messages of the session and their wire layout.
//!
//! Every message starts with the layout version and a tag; integers are
//! little-endian, flags are one byte (0 or 1), and a list is a 32-bit count
//! followed by fixed-size records. Decoding accepts exactly the encodings.
use crate::records::{lemma_records_index, lemma_records_injective, lemma_records_len, lemma_records_push, records_bytes};
use crate::wire::{
    bool_byte, get_bool, get_u32, get_u64, get_vec2, header, le32, le64, lemma_primitives,
    lemma_vec2_injective, put_bool, put_header, put_u32, put_u64, put_vec2, vec2_bytes, WireVec2,
    WIRE_VERSION,
};
use vstd::prelude::*;

verus! {

pub const TAG_ENTER_LOBBY: u8 = 0;
pub const TAG_ENTER_GAME: u8 = 1;
pub const TAG_STOP: u8 = 2;
pub const TAG_PLAYER_LEFT: u8 = 3;
pub const TAG_HEAVINESS_CHANGE: u8 = 4;
pub const TAG_PLAYER_INPUT: u8 = 5;
pub const TAG_NETWORKED_ENTITIES: u8 = 6;

/// Encoded size of one `PlayerSpawn`.
pub const SPAWN_RECORD_LEN: u64 = 16;
/// Encoded size of one `EntityState`.
pub const ENTITY_RECORD_LEN: u64 = 25;

/// A movement direction: of unit length, or zero.
#[derive(Clone, Copy, Debug, PartialEq, Eq, Structural)]
pub struct DirectionVector(pub WireVec2);

/// A player and the place where its ball starts.
#[derive(Clone, Copy, Debug, PartialEq, Eq, Structural)]
pub struct PlayerSpawn {
    pub player_id: u64,
    pub location: WireVec2,
}

/// The replicated state of one player's ball.
#[derive(Clone, Copy, Debug, PartialEq, Eq, Structural)]
pub struct EntityState {
    pub player_id: u64,
    pub position: WireVec2,
    pub direction: DirectionVector,
    pub heaviness: bool,
}

/// What a client sends each time its controls change.
#[derive(Clone, Copy, Debug, PartialEq, Eq, Structural)]
pub struct PlayerInput {
    pub direction: DirectionVector,
    pub heavy: bool,
}

/// Session-control messages, sent by the server on the reliable channel.
#[derive(Clone, Debug, PartialEq, Eq)]
pub enum ServerMessage {
    EnterLobby,
    EnterGame { players: Vec<PlayerSpawn> },
    Stop,
    PlayerLeft { player_id: u64 },
    PlayerHeavinessChange { player_id: u64, heaviness: bool },
}

pub enum ServerMessageView {
    EnterLobby,
    EnterGame { players: Seq<PlayerSpawn> },
    Stop,
    PlayerLeft { player_id: u64 },
    PlayerHeavinessChange { player_id: u64, heaviness: bool },
}

impl View for ServerMessage {
    type V = ServerMessageView;

    open spec fn view(&self) -> ServerMessageView {
        match self {
            ServerMessage::EnterLobby => ServerMessageView::EnterLobby,
            ServerMessage::EnterGame { players } => ServerMessageView::EnterGame { players: players@ },
            ServerMessage::Stop => ServerMessageView::Stop,
            ServerMessage::PlayerLeft { player_id } => ServerMessageView::PlayerLeft {
                player_id: *player_id,
            },
            ServerMessage::PlayerHeavinessChange { player_id, heaviness } =>
                ServerMessageView::PlayerHeavinessChange {
                player_id: *player_id,
                heaviness: *heaviness,
            },
        }
    }
}

impl ServerMessageView {
    /// Its list, if any, fits the 32-bit count of the layout.
    pub open spec fn wf(self) -> bool {
        match self {
            ServerMessageView::EnterGame { players } => players.len() <= u32::MAX,
            _ => true,
        }
    }
}

/// One snapshot of the world: the state of every live ball.
#[derive(Clone, Debug, PartialEq, Eq)]
pub struct NetworkedEntities {
    pub entities: Vec<EntityState>,
}

impl View for NetworkedEntities {
    type V = Seq<EntityState>;

    open spec fn view(&self) -> Seq<EntityState> {
        self.entities@
    }
}

/// Why a received message was discarded.
#[derive(Clone, Copy, Debug, PartialEq, Eq, Structural)]
pub enum ProtocolError {
    /// Shorter than a header, or of another layout version.
    BadHeader,
    /// The tag names no message of the kind expected.
    UnknownTag,
    /// Truncated, too long, or holding a flag byte other than 0 or 1.
    Malformed,
}

pub open spec fn has_header(b: Seq<u8>) -> bool {
    b.len() >= 2 && b[0] == WIRE_VERSION
}

pub open spec fn is_server_tag(t: u8) -> bool {
    t <= TAG_HEAVINESS_CHANGE
}

pub open spec fn spawn_bytes(p: PlayerSpawn) -> Seq<u8> {
    le64(p.player_id) + vec2_bytes(p.location)
}

pub open spec fn spawn_record() -> spec_fn(PlayerSpawn) -> Seq<u8> {
    |p: PlayerSpawn| spawn_bytes(p)
}

pub open spec fn entity_bytes(e: EntityState) -> Seq<u8> {
    le64(e.player_id) + vec2_bytes(e.position) + vec2_bytes(e.direction.0) + seq![
        bool_byte(e.heaviness),
    ]
}

pub open spec fn entity_record() -> spec_fn(EntityState) -> Seq<u8> {
    |e: EntityState| entity_bytes(e)
}

/// The encoding of a control message.
pub open spec fn server_message_bytes(m: ServerMessageView) -> Seq<u8> {
    match m {
        ServerMessageView::EnterLobby => header(TAG_ENTER_LOBBY),
        ServerMessageView::EnterGame { players } => header(TAG_ENTER_GAME) + le32(
            players.len() as u32,
        ) + records_bytes(players, spawn_record()),
        ServerMessageView::Stop => header(TAG_STOP),
        ServerMessageView::PlayerLeft { player_id } => header(TAG_PLAYER_LEFT) + le64(player_id),
        ServerMessageView::PlayerHeavinessChange { player_id, heaviness } => header(
            TAG_HEAVINESS_CHANGE,
        ) + le64(player_id) + seq![bool_byte(heaviness)],
    }
}

/// The encoding of an input message.
pub open spec fn player_input_bytes(i: PlayerInput) -> Seq<u8> {
    header(TAG_PLAYER_INPUT) + vec2_bytes(i.direction.0) + seq![bool_byte(i.heavy)]
}

/// The encoding of a snapshot.
pub open spec fn networked_entities_bytes(s: Seq<EntityState>) -> Seq<u8> {
    header(TAG_NETWORKED_ENTITIES) + le32(s.len() as u32) + records_bytes(s, entity_record())
}

proof fn lemma_record_fns()
    ensures
        forall|p: PlayerSpawn| #[trigger] spawn_record()(p).len() == SPAWN_RECORD_LEN,
        forall|e: EntityState| #[trigger] entity_record()(e).len() == ENTITY_RECORD_LEN,
        forall|a: PlayerSpawn, b: PlayerSpawn| #[trigger]
            spawn_record()(a) == #[trigger] spawn_record()(b) ==> a == b,
        forall|a: EntityState, b: EntityState| #[trigger]
            entity_record()(a) == #[trigger] entity_record()(b) ==> a == b,
{
    lemma_primitives();
    assert forall|a: PlayerSpawn, b: PlayerSpawn| #[trigger]
        spawn_record()(a) == #[trigger] spawn_record()(b) implies a == b by {
        let ea = spawn_bytes(a);
        let eb = spawn_bytes(b);
        assert(ea.subrange(0, 8) == le64(a.player_id));
        assert(eb.subrange(0, 8) == le64(b.player_id));
        assert(ea.subrange(8, 16) == vec2_bytes(a.location));
        assert(eb.subrange(8, 16) == vec2_bytes(b.location));
        lemma_vec2_injective(a.location, b.location);
    }
    assert forall|a: EntityState, b: EntityState| #[trigger]
        entity_record()(a) == #[trigger] entity_record()(b) implies a == b by {
        let ea = entity_bytes(a);
        let eb = entity_bytes(b);
        assert(ea.subrange(0, 8) == le64(a.player_id));
        assert(eb.subrange(0, 8) == le64(b.player_id));
        assert(ea.subrange(8, 16) == vec2_bytes(a.position));
        assert(eb.subrange(8, 16) == vec2_bytes(b.position));
        assert(ea.subrange(16, 24) == vec2_bytes(a.direction.0));
        assert(eb.subrange(16, 24) == vec2_bytes(b.direction.0));
        assert(ea[24] == bool_byte(a.heaviness));
        assert(eb[24] == bool_byte(b.heaviness));
        lemma_vec2_injective(a.position, b.position);
        lemma_vec2_injective(a.direction.0, b.direction.0);
    }
}

fn put_spawn(out: &mut Vec<u8>, p: PlayerSpawn)
    ensures
        final(out)@ == old(out)@ + spawn_bytes(p),
{
    put_u64(out, p.player_id);
    put_vec2(out, p.location);
    assert(final(out)@ =~= old(out)@ + spawn_bytes(p));
}

fn put_entity(out: &mut Vec<u8>, e: EntityState)
    ensures
        final(out)@ == old(out)@ + entity_bytes(e),
{
    put_u64(out, e.player_id);
    put_vec2(out, e.position);
    put_vec2(out, e.direction.0);
    put_bool(out, e.heaviness);
    assert(final(out)@ =~= old(out)@ + entity_bytes(e));
}

/// Encodes a control message.
pub fn encode_server_message(m: &ServerMessage) -> (r: Vec<u8>)
    requires
        m@.wf(),
    ensures
        r@ == server_message_bytes(m@),
{
    let mut out: Vec<u8> = Vec::new();
    match m {
        ServerMessage::EnterLobby => {
            put_header(&mut out, TAG_ENTER_LOBBY);
        },
        ServerMessage::EnterGame { players } => {
            put_header(&mut out, TAG_ENTER_GAME);
            put_u32(&mut out, players.len() as u32);
            let ghost start = out@;
            let mut i: usize = 0;
            while i < players.len()
                invariant
                    i <= players@.len(),
                    out@ == start + records_bytes(players@.subrange(0, i as int), spawn_record()),
                decreases players@.len() - i,
            {
                proof {
                    lemma_records_push(players@.subrange(0, i as int), players@[i as int], spawn_record());
                    assert(players@.subrange(0, i + 1) =~= players@.subrange(0, i as int).push(players@[i as int]));
                }
                put_spawn(&mut out, players[i]);
                i = i + 1;
            }
            assert(players@.subrange(0, i as int) =~= players@);
        },
        ServerMessage::Stop => {
            put_header(&mut out, TAG_STOP);
        },
        ServerMessage::PlayerLeft { player_id } => {
            put_header(&mut out, TAG_PLAYER_LEFT);
            put_u64(&mut out, *player_id);
        },
        ServerMessage::PlayerHeavinessChange { player_id, heaviness } => {
            put_header(&mut out, TAG_HEAVINESS_CHANGE);
            put_u64(&mut out, *player_id);
            put_bool(&mut out, *heaviness);
        },
    }
    assert(out@ =~= server_message_bytes(m@));
    out
}

/// Encodes an input message.
pub fn encode_player_input(i: &PlayerInput) -> (r: Vec<u8>)
    ensures
        r@ == player_input_bytes(*i),
{
    let mut out: Vec<u8> = Vec::new();
    put_header(&mut out, TAG_PLAYER_INPUT);
    put_vec2(&mut out, i.direction.0);
    put_bool(&mut out, i.heavy);
    assert(out@ =~= player_input_bytes(*i));
    out
}

/// Encodes a snapshot.
pub fn encode_networked_entities(s: &NetworkedEntities) -> (r: Vec<u8>)
    requires
        s@.len() <= u32::MAX,
    ensures
        r@ == networked_entities_bytes(s@),
{
    let mut out: Vec<u8> = Vec::new();
    put_header(&mut out, TAG_NETWORKED_ENTITIES);
    put_u32(&mut out, s.entities.len() as u32);
    let ghost start = out@;
    let mut i: usize = 0;
    while i < s.entities.len()
        invariant
            i <= s@.len(),
            s@ == s.entities@,
            out@ == start + records_bytes(s@.subrange(0, i as int), entity_record()),
        decreases s@.len() - i,
    {
        proof {
            lemma_records_push(s@.subrange(0, i as int), s@[i as int], entity_record());
            assert(s@.subrange(0, i + 1) =~= s@.subrange(0, i as int).push(s@[i as int]));
        }
        put_entity(&mut out, s.entities[i]);
        i = i + 1;
    }
    assert(s@.subrange(0, i as int) =~= s@);
    assert(out@ =~= networked_entities_bytes(s@));
    out
}

/// What an encoding of a control message tells about the message.
proof fn lemma_server_message_shape(m: ServerMessageView, b: Seq<u8>)
    requires
        m.wf(),
        server_message_bytes(m) == b,
    ensures
        has_header(b),
        is_server_tag(b[1]),
        b[1] == TAG_ENTER_LOBBY ==> b.len() == 2 && m is EnterLobby,
        b[1] == TAG_STOP ==> b.len() == 2 && m is Stop,
        b[1] == TAG_PLAYER_LEFT ==> b.len() == 10 && m is PlayerLeft,
        b[1] == TAG_HEAVINESS_CHANGE ==> b.len() == 11 && (b[10] == 0 || b[10] == 1)
            && m is PlayerHeavinessChange,
        b[1] == TAG_ENTER_GAME ==> {
            &&& m is EnterGame
            &&& b.len() >= 6
            &&& le32(m->players.len() as u32) == b.subrange(2, 6)
            &&& b.len() == 6 + SPAWN_RECORD_LEN * m->players.len()
        },
{
    lemma_primitives();
    lemma_record_fns();
    match m {
        ServerMessageView::EnterGame { players } => {
            lemma_records_len(players, spawn_record(), SPAWN_RECORD_LEN as nat);
            assert(b.subrange(2, 6) =~= le32(players.len() as u32));
        },
        ServerMessageView::PlayerHeavinessChange { player_id, heaviness } => {
            assert(b[10] == bool_byte(heaviness));
        },
        _ => {},
    }
}

/// Decodes a control message. It succeeds exactly on the encodings of
/// control messages, and returns the message encoded.
pub fn decode_server_message(b: &Vec<u8>) -> (r: Result<ServerMessage, ProtocolError>)
    ensures
        r matches Ok(m) ==> m@.wf() && server_message_bytes(m@) == b@,
        r is Ok <==> exists|m: ServerMessageView| m.wf() && server_message_bytes(m) == b@,
        r == Err::<ServerMessage, ProtocolError>(ProtocolError::BadHeader) <==> !has_header(b@),
        r == Err::<ServerMessage, ProtocolError>(ProtocolError::UnknownTag) <==> has_header(b@)
            && !is_server_tag(b@[1]),
        r == Err::<ServerMessage, ProtocolError>(ProtocolError::Malformed) <==> has_header(b@)
            && is_server_tag(b@[1]) && !exists|m: ServerMessageView|
            m.wf() && server_message_bytes(m) == b@,
{
    proof {
        lemma_primitives();
        lemma_record_fns();
    }
    let len = b.len();
    if len < 2 || b[0] != WIRE_VERSION {
        proof {
            assert forall|m: ServerMessageView| m.wf() implies server_message_bytes(m) != b@ by {
                if server_message_bytes(m) == b@ {
                    lemma_server_message_shape(m, b@);
                }
            }
        }
        return Err(ProtocolError::BadHeader);
    }
    let tag = b[1];
    let malformed = Err(ProtocolError::Malformed);
    let r = if tag == TAG_ENTER_LOBBY {
        if len == 2 {
            Ok(ServerMessage::EnterLobby)
        } else {
            malformed
        }
    } else if tag == TAG_STOP {
        if len == 2 {
            Ok(ServerMessage::Stop)
        } else {
            malformed
        }
    } else if tag == TAG_PLAYER_LEFT {
        if len == 10 {
            let player_id = get_u64(b, 2);
            Ok(ServerMessage::PlayerLeft { player_id })
        } else {
            malformed
        }
    } else if tag == TAG_HEAVINESS_CHANGE {
        if len == 11 {
            let player_id = get_u64(b, 2);
            match get_bool(b, 10) {
                Some(heaviness) => Ok(ServerMessage::PlayerHeavinessChange { player_id, heaviness }),
                None => malformed,
            }
        } else {
            malformed
        }
    } else if tag == TAG_ENTER_GAME {
        if len < 6 {
            malformed
        } else {
            let n = get_u32(b, 2);
            if len as u64 != 6 + SPAWN_RECORD_LEN * n as u64 {
                malformed
            } else {
                let mut players: Vec<PlayerSpawn> = Vec::new();
                let mut k: usize = 0;
                while k < n as usize
                    invariant
                        k <= n,
                        len == b@.len(),
                        len == 6 + SPAWN_RECORD_LEN * n,
                        players@.len() == k,
                        records_bytes(players@, spawn_record()) == b@.subrange(6, 6 + 16 * k),
                    decreases n - k,
                {
                    let at: usize = 6 + 16 * k;
                    let player_id = get_u64(b, at);
                    let location = get_vec2(b, at + 8);
                    let p = PlayerSpawn { player_id, location };
                    proof {
                        lemma_records_push(players@, p, spawn_record());
                        assert(spawn_bytes(p) =~= b@.subrange(at as int, at + 16));
                        assert(b@.subrange(6, at as int) + b@.subrange(at as int, at + 16)
                            =~= b@.subrange(6, at + 16));
                    }
                    players.push(p);
                    k = k + 1;
                }
                proof {
                    assert(b@ =~= header(TAG_ENTER_GAME) + b@.subrange(2, 6) + b@.subrange(6, len as int));
                }
                Ok(ServerMessage::EnterGame { players })
            }
        }
    } else {
        Err(ProtocolError::UnknownTag)
    };
    proof {
        if r is Ok {
            assert(server_message_bytes(r->Ok_0@) =~= b@);
        } else {
            assert forall|m: ServerMessageView| m.wf() implies server_message_bytes(m) != b@ by {
                if server_message_bytes(m) == b@ {
                    lemma_server_message_shape(m, b@);
                }
            }
        }
    }
    r
}

/// Decodes an input message. It succeeds exactly on the encodings of input
/// messages, and returns the input encoded.
pub fn decode_player_input(b: &Vec<u8>) -> (r: Result<PlayerInput, ProtocolError>)
    ensures
        r matches Ok(i) ==> player_input_bytes(i) == b@,
        r is Ok <==> exists|i: PlayerInput| player_input_bytes(i) == b@,
        r == Err::<PlayerInput, ProtocolError>(ProtocolError::BadHeader) <==> !has_header(b@),
        r == Err::<PlayerInput, ProtocolError>(ProtocolError::UnknownTag) <==> has_header(b@)
            && b@[1] != TAG_PLAYER_INPUT,
        r == Err::<PlayerInput, ProtocolError>(ProtocolError::Malformed) <==> has_header(b@)
            && b@[1] == TAG_PLAYER_INPUT && !exists|i: PlayerInput| player_input_bytes(i) == b@,
{
    proof {
        lemma_primitives();
    }
    let len = b.len();
    let r = if len < 2 || b[0] != WIRE_VERSION {
        Err(ProtocolError::BadHeader)
    } else if b[1] != TAG_PLAYER_INPUT {
        Err(ProtocolError::UnknownTag)
    } else if len != 11 {
        Err(ProtocolError::Malformed)
    } else {
        let v = get_vec2(b, 2);
        match get_bool(b, 10) {
            Some(heavy) => Ok(PlayerInput { direction: DirectionVector(v), heavy }),
            None => Err(ProtocolError::Malformed),
        }
    };
    proof {
        if r is Ok {
            assert(player_input_bytes(r->Ok_0) =~= b@);
        } else {
            assert forall|i: PlayerInput| player_input_bytes(i) != b@ by {
                if player_input_bytes(i) == b@ {
                    assert(b@[10] == bool_byte(i.heavy));
                }
            }
        }
    }
    r
}

/// What an encoding of a snapshot tells about the snapshot.
proof fn lemma_networked_entities_shape(s: Seq<EntityState>, b: Seq<u8>)
    requires
        s.len() <= u32::MAX,
        networked_entities_bytes(s) == b,
    ensures
        has_header(b),
        b[1] == TAG_NETWORKED_ENTITIES,
        b.len() >= 6,
        le32(s.len() as u32) == b.subrange(2, 6),
        b.len() == 6 + ENTITY_RECORD_LEN * s.len(),
        b.subrange(6, b.len() as int) == records_bytes(s, entity_record()),
{
    lemma_primitives();
    lemma_record_fns();
    lemma_records_len(s, entity_record(), ENTITY_RECORD_LEN as nat);
    assert(b.subrange(2, 6) =~= le32(s.len() as u32));
    assert(b.subrange(6, b.len() as int) =~= records_bytes(s, entity_record()));
}

/// Decodes a snapshot. It succeeds exactly on the encodings of snapshots,
/// and returns the snapshot encoded.
pub fn decode_networked_entities(b: &Vec<u8>) -> (r: Result<NetworkedEntities, ProtocolError>)
    ensures
        r matches Ok(s) ==> s@.len() <= u32::MAX && networked_entities_bytes(s@) == b@,
        r is Ok <==> exists|s: Seq<EntityState>|
            s.len() <= u32::MAX && networked_entities_bytes(s) == b@,
        r == Err::<NetworkedEntities, ProtocolError>(ProtocolError::BadHeader) <==> !has_header(b@),
        r == Err::<NetworkedEntities, ProtocolError>(ProtocolError::UnknownTag) <==> has_header(b@)
            && b@[1] != TAG_NETWORKED_ENTITIES,
        r == Err::<NetworkedEntities, ProtocolError>(ProtocolError::Malformed) <==> has_header(b@)
            && b@[1] == TAG_NETWORKED_ENTITIES && !exists|s: Seq<EntityState>|
            s.len() <= u32::MAX && networked_entities_bytes(s) == b@,
{
    proof {
        lemma_primitives();
        lemma_record_fns();
    }
    let len = b.len();
    if len < 2 || b[0] != WIRE_VERSION {
        return Err(ProtocolError::BadHeader);
    }
    if b[1] != TAG_NETWORKED_ENTITIES {
        return Err(ProtocolError::UnknownTag);
    }
    if len < 6 {
        proof {
            assert forall|s: Seq<EntityState>| s.len() <= u32::MAX implies networked_entities_bytes(s) != b@ by {
                if networked_entities_bytes(s) == b@ {
                    lemma_networked_entities_shape(s, b@);
                }
            }
        }
        return Err(ProtocolError::Malformed);
    }
    let n = get_u32(b, 2);
    if len as u64 != 6 + ENTITY_RECORD_LEN * n as u64 {
        proof {
            assert forall|s: Seq<EntityState>| s.len() <= u32::MAX implies networked_entities_bytes(s) != b@ by {
                if networked_entities_bytes(s) == b@ {
                    lemma_networked_entities_shape(s, b@);
                }
            }
        }
        return Err(ProtocolError::Malformed);
    }
    let mut entities: Vec<EntityState> = Vec::new();
    let mut k: usize = 0;
    while k < n as usize
        invariant
            k <= n,
            len == b@.len(),
            len == 6 + ENTITY_RECORD_LEN * n,
            b@.len() >= 6,
            has_header(b@),
            b@[1] == TAG_NETWORKED_ENTITIES,
            le32(n) == b@.subrange(2, 6),
            entities@.len() == k,
            records_bytes(entities@, entity_record()) == b@.subrange(6, 6 + 25 * k),
        decreases n - k,
    {
        let at: usize = 6 + 25 * k;
        let player_id = get_u64(b, at);
        let position = get_vec2(b, at + 8);
        let direction = get_vec2(b, at + 16);
        let heaviness = match get_bool(b, at + 24) {
            Some(h) => h,
            None => {
                proof {
                    assert forall|s: Seq<EntityState>| s.len() <= u32::MAX implies networked_entities_bytes(s) != b@ by {
                        if networked_entities_bytes(s) == b@ {
                            lemma_primitives();
                            lemma_record_fns();
                            lemma_networked_entities_shape(s, b@);
                            assert(s.len() as u32 == n);
                            lemma_records_index(s, entity_record(), ENTITY_RECORD_LEN as nat, k as int);
                            let rec = b@.subrange(6, len as int).subrange(25 * k, 25 * k + 25);
                            assert(rec == entity_bytes(s[k as int]));
                            assert(rec[24] == b@[at + 24]);
                            assert(entity_bytes(s[k as int])[24] == bool_byte(s[k as int].heaviness));
                        }
                    }
                }
                return Err(ProtocolError::Malformed);
            },
        };
        let e = EntityState { player_id, position, direction: DirectionVector(direction), heaviness };
        proof {
            lemma_records_push(entities@, e, entity_record());
            assert(entity_bytes(e) =~= b@.subrange(at as int, at + 25));
            assert(b@.subrange(6, at as int) + b@.subrange(at as int, at + 25) =~= b@.subrange(6, at + 25));
        }
        entities.push(e);
        k = k + 1;
    }
    let r = NetworkedEntities { entities };
    proof {
        assert(b@ =~= header(TAG_NETWORKED_ENTITIES) + b@.subrange(2, 6) + b@.subrange(6, len as int));
        assert(networked_entities_bytes(r@) =~= b@);
    }
    Ok(r)
}

/// Two inputs with the same encoding are the same input.
pub proof fn lemma_player_input_injective(a: PlayerInput, b: PlayerInput)
    requires
        player_input_bytes(a) == player_input_bytes(b),
    ensures
        a == b,
{
    lemma_primitives();
    let ea = player_input_bytes(a);
    let eb = player_input_bytes(b);
    assert(ea.subrange(2, 10) == vec2_bytes(a.direction.0));
    assert(eb.subrange(2, 10) == vec2_bytes(b.direction.0));
    assert(ea[10] == bool_byte(a.heavy));
    assert(eb[10] == bool_byte(b.heavy));
    lemma_vec2_injective(a.direction.0, b.direction.0);
}

/// The input that `b` encodes, if any.
pub open spec fn input_of(b: Seq<u8>) -> Option<PlayerInput> {
    if exists|i: PlayerInput| player_input_bytes(i) == b {
        Some(choose|i: PlayerInput| player_input_bytes(i) == b)
    } else {
        None
    }
}

/// A control message is determined by its encoding: decoding what
/// `encode_server_message` wrote gives back the message itself.
pub proof fn lemma_server_message_round_trip(m1: ServerMessageView, m2: ServerMessageView)
    requires
        m1.wf(),
        m2.wf(),
        server_message_bytes(m1) == server_message_bytes(m2),
    ensures
        m1 == m2,
{
    lemma_primitives();
    lemma_record_fns();
    let b = server_message_bytes(m1);
    lemma_server_message_shape(m1, b);
    lemma_server_message_shape(m2, b);
    match m1 {
        ServerMessageView::EnterGame { players: first } => {
            let second = m2->EnterGame_players;
            assert(first.len() as u32 == second.len() as u32);
            lemma_records_len(first, spawn_record(), SPAWN_RECORD_LEN as nat);
            lemma_records_len(second, spawn_record(), SPAWN_RECORD_LEN as nat);
            assert(b.subrange(6, b.len() as int) == records_bytes(first, spawn_record()));
            assert(server_message_bytes(m2).subrange(6, b.len() as int) == records_bytes(second, spawn_record()));
            lemma_records_injective(first, second, spawn_record(), SPAWN_RECORD_LEN as nat);
        },
        ServerMessageView::PlayerLeft { player_id: a } => {
            let c = m2->PlayerLeft_player_id;
            assert(b.subrange(2, 10) == le64(a));
            assert(server_message_bytes(m2).subrange(2, 10) == le64(c));
        },
        ServerMessageView::PlayerHeavinessChange { player_id: a, heaviness: h } => {
            let c = m2->PlayerHeavinessChange_player_id;
            assert(b.subrange(2, 10) == le64(a));
            assert(server_message_bytes(m2).subrange(2, 10) == le64(c));
            assert(b[10] == bool_byte(h));
            assert(server_message_bytes(m2)[10] == bool_byte(m2->PlayerHeavinessChange_heaviness));
        },
        _ => {},
    }
}

/// A snapshot is determined by its encoding: decoding what
/// `encode_networked_entities` wrote gives back the snapshot itself.
pub proof fn lemma_networked_entities_round_trip(s1: Seq<EntityState>, s2: Seq<EntityState>)
    requires
        s1.len() <= u32::MAX,
        s2.len() <= u32::MAX,
        networked_entities_bytes(s1) == networked_entities_bytes(s2),
    ensures
        s1 == s2,
{
    lemma_primitives();
    lemma_record_fns();
    let b = networked_entities_bytes(s1);
    lemma_networked_entities_shape(s1, b);
    lemma_networked_entities_shape(s2, b);
    assert(s1.len() as u32 == s2.len() as u32);
    lemma_records_injective(s1, s2, entity_record(), ENTITY_RECORD_LEN as nat);
}

} // verus!
