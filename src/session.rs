//! The server's session: the lobby/game state machine around the player
//! registry, and what each phase of a tick asks of the transport and of the
//! simulation.
use crate::lobby::{
    has_id, heaviness_changes, ids_unique, index_of, ingest, live_handles, snapshot_of, spawns_of,
    ticked, with_spawn_slots, without_balls, fresh_ball, AttachError, HeavinessReceivedEvent,
    InputReceivedEvent, Lobby, PlayerView, RegistryError, StaleReference, BallView,
};
use crate::protocol::{
    decode_player_input, input_of, lemma_player_input_injective, player_input_bytes,
    NetworkedEntities, PlayerInput, PlayerSpawn, ServerMessage, ServerMessageView,
};
use crate::wire::WireVec2;
use vstd::prelude::*;

verus! {

/// Number of players at which a game starts.
pub const PLAYER_THRESHOLD: usize = 2;

#[derive(Clone, Copy, Debug, PartialEq, Eq, Structural)]
pub enum GameState {
    Lobby,
    InGame,
}

/// Which end of the connection a process is.
#[derive(Clone, Copy, Debug, PartialEq, Eq, Structural)]
pub enum ApplicationSide {
    Server,
    Client,
}

/// What a step of the session asks of the rest of the process: messages to
/// broadcast on the control channel, in order; balls to create; balls (by
/// local handle) to remove.
#[derive(Clone, Debug)]
pub struct Effects {
    pub broadcasts: Vec<ServerMessage>,
    pub spawn: Vec<PlayerSpawn>,
    pub despawn: Vec<u64>,
}

impl Effects {
    pub open spec fn messages(&self) -> Seq<ServerMessageView> {
        views_of(self.broadcasts@)
    }

    pub open spec fn is_empty(&self) -> bool {
        self.broadcasts@.len() == 0 && self.spawn@.len() == 0 && self.despawn@.len() == 0
    }

    /// Nothing to do.
    pub fn none() -> (r: Effects)
        ensures
            r.is_empty(),
    {
        Effects { broadcasts: Vec::new(), spawn: Vec::new(), despawn: Vec::new() }
    }
}

pub open spec fn views_of(s: Seq<ServerMessage>) -> Seq<ServerMessageView> {
    s.map_values(|m: ServerMessage| m@)
}

/// Why the session refused to attach a ball.
#[derive(Clone, Copy, Debug, PartialEq, Eq, Structural)]
pub enum SessionError {
    NotInGame,
    UnknownPlayer,
    AlreadyAttached,
}

pub struct SessionView {
    pub state: GameState,
    pub players: Seq<PlayerView>,
}

pub open spec fn no_balls(s: Seq<PlayerView>) -> bool {
    forall|k: int| 0 <= k < s.len() ==> (#[trigger] s[k]).ball is None
}

/// The state the transition check leads to from a registry of `n` players.
pub open spec fn checked_state(n: nat) -> GameState {
    if n >= PLAYER_THRESHOLD {
        GameState::InGame
    } else {
        GameState::Lobby
    }
}

/// The registry after the transition check.
pub open spec fn checked_players(state: GameState, s: Seq<PlayerView>) -> Seq<PlayerView> {
    if state == GameState::Lobby && s.len() >= PLAYER_THRESHOLD {
        with_spawn_slots(s)
    } else if state == GameState::InGame && s.len() < PLAYER_THRESHOLD {
        without_balls(s)
    } else {
        s
    }
}

/// The control messages of the transition check.
pub open spec fn transition_messages(state: GameState, s: Seq<PlayerView>) -> Seq<ServerMessageView> {
    if state == GameState::Lobby && s.len() >= PLAYER_THRESHOLD {
        seq![ServerMessageView::EnterGame { players: spawns_of(with_spawn_slots(s)) }]
    } else if state == GameState::InGame && s.len() < PLAYER_THRESHOLD {
        seq![ServerMessageView::EnterLobby]
    } else {
        Seq::empty()
    }
}

/// The heaviness changes to broadcast, one message each.
pub open spec fn heaviness_messages(events: Seq<HeavinessReceivedEvent>) -> Seq<ServerMessageView> {
    events.map_values(
        |e: HeavinessReceivedEvent|
            ServerMessageView::PlayerHeavinessChange { player_id: e.origin, heaviness: e.heaviness },
    )
}

/// The inputs that a batch of received messages holds, in order; a message
/// that is no encoding of an input is dropped.
pub open spec fn decoded_inputs(raw: Seq<(u64, Seq<u8>)>) -> Seq<InputReceivedEvent>
    decreases raw.len(),
{
    if raw.len() == 0 {
        Seq::empty()
    } else {
        decoded_inputs(raw.drop_last()) + match input_of(raw.last().1) {
            Some(i) => seq![InputReceivedEvent { origin: raw.last().0, input: i }],
            None => Seq::empty(),
        }
    }
}

pub open spec fn raw_view(raw: Seq<(u64, Vec<u8>)>) -> Seq<(u64, Seq<u8>)> {
    raw.map_values(|m: (u64, Vec<u8>)| (m.0, m.1@))
}

/// Decodes the input messages of one tick, each with the identity it came
/// from; malformed ones are dropped.
pub fn receive_player_inputs(raw: &Vec<(u64, Vec<u8>)>) -> (r: Vec<InputReceivedEvent>)
    ensures
        r@ == decoded_inputs(raw_view(raw@)),
{
    let mut r: Vec<InputReceivedEvent> = Vec::new();
    let mut i: usize = 0;
    while i < raw.len()
        invariant
            i <= raw@.len(),
            r@ == decoded_inputs(raw_view(raw@).subrange(0, i as int)),
        decreases raw@.len() - i,
    {
        proof {
            assert(raw_view(raw@).subrange(0, i + 1).drop_last() =~= raw_view(raw@).subrange(0, i as int));
        }
        let origin = raw[i].0;
        match decode_player_input(&raw[i].1) {
            Ok(input) => {
                proof {
                    let b = raw@[i as int].1@;
                    let c = choose|j: PlayerInput| player_input_bytes(j) == b;
                    lemma_player_input_injective(c, input);
                }
                r.push(InputReceivedEvent { origin, input });
            },
            Err(_) => {},
        }
        i = i + 1;
    }
    assert(raw_view(raw@).subrange(0, i as int) =~= raw_view(raw@));
    r
}

/// One control message per heaviness change, in order.
pub fn broadcast_players_heaviness(events: &Vec<HeavinessReceivedEvent>) -> (r: Vec<ServerMessage>)
    ensures
        views_of(r@) == heaviness_messages(events@),
{
    let mut r: Vec<ServerMessage> = Vec::new();
    let mut i: usize = 0;
    while i < events.len()
        invariant
            i <= events@.len(),
            r@.len() == i,
            views_of(r@) == heaviness_messages(events@).subrange(0, i as int),
        decreases events@.len() - i,
    {
        let e = events[i];
        let ghost prev = r@;
        let m = ServerMessage::PlayerHeavinessChange { player_id: e.origin, heaviness: e.heaviness };
        r.push(m);
        proof {
            assert(r@ == prev.push(m));
            assert(views_of(r@).len() == i + 1);
            assert(views_of(r@)[i as int] == m@);
            assert(heaviness_messages(events@)[i as int] == m@);
            assert forall|k: int| 0 <= k < i implies #[trigger] views_of(r@)[k] == heaviness_messages(events@)[k] by {
                assert(views_of(prev)[k] == heaviness_messages(events@).subrange(0, i as int)[k]);
                assert(views_of(prev)[k] == prev[k]@);
                assert(r@[k] == prev[k]);
            }
        }
        assert(views_of(r@) =~= heaviness_messages(events@).subrange(0, i + 1));
        i = i + 1;
    }
    assert(heaviness_messages(events@).subrange(0, i as int) =~= heaviness_messages(events@));
    r
}

/// What one tick of the server hands to the transport and the simulation:
/// control messages in the order to send them, balls to create and to
/// remove, and the snapshot to send on the unreliable channel, if a game
/// runs.
#[derive(Clone, Debug)]
pub struct TickOutput {
    pub effects: Effects,
    pub snapshot: Option<NetworkedEntities>,
}

/// The authoritative session: the game state and the player registry.
pub struct Session {
    state: GameState,
    lobby: Lobby,
}

impl Session {
    pub closed spec fn view(&self) -> SessionView {
        SessionView { state: self.state, players: self.lobby.view() }
    }

    /// Identities are unique, and no player has a ball outside a game.
    pub open spec fn wf(&self) -> bool {
        &&& ids_unique(self@.players)
        &&& self@.state == GameState::Lobby ==> no_balls(self@.players)
    }

    /// An empty lobby.
    pub fn new() -> (r: Session)
        ensures
            r.wf(),
            r@.state == GameState::Lobby,
            r@.players == Seq::<PlayerView>::empty(),
    {
        Session { state: GameState::Lobby, lobby: Lobby::new() }
    }

    pub fn state(&self) -> (r: GameState)
        ensures
            r == self@.state,
    {
        self.state
    }

    /// The registry.
    pub fn lobby(&self) -> (r: &Lobby)
        ensures
            r.view() == self@.players,
    {
        &self.lobby
    }

    /// A client connected: it joins the registry with default data.
    pub fn on_connect(&mut self, id: u64) -> (r: Result<(), RegistryError>)
        requires
            old(self).wf(),
        ensures
            final(self).wf(),
            final(self)@.state == old(self)@.state,
            has_id(old(self)@.players, id) ==> r == Err::<(), RegistryError>(
                RegistryError::AlreadyConnected,
            ) && final(self)@.players == old(self)@.players,
            !has_id(old(self)@.players, id) ==> r is Ok && final(self)@.players
                == old(self)@.players.push(crate::lobby::new_player(id)),
    {
        let r = self.lobby.connect(id);
        proof {
            assert forall|k: int| 0 <= k < self@.players.len() implies #[trigger] self@.players[k].ball is None
                || old(self)@.state == GameState::InGame by {
                if k < old(self)@.players.len() {
                    assert(self@.players[k] == old(self)@.players[k]);
                }
            }
        }
        r
    }

    /// A client disconnected. During a game the others are told before the
    /// entry goes, and its ball is removed. An identity that is not
    /// registered changes nothing.
    pub fn on_disconnect(&mut self, id: u64) -> (r: Effects)
        requires
            old(self).wf(),
        ensures
            final(self).wf(),
            final(self)@.state == old(self)@.state,
            !has_id(old(self)@.players, id) ==> final(self)@ == old(self)@ && r.is_empty(),
            has_id(old(self)@.players, id) ==> {
                let i = index_of(old(self)@.players, id);
                let p = old(self)@.players[i];
                &&& final(self)@.players == old(self)@.players.remove(i)
                &&& r.spawn@.len() == 0
                &&& old(self)@.state == GameState::Lobby ==> r.is_empty()
                &&& old(self)@.state == GameState::InGame ==> {
                    &&& r.messages() == seq![ServerMessageView::PlayerLeft { player_id: id }]
                    &&& r.despawn@ == match p.ball {
                        Some(b) => seq![b.handle],
                        None => Seq::<u64>::empty(),
                    }
                }
            },
    {
        let mut effects = Effects::none();
        let ghost before = self@.players;
        match self.lobby.disconnect(id) {
            None => {},
            Some(data) => {
                if self.state == GameState::InGame {
                    effects.broadcasts.push(ServerMessage::PlayerLeft { player_id: id });
                    if let Some(ball) = data.entity {
                        effects.despawn.push(ball.handle);
                    }
                    assert(effects.messages() =~= seq![ServerMessageView::PlayerLeft { player_id: id }]);
                }
                proof {
                    let i = index_of(before, id);
                    assert forall|k: int| 0 <= k < self@.players.len() implies #[trigger] self@.players[k].ball is None
                        || self@.state == GameState::InGame by {
                        if k < i {
                            assert(self@.players[k] == before[k]);
                        } else {
                            assert(self@.players[k] == before[k + 1]);
                        }
                    }
                }
            },
        }
        effects
    }

    /// The transition check, once per tick: a lobby with at least two
    /// players starts a game, a game with fewer ends; otherwise nothing
    /// changes.
    pub fn check_player_count(&mut self) -> (r: Effects)
        requires
            old(self).wf(),
        ensures
            final(self).wf(),
            final(self)@.state == (if old(self)@.players.len() >= PLAYER_THRESHOLD {
                GameState::InGame
            } else {
                GameState::Lobby
            }),
            old(self)@.state == GameState::Lobby && old(self)@.players.len() >= PLAYER_THRESHOLD ==> {
                let players = with_spawn_slots(old(self)@.players);
                &&& final(self)@.players == players
                &&& r.spawn@ == spawns_of(players)
                &&& r.messages() == seq![ServerMessageView::EnterGame { players: spawns_of(players) }]
                &&& r.despawn@.len() == 0
            },
            old(self)@.state == GameState::InGame && old(self)@.players.len() < PLAYER_THRESHOLD ==> {
                &&& final(self)@.players == without_balls(old(self)@.players)
                &&& r.despawn@ == live_handles(old(self)@.players)
                &&& r.messages() == seq![ServerMessageView::EnterLobby]
                &&& r.spawn@.len() == 0
            },
            old(self)@.state == GameState::Lobby && old(self)@.players.len() < PLAYER_THRESHOLD
                ==> final(self)@ == old(self)@ && r.is_empty(),
            old(self)@.state == GameState::InGame && old(self)@.players.len() >= PLAYER_THRESHOLD
                ==> final(self)@ == old(self)@ && r.is_empty(),
    {
        let n = self.lobby.len();
        let mut effects = Effects::none();
        if self.state == GameState::Lobby && n >= PLAYER_THRESHOLD {
            self.lobby.assign_spawn_slots();
            let spawns = self.lobby.spawns();
            effects.spawn = self.lobby.spawns();
            effects.broadcasts.push(ServerMessage::EnterGame { players: spawns });
            assert(effects.messages() =~= seq![ServerMessageView::EnterGame { players: spawns_of(self@.players) }]);
            self.state = GameState::InGame;
        } else if self.state == GameState::InGame && n < PLAYER_THRESHOLD {
            effects.despawn = self.lobby.clear_balls();
            effects.broadcasts.push(ServerMessage::EnterLobby);
            assert(effects.messages() =~= seq![ServerMessageView::EnterLobby]);
            self.state = GameState::Lobby;
        }
        effects
    }

    /// The simulation created a ball for player `id`, with local handle
    /// `handle`; the ball starts at the player's spawning location.
    pub fn attach_ball(&mut self, id: u64, handle: u64) -> (r: Result<(), SessionError>)
        requires
            old(self).wf(),
        ensures
            final(self).wf(),
            final(self)@.state == old(self)@.state,
            r == Err::<(), SessionError>(SessionError::NotInGame) <==> old(self)@.state == GameState::Lobby,
            r == Err::<(), SessionError>(SessionError::UnknownPlayer) <==> old(self)@.state == GameState::InGame
                && !has_id(old(self)@.players, id),
            r == Err::<(), SessionError>(SessionError::AlreadyAttached) <==> old(self)@.state == GameState::InGame
                && has_id(old(self)@.players, id)
                && old(self)@.players[index_of(old(self)@.players, id)].ball is Some,
            r is Err ==> final(self)@ == old(self)@,
            r is Ok ==> {
                let i = index_of(old(self)@.players, id);
                let p = old(self)@.players[i];
                final(self)@.players == old(self)@.players.update(i, PlayerView { ball: Some(fresh_ball(handle, p.spawning_location)), ..p })
            },
    {
        if self.state == GameState::Lobby {
            return Err(SessionError::NotInGame);
        }
        match self.lobby.attach_ball(id, handle) {
            Ok(()) => Ok(()),
            Err(AttachError::UnknownPlayer) => Err(SessionError::UnknownPlayer),
            Err(AttachError::AlreadyAttached) => Err(SessionError::AlreadyAttached),
        }
    }

    /// Applies the inputs of one tick (only the last input of each player
    /// counts; unregistered identities are dropped) and returns the
    /// heaviness toggles to broadcast.
    pub fn apply_player_inputs(&mut self, events: &Vec<InputReceivedEvent>) -> (r: Effects)
        requires
            old(self).wf(),
        ensures
            final(self).wf(),
            final(self)@.state == old(self)@.state,
            final(self)@.players == ingest(old(self)@.players, events@),
            r.messages() == heaviness_messages(heaviness_changes(old(self)@.players, events@)),
            r.spawn@.len() == 0,
            r.despawn@.len() == 0,
    {
        let ghost before = self@.players;
        let changes = self.lobby.apply_inputs(events);
        proof {
            assert forall|k: int| 0 <= k < self@.players.len() implies #[trigger] self@.players[k].ball is None
                || self@.state == GameState::InGame by {
                assert(self@.players[k] == ingest(before, events@)[k]);
            }
        }
        Effects { broadcasts: broadcast_players_heaviness(&changes), spawn: Vec::new(), despawn: Vec::new() }
    }

    /// Advances every ball's heaviness timer by `delta_nanos`.
    pub fn tick(&mut self, delta_nanos: u64)
        requires
            old(self).wf(),
        ensures
            final(self).wf(),
            final(self)@.state == old(self)@.state,
            final(self)@.players == ticked(old(self)@.players, delta_nanos as nat),
    {
        let ghost before = self@.players;
        self.lobby.tick_timers(delta_nanos);
        proof {
            assert forall|k: int| 0 <= k < self@.players.len() implies #[trigger] self@.players[k].ball is None
                || self@.state == GameState::InGame by {
                assert(self@.players[k] == ticked(before, delta_nanos as nat)[k]);
            }
        }
    }

    /// Records where the simulation put player `id`'s ball.
    pub fn set_position(&mut self, id: u64, position: WireVec2) -> (r: Result<(), StaleReference>)
        requires
            old(self).wf(),
        ensures
            final(self).wf(),
            final(self)@.state == old(self)@.state,
            r == Err::<(), StaleReference>(StaleReference::UnknownPlayer) <==> !has_id(old(self)@.players, id),
            r == Err::<(), StaleReference>(StaleReference::NoBall) <==> has_id(old(self)@.players, id)
                && old(self)@.players[index_of(old(self)@.players, id)].ball is None,
            r is Err ==> final(self)@ == old(self)@,
            r is Ok ==> {
                let i = index_of(old(self)@.players, id);
                let p = old(self)@.players[i];
                final(self)@.players == old(self)@.players.update(i, PlayerView { ball: Some(BallView { position, ..p.ball->Some_0 }), ..p })
            },
    {
        let ghost before = self@.players;
        let r = self.lobby.set_position(id, position);
        proof {
            if r is Ok {
                let i = index_of(before, id);
                assert forall|k: int| 0 <= k < self@.players.len() implies #[trigger] self@.players[k].ball is None
                    || self@.state == GameState::InGame by {
                    if k != i {
                        assert(self@.players[k] == before[k]);
                    }
                }
            }
        }
        r
    }

    /// The snapshot of this tick: the state of every live ball, keyed by
    /// player identity, in registry order.
    pub fn broadcast_networked_entities(&self) -> (r: NetworkedEntities)
        ensures
            r@ == snapshot_of(self@.players),
    {
        self.lobby.snapshot()
    }

    /// Ends the session: the message that tells every client to stop.
    pub fn shutdown(self) -> (r: ServerMessage)
        ensures
            r@ == ServerMessageView::Stop,
    {
        ServerMessage::Stop
    }

    /// One tick, in the fixed order: the inputs received are applied, then
    /// the transition check runs on the registry as it now stands, then the
    /// timers advance, and last the snapshot is taken. The control messages
    /// come first the heaviness toggles, then those of the transition.
    pub fn run_tick(&mut self, inputs: &Vec<InputReceivedEvent>, delta_nanos: u64) -> (r: TickOutput)
        requires
            old(self).wf(),
        ensures
            final(self).wf(),
            ({
                let s0 = old(self)@.players;
                let s1 = ingest(s0, inputs@);
                let state = checked_state(s1.len());
                let s2 = checked_players(old(self)@.state, s1);
                &&& final(self)@.state == state
                &&& final(self)@.players == ticked(s2, delta_nanos as nat)
                &&& r.effects.messages() == heaviness_messages(heaviness_changes(s0, inputs@))
                    + transition_messages(old(self)@.state, s1)
                &&& r.effects.spawn@ == (if old(self)@.state == GameState::Lobby && s1.len() >= PLAYER_THRESHOLD {
                    spawns_of(s2)
                } else {
                    Seq::<PlayerSpawn>::empty()
                })
                &&& r.effects.despawn@ == (if old(self)@.state == GameState::InGame && s1.len() < PLAYER_THRESHOLD {
                    live_handles(s1)
                } else {
                    Seq::<u64>::empty()
                })
                &&& state == GameState::InGame ==> (r.snapshot matches Some(n) && n@ == snapshot_of(final(self)@.players))
                &&& state == GameState::Lobby ==> r.snapshot is None
            }),
    {
        let mut effects = self.apply_player_inputs(inputs);
        let transition = self.check_player_count();
        let ghost heaviness = views_of(effects.broadcasts@);
        let mut broadcasts = transition.broadcasts;
        effects.broadcasts.append(&mut broadcasts);
        proof {
            assert(views_of(effects.broadcasts@) =~= heaviness + views_of(transition.broadcasts@));
        }
        effects.spawn = transition.spawn;
        effects.despawn = transition.despawn;
        self.tick(delta_nanos);
        let snapshot = if self.state == GameState::InGame {
            Some(self.broadcast_networked_entities())
        } else {
            None
        };
        TickOutput { effects, snapshot }
    }
}

} // verus!
