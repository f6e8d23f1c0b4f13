//! The client's mirror of the session: the registry and balls as the
//! server's messages describe them.
use crate::lobby::{
    has_id, ids_unique, index_of, live_handles, mirror, registry_of, spawns_of, ticked,
    without_balls, fresh_ball, AttachError, Lobby, PlayerView, StaleReference, BallView,
};
use crate::heavy::HeavyView;
use crate::protocol::{NetworkedEntities, PlayerSpawn, ServerMessage};
use crate::session::{no_balls, GameState, SessionError, SessionView};
use vstd::prelude::*;

verus! {

/// What applying a server message asks of the client process: balls to
/// create, balls (by local handle) to remove, and whether to exit.
#[derive(Clone, Debug)]
pub struct ClientEffects {
    pub spawn: Vec<PlayerSpawn>,
    pub despawn: Vec<u64>,
    pub exit: bool,
}

/// The client's local mirror of the session.
pub struct ClientSession {
    state: GameState,
    lobby: Lobby,
}

impl ClientSession {
    pub closed spec fn view(&self) -> SessionView {
        SessionView { state: self.state, players: self.lobby.view() }
    }

    /// Identities are unique, and no player has a ball outside a game.
    pub open spec fn wf(&self) -> bool {
        &&& ids_unique(self@.players)
        &&& self@.state == GameState::Lobby ==> no_balls(self@.players)
    }

    /// A mirror of an empty lobby.
    pub fn new() -> (r: ClientSession)
        ensures
            r.wf(),
            r@.state == GameState::Lobby,
            r@.players == Seq::<PlayerView>::empty(),
    {
        ClientSession { state: GameState::Lobby, lobby: Lobby::new() }
    }

    pub fn state(&self) -> (r: GameState)
        ensures
            r == self@.state,
    {
        self.state
    }

    /// The mirrored registry.
    pub fn lobby(&self) -> (r: &Lobby)
        ensures
            r.view() == self@.players,
    {
        &self.lobby
    }

    /// Applies one control message from the server.
    pub fn receive_server_message(&mut self, message: ServerMessage) -> (r: ClientEffects)
        requires
            old(self).wf(),
        ensures
            final(self).wf(),
            message@ is EnterLobby ==> {
                &&& final(self)@.state == GameState::Lobby
                &&& final(self)@.players == without_balls(old(self)@.players)
                &&& r.despawn@ == live_handles(old(self)@.players)
                &&& r.spawn@.len() == 0 && !r.exit
            },
            message@ is EnterGame ==> {
                let players = registry_of(message@->EnterGame_players);
                &&& final(self)@.state == GameState::InGame
                &&& final(self)@.players == players
                &&& r.despawn@ == live_handles(old(self)@.players)
                &&& r.spawn@ == spawns_of(players)
                &&& !r.exit
            },
            message@ is Stop ==> final(self)@ == old(self)@ && r.exit && r.spawn@.len() == 0
                && r.despawn@.len() == 0,
            message@ is PlayerLeft ==> {
                let id = message@->PlayerLeft_player_id;
                &&& final(self)@.state == old(self)@.state
                &&& r.spawn@.len() == 0 && !r.exit
                &&& !has_id(old(self)@.players, id) ==> final(self)@ == old(self)@ && r.despawn@.len() == 0
                &&& has_id(old(self)@.players, id) ==> {
                    let i = index_of(old(self)@.players, id);
                    &&& final(self)@.players == old(self)@.players.remove(i)
                    &&& r.despawn@ == match old(self)@.players[i].ball {
                        Some(b) => seq![b.handle],
                        None => Seq::<u64>::empty(),
                    }
                }
            },
            message@ is PlayerHeavinessChange ==> final(self)@.state == old(self)@.state
                && r.spawn@.len() == 0 && r.despawn@.len() == 0 && !r.exit,
            message@ is PlayerHeavinessChange ==> heaviness_applied(
                old(self)@.players,
                final(self)@.players,
                message@->PlayerHeavinessChange_player_id,
                message@->PlayerHeavinessChange_heaviness,
            ),
    {
        let ghost before = self@.players;
        let mut effects = ClientEffects { spawn: Vec::new(), despawn: Vec::new(), exit: false };
        match message {
            ServerMessage::EnterLobby => {
                effects.despawn = self.lobby.clear_balls();
                self.state = GameState::Lobby;
            },
            ServerMessage::EnterGame { players } => {
                effects.despawn = self.lobby.clear_balls();
                self.lobby = Lobby::from_spawns(&players);
                effects.spawn = self.lobby.spawns();
                self.state = GameState::InGame;
                proof {
                    assert forall|k: int| 0 <= k < self@.players.len() implies #[trigger] self@.players[k].ball is None by {
                        lemma_registry_has_no_balls(players@, k);
                    }
                }
            },
            ServerMessage::Stop => {
                effects.exit = true;
            },
            ServerMessage::PlayerLeft { player_id } => {
                match self.lobby.disconnect(player_id) {
                    None => {},
                    Some(data) => {
                        if let Some(ball) = data.entity {
                            effects.despawn.push(ball.handle);
                        }
                        proof {
                            let i = index_of(before, player_id);
                            assert forall|k: int| 0 <= k < self@.players.len() implies #[trigger] self@.players[k].ball is None
                                || self@.state == GameState::InGame by {
                                if k < i {
                                    assert(self@.players[k] == before[k]);
                                } else {
                                    assert(self@.players[k] == before[k + 1]);
                                }
                            }
                        }
                    },
                }
            },
            ServerMessage::PlayerHeavinessChange { player_id, heaviness } => {
                let r = self.lobby.set_heaviness(player_id, heaviness);
                proof {
                    match r {
                        Err(StaleReference::UnknownPlayer) => {
                            assert(!has_id(before, player_id));
                        },
                        Err(StaleReference::NoBall) => {
                            assert(before[index_of(before, player_id)].ball is None);
                        },
                        Ok(_) => {},
                    }
                    assert(heaviness_applied(before, self@.players, player_id, heaviness));
                    if r is Ok {
                        let i = index_of(before, player_id);
                        assert forall|k: int| 0 <= k < self@.players.len() implies #[trigger] self@.players[k].ball is None
                            || self@.state == GameState::InGame by {
                            if k != i {
                                assert(self@.players[k] == before[k]);
                            }
                        }
                    }
                }
            },
        }
        effects
    }

    /// Applies one snapshot: each mirrored ball takes the server's position,
    /// direction and flag; entries for identities not mirrored are ignored.
    pub fn receive_networked_entities(&mut self, snapshot: &NetworkedEntities)
        requires
            old(self).wf(),
        ensures
            final(self).wf(),
            final(self)@.state == old(self)@.state,
            final(self)@.players == mirror(old(self)@.players, snapshot@),
    {
        let ghost before = self@.players;
        self.lobby.apply_snapshot(&snapshot.entities);
        proof {
            assert forall|k: int| 0 <= k < self@.players.len() implies #[trigger] self@.players[k].ball is None
                || self@.state == GameState::InGame by {
                assert(self@.players[k] == mirror(before, snapshot@)[k]);
            }
        }
    }

    /// The display created a ball for player `id`, with local handle
    /// `handle`.
    pub fn attach_ball(&mut self, id: u64, handle: u64) -> (r: Result<(), SessionError>)
        requires
            old(self).wf(),
        ensures
            final(self).wf(),
            final(self)@.state == old(self)@.state,
            r == Err::<(), SessionError>(SessionError::NotInGame) <==> old(self)@.state == GameState::Lobby,
            r == Err::<(), SessionError>(SessionError::UnknownPlayer) <==> old(self)@.state == GameState::InGame
                && !has_id(old(self)@.players, id),
            r == Err::<(), SessionError>(SessionError::AlreadyAttached) <==> old(self)@.state == GameState::InGame
                && has_id(old(self)@.players, id)
                && old(self)@.players[index_of(old(self)@.players, id)].ball is Some,
            r is Err ==> final(self)@ == old(self)@,
            r is Ok ==> {
                let i = index_of(old(self)@.players, id);
                let p = old(self)@.players[i];
                final(self)@.players == old(self)@.players.update(i, PlayerView { ball: Some(fresh_ball(handle, p.spawning_location)), ..p })
            },
    {
        if self.state == GameState::Lobby {
            return Err(SessionError::NotInGame);
        }
        match self.lobby.attach_ball(id, handle) {
            Ok(()) => Ok(()),
            Err(AttachError::UnknownPlayer) => Err(SessionError::UnknownPlayer),
            Err(AttachError::AlreadyAttached) => Err(SessionError::AlreadyAttached),
        }
    }

    /// Advances every mirrored ball's heaviness timer by `delta_nanos`,
    /// under the same law as the server's.
    pub fn tick(&mut self, delta_nanos: u64)
        requires
            old(self).wf(),
        ensures
            final(self).wf(),
            final(self)@.state == old(self)@.state,
            final(self)@.players == ticked(old(self)@.players, delta_nanos as nat),
    {
        let ghost before = self@.players;
        self.lobby.tick_timers(delta_nanos);
        proof {
            assert forall|k: int| 0 <= k < self@.players.len() implies #[trigger] self@.players[k].ball is None
                || self@.state == GameState::InGame by {
                assert(self@.players[k] == ticked(before, delta_nanos as nat)[k]);
            }
        }
    }
}

/// The registry after a heaviness change for `id`: its ball, if it has
/// one, takes the flag; otherwise nothing changes.
pub open spec fn heaviness_applied(before: Seq<PlayerView>, after: Seq<PlayerView>, id: u64, h: bool) -> bool {
    if has_id(before, id) && before[index_of(before, id)].ball is Some {
        let i = index_of(before, id);
        let p = before[i];
        let b = p.ball->Some_0;
        after == before.update(
            i,
            PlayerView { ball: Some(BallView { heavy: HeavyView { heaviness: h, elapsed: b.heavy.elapsed }, ..b }), ..p },
        )
    } else {
        after == before
    }
}

/// A registry built from spawns holds no ball.
proof fn lemma_registry_has_no_balls(s: Seq<PlayerSpawn>, k: int)
    requires
        0 <= k < registry_of(s).len(),
    ensures
        registry_of(s)[k].ball is None,
    decreases s.len(),
{
    if s.len() > 0 {
        let prev = registry_of(s.drop_last());
        if k < prev.len() {
            lemma_registry_has_no_balls(s.drop_last(), k);
        }
    }
}

} // verus!
