//! The player registry: each connected player's identity and session data.
use crate::heavy::{timer_step, Heavy, HeavyView};
use crate::protocol::{DirectionVector, EntityState, NetworkedEntities, PlayerInput, PlayerSpawn};
use crate::wire::WireVec2;
use vstd::prelude::*;

verus! {

/// The ball of one player, as this side knows it: the local handle of the
/// simulated body, and its replicated state.
#[derive(Clone, Copy, Debug)]
pub struct Ball {
    pub handle: u64,
    pub position: WireVec2,
    pub direction: DirectionVector,
    pub heavy: Heavy,
}

pub struct BallView {
    pub handle: u64,
    pub position: WireVec2,
    pub direction: DirectionVector,
    pub heavy: HeavyView,
}

impl View for Ball {
    type V = BallView;

    open spec fn view(&self) -> BallView {
        BallView {
            handle: self.handle,
            position: self.position,
            direction: self.direction,
            heavy: self.heavy@,
        }
    }
}

/// The session data of one player: where its ball starts, and its ball
/// while a game runs.
#[derive(Clone, Copy, Debug)]
pub struct PlayerData {
    pub spawning_location: WireVec2,
    pub entity: Option<Ball>,
}

/// One entry of the registry, as the contracts see it.
pub struct PlayerView {
    pub id: u64,
    pub spawning_location: WireVec2,
    pub ball: Option<BallView>,
}

pub open spec fn ball_view(b: Option<Ball>) -> Option<BallView> {
    match b {
        Some(ball) => Some(ball@),
        None => None,
    }
}

impl PlayerData {
    /// A player with no ball, at the origin.
    pub fn new() -> (r: PlayerData)
        ensures
            r.spawning_location == (WireVec2 { x_bits: 0, y_bits: 0 }),
            r.entity == None::<Ball>,
    {
        PlayerData { spawning_location: WireVec2::zero(), entity: None }
    }
}

#[derive(Clone, Copy, Debug)]
struct PlayerEntry {
    id: u64,
    data: PlayerData,
}

impl PlayerEntry {
    spec fn view(&self) -> PlayerView {
        PlayerView {
            id: self.id,
            spawning_location: self.data.spawning_location,
            ball: ball_view(self.data.entity),
        }
    }
}

/// Why a registry operation was refused.
#[derive(Clone, Copy, Debug, PartialEq, Eq, Structural)]
pub enum RegistryError {
    /// The identity is registered already.
    AlreadyConnected,
}

/// An input that arrived from player `origin`.
#[derive(Clone, Copy, Debug, PartialEq, Eq, Structural)]
pub struct InputReceivedEvent {
    pub origin: u64,
    pub input: PlayerInput,
}

/// A change of heaviness of player `origin`'s ball.
#[derive(Clone, Copy, Debug, PartialEq, Eq, Structural)]
pub struct HeavinessReceivedEvent {
    pub origin: u64,
    pub heaviness: bool,
}

/// A message named a player that is not in the registry, or one without a
/// ball: a stale packet, dropped.
#[derive(Clone, Copy, Debug, PartialEq, Eq, Structural)]
pub enum StaleReference {
    UnknownPlayer,
    NoBall,
}

/// Why a ball could not be attached to a player.
#[derive(Clone, Copy, Debug, PartialEq, Eq, Structural)]
pub enum AttachError {
    UnknownPlayer,
    AlreadyAttached,
}

/// The registry: players by identity, each identity at most once, in the
/// order they connected.
#[derive(Clone, Debug)]
pub struct Lobby {
    players: Vec<PlayerEntry>,
}

/// No identity stands twice in `s`.
pub open spec fn ids_unique(s: Seq<PlayerView>) -> bool {
    forall|i: int, j: int| 0 <= i < s.len() && 0 <= j < s.len() && s[i].id == s[j].id ==> i == j
}

/// Whether `id` stands in `s`.
pub open spec fn has_id(s: Seq<PlayerView>, id: u64) -> bool {
    exists|i: int| 0 <= i < s.len() && s[i].id == id
}

/// The player with identity `id`; meaningful where `has_id(s, id)`.
pub open spec fn index_of(s: Seq<PlayerView>, id: u64) -> int {
    choose|i: int| 0 <= i < s.len() && s[i].id == id
}

pub open spec fn new_player(id: u64) -> PlayerView {
    PlayerView { id, spawning_location: WireVec2 { x_bits: 0, y_bits: 0 }, ball: None }
}

impl Lobby {
    pub closed spec fn view(&self) -> Seq<PlayerView> {
        self.players@.map_values(|e: PlayerEntry| e.view())
    }

    /// Every identity stands at most once.
    pub open spec fn wf(&self) -> bool {
        ids_unique(self.view())
    }

    pub fn new() -> (r: Lobby)
        ensures
            r.view() == Seq::<PlayerView>::empty(),
            r.wf(),
    {
        let r = Lobby { players: Vec::new() };
        assert(r.view() =~= Seq::<PlayerView>::empty());
        r
    }

    /// Number of registered players.
    pub fn len(&self) -> (r: usize)
        ensures
            r == self.view().len(),
    {
        self.players.len()
    }

    /// The position of `id` in the registry.
    pub fn find(&self, id: u64) -> (r: Option<usize>)
        requires
            self.wf(),
        ensures
            r matches Some(i) ==> i < self.view().len() && self.view()[i as int].id == id
                && i == index_of(self.view(), id),
            r is None <==> !has_id(self.view(), id),
    {
        let mut i: usize = 0;
        while i < self.players.len()
            invariant
                i <= self.players@.len(),
                self.wf(),
                self.view().len() == self.players@.len(),
                forall|k: int| 0 <= k < i ==> #[trigger] self.view()[k].id != id,
            decreases self.players@.len() - i,
        {
            if self.players[i].id == id {
                assert(self.view()[i as int].id == id);
                assert(index_of(self.view(), id) == i) by {
                    let j = index_of(self.view(), id);
                    assert(0 <= j < self.view().len() && self.view()[j].id == id);
                }
                return Some(i);
            }
            i = i + 1;
        }
        None
    }

    /// Whether `id` is registered.
    pub fn contains(&self, id: u64) -> (r: bool)
        requires
            self.wf(),
        ensures
            r == has_id(self.view(), id),
    {
        self.find(id).is_some()
    }

    /// The data of player `id`, if registered.
    pub fn get(&self, id: u64) -> (r: Option<PlayerData>)
        requires
            self.wf(),
        ensures
            r is None <==> !has_id(self.view(), id),
            r matches Some(d) ==> {
                let p = self.view()[index_of(self.view(), id)];
                d.spawning_location == p.spawning_location && ball_view(d.entity) == p.ball
            },
    {
        match self.find(id) {
            Some(i) => Some(self.players[i].data),
            None => None,
        }
    }

    /// Registers `id` with default data; refused if it is registered already.
    pub fn connect(&mut self, id: u64) -> (r: Result<(), RegistryError>)
        requires
            old(self).wf(),
        ensures
            final(self).wf(),
            has_id(old(self).view(), id) ==> r == Err::<(), RegistryError>(
                RegistryError::AlreadyConnected,
            ) && final(self).view() == old(self).view(),
            !has_id(old(self).view(), id) ==> r is Ok && final(self).view() == old(self).view().push(
                new_player(id),
            ),
    {
        if self.contains(id) {
            return Err(RegistryError::AlreadyConnected);
        }
        let ghost before = self.view();
        self.players.push(PlayerEntry { id, data: PlayerData::new() });
        assert(self.view() =~= before.push(new_player(id)));
        Ok(())
    }

    /// Removes `id` and hands back its data; does nothing if it is absent.
    pub fn disconnect(&mut self, id: u64) -> (r: Option<PlayerData>)
        requires
            old(self).wf(),
        ensures
            final(self).wf(),
            !has_id(old(self).view(), id) ==> r is None && final(self).view() == old(self).view(),
            has_id(old(self).view(), id) ==> {
                let i = index_of(old(self).view(), id);
                &&& r matches Some(d)
                &&& d.spawning_location == old(self).view()[i].spawning_location
                &&& ball_view(d.entity) == old(self).view()[i].ball
                &&& final(self).view() == old(self).view().remove(i)
            },
    {
        match self.find(id) {
            None => None,
            Some(i) => {
                let ghost before = self.view();
                let e = self.players.remove(i);
                assert(self.view() =~= before.remove(i as int));
                Some(e.data)
            },
        }
    }

    /// Gives player `i` the spawning location `location`.
    fn set_location(&mut self, i: usize, location: WireVec2)
        requires
            i < old(self).view().len(),
        ensures
            final(self).view() == old(self).view().update(
                i as int,
                PlayerView { spawning_location: location, ..old(self).view()[i as int] },
            ),
    {
        let ghost before = self.view();
        let mut e = self.players[i];
        e.data.spawning_location = location;
        self.players[i] = e;
        assert(self.view() =~= before.update(
            i as int,
            PlayerView { spawning_location: location, ..before[i as int] },
        ));
    }

    /// Replaces the ball of player `i`.
    fn set_ball(&mut self, i: usize, ball: Option<Ball>)
        requires
            i < old(self).view().len(),
        ensures
            final(self).view() == old(self).view().update(
                i as int,
                PlayerView { ball: ball_view(ball), ..old(self).view()[i as int] },
            ),
    {
        let ghost before = self.view();
        let mut e = self.players[i];
        e.data.entity = ball;
        self.players[i] = e;
        assert(self.view() =~= before.update(
            i as int,
            PlayerView { ball: ball_view(ball), ..before[i as int] },
        ));
    }

    /// Gives the first players the fixed spawn slots, in registry order.
    pub fn assign_spawn_slots(&mut self)
        requires
            old(self).wf(),
        ensures
            final(self).wf(),
            final(self).view() == with_spawn_slots(old(self).view()),
    {
        let ghost before = self.view();
        let n = self.players.len();
        let mut i: usize = 0;
        while i < n && i < 2
            invariant
                n == before.len(),
                i <= n,
                self.view().len() == n,
                forall|k: int| 0 <= k < i ==> #[trigger] self.view()[k] == with_spawn_slots(before)[k],
                forall|k: int| i <= k < n ==> #[trigger] self.view()[k] == before[k],
            decreases n - i,
        {
            let location = if i == 0 { left_slot() } else { right_slot() };
            self.set_location(i, location);
            i = i + 1;
        }
        assert(self.view() =~= with_spawn_slots(before));
    }

    /// Drops every ball reference; returns the handles of the balls dropped,
    /// in registry order.
    pub fn clear_balls(&mut self) -> (r: Vec<u64>)
        requires
            old(self).wf(),
        ensures
            final(self).wf(),
            final(self).view() == without_balls(old(self).view()),
            r@ == live_handles(old(self).view()),
    {
        let ghost before = self.view();
        let n = self.players.len();
        let mut handles: Vec<u64> = Vec::new();
        let mut i: usize = 0;
        while i < n
            invariant
                n == before.len(),
                i <= n,
                self.view().len() == n,
                forall|k: int| 0 <= k < i ==> #[trigger] self.view()[k] == without_balls(before)[k],
                forall|k: int| i <= k < n ==> #[trigger] self.view()[k] == before[k],
                handles@ == live_handles(before.subrange(0, i as int)),
            decreases n - i,
        {
            proof {
                assert(before.subrange(0, i + 1).drop_last() =~= before.subrange(0, i as int));
            }
            let e = self.players[i];
            if let Some(b) = e.data.entity {
                handles.push(b.handle);
            }
            self.set_ball(i, None);
            i = i + 1;
        }
        assert(self.view() =~= without_balls(before));
        assert(before.subrange(0, n as int) =~= before);
        handles
    }

    /// Each player and its spawning location, in registry order.
    pub fn spawns(&self) -> (r: Vec<PlayerSpawn>)
        ensures
            r@ == spawns_of(self.view()),
    {
        let n = self.players.len();
        let mut r: Vec<PlayerSpawn> = Vec::new();
        let mut i: usize = 0;
        while i < n
            invariant
                n == self.view().len(),
                i <= n,
                r@ == spawns_of(self.view()).subrange(0, i as int),
            decreases n - i,
        {
            let e = self.players[i];
            r.push(PlayerSpawn { player_id: e.id, location: e.data.spawning_location });
            assert(r@ =~= spawns_of(self.view()).subrange(0, i + 1));
            i = i + 1;
        }
        assert(r@ =~= spawns_of(self.view()));
        r
    }

    /// Applies the inputs of one tick: each player with a ball takes its last
    /// input; inputs from unregistered identities are dropped. Returns the
    /// heaviness toggles, in registry order.
    pub fn apply_inputs(&mut self, events: &Vec<InputReceivedEvent>) -> (r: Vec<HeavinessReceivedEvent>)
        requires
            old(self).wf(),
        ensures
            final(self).wf(),
            final(self).view() == ingest(old(self).view(), events@),
            r@ == heaviness_changes(old(self).view(), events@),
    {
        let ghost before = self.view();
        let n = self.players.len();
        let mut changes: Vec<HeavinessReceivedEvent> = Vec::new();
        let mut i: usize = 0;
        while i < n
            invariant
                n == before.len(),
                i <= n,
                self.view().len() == n,
                forall|k: int| 0 <= k < i ==> #[trigger] self.view()[k] == ingest(before, events@)[k],
                forall|k: int| i <= k < n ==> #[trigger] self.view()[k] == before[k],
                changes@ == heaviness_changes(before.subrange(0, i as int), events@),
            decreases n - i,
        {
            proof {
                assert(before.subrange(0, i + 1).drop_last() =~= before.subrange(0, i as int));
            }
            let e = self.players[i];
            proof {
                assert(self.view()[i as int] == e.view());
                assert(before.subrange(0, i + 1).last() == before[i as int]);
            }
            if let Some(b) = e.data.entity {
                if let Some(input) = last_input_of(events, e.id) {
                    let mut nb = b;
                    nb.direction = input.direction;
                    if input.heavy != b.heavy.heaviness() {
                        changes.push(HeavinessReceivedEvent { origin: e.id, heaviness: input.heavy });
                    }
                    nb.heavy.set_heaviness(input.heavy);
                    self.set_ball(i, Some(nb));
                }
            }
            i = i + 1;
        }
        assert(self.view() =~= ingest(before, events@));
        assert(before.subrange(0, n as int) =~= before);
        changes
    }

    /// Advances the heaviness timer of every ball by `delta_nanos`.
    pub fn tick_timers(&mut self, delta_nanos: u64)
        requires
            old(self).wf(),
        ensures
            final(self).wf(),
            final(self).view() == ticked(old(self).view(), delta_nanos as nat),
    {
        let ghost before = self.view();
        let n = self.players.len();
        let mut i: usize = 0;
        while i < n
            invariant
                n == before.len(),
                i <= n,
                self.view().len() == n,
                forall|k: int| 0 <= k < i ==> #[trigger] self.view()[k] == ticked(before, delta_nanos as nat)[k],
                forall|k: int| i <= k < n ==> #[trigger] self.view()[k] == before[k],
            decreases n - i,
        {
            let e = self.players[i];
            if let Some(b) = e.data.entity {
                let mut nb = b;
                nb.heavy.tick(delta_nanos);
                self.set_ball(i, Some(nb));
            }
            i = i + 1;
        }
        assert(self.view() =~= ticked(before, delta_nanos as nat));
    }

    /// The replicated state of every live ball, in registry order.
    pub fn snapshot(&self) -> (r: NetworkedEntities)
        ensures
            r@ == snapshot_of(self.view()),
    {
        let n = self.players.len();
        let mut entities: Vec<EntityState> = Vec::new();
        let mut i: usize = 0;
        while i < n
            invariant
                n == self.view().len(),
                i <= n,
                entities@ == snapshot_of(self.view().subrange(0, i as int)),
            decreases n - i,
        {
            proof {
                assert(self.view().subrange(0, i + 1).drop_last() =~= self.view().subrange(0, i as int));
            }
            let e = self.players[i];
            if let Some(b) = e.data.entity {
                entities.push(
                    EntityState {
                        player_id: e.id,
                        position: b.position,
                        direction: b.direction,
                        heaviness: b.heavy.heaviness(),
                    },
                );
            }
            i = i + 1;
        }
        assert(self.view().subrange(0, n as int) =~= self.view());
        NetworkedEntities { entities }
    }

    /// The position of `id`'s entry, if `id` is registered and has a ball.
    fn find_ball(&self, id: u64) -> (r: Result<usize, StaleReference>)
        requires
            self.wf(),
        ensures
            r == Err::<usize, StaleReference>(StaleReference::UnknownPlayer) <==> !has_id(self.view(), id),
            r == Err::<usize, StaleReference>(StaleReference::NoBall) <==> has_id(self.view(), id)
                && self.view()[index_of(self.view(), id)].ball is None,
            r matches Ok(i) ==> i == index_of(self.view(), id) && has_id(self.view(), id)
                && self.view()[i as int].ball is Some,
    {
        match self.find(id) {
            None => Err(StaleReference::UnknownPlayer),
            Some(i) => {
                assert(self.view()[i as int] == self.players@[i as int].view());
                if self.players[i].data.entity.is_some() {
                    Ok(i)
                } else {
                    Err(StaleReference::NoBall)
                }
            },
        }
    }

    /// Gives player `id` a fresh ball with local handle `handle`, at its
    /// spawning location, still and light.
    pub fn attach_ball(&mut self, id: u64, handle: u64) -> (r: Result<(), AttachError>)
        requires
            old(self).wf(),
        ensures
            final(self).wf(),
            r == Err::<(), AttachError>(AttachError::UnknownPlayer) <==> !has_id(old(self).view(), id),
            r == Err::<(), AttachError>(AttachError::AlreadyAttached) <==> has_id(old(self).view(), id)
                && old(self).view()[index_of(old(self).view(), id)].ball is Some,
            r is Err ==> final(self).view() == old(self).view(),
            r is Ok ==> {
                let i = index_of(old(self).view(), id);
                let p = old(self).view()[i];
                final(self).view() == old(self).view().update(i, PlayerView { ball: Some(fresh_ball(handle, p.spawning_location)), ..p })
            },
    {
        match self.find(id) {
            None => Err(AttachError::UnknownPlayer),
            Some(i) => {
                let e = self.players[i];
                assert(self.view()[i as int] == e.view());
                if e.data.entity.is_some() {
                    Err(AttachError::AlreadyAttached)
                } else {
                    let ball = Ball {
                        handle,
                        position: e.data.spawning_location,
                        direction: DirectionVector(WireVec2::zero()),
                        heavy: Heavy::new(),
                    };
                    self.set_ball(i, Some(ball));
                    assert(ball@ == fresh_ball(handle, e.data.spawning_location));
                    Ok(())
                }
            },
        }
    }

    /// Records where the simulation put player `id`'s ball.
    pub fn set_position(&mut self, id: u64, position: WireVec2) -> (r: Result<(), StaleReference>)
        requires
            old(self).wf(),
        ensures
            final(self).wf(),
            r == Err::<(), StaleReference>(StaleReference::UnknownPlayer) <==> !has_id(old(self).view(), id),
            r == Err::<(), StaleReference>(StaleReference::NoBall) <==> has_id(old(self).view(), id)
                && old(self).view()[index_of(old(self).view(), id)].ball is None,
            r is Err ==> final(self).view() == old(self).view(),
            r is Ok ==> {
                let i = index_of(old(self).view(), id);
                let p = old(self).view()[i];
                final(self).view() == old(self).view().update(i, PlayerView { ball: Some(BallView { position, ..p.ball->Some_0 }), ..p })
            },
    {
        let i = self.find_ball(id)?;
        let e = self.players[i];
        assert(self.view()[i as int] == e.view());
        let mut b = e.data.entity.unwrap();
        b.position = position;
        self.set_ball(i, Some(b));
        Ok(())
    }

    /// Sets the heaviness flag of player `id`'s ball.
    pub fn set_heaviness(&mut self, id: u64, heaviness: bool) -> (r: Result<(), StaleReference>)
        requires
            old(self).wf(),
        ensures
            final(self).wf(),
            r == Err::<(), StaleReference>(StaleReference::UnknownPlayer) <==> !has_id(old(self).view(), id),
            r == Err::<(), StaleReference>(StaleReference::NoBall) <==> has_id(old(self).view(), id)
                && old(self).view()[index_of(old(self).view(), id)].ball is None,
            r is Err ==> final(self).view() == old(self).view(),
            r is Ok ==> {
                let i = index_of(old(self).view(), id);
                let p = old(self).view()[i];
                let b = p.ball->Some_0;
                final(self).view() == old(self).view().update(i, PlayerView { ball: Some(BallView { heavy: HeavyView { heaviness, elapsed: b.heavy.elapsed }, ..b }), ..p })
            },
    {
        let i = self.find_ball(id)?;
        let e = self.players[i];
        assert(self.view()[i as int] == e.view());
        let mut b = e.data.entity.unwrap();
        b.heavy.set_heaviness(heaviness);
        self.set_ball(i, Some(b));
        Ok(())
    }

    /// A registry of the players of `spawns`, each at its location and
    /// without a ball; of two entries with one identity the first counts.
    pub fn from_spawns(spawns: &Vec<PlayerSpawn>) -> (r: Lobby)
        ensures
            r.wf(),
            r.view() == registry_of(spawns@),
    {
        let mut r = Lobby::new();
        let mut i: usize = 0;
        while i < spawns.len()
            invariant
                i <= spawns@.len(),
                r.wf(),
                r.view() == registry_of(spawns@.subrange(0, i as int)),
            decreases spawns@.len() - i,
        {
            proof {
                assert(spawns@.subrange(0, i + 1).drop_last() =~= spawns@.subrange(0, i as int));
            }
            let sp = spawns[i];
            if r.connect(sp.player_id).is_ok() {
                let last = r.len() - 1;
                r.set_location(last, sp.location);
                proof {
                    let v = r.view();
                    assert forall|a: int, b: int| 0 <= a < v.len() && 0 <= b < v.len() && v[a].id == v[b].id implies a == b by {
                        if a != last && b != last {
                            assert(v[a].id == registry_of(spawns@.subrange(0, i as int))[a].id);
                        }
                    }
                }
            }
            i = i + 1;
        }
        assert(spawns@.subrange(0, i as int) =~= spawns@);
        r
    }

    /// Applies one snapshot from the server: each player with a ball takes
    /// the last entry that names it; entries naming no such player are
    /// ignored.
    pub fn apply_snapshot(&mut self, entities: &Vec<EntityState>)
        requires
            old(self).wf(),
        ensures
            final(self).wf(),
            final(self).view() == mirror(old(self).view(), entities@),
    {
        let ghost before = self.view();
        let n = self.players.len();
        let mut i: usize = 0;
        while i < n
            invariant
                n == before.len(),
                i <= n,
                self.view().len() == n,
                forall|k: int| 0 <= k < i ==> #[trigger] self.view()[k] == mirror(before, entities@)[k],
                forall|k: int| i <= k < n ==> #[trigger] self.view()[k] == before[k],
            decreases n - i,
        {
            let e = self.players[i];
            assert(self.view()[i as int] == e.view());
            if let Some(b) = e.data.entity {
                if let Some(st) = last_entry_of(entities, e.id) {
                    let mut nb = b;
                    nb.position = st.position;
                    nb.direction = st.direction;
                    nb.heavy.set_heaviness(st.heaviness);
                    self.set_ball(i, Some(nb));
                }
            }
            i = i + 1;
        }
        assert(self.view() =~= mirror(before, entities@));
    }
}

/// Location of the first spawn slot: (-100, 0).
pub open spec fn left_location() -> WireVec2 {
    WireVec2 { x_bits: 0xC2C8_0000, y_bits: 0 }
}

/// Location of the second spawn slot: (100, 0).
pub open spec fn right_location() -> WireVec2 {
    WireVec2 { x_bits: 0x42C8_0000, y_bits: 0 }
}

fn left_slot() -> (r: WireVec2)
    ensures
        r == left_location(),
{
    WireVec2 { x_bits: 0xC2C8_0000, y_bits: 0 }
}

fn right_slot() -> (r: WireVec2)
    ensures
        r == right_location(),
{
    WireVec2 { x_bits: 0x42C8_0000, y_bits: 0 }
}

/// The first two players take the two slots; any further player keeps its
/// location.
pub open spec fn with_spawn_slots(s: Seq<PlayerView>) -> Seq<PlayerView> {
    Seq::new(
        s.len(),
        |k: int|
            if k == 0 {
                PlayerView { spawning_location: left_location(), ..s[k] }
            } else if k == 1 {
                PlayerView { spawning_location: right_location(), ..s[k] }
            } else {
                s[k]
            },
    )
}

pub open spec fn without_balls(s: Seq<PlayerView>) -> Seq<PlayerView> {
    Seq::new(s.len(), |k: int| PlayerView { ball: None, ..s[k] })
}

pub open spec fn spawns_of(s: Seq<PlayerView>) -> Seq<PlayerSpawn> {
    Seq::new(
        s.len(),
        |k: int| PlayerSpawn { player_id: s[k].id, location: s[k].spawning_location },
    )
}

/// The handles of the live balls, in registry order.
pub open spec fn live_handles(s: Seq<PlayerView>) -> Seq<u64>
    decreases s.len(),
{
    if s.len() == 0 {
        Seq::empty()
    } else {
        live_handles(s.drop_last()) + match s.last().ball {
            Some(b) => seq![b.handle],
            None => Seq::empty(),
        }
    }
}

/// The last input of `events` that came from `id`.
pub open spec fn last_input(events: Seq<InputReceivedEvent>, id: u64) -> Option<PlayerInput>
    decreases events.len(),
{
    if events.len() == 0 {
        None
    } else if events.last().origin == id {
        Some(events.last().input)
    } else {
        last_input(events.drop_last(), id)
    }
}

/// A ball after taking an input: the direction and the flag are overwritten.
pub open spec fn ball_with_input(b: BallView, i: PlayerInput) -> BallView {
    BallView {
        direction: i.direction,
        heavy: HeavyView { heaviness: i.heavy, elapsed: b.heavy.elapsed },
        ..b
    }
}

/// A player after the inputs of one tick: only its last input counts, and
/// only if it has a ball.
pub open spec fn with_input(p: PlayerView, events: Seq<InputReceivedEvent>) -> PlayerView {
    match p.ball {
        Some(b) => match last_input(events, p.id) {
            Some(i) => PlayerView { ball: Some(ball_with_input(b, i)), ..p },
            None => p,
        },
        None => p,
    }
}

/// The registry after the inputs of one tick.
pub open spec fn ingest(s: Seq<PlayerView>, events: Seq<InputReceivedEvent>) -> Seq<PlayerView> {
    Seq::new(s.len(), |k: int| with_input(s[k], events))
}

/// Whether the inputs of one tick toggle the heaviness of player `p`'s ball.
pub open spec fn toggles(p: PlayerView, events: Seq<InputReceivedEvent>) -> bool {
    &&& p.ball is Some
    &&& last_input(events, p.id) is Some
    &&& last_input(events, p.id)->Some_0.heavy != p.ball->Some_0.heavy.heaviness
}

/// The heaviness changes that the inputs of one tick cause, in registry order.
pub open spec fn heaviness_changes(s: Seq<PlayerView>, events: Seq<InputReceivedEvent>) -> Seq<
    HeavinessReceivedEvent,
>
    decreases s.len(),
{
    if s.len() == 0 {
        Seq::empty()
    } else {
        heaviness_changes(s.drop_last(), events) + if toggles(s.last(), events) {
            seq![
                HeavinessReceivedEvent {
                    origin: s.last().id,
                    heaviness: last_input(events, s.last().id)->Some_0.heavy,
                },
            ]
        } else {
            Seq::empty()
        }
    }
}

/// Every ball's timer after a tick of `delta` nanoseconds.
pub open spec fn ticked(s: Seq<PlayerView>, delta: nat) -> Seq<PlayerView> {
    Seq::new(
        s.len(),
        |k: int|
            match s[k].ball {
                Some(b) => PlayerView {
                    ball: Some(
                        BallView {
                            heavy: HeavyView {
                                heaviness: b.heavy.heaviness,
                                elapsed: timer_step(b.heavy.elapsed, b.heavy.heaviness, delta),
                            },
                            ..b
                        },
                    ),
                    ..s[k]
                },
                None => s[k],
            },
    )
}

/// The replicated state of each live ball, in registry order.
pub open spec fn snapshot_of(s: Seq<PlayerView>) -> Seq<EntityState>
    decreases s.len(),
{
    if s.len() == 0 {
        Seq::empty()
    } else {
        snapshot_of(s.drop_last()) + match s.last().ball {
            Some(b) => seq![
                EntityState {
                    player_id: s.last().id,
                    position: b.position,
                    direction: b.direction,
                    heaviness: b.heavy.heaviness,
                },
            ],
            None => Seq::empty(),
        }
    }
}

fn last_input_of(events: &Vec<InputReceivedEvent>, id: u64) -> (r: Option<PlayerInput>)
    ensures
        r == last_input(events@, id),
{
    let mut j: usize = events.len();
    assert(events@.subrange(0, j as int) =~= events@);
    while j > 0
        invariant
            j <= events@.len(),
            last_input(events@, id) == last_input(events@.subrange(0, j as int), id),
        decreases j,
    {
        proof {
            assert(events@.subrange(0, j as int).drop_last() =~= events@.subrange(0, j - 1));
        }
        if events[j - 1].origin == id {
            return Some(events[j - 1].input);
        }
        j = j - 1;
    }
    None
}

/// A ball just attached: at `location`, still, light, its timer at rest.
pub open spec fn fresh_ball(handle: u64, location: WireVec2) -> BallView {
    BallView {
        handle,
        position: location,
        direction: DirectionVector(WireVec2 { x_bits: 0, y_bits: 0 }),
        heavy: HeavyView { heaviness: false, elapsed: 0 },
    }
}

/// The registry that a list of spawns describes; the first entry of an
/// identity counts.
pub open spec fn registry_of(s: Seq<PlayerSpawn>) -> Seq<PlayerView>
    decreases s.len(),
{
    if s.len() == 0 {
        Seq::empty()
    } else {
        let prev = registry_of(s.drop_last());
        if has_id(prev, s.last().player_id) {
            prev
        } else {
            prev.push(
                PlayerView { id: s.last().player_id, spawning_location: s.last().location, ball: None },
            )
        }
    }
}

/// The last entry of `entities` that names `id`.
pub open spec fn last_entry(entities: Seq<EntityState>, id: u64) -> Option<EntityState>
    decreases entities.len(),
{
    if entities.len() == 0 {
        None
    } else if entities.last().player_id == id {
        Some(entities.last())
    } else {
        last_entry(entities.drop_last(), id)
    }
}

/// A player's ball after a snapshot: position, direction and flag are the
/// server's.
pub open spec fn with_entry(p: PlayerView, entities: Seq<EntityState>) -> PlayerView {
    match p.ball {
        Some(b) => match last_entry(entities, p.id) {
            Some(e) => PlayerView {
                ball: Some(
                    BallView {
                        position: e.position,
                        direction: e.direction,
                        heavy: HeavyView { heaviness: e.heaviness, elapsed: b.heavy.elapsed },
                        ..b
                    },
                ),
                ..p
            },
            None => p,
        },
        None => p,
    }
}

/// The registry after a snapshot.
pub open spec fn mirror(s: Seq<PlayerView>, entities: Seq<EntityState>) -> Seq<PlayerView> {
    Seq::new(s.len(), |k: int| with_entry(s[k], entities))
}

fn last_entry_of(entities: &Vec<EntityState>, id: u64) -> (r: Option<EntityState>)
    ensures
        r == last_entry(entities@, id),
{
    let mut j: usize = entities.len();
    assert(entities@.subrange(0, j as int) =~= entities@);
    while j > 0
        invariant
            j <= entities@.len(),
            last_entry(entities@, id) == last_entry(entities@.subrange(0, j as int), id),
        decreases j,
    {
        proof {
            assert(entities@.subrange(0, j as int).drop_last() =~= entities@.subrange(0, j - 1));
        }
        if entities[j - 1].player_id == id {
            return Some(entities[j - 1]);
        }
        j = j - 1;
    }
    None
}

/// A snapshot names exactly the players that have a live ball: no more, no
/// fewer.
pub proof fn lemma_snapshot_complete(s: Seq<PlayerView>, id: u64)
    ensures
        (exists|k: int| 0 <= k < snapshot_of(s).len() && (#[trigger] snapshot_of(s)[k]).player_id == id)
            <==> (exists|i: int| 0 <= i < s.len() && (#[trigger] s[i]).id == id && s[i].ball is Some),
    decreases s.len(),
{
    if s.len() > 0 {
        let prev = s.drop_last();
        lemma_snapshot_complete(prev, id);
        let sp = snapshot_of(prev);
        let n = s.len() - 1;
        if exists|k: int| 0 <= k < snapshot_of(s).len() && (#[trigger] snapshot_of(s)[k]).player_id == id {
            let k = choose|k: int| 0 <= k < snapshot_of(s).len() && (#[trigger] snapshot_of(s)[k]).player_id == id;
            if k < sp.len() {
                assert(snapshot_of(s)[k] == sp[k]);
                let i = choose|i: int| 0 <= i < prev.len() && (#[trigger] prev[i]).id == id && prev[i].ball is Some;
                assert(s[i] == prev[i]);
            } else {
                assert(s[n].id == id && s[n].ball is Some);
            }
        }
        if exists|i: int| 0 <= i < s.len() && (#[trigger] s[i]).id == id && s[i].ball is Some {
            let i = choose|i: int| 0 <= i < s.len() && (#[trigger] s[i]).id == id && s[i].ball is Some;
            if i < n {
                assert(prev[i] == s[i]);
                let k = choose|k: int| 0 <= k < sp.len() && (#[trigger] sp[k]).player_id == id;
                assert(snapshot_of(s)[k] == sp[k]);
            } else {
                assert(snapshot_of(s)[sp.len() as int].player_id == id);
            }
        }
    }
}

proof fn lemma_changes_congruent(
    s: Seq<PlayerView>,
    a: Seq<InputReceivedEvent>,
    b: Seq<InputReceivedEvent>,
)
    requires
        forall|k: int| 0 <= k < s.len() ==> last_input(a, (#[trigger] s[k]).id) == last_input(b, s[k].id),
    ensures
        heaviness_changes(s, a) == heaviness_changes(s, b),
    decreases s.len(),
{
    if s.len() > 0 {
        let prev = s.drop_last();
        assert forall|k: int| 0 <= k < prev.len() implies last_input(a, (#[trigger] prev[k]).id) == last_input(b, prev[k].id) by {
            assert(prev[k] == s[k]);
        }
        lemma_changes_congruent(prev, a, b);
        assert(last_input(a, s.last().id) == last_input(b, s.last().id));
    }
}

/// An input from an identity that is not registered is dropped: it changes
/// no ball and causes no broadcast, whatever else arrived in the tick.
pub proof fn lemma_stale_input_dropped(
    s: Seq<PlayerView>,
    events: Seq<InputReceivedEvent>,
    e: InputReceivedEvent,
)
    requires
        !has_id(s, e.origin),
    ensures
        ingest(s, events.push(e)) == ingest(s, events),
        heaviness_changes(s, events.push(e)) == heaviness_changes(s, events),
        ingest(s, seq![e]) == s,
{
    assert forall|k: int| 0 <= k < s.len() implies last_input(events.push(e), (#[trigger] s[k]).id)
        == last_input(events, s[k].id) by {
        assert(s[k].id != e.origin);
        assert(events.push(e).drop_last() =~= events);
    }
    lemma_changes_congruent(s, events.push(e), events);
    assert(ingest(s, events.push(e)) =~= ingest(s, events));
    assert forall|k: int| 0 <= k < s.len() implies #[trigger] ingest(s, seq![e])[k] == s[k] by {
        assert(s[k].id != e.origin);
        assert(seq![e].drop_last() =~= Seq::<InputReceivedEvent>::empty());
        assert(last_input(Seq::<InputReceivedEvent>::empty(), s[k].id) is None);
        assert(last_input(seq![e], s[k].id) is None);
    }
    assert(ingest(s, seq![e]) =~= s);
}

/// Of the inputs of one tick, a player's ball follows the last one it sent:
/// an earlier one is superseded.
pub proof fn lemma_last_input_wins(
    s: Seq<PlayerView>,
    events: Seq<InputReceivedEvent>,
    y: InputReceivedEvent,
    i: int,
)
    requires
        0 <= i < s.len(),
        s[i].id == y.origin,
        s[i].ball is Some,
    ensures
        ingest(s, events.push(y))[i].ball is Some,
        ingest(s, events.push(y))[i].ball->Some_0.direction == y.input.direction,
        ingest(s, events.push(y))[i].ball->Some_0.heavy.heaviness == y.input.heavy,
{
    assert(last_input(events.push(y), y.origin) == Some(y.input));
}

} // verus!
