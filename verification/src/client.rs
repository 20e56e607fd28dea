//! The client's side: its mirror of the lobby and the reconciliation of
//! what the server sends against it.

use std::collections::HashMap;
use vstd::prelude::*;
use vstd::relations::injective_on;
use vstd::set_lib::lemma_map_size;
use crate::codec::{
    decode_server_message, decode_snapshot, spec_decode_server_message, spec_decode_snapshot,
};
use crate::identity::NetworkMapping;
use crate::message::{
    LocalEntityId, NetworkedEntities, PlayerId, ServerEntityId, ServerMessage, SnapshotView,
    Translation,
};
use crate::wire::DecodeError;

verus! {

broadcast use vstd::std_specs::hash::group_hash_axioms;

/// What a client knows of one player: the handle of the avatar's picture in
/// its own world and the avatar's handle on the server.
#[derive(Debug, Clone, Copy, PartialEq, Eq, Structural)]
pub struct PlayerInfo {
    pub client_entity: LocalEntityId,
    pub server_entity: ServerEntityId,
}

/// The client's mirror of the lobby. It lags the server's by the messages
/// still in flight.
#[derive(Debug)]
pub struct ClientLobby {
    players: HashMap<PlayerId, PlayerInfo>,
}

impl View for ClientLobby {
    type V = Map<PlayerId, PlayerInfo>;

    closed spec fn view(&self) -> Map<PlayerId, PlayerInfo> {
        self.players@
    }
}

impl ClientLobby {
    /// The lobby without players.
    pub fn new() -> (lobby: ClientLobby)
        ensures
            lobby@ == Map::<PlayerId, PlayerInfo>::empty(),
    {
        ClientLobby { players: HashMap::new() }
    }

    /// The number of players known.
    pub fn len(&self) -> (n: usize)
        ensures
            n == self@.len(),
            self@.dom().finite(),
    {
        self.players.len()
    }

    /// Whether player `id` is known.
    pub fn contains(&self, id: PlayerId) -> (b: bool)
        ensures
            b == self@.contains_key(id),
    {
        self.players.contains_key(&id)
    }

    /// What is known of player `id`.
    pub fn get(&self, id: PlayerId) -> (info: Option<PlayerInfo>)
        ensures
            info == (if self@.contains_key(id) {
                Some(self@[id])
            } else {
                None
            }),
    {
        match self.players.get(&id) {
            Some(info) => Some(*info),
            None => None,
        }
    }

    /// Records player `id`, and returns what was recorded of it before.
    pub fn insert(&mut self, id: PlayerId, info: PlayerInfo) -> (previous: Option<PlayerInfo>)
        ensures
            final(self)@ == old(self)@.insert(id, info),
            previous == (if old(self)@.contains_key(id) {
                Some(old(self)@[id])
            } else {
                None
            }),
    {
        self.players.insert(id, info)
    }

    /// Forgets player `id`, and returns what was recorded of it.
    pub fn remove(&mut self, id: PlayerId) -> (removed: Option<PlayerInfo>)
        ensures
            final(self)@ == old(self)@.remove(id),
            removed == (if old(self)@.contains_key(id) {
                Some(old(self)@[id])
            } else {
                None
            }),
    {
        self.players.remove(&id)
    }
}

impl Default for ClientLobby {
    fn default() -> (lobby: ClientLobby)
        ensures
            lobby@ == Map::<PlayerId, PlayerInfo>::empty(),
    {
        ClientLobby::new()
    }
}

/// What the client's world is asked to do.
#[derive(Debug, Clone, Copy, PartialEq, Eq, Structural)]
pub enum ClientAction {
    /// Create the picture of player `id`'s avatar at `translation`, and
    /// report its handle with [`ClientSession::spawned`]. `controlled` says
    /// that the avatar is this client's own.
    Spawn { id: PlayerId, server_entity: ServerEntityId, translation: Translation, controlled: bool },
    /// Destroy the picture with this handle.
    Despawn { client_entity: LocalEntityId },
    /// Place the picture with this handle at `translation`.
    Move { client_entity: LocalEntityId, translation: Translation },
}

/// The state of one client's session, as mathematics.
pub struct SessionView {
    /// This client's own id.
    pub client_id: PlayerId,
    /// The mirror of the lobby.
    pub players: Map<PlayerId, PlayerInfo>,
    /// The identity map.
    pub mapping: Map<ServerEntityId, LocalEntityId>,
}

impl SessionView {
    /// A session that knows nobody yet.
    pub open spec fn fresh(client_id: PlayerId) -> SessionView {
        SessionView { client_id, players: Map::empty(), mapping: Map::empty() }
    }

    /// Some known player accounts for the identity-map entry of `server`.
    pub open spec fn accounted(self, server: ServerEntityId) -> bool {
        exists|id: PlayerId| #[trigger]
            self.players.contains_key(id) && self.players[id] == (PlayerInfo {
                client_entity: self.mapping[server],
                server_entity: server,
            })
    }

    /// No entry of the identity map dangles: each belongs to a known player.
    pub open spec fn wf(self) -> bool {
        forall|server: ServerEntityId| #[trigger]
            self.mapping.contains_key(server) ==> self.accounted(server)
    }

    /// The identity map and the lobby tell the same story: no entry
    /// dangles, the avatar of every known player has its entry, which names
    /// the player's picture, and no two players share an avatar.
    pub open spec fn faithful(self) -> bool {
        &&& self.wf()
        &&& forall|id: PlayerId| #[trigger]
            self.players.contains_key(id) ==> self.mapping.contains_key(
                self.players[id].server_entity,
            ) && self.mapping[self.players[id].server_entity] == self.players[id].client_entity
        &&& forall|a: PlayerId, b: PlayerId|
            #[trigger] self.players.contains_key(a) && #[trigger] self.players.contains_key(b)
                && self.players[a].server_entity == self.players[b].server_entity ==> a == b
    }

    /// The session after a control message, and what the world is asked to
    /// do about it.
    ///
    /// A create for a known player changes nothing. A create for a new one
    /// asks for a picture and changes nothing yet. A remove of a known player
    /// erases the player and the identity-map entry of its avatar, and asks
    /// for the picture to be destroyed. A remove of an unknown player changes
    /// nothing.
    pub open spec fn receive(self, message: ServerMessage) -> (SessionView, Option<ClientAction>) {
        match message {
            ServerMessage::PlayerCreate { entity, id, translation } => {
                if self.players.contains_key(id) {
                    (self, None)
                } else {
                    (
                        self,
                        Some(
                            ClientAction::Spawn {
                                id,
                                server_entity: entity,
                                translation,
                                controlled: id == self.client_id,
                            },
                        ),
                    )
                }
            },
            ServerMessage::PlayerRemove { id } => self.forget(id),
            ServerMessage::ClientDisconnected { client_id } => self.forget(client_id),
        }
    }

    /// The session after player `id` has gone.
    pub open spec fn forget(self, id: PlayerId) -> (SessionView, Option<ClientAction>) {
        if self.players.contains_key(id) {
            let info = self.players[id];
            (
                SessionView {
                    client_id: self.client_id,
                    players: self.players.remove(id),
                    mapping: self.mapping.remove(info.server_entity),
                },
                Some(ClientAction::Despawn { client_entity: info.client_entity }),
            )
        } else {
            (self, None)
        }
    }

    /// The session after the world has made the picture `client_entity` for
    /// player `id`. If the player is known by now, the picture is surplus and
    /// is to be destroyed again.
    pub open spec fn spawned(
        self,
        id: PlayerId,
        server_entity: ServerEntityId,
        client_entity: LocalEntityId,
    ) -> (SessionView, Option<ClientAction>) {
        if self.players.contains_key(id) {
            (self, Some(ClientAction::Despawn { client_entity }))
        } else {
            (
                SessionView {
                    client_id: self.client_id,
                    players: self.players.insert(id, PlayerInfo { client_entity, server_entity }),
                    mapping: self.mapping.insert(server_entity, client_entity),
                },
                None,
            )
        }
    }

    /// The moves that the first `n` rows of a snapshot ask for, in the
    /// snapshot's order: one for each row whose entity the identity map
    /// knows. Rows with an unknown entity, and rows that lack a position, ask
    /// for nothing.
    pub open spec fn moves(self, snapshot: SnapshotView, n: nat) -> Seq<ClientAction>
        decreases n,
    {
        if n == 0 {
            Seq::empty()
        } else {
            let i = n - 1;
            let before = self.moves(snapshot, i as nat);
            if i < snapshot.entities.len() && i < snapshot.translations.len()
                && self.mapping.contains_key(snapshot.entities[i]) {
                before.push(
                    ClientAction::Move {
                        client_entity: self.mapping[snapshot.entities[i]],
                        translation: snapshot.translations[i],
                    },
                )
            } else {
                before
            }
        }
    }

    /// The moves that a whole snapshot asks for.
    pub open spec fn sync(self, snapshot: SnapshotView) -> Seq<ClientAction> {
        self.moves(snapshot, snapshot.entities.len())
    }

    /// The moves that a payload of the snapshot channel asks for, if it is
    /// a snapshot.
    pub open spec fn sync_payload(self, payload: Seq<u8>) -> Result<Seq<ClientAction>, DecodeError> {
        match spec_decode_snapshot(payload) {
            Ok(snapshot) => Ok(self.sync(snapshot)),
            Err(e) => Err(e),
        }
    }
}

/// One client's session: its own id, its mirror of the lobby and its
/// identity map, owned together and changed only by the functions here.
#[derive(Debug)]
pub struct ClientSession {
    client_id: PlayerId,
    lobby: ClientLobby,
    network_mapping: NetworkMapping,
}

impl View for ClientSession {
    type V = SessionView;

    closed spec fn view(&self) -> SessionView {
        SessionView {
            client_id: self.client_id,
            players: self.lobby@,
            mapping: self.network_mapping@,
        }
    }
}

impl ClientSession {
    /// A session for the client with this id, knowing nobody yet.
    pub fn new(client_id: PlayerId) -> (session: ClientSession)
        ensures
            session@ == SessionView::fresh(client_id),
            session@.faithful(),
    {
        ClientSession { client_id, lobby: ClientLobby::new(), network_mapping: NetworkMapping::new() }
    }

    /// This client's own id.
    pub fn client_id(&self) -> (id: PlayerId)
        ensures
            id == self@.client_id,
    {
        self.client_id
    }

    /// The mirror of the lobby.
    pub fn lobby(&self) -> (lobby: &ClientLobby)
        ensures
            lobby@ == self@.players,
    {
        &self.lobby
    }

    /// The identity map.
    pub fn network_mapping(&self) -> (mapping: &NetworkMapping)
        ensures
            mapping@ == self@.mapping,
    {
        &self.network_mapping
    }

    /// Takes one control message, in the order of arrival.
    pub fn receive(&mut self, message: ServerMessage) -> (action: Option<ClientAction>)
        ensures
            (final(self)@, action) == old(self)@.receive(message),
            old(self)@.wf() ==> final(self)@.wf(),
            old(self)@.faithful() ==> final(self)@.faithful(),
    {
        proof {
            if self@.wf() {
                lemma_receive_keeps_wf(self@, message);
            }
            if self@.faithful() {
                lemma_receive_keeps_faithful(self@, message);
            }
        }
        match message {
            ServerMessage::PlayerCreate { entity, id, translation } => {
                if self.lobby.contains(id) {
                    None
                } else {
                    Some(
                        ClientAction::Spawn {
                            id,
                            server_entity: entity,
                            translation,
                            controlled: id == self.client_id,
                        },
                    )
                }
            },
            ServerMessage::PlayerRemove { id } => self.forget(id),
            ServerMessage::ClientDisconnected { client_id } => self.forget(client_id),
        }
    }

    /// Erases player `id` and the identity-map entry of its avatar.
    fn forget(&mut self, id: PlayerId) -> (action: Option<ClientAction>)
        ensures
            (final(self)@, action) == old(self)@.forget(id),
    {
        match self.lobby.remove(id) {
            Some(info) => {
                self.network_mapping.remove(info.server_entity);
                Some(ClientAction::Despawn { client_entity: info.client_entity })
            },
            None => {
                assert(self.lobby@ =~= old(self).lobby@);
                None
            },
        }
    }

    /// Takes the handle of the picture that the world made for a
    /// [`ClientAction::Spawn`].
    pub fn spawned(
        &mut self,
        id: PlayerId,
        server_entity: ServerEntityId,
        client_entity: LocalEntityId,
    ) -> (action: Option<ClientAction>)
        ensures
            (final(self)@, action) == old(self)@.spawned(id, server_entity, client_entity),
            old(self)@.wf() ==> final(self)@.wf(),
            old(self)@.faithful() && !old(self)@.mapping.contains_key(server_entity)
                ==> final(self)@.faithful(),
    {
        proof {
            if self@.wf() {
                lemma_spawned_keeps_wf(self@, id, server_entity, client_entity);
            }
            if self@.faithful() && !self@.mapping.contains_key(server_entity) {
                lemma_spawned_keeps_faithful(self@, id, server_entity, client_entity);
            }
        }
        if self.lobby.contains(id) {
            Some(ClientAction::Despawn { client_entity })
        } else {
            self.lobby.insert(id, PlayerInfo { client_entity, server_entity });
            self.network_mapping.insert(server_entity, client_entity);
            None
        }
    }

    /// Turns one snapshot into the moves it asks for. The session does not
    /// change.
    pub fn sync(&self, snapshot: &NetworkedEntities) -> (actions: Vec<ClientAction>)
        ensures
            actions@ == self@.sync(snapshot@),
    {
        let mut actions: Vec<ClientAction> = Vec::new();
        let mut i: usize = 0;
        while i < snapshot.entities.len()
            invariant
                i <= snapshot.entities.len(),
                actions@ == self@.moves(snapshot@, i as nat),
            decreases snapshot.entities.len() - i,
        {
            if i < snapshot.translations.len() {
                match self.network_mapping.get(snapshot.entities[i]) {
                    Some(client_entity) => {
                        actions.push(
                            ClientAction::Move {
                                client_entity,
                                translation: snapshot.translations[i],
                            },
                        );
                    },
                    None => {},
                }
            }
            i = i + 1;
        }
        actions
    }

    /// Takes one payload of the control channel. A payload that is no
    /// message is refused, and the session stays as it was.
    pub fn receive_payload(&mut self, payload: &[u8]) -> (action: Result<
        Option<ClientAction>,
        DecodeError,
    >)
        ensures
            (match action {
                Ok(action) => spec_decode_server_message(payload@) matches Ok(message) && (
                    final(self)@,
                    action,
                ) == old(self)@.receive(message),
                Err(e) => spec_decode_server_message(payload@) == Err::<ServerMessage, DecodeError>(
                    e,
                ) && final(self)@ == old(self)@,
            }),
            old(self)@.wf() ==> final(self)@.wf(),
            old(self)@.faithful() ==> final(self)@.faithful(),
    {
        match decode_server_message(payload) {
            Ok(message) => Ok(self.receive(message)),
            Err(e) => Err(e),
        }
    }

    /// Turns the payloads that the snapshot channel delivered since the last
    /// tick, oldest first, into moves. Only the most recent counts: the
    /// stale ones are dropped unread. A payload that is no snapshot is
    /// refused and moves nothing.
    pub fn sync_pending(&self, payloads: &Vec<Vec<u8>>) -> (actions: Result<
        Vec<ClientAction>,
        DecodeError,
    >)
        ensures
            payloads@.len() == 0 ==> (actions matches Ok(moves) && moves@.len() == 0),
            payloads@.len() > 0 ==> (match actions {
                Ok(moves) => self@.sync_payload(payloads@.last()@) == Ok::<
                    Seq<ClientAction>,
                    DecodeError,
                >(moves@),
                Err(e) => self@.sync_payload(payloads@.last()@) == Err::<
                    Seq<ClientAction>,
                    DecodeError,
                >(e),
            }),
    {
        if payloads.len() == 0 {
            return Ok(Vec::new());
        }
        match decode_snapshot(payloads[payloads.len() - 1].as_slice()) {
            Ok(snapshot) => Ok(self.sync(&snapshot)),
            Err(e) => Err(e),
        }
    }
}

/// A control message leaves no entry of the identity map dangling.
pub proof fn lemma_receive_keeps_wf(session: SessionView, message: ServerMessage)
    requires
        session.wf(),
    ensures
        session.receive(message).0.wf(),
{
    match message {
        ServerMessage::PlayerCreate { .. } => {},
        ServerMessage::PlayerRemove { id } => lemma_forget_keeps_wf(session, id),
        ServerMessage::ClientDisconnected { client_id } => lemma_forget_keeps_wf(session, client_id),
    }
}

proof fn lemma_forget_keeps_wf(session: SessionView, id: PlayerId)
    requires
        session.wf(),
    ensures
        session.forget(id).0.wf(),
{
    let after = session.forget(id).0;
    if session.players.contains_key(id) {
        assert forall|server: ServerEntityId| #[trigger]
            after.mapping.contains_key(server) implies after.accounted(server) by {
            assert(session.mapping.contains_key(server));
            assert(session.accounted(server));
            let owner = choose|p: PlayerId| #[trigger]
                session.players.contains_key(p) && session.players[p] == (PlayerInfo {
                    client_entity: session.mapping[server],
                    server_entity: server,
                });
            assert(owner != id);
            assert(after.players.contains_key(owner));
        }
    }
}

/// A registered picture leaves no entry of the identity map dangling.
pub proof fn lemma_spawned_keeps_wf(
    session: SessionView,
    id: PlayerId,
    server_entity: ServerEntityId,
    client_entity: LocalEntityId,
)
    requires
        session.wf(),
    ensures
        session.spawned(id, server_entity, client_entity).0.wf(),
{
    let after = session.spawned(id, server_entity, client_entity).0;
    if !session.players.contains_key(id) {
        assert forall|server: ServerEntityId| #[trigger]
            after.mapping.contains_key(server) implies after.accounted(server) by {
            if server == server_entity {
                assert(after.players.contains_key(id));
            } else {
                assert(session.accounted(server));
                let owner = choose|p: PlayerId| #[trigger]
                    session.players.contains_key(p) && session.players[p] == (PlayerInfo {
                        client_entity: session.mapping[server],
                        server_entity: server,
                    });
                assert(after.players.contains_key(owner));
            }
        }
    }
}

/// A create for a player that is known already changes neither the lobby
/// nor the identity map, and asks for no second picture.
pub proof fn lemma_replayed_create_changes_nothing(
    session: SessionView,
    entity: ServerEntityId,
    id: PlayerId,
    translation: Translation,
)
    requires
        session.players.contains_key(id),
    ensures
        session.receive(ServerMessage::PlayerCreate { entity, id, translation }) == (
            session,
            None::<ClientAction>,
        ),
{
}

/// A remove for a player that is not known changes nothing and asks for
/// nothing.
pub proof fn lemma_unknown_remove_changes_nothing(session: SessionView, id: PlayerId)
    requires
        !session.players.contains_key(id),
    ensures
        session.receive(ServerMessage::PlayerRemove { id }) == (session, None::<ClientAction>),
        session.receive(ServerMessage::ClientDisconnected { client_id: id }) == (
            session,
            None::<ClientAction>,
        ),
{
}

/// The moves for the first rows of a snapshot do not depend on the rows
/// behind them.
proof fn lemma_moves_ignore_later_rows(
    session: SessionView,
    snapshot: SnapshotView,
    entity: ServerEntityId,
    translation: Translation,
    n: nat,
)
    requires
        n <= snapshot.entities.len(),
        n <= snapshot.translations.len(),
    ensures
        session.moves(snapshot.with_row(entity, translation), n) == session.moves(snapshot, n),
    decreases n,
{
    if n > 0 {
        lemma_moves_ignore_later_rows(session, snapshot, entity, translation, (n - 1) as nat);
    }
}

/// A row whose entity the identity map does not know yet moves nothing: the
/// snapshot asks for what it asks for without that row. A row whose entity
/// is known asks for one more move, of that entity's picture to the row's
/// position.
pub proof fn lemma_sync_row(
    session: SessionView,
    snapshot: SnapshotView,
    entity: ServerEntityId,
    translation: Translation,
)
    requires
        snapshot.aligned(),
    ensures
        !session.mapping.contains_key(entity) ==> session.sync(
            snapshot.with_row(entity, translation),
        ) == session.sync(snapshot),
        session.mapping.contains_key(entity) ==> session.sync(
            snapshot.with_row(entity, translation),
        ) == session.sync(snapshot).push(
            ClientAction::Move { client_entity: session.mapping[entity], translation },
        ),
{
    let longer = snapshot.with_row(entity, translation);
    lemma_moves_ignore_later_rows(
        session,
        snapshot,
        entity,
        translation,
        snapshot.entities.len(),
    );
    assert(longer.entities.len() == snapshot.entities.len() + 1);
}

proof fn lemma_moves_of_strangers(session: SessionView, snapshot: SnapshotView, n: nat)
    requires
        forall|i: int|
            0 <= i < snapshot.entities.len() ==> !session.mapping.contains_key(
                #[trigger] snapshot.entities[i],
            ),
    ensures
        session.moves(snapshot, n) == Seq::<ClientAction>::empty(),
    decreases n,
{
    if n > 0 {
        lemma_moves_of_strangers(session, snapshot, (n - 1) as nat);
    }
}

/// A snapshot of which the identity map knows no entity moves nothing.
pub proof fn lemma_sync_of_strangers(session: SessionView, snapshot: SnapshotView)
    requires
        forall|i: int|
            0 <= i < snapshot.entities.len() ==> !session.mapping.contains_key(
                #[trigger] snapshot.entities[i],
            ),
    ensures
        session.sync(snapshot) == Seq::<ClientAction>::empty(),
{
    lemma_moves_of_strangers(session, snapshot, snapshot.entities.len());
}

/// A control message keeps the identity map and the lobby telling the same
/// story.
pub proof fn lemma_receive_keeps_faithful(session: SessionView, message: ServerMessage)
    requires
        session.faithful(),
    ensures
        session.receive(message).0.faithful(),
{
    lemma_receive_keeps_wf(session, message);
    match message {
        ServerMessage::PlayerCreate { .. } => {},
        ServerMessage::PlayerRemove { id } => lemma_forget_keeps_faithful(session, id),
        ServerMessage::ClientDisconnected { client_id } => lemma_forget_keeps_faithful(
            session,
            client_id,
        ),
    }
}

proof fn lemma_forget_keeps_faithful(session: SessionView, id: PlayerId)
    requires
        session.faithful(),
    ensures
        session.forget(id).0.faithful(),
{
    lemma_forget_keeps_wf(session, id);
    let after = session.forget(id).0;
    if session.players.contains_key(id) {
        assert forall|p: PlayerId| #[trigger] after.players.contains_key(p) implies
            after.mapping.contains_key(after.players[p].server_entity)
            && after.mapping[after.players[p].server_entity] == after.players[p].client_entity by {
            assert(session.players.contains_key(p));
            assert(session.players.contains_key(id));
        }
    }
}

/// A registered picture keeps the identity map and the lobby telling the
/// same story, if its avatar had no entry yet.
pub proof fn lemma_spawned_keeps_faithful(
    session: SessionView,
    id: PlayerId,
    server_entity: ServerEntityId,
    client_entity: LocalEntityId,
)
    requires
        session.faithful(),
        !session.mapping.contains_key(server_entity),
    ensures
        session.spawned(id, server_entity, client_entity).0.faithful(),
{
    lemma_spawned_keeps_wf(session, id, server_entity, client_entity);
    let after = session.spawned(id, server_entity, client_entity).0;
    if !session.players.contains_key(id) {
        assert forall|p: PlayerId| #[trigger] after.players.contains_key(p) implies
            after.mapping.contains_key(after.players[p].server_entity)
            && after.mapping[after.players[p].server_entity] == after.players[p].client_entity by {
            if p != id {
                assert(session.players.contains_key(p));
            }
        }
        assert forall|a: PlayerId, b: PlayerId|
            #[trigger] after.players.contains_key(a) && #[trigger] after.players.contains_key(b)
                && after.players[a].server_entity == after.players[b].server_entity implies a
            == b by {
            if a != id {
                assert(session.players.contains_key(a));
            }
            if b != id {
                assert(session.players.contains_key(b));
            }
        }
    }
}

/// While the identity map and the lobby tell the same story, the identity
/// map has one entry for each known player, no more and no fewer.
pub proof fn lemma_faithful_sizes(session: SessionView)
    requires
        session.faithful(),
        session.players.dom().finite(),
    ensures
        session.mapping.dom().finite(),
        session.mapping.dom().len() == session.players.dom().len(),
{
    let avatar_of = |id: PlayerId| session.players[id].server_entity;
    let known = session.players.dom();
    let mapped = session.mapping.dom();
    assert forall|server: ServerEntityId| known.map(avatar_of).contains(server) <==> mapped.contains(
        server,
    ) by {
        if mapped.contains(server) {
            assert(session.mapping.contains_key(server));
            assert(session.accounted(server));
            let owner = choose|p: PlayerId| #[trigger]
                session.players.contains_key(p) && session.players[p] == (PlayerInfo {
                    client_entity: session.mapping[server],
                    server_entity: server,
                });
            assert(known.contains(owner) && avatar_of(owner) == server);
        }
        if known.map(avatar_of).contains(server) {
            let owner = choose|p: PlayerId| known.contains(p) && server == avatar_of(p);
            assert(session.players.contains_key(owner));
        }
    }
    assert(known.map(avatar_of) =~= mapped);
    assert(injective_on(avatar_of, known)) by {
        assert forall|a: PlayerId, b: PlayerId|
            known.contains(a) && known.contains(b) && #[trigger] avatar_of(a) == #[trigger] avatar_of(
                b,
            ) implies a == b by {
            assert(session.players.contains_key(a));
            assert(session.players.contains_key(b));
        }
    }
    lemma_map_size(known, mapped, avatar_of);
}

} // verus!
