//! The server's side: the authoritative lobby, and what each event makes
//! of it.

use std::collections::HashMap;
use vstd::prelude::*;
use crate::channel::ClientChannel;
use crate::codec::{
    decode_client_message, decode_input, spec_decode_client_message, spec_decode_input,
};
use crate::input::PlayerInput;
use crate::message::{
    Avatar, ClientMessage, PlayerId, ServerEntityId, ServerMessage, Translation,
};
use crate::wire::DecodeError;

verus! {

broadcast use vstd::std_specs::hash::group_hash_axioms;

/// How far an avatar moves in one tick, in world units, whatever its
/// direction.
pub const PLAYER_MOVE_SPEED: u32 = 5;

/// Half the side of the square around the origin in which new avatars
/// appear, in world units. Where in the square is left to chance, so that
/// newcomers do not pile up.
pub const SPAWN_EXTENT: u32 = 50;

/// The depth at which every avatar stands, in world units.
pub const SPAWN_DEPTH: u32 = 900;

/// What happens to the server: a decoded message of a client, a notice of
/// the transport, or the world's answer to a [`ServerAction::Spawn`].
#[derive(Debug, Clone, Copy, PartialEq, Eq, Structural)]
pub enum ServerEvent {
    /// A connected client asks to take part.
    Join { client_id: PlayerId },
    /// The world has made the avatar `entity` at `translation` for a client
    /// that asked to take part.
    Spawned { client_id: PlayerId, entity: ServerEntityId, translation: Translation },
    /// A client says that it leaves.
    Disconnect { client_id: PlayerId },
    /// The transport has lost a client's connection.
    ConnectionLost { client_id: PlayerId },
    /// A client's control sample for this tick.
    Input { client_id: PlayerId, input: PlayerInput },
}

/// What the server's world and transport are asked to do.
#[derive(Debug, Clone, Copy, PartialEq, Eq, Structural)]
pub enum ServerAction {
    /// Send `message` to this client only.
    Send { client_id: PlayerId, message: ServerMessage },
    /// Send `message` to every client.
    Broadcast { message: ServerMessage },
    /// Create an avatar for this client and report it with
    /// [`ServerEvent::Spawned`].
    Spawn { client_id: PlayerId },
    /// Destroy this avatar.
    Despawn { entity: ServerEntityId },
    /// Let `input` steer this avatar from now on.
    Control { entity: ServerEntityId, input: PlayerInput },
}

/// The server's registry of the players that take part, each with the
/// handle of its avatar. A player that is not in it does not exist.
#[derive(Debug)]
pub struct ServerLobby {
    players: HashMap<PlayerId, ServerEntityId>,
}

impl View for ServerLobby {
    type V = Map<PlayerId, ServerEntityId>;

    closed spec fn view(&self) -> Map<PlayerId, ServerEntityId> {
        self.players@
    }
}

/// The message that tells a client of one avatar.
pub open spec fn spec_introduce(avatar: Avatar) -> ServerMessage {
    ServerMessage::PlayerCreate {
        entity: avatar.entity,
        id: avatar.player.id,
        translation: avatar.translation,
    }
}

/// The roster for a newcomer: one create per avatar, in the world's order,
/// each addressed to the newcomer alone.
pub open spec fn spec_roster(client_id: PlayerId, avatars: Seq<Avatar>) -> Seq<ServerAction> {
    Seq::new(
        avatars.len(),
        |i: int| ServerAction::Send { client_id, message: spec_introduce(avatars[i]) },
    )
}

/// What a request to take part asks for. A client that takes part already
/// is turned away in silence: its id stays with the session that has it.
/// Anyone else gets the roster, and the world is asked for an avatar.
pub open spec fn spec_join(
    lobby: Map<PlayerId, ServerEntityId>,
    client_id: PlayerId,
    avatars: Seq<Avatar>,
) -> Seq<ServerAction> {
    if lobby.contains_key(client_id) {
        Seq::empty()
    } else {
        spec_roster(client_id, avatars).push(ServerAction::Spawn { client_id })
    }
}

/// The lobby after the world has made an avatar, and what follows: the
/// player is recorded and announced to every client, itself included. If
/// the player takes part already, the lobby stays and the avatar is surplus.
pub open spec fn spec_spawned(
    lobby: Map<PlayerId, ServerEntityId>,
    client_id: PlayerId,
    entity: ServerEntityId,
    translation: Translation,
) -> (Map<PlayerId, ServerEntityId>, Seq<ServerAction>) {
    if lobby.contains_key(client_id) {
        (lobby, seq![ServerAction::Despawn { entity }])
    } else {
        (
            lobby.insert(client_id, entity),
            seq![
                ServerAction::Broadcast {
                    message: ServerMessage::PlayerCreate { entity, id: client_id, translation },
                },
            ],
        )
    }
}

/// The lobby after a player has gone, and what follows: the record is
/// erased, the avatar destroyed and `farewell` sent to every client. For a
/// player that does not take part nothing happens.
pub open spec fn spec_leave(
    lobby: Map<PlayerId, ServerEntityId>,
    client_id: PlayerId,
    farewell: ServerMessage,
) -> (Map<PlayerId, ServerEntityId>, Seq<ServerAction>) {
    if lobby.contains_key(client_id) {
        (
            lobby.remove(client_id),
            seq![
                ServerAction::Despawn { entity: lobby[client_id] },
                ServerAction::Broadcast { message: farewell },
            ],
        )
    } else {
        (lobby, Seq::empty())
    }
}

/// What a control sample asks for: it steers the sender's avatar. A sample
/// of a client that does not take part is dropped.
pub open spec fn spec_input(
    lobby: Map<PlayerId, ServerEntityId>,
    client_id: PlayerId,
    input: PlayerInput,
) -> Seq<ServerAction> {
    if lobby.contains_key(client_id) {
        seq![ServerAction::Control { entity: lobby[client_id], input }]
    } else {
        Seq::empty()
    }
}

/// The lobby after an event, and what the world and the transport are
/// asked to do, in this order. `avatars` is what the world holds when the
/// event is taken.
pub open spec fn spec_handle(
    lobby: Map<PlayerId, ServerEntityId>,
    event: ServerEvent,
    avatars: Seq<Avatar>,
) -> (Map<PlayerId, ServerEntityId>, Seq<ServerAction>) {
    match event {
        ServerEvent::Join { client_id } => (lobby, spec_join(lobby, client_id, avatars)),
        ServerEvent::Spawned { client_id, entity, translation } => spec_spawned(
            lobby,
            client_id,
            entity,
            translation,
        ),
        ServerEvent::Disconnect { client_id } => spec_leave(
            lobby,
            client_id,
            ServerMessage::PlayerRemove { id: client_id },
        ),
        ServerEvent::ConnectionLost { client_id } => spec_leave(
            lobby,
            client_id,
            ServerMessage::ClientDisconnected { client_id },
        ),
        ServerEvent::Input { client_id, input } => (lobby, spec_input(lobby, client_id, input)),
    }
}

/// The event that a client's payload stands for. The channel says what the
/// payload is: a control sample on one, a request on the other. A payload
/// that is not what its channel carries is no event.
pub open spec fn spec_event(client_id: PlayerId, channel: ClientChannel, bytes: Seq<u8>) -> Result<
    ServerEvent,
    DecodeError,
> {
    match channel {
        ClientChannel::Input => match spec_decode_input(bytes) {
            Ok(input) => Ok(ServerEvent::Input { client_id, input }),
            Err(e) => Err(e),
        },
        ClientChannel::Command => match spec_decode_client_message(bytes) {
            Ok(ClientMessage::Join {  }) => Ok(ServerEvent::Join { client_id }),
            Ok(ClientMessage::Disconnect {  }) => Ok(ServerEvent::Disconnect { client_id }),
            Err(e) => Err(e),
        },
    }
}

/// Reads the event that a client's payload stands for.
pub fn event_of(client_id: PlayerId, channel: ClientChannel, payload: &[u8]) -> (event: Result<
    ServerEvent,
    DecodeError,
>)
    ensures
        event == spec_event(client_id, channel, payload@),
{
    match channel {
        ClientChannel::Input => match decode_input(payload) {
            Ok(input) => Ok(ServerEvent::Input { client_id, input }),
            Err(e) => Err(e),
        },
        ClientChannel::Command => match decode_client_message(payload) {
            Ok(ClientMessage::Join {  }) => Ok(ServerEvent::Join { client_id }),
            Ok(ClientMessage::Disconnect {  }) => Ok(ServerEvent::Disconnect { client_id }),
            Err(e) => Err(e),
        },
    }
}

impl ServerLobby {
    /// The lobby without players.
    pub fn new() -> (lobby: ServerLobby)
        ensures
            lobby@ == Map::<PlayerId, ServerEntityId>::empty(),
    {
        ServerLobby { players: HashMap::new() }
    }

    /// The number of players that take part.
    pub fn len(&self) -> (n: usize)
        ensures
            n == self@.len(),
            self@.dom().finite(),
    {
        self.players.len()
    }

    /// Whether player `id` takes part.
    pub fn contains(&self, id: PlayerId) -> (b: bool)
        ensures
            b == self@.contains_key(id),
    {
        self.players.contains_key(&id)
    }

    /// The avatar of player `id`.
    pub fn entity_of(&self, id: PlayerId) -> (entity: Option<ServerEntityId>)
        ensures
            entity == (if self@.contains_key(id) {
                Some(self@[id])
            } else {
                None
            }),
    {
        match self.players.get(&id) {
            Some(entity) => Some(*entity),
            None => None,
        }
    }

    /// Takes a client's request to take part.
    pub fn join(&self, client_id: PlayerId, avatars: &Vec<Avatar>) -> (actions: Vec<ServerAction>)
        ensures
            actions@ == spec_join(self@, client_id, avatars@),
    {
        let mut actions: Vec<ServerAction> = Vec::new();
        if self.players.contains_key(&client_id) {
            return actions;
        }
        let mut i: usize = 0;
        while i < avatars.len()
            invariant
                i <= avatars.len(),
                actions@ == spec_roster(client_id, avatars@.take(i as int)),
            decreases avatars.len() - i,
        {
            let avatar = avatars[i];
            actions.push(
                ServerAction::Send {
                    client_id,
                    message: ServerMessage::PlayerCreate {
                        entity: avatar.entity,
                        id: avatar.player.id,
                        translation: avatar.translation,
                    },
                },
            );
            i = i + 1;
            assert(actions@ =~= spec_roster(client_id, avatars@.take(i as int)));
        }
        assert(avatars@.take(i as int) =~= avatars@);
        actions.push(ServerAction::Spawn { client_id });
        actions
    }

    /// Takes the avatar that the world made for a [`ServerAction::Spawn`].
    pub fn spawned(
        &mut self,
        client_id: PlayerId,
        entity: ServerEntityId,
        translation: Translation,
    ) -> (actions: Vec<ServerAction>)
        ensures
            (final(self)@, actions@) == spec_spawned(old(self)@, client_id, entity, translation),
    {
        let mut actions: Vec<ServerAction> = Vec::new();
        if self.players.contains_key(&client_id) {
            actions.push(ServerAction::Despawn { entity });
        } else {
            self.players.insert(client_id, entity);
            actions.push(
                ServerAction::Broadcast {
                    message: ServerMessage::PlayerCreate { entity, id: client_id, translation },
                },
            );
        }
        assert(actions@ =~= spec_spawned(old(self)@, client_id, entity, translation).1);
        actions
    }

    /// Erases a player and says `farewell` to every client.
    fn leave(&mut self, client_id: PlayerId, farewell: ServerMessage) -> (actions: Vec<
        ServerAction,
    >)
        ensures
            (final(self)@, actions@) == spec_leave(old(self)@, client_id, farewell),
    {
        let mut actions: Vec<ServerAction> = Vec::new();
        match self.players.remove(&client_id) {
            Some(entity) => {
                actions.push(ServerAction::Despawn { entity });
                actions.push(ServerAction::Broadcast { message: farewell });
            },
            None => {
                assert(self.players@ =~= old(self).players@);
            },
        }
        assert(actions@ =~= spec_leave(old(self)@, client_id, farewell).1);
        actions
    }

    /// Takes a client's word that it leaves.
    pub fn disconnect(&mut self, client_id: PlayerId) -> (actions: Vec<ServerAction>)
        ensures
            (final(self)@, actions@) == spec_leave(
                old(self)@,
                client_id,
                ServerMessage::PlayerRemove { id: client_id },
            ),
    {
        self.leave(client_id, ServerMessage::PlayerRemove { id: client_id })
    }

    /// Takes the transport's notice that a client's connection is lost.
    pub fn connection_lost(&mut self, client_id: PlayerId) -> (actions: Vec<ServerAction>)
        ensures
            (final(self)@, actions@) == spec_leave(
                old(self)@,
                client_id,
                ServerMessage::ClientDisconnected { client_id },
            ),
    {
        self.leave(client_id, ServerMessage::ClientDisconnected { client_id })
    }

    /// Takes a client's control sample.
    pub fn input(&self, client_id: PlayerId, input: PlayerInput) -> (actions: Vec<ServerAction>)
        ensures
            actions@ == spec_input(self@, client_id, input),
    {
        let mut actions: Vec<ServerAction> = Vec::new();
        match self.players.get(&client_id) {
            Some(entity) => {
                actions.push(ServerAction::Control { entity: *entity, input });
            },
            None => {},
        }
        assert(actions@ =~= spec_input(self@, client_id, input));
        actions
    }

    /// Takes one event. `avatars` is what the world holds now.
    pub fn handle(&mut self, event: ServerEvent, avatars: &Vec<Avatar>) -> (actions: Vec<
        ServerAction,
    >)
        ensures
            (final(self)@, actions@) == spec_handle(old(self)@, event, avatars@),
    {
        match event {
            ServerEvent::Join { client_id } => self.join(client_id, avatars),
            ServerEvent::Spawned { client_id, entity, translation } => self.spawned(
                client_id,
                entity,
                translation,
            ),
            ServerEvent::Disconnect { client_id } => self.disconnect(client_id),
            ServerEvent::ConnectionLost { client_id } => self.connection_lost(client_id),
            ServerEvent::Input { client_id, input } => self.input(client_id, input),
        }
    }

    /// Takes one payload of a client. A payload that is no message is
    /// refused and changes nothing: the client stays, and so does everyone
    /// else.
    pub fn receive(
        &mut self,
        client_id: PlayerId,
        channel: ClientChannel,
        payload: &[u8],
        avatars: &Vec<Avatar>,
    ) -> (actions: Result<Vec<ServerAction>, DecodeError>)
        ensures
            (match actions {
                Ok(actions) => spec_event(client_id, channel, payload@) matches Ok(event) && (
                    final(self)@,
                    actions@,
                ) == spec_handle(old(self)@, event, avatars@),
                Err(e) => spec_event(client_id, channel, payload@) == Err::<
                    ServerEvent,
                    DecodeError,
                >(e) && final(self)@ == old(self)@,
            }),
    {
        match event_of(client_id, channel, payload) {
            Ok(event) => Ok(self.handle(event, avatars)),
            Err(e) => Err(e),
        }
    }
}

impl Default for ServerLobby {
    fn default() -> (lobby: ServerLobby)
        ensures
            lobby@ == Map::<PlayerId, ServerEntityId>::empty(),
    {
        ServerLobby::new()
    }
}

} // verus!
