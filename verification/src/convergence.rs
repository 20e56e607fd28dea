//! Why a client's mirror of the lobby catches up with the server's: both
//! follow the same control messages.

use vstd::prelude::*;
use crate::client::{ClientAction, SessionView};
use crate::message::{Avatar, LocalEntityId, PlayerId, ServerEntityId, ServerMessage, Translation};
use crate::server::{spec_handle, spec_introduce, spec_leave, ServerAction, ServerEvent};

verus! {

/// The players that exist after one control message, if `keys` existed
/// before it.
pub open spec fn spec_roster_step(keys: Set<PlayerId>, message: ServerMessage) -> Set<PlayerId> {
    match message {
        ServerMessage::PlayerCreate { id, .. } => keys.insert(id),
        ServerMessage::PlayerRemove { id } => keys.remove(id),
        ServerMessage::ClientDisconnected { client_id } => keys.remove(client_id),
    }
}

/// The players that exist after a run of control messages, taken in order,
/// if `keys` existed before it.
pub open spec fn spec_roster_after(keys: Set<PlayerId>, messages: Seq<ServerMessage>) -> Set<
    PlayerId,
>
    decreases messages.len(),
{
    if messages.len() == 0 {
        keys
    } else {
        spec_roster_step(spec_roster_after(keys, messages.drop_last()), messages.last())
    }
}

/// The session after one control message has been taken and the world has
/// answered: where the message asks for a picture, the world makes it and
/// reports `handle`.
pub open spec fn spec_deliver(
    session: SessionView,
    message: ServerMessage,
    handle: LocalEntityId,
) -> SessionView {
    let (next, action) = session.receive(message);
    match action {
        Some(ClientAction::Spawn { id, server_entity, .. }) => next.spawned(
            id,
            server_entity,
            handle,
        ).0,
        _ => next,
    }
}

/// The session after it has drained `messages` in order. `handles[i]` is
/// the handle the world would give to a picture made for message `i`.
pub open spec fn spec_drain(
    session: SessionView,
    messages: Seq<ServerMessage>,
    handles: Seq<LocalEntityId>,
) -> SessionView
    decreases messages.len(),
{
    if messages.len() == 0 {
        session
    } else {
        spec_deliver(
            spec_drain(session, messages.drop_last(), handles),
            messages.last(),
            handles[messages.len() - 1],
        )
    }
}

/// The messages that a list of actions sends to every client, in order.
pub open spec fn spec_broadcasts(actions: Seq<ServerAction>) -> Seq<ServerMessage>
    decreases actions.len(),
{
    if actions.len() == 0 {
        Seq::empty()
    } else {
        let before = spec_broadcasts(actions.drop_last());
        match actions.last() {
            ServerAction::Broadcast { message } => before.push(message),
            _ => before,
        }
    }
}

/// The lobby after the server has taken `events` in order, and the
/// messages it has sent to every client meanwhile. `worlds[i]` is what the
/// world held when event `i` was taken.
pub open spec fn spec_run(
    lobby: Map<PlayerId, ServerEntityId>,
    events: Seq<ServerEvent>,
    worlds: Seq<Seq<Avatar>>,
) -> (Map<PlayerId, ServerEntityId>, Seq<ServerMessage>)
    decreases events.len(),
{
    if events.len() == 0 {
        (lobby, Seq::empty())
    } else {
        let (before, sent) = spec_run(lobby, events.drop_last(), worlds);
        let (after, actions) = spec_handle(before, events.last(), worlds[events.len() - 1]);
        (after, sent + spec_broadcasts(actions))
    }
}

/// The creates that introduce the avatars of a world, in the world's order.
pub open spec fn spec_introductions(avatars: Seq<Avatar>) -> Seq<ServerMessage> {
    Seq::new(avatars.len(), |i: int| spec_introduce(avatars[i]))
}

/// The ids of the players whose avatars a world holds.
pub open spec fn spec_owners(avatars: Seq<Avatar>) -> Set<PlayerId> {
    Set::new(
        |id: PlayerId|
            exists|i: int| 0 <= i < avatars.len() && #[trigger] avatars[i].player.id == id,
    )
}

/// One delivered control message changes the client's key set as the
/// message says.
pub proof fn lemma_deliver_tracks_message(
    session: SessionView,
    message: ServerMessage,
    handle: LocalEntityId,
)
    ensures
        spec_deliver(session, message, handle).players.dom() == spec_roster_step(
            session.players.dom(),
            message,
        ),
{
    let after = spec_deliver(session, message, handle).players.dom();
    assert(after =~= spec_roster_step(session.players.dom(), message));
}

/// After a client has drained a run of control messages in order, its
/// lobby holds the players that the messages say exist.
pub proof fn lemma_drain_tracks_messages(
    session: SessionView,
    messages: Seq<ServerMessage>,
    handles: Seq<LocalEntityId>,
)
    ensures
        spec_drain(session, messages, handles).players.dom() == spec_roster_after(
            session.players.dom(),
            messages,
        ),
    decreases messages.len(),
{
    if messages.len() > 0 {
        lemma_drain_tracks_messages(session, messages.drop_last(), handles);
        lemma_deliver_tracks_message(
            spec_drain(session, messages.drop_last(), handles),
            messages.last(),
            handles[messages.len() - 1],
        );
    }
}

/// Two runs of messages, one after the other, say what their
/// concatenation says.
pub proof fn lemma_roster_after_concat(
    keys: Set<PlayerId>,
    first: Seq<ServerMessage>,
    second: Seq<ServerMessage>,
)
    ensures
        spec_roster_after(keys, first + second) == spec_roster_after(
            spec_roster_after(keys, first),
            second,
        ),
    decreases second.len(),
{
    if second.len() == 0 {
        assert(first + second =~= first);
    } else {
        lemma_roster_after_concat(keys, first, second.drop_last());
        assert((first + second).drop_last() =~= first + second.drop_last());
    }
}

/// Actions among which none is a broadcast send nothing to every client.
proof fn lemma_no_broadcasts(actions: Seq<ServerAction>)
    requires
        forall|i: int| 0 <= i < actions.len() ==> !(#[trigger] actions[i] is Broadcast),
    ensures
        spec_broadcasts(actions) == Seq::<ServerMessage>::empty(),
    decreases actions.len(),
{
    if actions.len() > 0 {
        lemma_no_broadcasts(actions.drop_last());
    }
}

/// One more action adds its message to what is sent to every client, if it
/// is a broadcast, and nothing otherwise.
proof fn lemma_broadcasts_push(actions: Seq<ServerAction>, action: ServerAction)
    ensures
        spec_broadcasts(actions.push(action)) == (match action {
            ServerAction::Broadcast { message } => spec_broadcasts(actions).push(message),
            _ => spec_broadcasts(actions),
        }),
{
    assert(actions.push(action).drop_last() =~= actions);
}

/// One message says what its step says.
proof fn lemma_roster_after_one(keys: Set<PlayerId>, message: ServerMessage)
    ensures
        spec_roster_after(keys, seq![message]) == spec_roster_step(keys, message),
{
    let messages = seq![message];
    assert(messages.drop_last() =~= Seq::<ServerMessage>::empty());
    assert(spec_roster_after(keys, messages.drop_last()) == keys);
}

/// Whatever one event makes the server send to every client says what the
/// event made of the lobby.
pub proof fn lemma_handle_announces_lobby(
    lobby: Map<PlayerId, ServerEntityId>,
    event: ServerEvent,
    avatars: Seq<Avatar>,
)
    ensures
        spec_handle(lobby, event, avatars).0.dom() == spec_roster_after(
            lobby.dom(),
            spec_broadcasts(spec_handle(lobby, event, avatars).1),
        ),
{
    let after = spec_handle(lobby, event, avatars).0;
    let actions = spec_handle(lobby, event, avatars).1;
    let none = Seq::<ServerAction>::empty();
    assert(spec_broadcasts(none) == Seq::<ServerMessage>::empty());
    assert(spec_roster_after(lobby.dom(), Seq::<ServerMessage>::empty()) == lobby.dom());
    match event {
        ServerEvent::Join { client_id } => {
            lemma_no_broadcasts(actions);
        },
        ServerEvent::Input { client_id, input } => {
            lemma_no_broadcasts(actions);
        },
        ServerEvent::Spawned { client_id, entity, translation } => {
            if lobby.contains_key(client_id) {
                lemma_no_broadcasts(actions);
            } else {
                let create = ServerMessage::PlayerCreate { entity, id: client_id, translation };
                lemma_broadcasts_push(none, ServerAction::Broadcast { message: create });
                assert(actions =~= none.push(ServerAction::Broadcast { message: create }));
                assert(spec_broadcasts(actions) =~= seq![create]);
                lemma_roster_after_one(lobby.dom(), create);
                assert(after.dom() =~= lobby.dom().insert(client_id));
            }
        },
        ServerEvent::Disconnect { client_id } => {
            lemma_leave_announces_lobby(
                lobby,
                client_id,
                ServerMessage::PlayerRemove { id: client_id },
            );
        },
        ServerEvent::ConnectionLost { client_id } => {
            lemma_leave_announces_lobby(
                lobby,
                client_id,
                ServerMessage::ClientDisconnected { client_id },
            );
        },
    }
}

proof fn lemma_leave_announces_lobby(
    lobby: Map<PlayerId, ServerEntityId>,
    client_id: PlayerId,
    farewell: ServerMessage,
)
    requires
        farewell == (ServerMessage::PlayerRemove { id: client_id }) || farewell == (
        ServerMessage::ClientDisconnected { client_id }),
    ensures
        spec_leave(lobby, client_id, farewell).0.dom() == spec_roster_after(
            lobby.dom(),
            spec_broadcasts(spec_leave(lobby, client_id, farewell).1),
        ),
{
    let after = spec_leave(lobby, client_id, farewell).0;
    let actions = spec_leave(lobby, client_id, farewell).1;
    let none = Seq::<ServerAction>::empty();
    assert(spec_broadcasts(none) == Seq::<ServerMessage>::empty());
    assert(spec_roster_after(lobby.dom(), Seq::<ServerMessage>::empty()) == lobby.dom());
    if lobby.contains_key(client_id) {
        let despawn = ServerAction::Despawn { entity: lobby[client_id] };
        let broadcast = ServerAction::Broadcast { message: farewell };
        lemma_broadcasts_push(none, despawn);
        lemma_broadcasts_push(none.push(despawn), broadcast);
        assert(actions =~= none.push(despawn).push(broadcast));
        assert(spec_broadcasts(actions) =~= seq![farewell]);
        lemma_roster_after_one(lobby.dom(), farewell);
        assert(after.dom() =~= lobby.dom().remove(client_id));
    } else {
        assert(actions =~= none);
    }
}

/// What the server has sent to every client during a run of events says
/// which players its lobby holds after the run.
pub proof fn lemma_run_announces_lobby(
    lobby: Map<PlayerId, ServerEntityId>,
    events: Seq<ServerEvent>,
    worlds: Seq<Seq<Avatar>>,
)
    ensures
        spec_run(lobby, events, worlds).0.dom() == spec_roster_after(
            lobby.dom(),
            spec_run(lobby, events, worlds).1,
        ),
    decreases events.len(),
{
    if events.len() > 0 {
        let (before, sent) = spec_run(lobby, events.drop_last(), worlds);
        let (after, actions) = spec_handle(before, events.last(), worlds[events.len() - 1]);
        lemma_run_announces_lobby(lobby, events.drop_last(), worlds);
        lemma_handle_announces_lobby(before, events.last(), worlds[events.len() - 1]);
        lemma_roster_after_concat(lobby.dom(), sent, spec_broadcasts(actions));
    }
}

/// A client that held the server's players before a run of events, and
/// drains in order what the server sent to every client during the run,
/// holds the server's players after it: the key sets of the two lobbies are
/// equal again.
pub proof fn lemma_lobbies_converge(
    lobby: Map<PlayerId, ServerEntityId>,
    session: SessionView,
    events: Seq<ServerEvent>,
    worlds: Seq<Seq<Avatar>>,
    handles: Seq<LocalEntityId>,
)
    requires
        session.players.dom() == lobby.dom(),
    ensures
        spec_drain(session, spec_run(lobby, events, worlds).1, handles).players.dom() == spec_run(
            lobby,
            events,
            worlds,
        ).0.dom(),
{
    lemma_run_announces_lobby(lobby, events, worlds);
    lemma_drain_tracks_messages(session, spec_run(lobby, events, worlds).1, handles);
}

/// The creates that introduce a world's avatars say that the owners of
/// those avatars exist.
proof fn lemma_introductions_name_owners(avatars: Seq<Avatar>)
    ensures
        spec_roster_after(Set::empty(), spec_introductions(avatars)) == spec_owners(avatars),
    decreases avatars.len(),
{
    let messages = spec_introductions(avatars);
    if avatars.len() == 0 {
        assert(spec_owners(avatars) =~= Set::<PlayerId>::empty());
    } else {
        let front = avatars.drop_last();
        lemma_introductions_name_owners(front);
        assert(messages.drop_last() =~= spec_introductions(front));
        let last = avatars.last();
        assert forall|id: PlayerId| spec_owners(avatars).contains(id) <==> spec_owners(
            front,
        ).insert(last.player.id).contains(id) by {
            if spec_owners(avatars).contains(id) {
                let i = choose|i: int|
                    0 <= i < avatars.len() && #[trigger] avatars[i].player.id == id;
                if i < avatars.len() - 1 {
                    assert(front[i].player.id == id);
                }
            }
            if spec_owners(front).contains(id) {
                let i = choose|i: int|
                    0 <= i < front.len() && #[trigger] front[i].player.id == id;
                assert(avatars[i].player.id == id);
            }
            if id == last.player.id {
                assert(avatars[avatars.len() - 1].player.id == id);
            }
        }
        assert(spec_owners(avatars) =~= spec_owners(front).insert(last.player.id));
    }
}

/// A newcomer that drains its roster and then the create that announces
/// itself holds the server's players, itself included, if the world held
/// the avatars of the lobby's players when the roster was made.
pub proof fn lemma_newcomer_catches_up(
    lobby: Map<PlayerId, ServerEntityId>,
    avatars: Seq<Avatar>,
    client_id: PlayerId,
    entity: ServerEntityId,
    translation: Translation,
    handles: Seq<LocalEntityId>,
)
    requires
        spec_owners(avatars) == lobby.dom(),
    ensures
        spec_drain(
            SessionView::fresh(client_id),
            spec_introductions(avatars).push(
                ServerMessage::PlayerCreate { entity, id: client_id, translation },
            ),
            handles,
        ).players.dom() == lobby.insert(client_id, entity).dom(),
{
    let own = ServerMessage::PlayerCreate { entity, id: client_id, translation };
    let messages = spec_introductions(avatars).push(own);
    lemma_drain_tracks_messages(SessionView::fresh(client_id), messages, handles);
    lemma_introductions_name_owners(avatars);
    assert(messages.drop_last() =~= spec_introductions(avatars));
    assert(SessionView::fresh(client_id).players.dom() =~= Set::<PlayerId>::empty());
    assert(lobby.insert(client_id, entity).dom() =~= lobby.dom().insert(client_id));
}

} // verus!
