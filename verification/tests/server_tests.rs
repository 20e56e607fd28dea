use shroomy::channel::ClientChannel;
use shroomy::codec::{encode_client_message, encode_input};
use shroomy::input::PlayerInput;
use shroomy::message::{Avatar, ClientMessage, Player, ServerMessage, Translation};
use shroomy::server::{
    event_of, ServerAction, ServerEvent, ServerLobby, PLAYER_MOVE_SPEED, SPAWN_DEPTH, SPAWN_EXTENT,
};
use shroomy::wire::DecodeError;

fn at(x: f32, y: f32) -> Translation {
    Translation { x: x.to_bits(), y: y.to_bits(), z: 900.0f32.to_bits() }
}

fn avatar(entity: u64, id: u64, x: f32, y: f32) -> Avatar {
    Avatar { entity, player: Player { id }, translation: at(x, y) }
}

fn lobby_of(players: &[(u64, u64)]) -> ServerLobby {
    let mut lobby = ServerLobby::new();
    for (id, entity) in players {
        lobby.spawned(*id, *entity, at(0.0, 0.0));
    }
    lobby
}

#[test]
fn world_constants_have_their_values() {
    assert_eq!(PLAYER_MOVE_SPEED, 5);
    assert_eq!(SPAWN_EXTENT, 50);
    assert_eq!(SPAWN_DEPTH, 900);
}

#[test]
fn new_lobby_is_empty() {
    let lobby = ServerLobby::new();
    assert_eq!(lobby.len(), 0);
    assert!(!lobby.contains(1));
    assert_eq!(lobby.entity_of(1), None);
}

#[test]
fn join_sends_the_roster_and_asks_for_an_avatar() {
    let lobby = lobby_of(&[(1, 10), (2, 20)]);
    let avatars = vec![avatar(10, 1, 1.0, 2.0), avatar(20, 2, -3.0, 4.0)];
    assert_eq!(
        lobby.join(3, &avatars),
        vec![
            ServerAction::Send {
                client_id: 3,
                message: ServerMessage::PlayerCreate { entity: 10, id: 1, translation: at(1.0, 2.0) },
            },
            ServerAction::Send {
                client_id: 3,
                message: ServerMessage::PlayerCreate { entity: 20, id: 2, translation: at(-3.0, 4.0) },
            },
            ServerAction::Spawn { client_id: 3 },
        ]
    );
    assert_eq!(lobby.len(), 2);
}

#[test]
fn first_join_has_an_empty_roster() {
    let lobby = ServerLobby::new();
    assert_eq!(lobby.join(1, &Vec::new()), vec![ServerAction::Spawn { client_id: 1 }]);
}

#[test]
fn join_of_a_present_player_is_turned_away() {
    let lobby = lobby_of(&[(1, 10)]);
    assert_eq!(lobby.join(1, &vec![avatar(10, 1, 0.0, 0.0)]), Vec::new());
}

#[test]
fn spawned_records_and_announces_the_player() {
    let mut lobby = lobby_of(&[(1, 10)]);
    assert_eq!(
        lobby.spawned(2, 20, at(5.0, -5.0)),
        vec![ServerAction::Broadcast {
            message: ServerMessage::PlayerCreate { entity: 20, id: 2, translation: at(5.0, -5.0) },
        }]
    );
    assert_eq!(lobby.len(), 2);
    assert_eq!(lobby.entity_of(2), Some(20));
    assert_eq!(lobby.entity_of(1), Some(10));
}

#[test]
fn spawned_for_a_present_player_gives_the_avatar_back() {
    let mut lobby = lobby_of(&[(1, 10)]);
    assert_eq!(lobby.spawned(1, 11, at(0.0, 0.0)), vec![ServerAction::Despawn { entity: 11 }]);
    assert_eq!(lobby.entity_of(1), Some(10));
    assert_eq!(lobby.len(), 1);
}

#[test]
fn disconnect_erases_and_announces() {
    let mut lobby = lobby_of(&[(1, 10), (2, 20)]);
    assert_eq!(
        lobby.disconnect(2),
        vec![
            ServerAction::Despawn { entity: 20 },
            ServerAction::Broadcast { message: ServerMessage::PlayerRemove { id: 2 } },
        ]
    );
    assert!(!lobby.contains(2));
    assert!(lobby.contains(1));
    assert_eq!(lobby.len(), 1);
}

#[test]
fn connection_lost_erases_and_announces_the_loss() {
    let mut lobby = lobby_of(&[(1, 10), (2, 20)]);
    assert_eq!(
        lobby.connection_lost(1),
        vec![
            ServerAction::Despawn { entity: 10 },
            ServerAction::Broadcast { message: ServerMessage::ClientDisconnected { client_id: 1 } },
        ]
    );
    assert!(!lobby.contains(1));
    assert_eq!(lobby.len(), 1);
}

#[test]
fn leaving_twice_does_nothing_the_second_time() {
    let mut lobby = lobby_of(&[(1, 10)]);
    lobby.disconnect(1);
    assert_eq!(lobby.disconnect(1), Vec::new());
    assert_eq!(lobby.connection_lost(1), Vec::new());
    assert_eq!(lobby.connection_lost(99), Vec::new());
    assert_eq!(lobby.len(), 0);
}

#[test]
fn input_steers_the_senders_avatar() {
    let lobby = lobby_of(&[(1, 10), (2, 20)]);
    let input = PlayerInput { up: true, down: false, left: false, right: true };
    assert_eq!(lobby.input(2, input), vec![ServerAction::Control { entity: 20, input }]);
}

#[test]
fn input_of_a_stranger_is_dropped() {
    let lobby = lobby_of(&[(1, 10)]);
    let input = PlayerInput { up: true, down: false, left: false, right: false };
    assert_eq!(lobby.input(2, input), Vec::new());
}

#[test]
fn handle_takes_each_event() {
    let mut lobby = ServerLobby::new();
    let none: Vec<Avatar> = Vec::new();
    assert_eq!(
        lobby.handle(ServerEvent::Join { client_id: 1 }, &none),
        vec![ServerAction::Spawn { client_id: 1 }]
    );
    assert_eq!(
        lobby.handle(
            ServerEvent::Spawned { client_id: 1, entity: 10, translation: at(1.0, 1.0) },
            &none
        ),
        vec![ServerAction::Broadcast {
            message: ServerMessage::PlayerCreate { entity: 10, id: 1, translation: at(1.0, 1.0) },
        }]
    );
    let input = PlayerInput { up: false, down: true, left: true, right: false };
    assert_eq!(
        lobby.handle(ServerEvent::Input { client_id: 1, input }, &none),
        vec![ServerAction::Control { entity: 10, input }]
    );
    assert_eq!(
        lobby.handle(ServerEvent::ConnectionLost { client_id: 1 }, &none),
        vec![
            ServerAction::Despawn { entity: 10 },
            ServerAction::Broadcast { message: ServerMessage::ClientDisconnected { client_id: 1 } },
        ]
    );
    assert_eq!(lobby.handle(ServerEvent::Disconnect { client_id: 1 }, &none), Vec::new());
    assert_eq!(lobby.len(), 0);
}

#[test]
fn event_of_reads_by_channel() {
    let input = PlayerInput { up: true, down: true, left: false, right: false };
    assert_eq!(
        event_of(4, ClientChannel::Input, &encode_input(&input)),
        Ok(ServerEvent::Input { client_id: 4, input })
    );
    assert_eq!(
        event_of(4, ClientChannel::Command, &encode_client_message(&ClientMessage::Join {})),
        Ok(ServerEvent::Join { client_id: 4 })
    );
    assert_eq!(
        event_of(4, ClientChannel::Command, &encode_client_message(&ClientMessage::Disconnect {})),
        Ok(ServerEvent::Disconnect { client_id: 4 })
    );
}

#[test]
fn event_of_refuses_what_the_channel_does_not_carry() {
    assert_eq!(
        event_of(4, ClientChannel::Command, &[9, 0, 0, 0]),
        Err(DecodeError::UnknownKind { tag: 9 })
    );
    assert_eq!(event_of(4, ClientChannel::Command, &[0]), Err(DecodeError::UnexpectedEnd));
    assert_eq!(
        event_of(4, ClientChannel::Input, &[1, 1, 1, 4]),
        Err(DecodeError::InvalidBool { byte: 4 })
    );
    assert_eq!(event_of(4, ClientChannel::Input, &[1, 1]), Err(DecodeError::UnexpectedEnd));
}

#[test]
fn receive_acts_on_a_payload() {
    let mut lobby = lobby_of(&[(1, 10)]);
    let avatars = vec![avatar(10, 1, 2.0, 3.0)];
    let join = encode_client_message(&ClientMessage::Join {});
    assert_eq!(
        lobby.receive(2, ClientChannel::Command, &join, &avatars),
        Ok(vec![
            ServerAction::Send {
                client_id: 2,
                message: ServerMessage::PlayerCreate { entity: 10, id: 1, translation: at(2.0, 3.0) },
            },
            ServerAction::Spawn { client_id: 2 },
        ])
    );
    let leave = encode_client_message(&ClientMessage::Disconnect {});
    assert_eq!(
        lobby.receive(1, ClientChannel::Command, &leave, &avatars),
        Ok(vec![
            ServerAction::Despawn { entity: 10 },
            ServerAction::Broadcast { message: ServerMessage::PlayerRemove { id: 1 } },
        ])
    );
    assert_eq!(lobby.len(), 0);
}

#[test]
fn receive_drops_a_malformed_payload_and_keeps_the_lobby() {
    let mut lobby = lobby_of(&[(1, 10)]);
    let avatars = vec![avatar(10, 1, 0.0, 0.0)];
    assert_eq!(
        lobby.receive(1, ClientChannel::Input, &[1, 0, 3, 0], &avatars),
        Err(DecodeError::InvalidBool { byte: 3 })
    );
    assert_eq!(
        lobby.receive(1, ClientChannel::Command, &[1, 0, 0], &avatars),
        Err(DecodeError::UnexpectedEnd)
    );
    assert_eq!(lobby.entity_of(1), Some(10));
    assert_eq!(lobby.len(), 1);
}
