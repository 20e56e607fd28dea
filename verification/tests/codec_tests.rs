use bevy::prelude::Entity;
use shroomy::codec::{
    decode_client_message, decode_input, decode_server_message, decode_snapshot,
    encode_client_message, encode_input, encode_server_message, encode_snapshot,
};
use shroomy::input::PlayerInput;
use shroomy::message::{ClientMessage, NetworkedEntities, ServerMessage, Translation};
use shroomy::wire::{get_bool, put_bool, put_u32, put_u64, DecodeError};

fn position(x: f32, y: f32, z: f32) -> Translation {
    Translation { x: x.to_bits(), y: y.to_bits(), z: z.to_bits() }
}

fn floats(t: &Translation) -> [f32; 3] {
    [f32::from_bits(t.x), f32::from_bits(t.y), f32::from_bits(t.z)]
}

fn create() -> ServerMessage {
    ServerMessage::PlayerCreate {
        entity: 0x0000_0002_0000_0005,
        id: 0x0102_0304_0506_0708,
        translation: position(1.0, -2.5, 900.0),
    }
}

fn snapshot() -> NetworkedEntities {
    NetworkedEntities {
        entities: vec![7, 0x0000_0001_0000_0003, u64::MAX],
        translations: vec![
            position(0.0, 0.0, 900.0),
            position(-49.75, 12.125, 900.0),
            position(f32::MAX, f32::MIN_POSITIVE, -0.0),
        ],
    }
}

#[test]
fn u32_is_written_least_significant_byte_first() {
    let mut out = vec![0xaa];
    put_u32(&mut out, 0x0403_0201);
    assert_eq!(out, vec![0xaa, 1, 2, 3, 4]);
}

#[test]
fn u64_is_written_least_significant_byte_first() {
    let mut out = Vec::new();
    put_u64(&mut out, 0x0807_0605_0403_0201);
    assert_eq!(out, vec![1, 2, 3, 4, 5, 6, 7, 8]);
    let mut top = Vec::new();
    put_u64(&mut top, u64::MAX);
    assert_eq!(top, vec![0xff; 8]);
}

#[test]
fn bool_is_one_byte() {
    let mut out = Vec::new();
    put_bool(&mut out, true);
    put_bool(&mut out, false);
    assert_eq!(out, vec![1, 0]);
    assert_eq!(get_bool(&out, 0), Ok(true));
    assert_eq!(get_bool(&out, 1), Ok(false));
    assert_eq!(get_bool(&out, 2), Err(DecodeError::UnexpectedEnd));
    assert_eq!(get_bool(&[7], 0), Err(DecodeError::InvalidBool { byte: 7 }));
}

#[test]
fn input_bytes_are_up_down_left_right() {
    let input = PlayerInput { up: true, down: false, left: false, right: true };
    assert_eq!(encode_input(&input), vec![1, 0, 0, 1]);
}

#[test]
fn input_round_trips_for_every_sample() {
    for bits in 0u8..16 {
        let input = PlayerInput {
            up: bits & 1 != 0,
            down: bits & 2 != 0,
            left: bits & 4 != 0,
            right: bits & 8 != 0,
        };
        assert_eq!(decode_input(&encode_input(&input)), Ok(input));
    }
}

#[test]
fn input_matches_bincode() {
    let input = PlayerInput { up: false, down: true, left: true, right: false };
    let theirs = bincode::serialize(&(input.up, input.down, input.left, input.right)).unwrap();
    assert_eq!(encode_input(&input), theirs);
    let back: (bool, bool, bool, bool) = bincode::deserialize(&encode_input(&input)).unwrap();
    assert_eq!(back, (false, true, true, false));
}

#[test]
fn input_is_read_as_bincode_reads_it() {
    let payloads: [&[u8]; 6] =
        [&[0, 1, 1, 0], &[1, 1, 1, 1, 9], &[1, 0, 2, 0], &[3], &[1, 0], &[]];
    for payload in payloads {
        let theirs: Result<(bool, bool, bool, bool), _> = bincode::deserialize(payload);
        match decode_input(payload) {
            Ok(input) => {
                assert_eq!(theirs.unwrap(), (input.up, input.down, input.left, input.right))
            }
            Err(_) => assert!(theirs.is_err()),
        }
    }
}

#[test]
fn input_too_short_is_refused() {
    assert_eq!(decode_input(&[]), Err(DecodeError::UnexpectedEnd));
    assert_eq!(decode_input(&[1, 0, 1]), Err(DecodeError::UnexpectedEnd));
}

#[test]
fn input_with_a_bad_bool_is_refused() {
    assert_eq!(decode_input(&[1, 0, 2, 0]), Err(DecodeError::InvalidBool { byte: 2 }));
    assert_eq!(decode_input(&[255]), Err(DecodeError::InvalidBool { byte: 255 }));
    assert_eq!(decode_input(&[0, 1, 0, 9, 3]), Err(DecodeError::InvalidBool { byte: 9 }));
}

#[test]
fn input_ignores_what_follows() {
    assert_eq!(
        decode_input(&[0, 1, 1, 0, 77, 78]),
        Ok(PlayerInput { up: false, down: true, left: true, right: false })
    );
}

#[test]
fn client_message_bytes_are_the_kind() {
    assert_eq!(encode_client_message(&ClientMessage::Join {}), vec![0, 0, 0, 0]);
    assert_eq!(encode_client_message(&ClientMessage::Disconnect {}), vec![1, 0, 0, 0]);
}

#[test]
fn client_message_round_trips() {
    for message in [ClientMessage::Join {}, ClientMessage::Disconnect {}] {
        assert_eq!(decode_client_message(&encode_client_message(&message)), Ok(message));
    }
}

#[test]
fn client_message_of_unknown_kind_is_refused() {
    assert_eq!(
        decode_client_message(&[2, 0, 0, 0]),
        Err(DecodeError::UnknownKind { tag: 2 })
    );
    assert_eq!(
        decode_client_message(&[0, 0, 0, 1]),
        Err(DecodeError::UnknownKind { tag: 0x0100_0000 })
    );
    assert_eq!(decode_client_message(&[0, 0, 0]), Err(DecodeError::UnexpectedEnd));
}

#[test]
fn server_message_bytes_are_kind_then_fields() {
    assert_eq!(
        encode_server_message(&create()),
        vec![
            0, 0, 0, 0, // kind
            2, 0, 0, 0, 5, 0, 0, 0, // entity: upper half, lower half
            8, 7, 6, 5, 4, 3, 2, 1, // id
            0x00, 0x00, 0x80, 0x3f, // 1.0
            0x00, 0x00, 0x20, 0xc0, // -2.5
            0x00, 0x00, 0x61, 0x44, // 900.0
        ]
    );
    assert_eq!(
        encode_server_message(&ServerMessage::PlayerRemove { id: 258 }),
        vec![1, 0, 0, 0, 2, 1, 0, 0, 0, 0, 0, 0]
    );
    assert_eq!(
        encode_server_message(&ServerMessage::ClientDisconnected { client_id: u64::MAX }),
        vec![2, 0, 0, 0, 255, 255, 255, 255, 255, 255, 255, 255]
    );
}

#[test]
fn server_message_round_trips() {
    let messages = [
        create(),
        ServerMessage::PlayerCreate { entity: u64::MAX, id: 0, translation: position(0.0, 0.0, 0.0) },
        ServerMessage::PlayerRemove { id: 1 },
        ServerMessage::PlayerRemove { id: u64::MAX },
        ServerMessage::ClientDisconnected { client_id: 0xdead_beef },
    ];
    for message in messages {
        assert_eq!(decode_server_message(&encode_server_message(&message)), Ok(message));
    }
}

#[test]
fn positions_cross_the_wire_bit_for_bit() {
    let odd = Translation { x: 0x7fc0_1234, y: 0x8000_0000, z: 0x0000_0001 };
    let message = ServerMessage::PlayerCreate { entity: 1, id: 2, translation: odd };
    match decode_server_message(&encode_server_message(&message)) {
        Ok(ServerMessage::PlayerCreate { translation, .. }) => {
            assert_eq!(translation, odd);
            assert!(f32::from_bits(translation.x).is_nan());
            assert!(f32::from_bits(translation.y).is_sign_negative());
        }
        other => panic!("not a create: {:?}", other),
    }
}

#[test]
fn server_message_matches_bincode() {
    let entity = Entity::from_bits(0x0000_0002_0000_0005);
    let translation = position(1.0, -2.5, 900.0);
    let theirs =
        bincode::serialize(&(0u32, entity, 0x0102_0304_0506_0708u64, floats(&translation)))
            .unwrap();
    assert_eq!(encode_server_message(&create()), theirs);
    let removed = bincode::serialize(&(1u32, 258u64)).unwrap();
    assert_eq!(encode_server_message(&ServerMessage::PlayerRemove { id: 258 }), removed);
    let lost = bincode::serialize(&(2u32, 9u64)).unwrap();
    assert_eq!(encode_server_message(&ServerMessage::ClientDisconnected { client_id: 9 }), lost);
}

#[test]
fn server_message_reads_what_bincode_wrote() {
    let entity = Entity::from_bits(0xffff_fffe_0000_0010);
    let theirs = bincode::serialize(&(0u32, entity, 77u64, [3.5f32, -0.0, 900.0])).unwrap();
    assert_eq!(
        decode_server_message(&theirs),
        Ok(ServerMessage::PlayerCreate {
            entity: entity.to_bits(),
            id: 77,
            translation: position(3.5, -0.0, 900.0),
        })
    );
}

#[test]
fn server_message_fields_are_read_as_bincode_reads_them() {
    let mut payload = encode_server_message(&create());
    payload.extend_from_slice(&[1, 2, 3]);
    let theirs: (u32, Entity, u64, [f32; 3]) = bincode::deserialize(&payload).unwrap();
    assert_eq!(theirs.0, 0);
    assert_eq!(
        decode_server_message(&payload),
        Ok(ServerMessage::PlayerCreate {
            entity: theirs.1.to_bits(),
            id: theirs.2,
            translation: position(theirs.3[0], theirs.3[1], theirs.3[2]),
        })
    );
}

#[test]
fn server_message_of_unknown_kind_is_refused() {
    assert_eq!(
        decode_server_message(&[3, 0, 0, 0, 1, 2, 3, 4, 5, 6, 7, 8]),
        Err(DecodeError::UnknownKind { tag: 3 })
    );
    assert_eq!(
        decode_server_message(&[0xff, 0xff, 0xff, 0xff]),
        Err(DecodeError::UnknownKind { tag: u32::MAX })
    );
}

#[test]
fn server_message_cut_short_is_refused() {
    let whole = encode_server_message(&create());
    for cut in 0..whole.len() {
        assert_eq!(decode_server_message(&whole[..cut]), Err(DecodeError::UnexpectedEnd));
    }
    let removed = encode_server_message(&ServerMessage::PlayerRemove { id: 5 });
    for cut in 0..removed.len() {
        assert_eq!(decode_server_message(&removed[..cut]), Err(DecodeError::UnexpectedEnd));
    }
    let lost = encode_server_message(&ServerMessage::ClientDisconnected { client_id: 5 });
    assert_eq!(decode_server_message(&lost[..11]), Err(DecodeError::UnexpectedEnd));
}

#[test]
fn server_message_ignores_what_follows() {
    let mut payload = encode_server_message(&ServerMessage::PlayerRemove { id: 5 });
    payload.extend_from_slice(&[9, 9, 9]);
    assert_eq!(decode_server_message(&payload), Ok(ServerMessage::PlayerRemove { id: 5 }));
}

#[test]
fn snapshot_bytes_are_two_counted_columns() {
    let small = NetworkedEntities {
        entities: vec![0x0000_0001_0000_0002],
        translations: vec![position(1.0, 0.0, 900.0)],
    };
    assert_eq!(
        encode_snapshot(&small),
        vec![
            1, 0, 0, 0, 0, 0, 0, 0, // rows
            1, 0, 0, 0, 2, 0, 0, 0, // entity
            1, 0, 0, 0, 0, 0, 0, 0, // rows
            0x00, 0x00, 0x80, 0x3f, 0, 0, 0, 0, 0x00, 0x00, 0x61, 0x44, // position
        ]
    );
    assert_eq!(encode_snapshot(&NetworkedEntities::new()), vec![0u8; 16]);
}

#[test]
fn snapshot_round_trips() {
    assert_eq!(decode_snapshot(&encode_snapshot(&snapshot())), Ok(snapshot()));
    assert_eq!(
        decode_snapshot(&encode_snapshot(&NetworkedEntities::new())),
        Ok(NetworkedEntities::new())
    );
}

#[test]
fn snapshot_matches_bincode() {
    let ours = snapshot();
    let entities: Vec<Entity> = ours.entities.iter().map(|bits| Entity::from_bits(*bits)).collect();
    let translations: Vec<[f32; 3]> = ours.translations.iter().map(floats).collect();
    let theirs = bincode::serialize(&(entities, translations)).unwrap();
    assert_eq!(encode_snapshot(&ours), theirs);
    assert_eq!(decode_snapshot(&theirs), Ok(ours));
}

#[test]
fn snapshot_cut_short_is_refused() {
    let whole = encode_snapshot(&snapshot());
    for cut in 0..whole.len() {
        assert_eq!(decode_snapshot(&whole[..cut]), Err(DecodeError::UnexpectedEnd));
    }
}

#[test]
fn snapshot_with_a_huge_count_is_refused() {
    let mut payload = vec![0xff; 8];
    payload.extend_from_slice(&[0; 64]);
    assert_eq!(decode_snapshot(&payload), Err(DecodeError::UnexpectedEnd));
}

#[test]
fn snapshot_with_unequal_columns_is_refused() {
    let theirs = bincode::serialize(&(vec![1u64, 2u64], vec![[0.0f32; 3]])).unwrap();
    assert_eq!(
        decode_snapshot(&theirs),
        Err(DecodeError::Misaligned { entities: 2, translations: 1 })
    );
    let longer = bincode::serialize(&(vec![1u64], vec![[0.0f32; 3], [1.0f32; 3]])).unwrap();
    assert_eq!(
        decode_snapshot(&longer),
        Err(DecodeError::Misaligned { entities: 1, translations: 2 })
    );
}

#[test]
fn snapshot_ignores_what_follows() {
    let mut payload = encode_snapshot(&snapshot());
    payload.push(1);
    assert_eq!(decode_snapshot(&payload), Ok(snapshot()));
}
