//! The wire shape of every message, and the functions that write and read
//! it.
//!
//! A message is its fields in the order of declaration, without padding. A
//! message of a type with several kinds starts with the number of its kind,
//! four bytes. Integers are little-endian; a position is the bits of its
//! three numbers, four bytes each; an entity handle is its upper half and
//! then its lower half, four bytes each; a truth value is one byte, 0 or 1.
//! A column of a snapshot is the number of its rows, eight bytes, and then
//! the rows. Whatever follows a message in a payload is not looked at.

use vstd::prelude::*;
use crate::input::PlayerInput;
use crate::message::{
    ClientMessage, NetworkedEntities, ServerEntityId, ServerMessage, SnapshotView, Translation,
};
use crate::wire::{
    get_bool, get_u32, get_u64, lemma_u32_le_round_trip, lemma_u64_le_round_trip, put_bool,
    put_u32, put_u64, spec_bool_at, spec_bool_byte, spec_u32_from_le, spec_u32_le,
    spec_u64_from_le, spec_u64_le, DecodeError,
};

verus! {

/// The bytes of a control sample.
pub open spec fn spec_encode_input(input: PlayerInput) -> Seq<u8> {
    seq![
        spec_bool_byte(input.up),
        spec_bool_byte(input.down),
        spec_bool_byte(input.left),
        spec_bool_byte(input.right),
    ]
}

/// The control sample that a payload starts with. The four truth values are
/// read one after the other, and the first that cannot be read decides the
/// error.
pub open spec fn spec_decode_input(bytes: Seq<u8>) -> Result<PlayerInput, DecodeError> {
    match spec_bool_at(bytes, 0) {
        Err(e) => Err(e),
        Ok(up) => match spec_bool_at(bytes, 1) {
            Err(e) => Err(e),
            Ok(down) => match spec_bool_at(bytes, 2) {
                Err(e) => Err(e),
                Ok(left) => match spec_bool_at(bytes, 3) {
                    Err(e) => Err(e),
                    Ok(right) => Ok(PlayerInput { up, down, left, right }),
                },
            },
        },
    }
}

/// The number of a client message's kind.
pub open spec fn spec_client_tag(message: ClientMessage) -> u32 {
    match message {
        ClientMessage::Join {  } => 0,
        ClientMessage::Disconnect {  } => 1,
    }
}

/// The bytes of a client's control message.
pub open spec fn spec_encode_client_message(message: ClientMessage) -> Seq<u8> {
    spec_u32_le(spec_client_tag(message))
}

/// The client's control message that a payload starts with.
pub open spec fn spec_decode_client_message(bytes: Seq<u8>) -> Result<ClientMessage, DecodeError> {
    if bytes.len() < 4 {
        Err(DecodeError::UnexpectedEnd)
    } else {
        let tag = spec_u32_from_le(bytes.subrange(0, 4));
        if tag == 0 {
            Ok(ClientMessage::Join {  })
        } else if tag == 1 {
            Ok(ClientMessage::Disconnect {  })
        } else {
            Err(DecodeError::UnknownKind { tag })
        }
    }
}

/// The eight bytes of an entity handle: its upper half, then its lower.
pub open spec fn spec_encode_entity(entity: ServerEntityId) -> Seq<u8> {
    spec_u32_le((entity / 0x1_0000_0000) as u32) + spec_u32_le((entity % 0x1_0000_0000) as u32)
}

/// The entity handle that eight bytes stand for.
pub open spec fn spec_entity_from(bytes: Seq<u8>) -> ServerEntityId
    recommends
        bytes.len() == 8,
{
    (spec_u32_from_le(bytes.subrange(0, 4)) * 0x1_0000_0000 + spec_u32_from_le(
        bytes.subrange(4, 8),
    )) as u64
}

/// The twelve bytes of a position.
pub open spec fn spec_encode_translation(translation: Translation) -> Seq<u8> {
    spec_u32_le(translation.x) + spec_u32_le(translation.y) + spec_u32_le(translation.z)
}

/// The position that twelve bytes stand for.
pub open spec fn spec_translation_from(bytes: Seq<u8>) -> Translation
    recommends
        bytes.len() == 12,
{
    Translation {
        x: spec_u32_from_le(bytes.subrange(0, 4)),
        y: spec_u32_from_le(bytes.subrange(4, 8)),
        z: spec_u32_from_le(bytes.subrange(8, 12)),
    }
}

/// The number of a server message's kind.
pub open spec fn spec_server_tag(message: ServerMessage) -> u32 {
    match message {
        ServerMessage::PlayerCreate { .. } => 0,
        ServerMessage::PlayerRemove { .. } => 1,
        ServerMessage::ClientDisconnected { .. } => 2,
    }
}

/// The bytes of a server's control message.
pub open spec fn spec_encode_server_message(message: ServerMessage) -> Seq<u8> {
    match message {
        ServerMessage::PlayerCreate { entity, id, translation } => spec_u32_le(0)
            + spec_encode_entity(entity) + spec_u64_le(id) + spec_encode_translation(translation),
        ServerMessage::PlayerRemove { id } => spec_u32_le(1) + spec_u64_le(id),
        ServerMessage::ClientDisconnected { client_id } => spec_u32_le(2) + spec_u64_le(client_id),
    }
}

/// The server's control message that a payload starts with.
pub open spec fn spec_decode_server_message(bytes: Seq<u8>) -> Result<ServerMessage, DecodeError> {
    if bytes.len() < 4 {
        Err(DecodeError::UnexpectedEnd)
    } else {
        let tag = spec_u32_from_le(bytes.subrange(0, 4));
        if tag == 0 {
            if bytes.len() < 32 {
                Err(DecodeError::UnexpectedEnd)
            } else {
                Ok(
                    ServerMessage::PlayerCreate {
                        entity: spec_entity_from(bytes.subrange(4, 12)),
                        id: spec_u64_from_le(bytes.subrange(12, 20)),
                        translation: spec_translation_from(bytes.subrange(20, 32)),
                    },
                )
            }
        } else if tag == 1 {
            if bytes.len() < 12 {
                Err(DecodeError::UnexpectedEnd)
            } else {
                Ok(ServerMessage::PlayerRemove { id: spec_u64_from_le(bytes.subrange(4, 12)) })
            }
        } else if tag == 2 {
            if bytes.len() < 12 {
                Err(DecodeError::UnexpectedEnd)
            } else {
                Ok(
                    ServerMessage::ClientDisconnected {
                        client_id: spec_u64_from_le(bytes.subrange(4, 12)),
                    },
                )
            }
        } else {
            Err(DecodeError::UnknownKind { tag })
        }
    }
}

/// Writes a control sample.
pub fn encode_input(input: &PlayerInput) -> (bytes: Vec<u8>)
    ensures
        bytes@ == spec_encode_input(*input),
{
    let mut bytes: Vec<u8> = Vec::new();
    put_bool(&mut bytes, input.up);
    put_bool(&mut bytes, input.down);
    put_bool(&mut bytes, input.left);
    put_bool(&mut bytes, input.right);
    assert(bytes@ =~= spec_encode_input(*input));
    bytes
}

/// Reads a control sample.
pub fn decode_input(bytes: &[u8]) -> (input: Result<PlayerInput, DecodeError>)
    ensures
        input == spec_decode_input(bytes@),
{
    let up = match get_bool(bytes, 0) {
        Ok(b) => b,
        Err(e) => {
            return Err(e);
        },
    };
    let down = match get_bool(bytes, 1) {
        Ok(b) => b,
        Err(e) => {
            return Err(e);
        },
    };
    let left = match get_bool(bytes, 2) {
        Ok(b) => b,
        Err(e) => {
            return Err(e);
        },
    };
    let right = match get_bool(bytes, 3) {
        Ok(b) => b,
        Err(e) => {
            return Err(e);
        },
    };
    Ok(PlayerInput { up, down, left, right })
}

/// Writes a client's control message.
pub fn encode_client_message(message: &ClientMessage) -> (bytes: Vec<u8>)
    ensures
        bytes@ == spec_encode_client_message(*message),
{
    let mut bytes: Vec<u8> = Vec::new();
    match message {
        ClientMessage::Join {  } => put_u32(&mut bytes, 0),
        ClientMessage::Disconnect {  } => put_u32(&mut bytes, 1),
    }
    assert(bytes@ =~= spec_encode_client_message(*message));
    bytes
}

/// Reads a client's control message.
pub fn decode_client_message(bytes: &[u8]) -> (message: Result<ClientMessage, DecodeError>)
    ensures
        message == spec_decode_client_message(bytes@),
{
    if bytes.len() < 4 {
        return Err(DecodeError::UnexpectedEnd);
    }
    let tag: u32 = get_u32(bytes, 0);
    if tag == 0 {
        Ok(ClientMessage::Join {  })
    } else if tag == 1 {
        Ok(ClientMessage::Disconnect {  })
    } else {
        Err(DecodeError::UnknownKind { tag })
    }
}

/// Appends an entity handle.
pub fn put_entity(out: &mut Vec<u8>, entity: ServerEntityId)
    ensures
        final(out)@ == old(out)@ + spec_encode_entity(entity),
{
    put_u32(out, (entity / 0x1_0000_0000) as u32);
    put_u32(out, (entity % 0x1_0000_0000) as u32);
    assert(out@ =~= old(out)@ + spec_encode_entity(entity));
}

/// Reads the entity handle that starts at `at`.
pub(crate) fn get_entity(bytes: &[u8], at: usize) -> (entity: ServerEntityId)
    requires
        at + 8 <= bytes@.len(),
    ensures
        entity == spec_entity_from(bytes@.subrange(at as int, at + 8)),
{
    let len: usize = bytes.len();
    assert(at + 8 <= len);
    let upper: u64 = get_u32(bytes, at) as u64;
    let lower: u64 = get_u32(bytes, at + 4) as u64;
    proof {
        let whole = bytes@.subrange(at as int, at + 8);
        assert(whole.subrange(0, 4) =~= bytes@.subrange(at as int, at + 4));
        assert(whole.subrange(4, 8) =~= bytes@.subrange(at + 4, at + 8));
    }
    upper * 0x1_0000_0000 + lower
}

/// Appends a position.
pub fn put_translation(out: &mut Vec<u8>, translation: Translation)
    ensures
        final(out)@ == old(out)@ + spec_encode_translation(translation),
{
    put_u32(out, translation.x);
    put_u32(out, translation.y);
    put_u32(out, translation.z);
    assert(out@ =~= old(out)@ + spec_encode_translation(translation));
}

/// Reads the position that starts at `at`.
pub(crate) fn get_translation(bytes: &[u8], at: usize) -> (translation: Translation)
    requires
        at + 12 <= bytes@.len(),
    ensures
        translation == spec_translation_from(bytes@.subrange(at as int, at + 12)),
{
    let len: usize = bytes.len();
    assert(at + 12 <= len);
    let x: u32 = get_u32(bytes, at);
    let y: u32 = get_u32(bytes, at + 4);
    let z: u32 = get_u32(bytes, at + 8);
    proof {
        let whole = bytes@.subrange(at as int, at + 12);
        assert(whole.subrange(0, 4) =~= bytes@.subrange(at as int, at + 4));
        assert(whole.subrange(4, 8) =~= bytes@.subrange(at + 4, at + 8));
        assert(whole.subrange(8, 12) =~= bytes@.subrange(at + 8, at + 12));
    }
    Translation { x, y, z }
}

/// Writes a server's control message.
pub fn encode_server_message(message: &ServerMessage) -> (bytes: Vec<u8>)
    ensures
        bytes@ == spec_encode_server_message(*message),
{
    let mut bytes: Vec<u8> = Vec::new();
    match message {
        ServerMessage::PlayerCreate { entity, id, translation } => {
            put_u32(&mut bytes, 0);
            put_entity(&mut bytes, *entity);
            put_u64(&mut bytes, *id);
            put_translation(&mut bytes, *translation);
        },
        ServerMessage::PlayerRemove { id } => {
            put_u32(&mut bytes, 1);
            put_u64(&mut bytes, *id);
        },
        ServerMessage::ClientDisconnected { client_id } => {
            put_u32(&mut bytes, 2);
            put_u64(&mut bytes, *client_id);
        },
    }
    assert(bytes@ =~= spec_encode_server_message(*message));
    bytes
}

/// Reads a server's control message.
pub fn decode_server_message(bytes: &[u8]) -> (message: Result<ServerMessage, DecodeError>)
    ensures
        message == spec_decode_server_message(bytes@),
{
    if bytes.len() < 4 {
        return Err(DecodeError::UnexpectedEnd);
    }
    let tag: u32 = get_u32(bytes, 0);
    if tag == 0 {
        if bytes.len() < 32 {
            return Err(DecodeError::UnexpectedEnd);
        }
        Ok(
            ServerMessage::PlayerCreate {
                entity: get_entity(bytes, 4),
                id: get_u64(bytes, 12),
                translation: get_translation(bytes, 20),
            },
        )
    } else if tag == 1 {
        if bytes.len() < 12 {
            return Err(DecodeError::UnexpectedEnd);
        }
        Ok(ServerMessage::PlayerRemove { id: get_u64(bytes, 4) })
    } else if tag == 2 {
        if bytes.len() < 12 {
            return Err(DecodeError::UnexpectedEnd);
        }
        Ok(ServerMessage::ClientDisconnected { client_id: get_u64(bytes, 4) })
    } else {
        Err(DecodeError::UnknownKind { tag })
    }
}

/// The bytes of a column of entity handles, without the number of rows.
pub open spec fn spec_encode_entities(entities: Seq<ServerEntityId>) -> Seq<u8>
    decreases entities.len(),
{
    if entities.len() == 0 {
        Seq::empty()
    } else {
        spec_encode_entities(entities.drop_last()) + spec_encode_entity(entities.last())
    }
}

/// The bytes of a column of positions, without the number of rows.
pub open spec fn spec_encode_translations(translations: Seq<Translation>) -> Seq<u8>
    decreases translations.len(),
{
    if translations.len() == 0 {
        Seq::empty()
    } else {
        spec_encode_translations(translations.drop_last()) + spec_encode_translation(
            translations.last(),
        )
    }
}

/// The bytes of a snapshot: the column of entities, then the column of
/// positions, each behind the number of its rows.
pub open spec fn spec_encode_snapshot(snapshot: SnapshotView) -> Seq<u8> {
    spec_u64_le(snapshot.entities.len() as u64) + spec_encode_entities(snapshot.entities)
        + spec_u64_le(snapshot.translations.len() as u64) + spec_encode_translations(
        snapshot.translations,
    )
}

/// The entity handles in the `rows` rows of eight bytes that start at
/// `start`.
pub open spec fn spec_entity_rows(bytes: Seq<u8>, start: int, rows: nat) -> Seq<ServerEntityId> {
    Seq::new(rows, |i: int| spec_entity_from(bytes.subrange(start + 8 * i, start + 8 * i + 8)))
}

/// The positions in the `rows` rows of twelve bytes that start at `start`.
pub open spec fn spec_translation_rows(bytes: Seq<u8>, start: int, rows: nat) -> Seq<Translation> {
    Seq::new(
        rows,
        |i: int| spec_translation_from(bytes.subrange(start + 12 * i, start + 12 * i + 12)),
    )
}

/// The snapshot that a payload starts with. A payload whose columns differ
/// in length is no snapshot.
pub open spec fn spec_decode_snapshot(bytes: Seq<u8>) -> Result<SnapshotView, DecodeError> {
    if bytes.len() < 8 {
        Err(DecodeError::UnexpectedEnd)
    } else {
        let rows = spec_u64_from_le(bytes.subrange(0, 8));
        if bytes.len() < 16 + 8 * rows {
            Err(DecodeError::UnexpectedEnd)
        } else {
            let second = spec_u64_from_le(bytes.subrange(8 + 8 * rows, 16 + 8 * rows));
            if second != rows {
                Err(DecodeError::Misaligned { entities: rows, translations: second })
            } else if bytes.len() < 16 + 20 * rows {
                Err(DecodeError::UnexpectedEnd)
            } else {
                Ok(
                    SnapshotView {
                        entities: spec_entity_rows(bytes, 8, rows as nat),
                        translations: spec_translation_rows(bytes, 16 + 8 * rows, rows as nat),
                    },
                )
            }
        }
    }
}

/// Writes a snapshot.
pub fn encode_snapshot(snapshot: &NetworkedEntities) -> (bytes: Vec<u8>)
    ensures
        bytes@ == spec_encode_snapshot(snapshot@),
{
    let mut bytes: Vec<u8> = Vec::new();
    put_u64(&mut bytes, snapshot.entities.len() as u64);
    let ghost head = bytes@;
    let mut i: usize = 0;
    while i < snapshot.entities.len()
        invariant
            i <= snapshot.entities.len(),
            bytes@ == head + spec_encode_entities(snapshot.entities@.take(i as int)),
        decreases snapshot.entities.len() - i,
    {
        put_entity(&mut bytes, snapshot.entities[i]);
        i = i + 1;
        proof {
            let now = snapshot.entities@.take(i as int);
            assert(now.drop_last() =~= snapshot.entities@.take(i - 1));
            assert(bytes@ =~= head + spec_encode_entities(now));
        }
    }
    assert(snapshot.entities@.take(i as int) =~= snapshot.entities@);
    put_u64(&mut bytes, snapshot.translations.len() as u64);
    let ghost middle = bytes@;
    let mut j: usize = 0;
    while j < snapshot.translations.len()
        invariant
            j <= snapshot.translations.len(),
            bytes@ == middle + spec_encode_translations(snapshot.translations@.take(j as int)),
        decreases snapshot.translations.len() - j,
    {
        put_translation(&mut bytes, snapshot.translations[j]);
        j = j + 1;
        proof {
            let now = snapshot.translations@.take(j as int);
            assert(now.drop_last() =~= snapshot.translations@.take(j - 1));
            assert(bytes@ =~= middle + spec_encode_translations(now));
        }
    }
    assert(snapshot.translations@.take(j as int) =~= snapshot.translations@);
    bytes
}

/// Reads a snapshot.
pub fn decode_snapshot(bytes: &[u8]) -> (snapshot: Result<NetworkedEntities, DecodeError>)
    ensures
        (match snapshot {
            Ok(s) => spec_decode_snapshot(bytes@) == Ok::<SnapshotView, DecodeError>(s@),
            Err(e) => spec_decode_snapshot(bytes@) == Err::<SnapshotView, DecodeError>(e),
        }),
{
    let len: usize = bytes.len();
    if len < 8 {
        return Err(DecodeError::UnexpectedEnd);
    }
    let rows: u64 = get_u64(bytes, 0);
    if len < 16 || rows > ((len - 16) / 8) as u64 {
        return Err(DecodeError::UnexpectedEnd);
    }
    let count: usize = rows as usize;
    let base: usize = 16 + 8 * count;
    let second: u64 = get_u64(bytes, base - 8);
    if second != rows {
        return Err(DecodeError::Misaligned { entities: rows, translations: second });
    }
    if count > (len - base) / 12 {
        return Err(DecodeError::UnexpectedEnd);
    }
    let mut entities: Vec<ServerEntityId> = Vec::new();
    let mut i: usize = 0;
    while i < count
        invariant
            i <= count,
            len == bytes@.len(),
            16 + 8 * count <= len,
            entities@.len() == i,
            forall|k: int|
                0 <= k < i ==> entities@[k] == spec_entity_from(
                    bytes@.subrange(8 + 8 * k, 8 + 8 * k + 8),
                ),
        decreases count - i,
    {
        entities.push(get_entity(bytes, 8 + 8 * i));
        i = i + 1;
    }
    let mut translations: Vec<Translation> = Vec::new();
    let mut j: usize = 0;
    while j < count
        invariant
            j <= count,
            len == bytes@.len(),
            base == 16 + 8 * count,
            base + 12 * count <= len,
            translations@.len() == j,
            forall|k: int|
                0 <= k < j ==> translations@[k] == spec_translation_from(
                    bytes@.subrange(base + 12 * k, base + 12 * k + 12),
                ),
        decreases count - j,
    {
        translations.push(get_translation(bytes, base + 12 * j));
        j = j + 1;
    }
    let s = NetworkedEntities { entities, translations };
    proof {
        let expected = spec_decode_snapshot(bytes@);
        assert(expected is Ok);
        assert(s@.entities =~= expected->Ok_0.entities);
        assert(s@.translations =~= expected->Ok_0.translations);
    }
    Ok(s)
}

/// An entity handle read back is the handle that was written, and the
/// bytes of what eight bytes say are those bytes.
pub proof fn lemma_entity_round_trip(entity: ServerEntityId, bytes: Seq<u8>)
    ensures
        spec_encode_entity(entity).len() == 8,
        spec_entity_from(spec_encode_entity(entity)) == entity,
        bytes.len() == 8 ==> spec_encode_entity(spec_entity_from(bytes)) == bytes,
{
    let upper = (entity / 0x1_0000_0000) as u32;
    let lower = (entity % 0x1_0000_0000) as u32;
    lemma_u32_le_round_trip(upper, bytes.subrange(0, 4));
    lemma_u32_le_round_trip(lower, bytes.subrange(4, 8));
    assert(spec_encode_entity(entity).subrange(0, 4) =~= spec_u32_le(upper));
    assert(spec_encode_entity(entity).subrange(4, 8) =~= spec_u32_le(lower));
    assert(entity == upper * 0x1_0000_0000 + lower);
    if bytes.len() == 8 {
        let u = spec_u32_from_le(bytes.subrange(0, 4));
        let l = spec_u32_from_le(bytes.subrange(4, 8));
        let v = spec_entity_from(bytes);
        assert(v == u * 0x1_0000_0000 + l);
        assert((v / 0x1_0000_0000) as u32 == u);
        assert((v % 0x1_0000_0000) as u32 == l);
        assert(spec_encode_entity(v) =~= bytes.subrange(0, 4) + bytes.subrange(4, 8));
        assert(bytes.subrange(0, 4) + bytes.subrange(4, 8) =~= bytes);
    }
}

/// A position read back is the position that was written, bit for bit, and
/// the bytes of what twelve bytes say are those bytes.
pub proof fn lemma_translation_round_trip(translation: Translation, bytes: Seq<u8>)
    ensures
        spec_encode_translation(translation).len() == 12,
        spec_translation_from(spec_encode_translation(translation)) == translation,
        bytes.len() == 12 ==> spec_encode_translation(spec_translation_from(bytes)) == bytes,
{
    lemma_u32_le_round_trip(translation.x, bytes.subrange(0, 4));
    lemma_u32_le_round_trip(translation.y, bytes.subrange(4, 8));
    lemma_u32_le_round_trip(translation.z, bytes.subrange(8, 12));
    let written = spec_encode_translation(translation);
    assert(written.subrange(0, 4) =~= spec_u32_le(translation.x));
    assert(written.subrange(4, 8) =~= spec_u32_le(translation.y));
    assert(written.subrange(8, 12) =~= spec_u32_le(translation.z));
    if bytes.len() == 12 {
        assert(spec_encode_translation(spec_translation_from(bytes)) =~= bytes.subrange(0, 4)
            + bytes.subrange(4, 8) + bytes.subrange(8, 12));
        assert(bytes.subrange(0, 4) + bytes.subrange(4, 8) + bytes.subrange(8, 12) =~= bytes);
    }
}

/// A control sample that is written and read back is the same sample,
/// whatever follows it in the payload.
pub proof fn lemma_input_round_trip(input: PlayerInput, rest: Seq<u8>)
    ensures
        spec_decode_input(spec_encode_input(input) + rest) == Ok::<PlayerInput, DecodeError>(
            input,
        ),
{
}

/// A payload is read as a control sample only if it starts with the bytes
/// of that sample.
pub proof fn lemma_input_read_was_written(bytes: Seq<u8>, input: PlayerInput)
    requires
        spec_decode_input(bytes) == Ok::<PlayerInput, DecodeError>(input),
    ensures
        bytes.len() >= 4,
        bytes.subrange(0, 4) == spec_encode_input(input),
{
    assert(bytes.subrange(0, 4) =~= spec_encode_input(input));
}

/// A client's control message that is written and read back is the same
/// message, whatever follows it in the payload.
pub proof fn lemma_client_message_round_trip(message: ClientMessage, rest: Seq<u8>)
    ensures
        spec_decode_client_message(spec_encode_client_message(message) + rest) == Ok::<
            ClientMessage,
            DecodeError,
        >(message),
{
    let tag = spec_client_tag(message);
    lemma_u32_le_round_trip(tag, Seq::empty());
    assert((spec_encode_client_message(message) + rest).subrange(0, 4) =~= spec_u32_le(tag));
}

/// A payload is read as a client's control message only if it starts with
/// the bytes of that message.
pub proof fn lemma_client_message_read_was_written(bytes: Seq<u8>, message: ClientMessage)
    requires
        spec_decode_client_message(bytes) == Ok::<ClientMessage, DecodeError>(message),
    ensures
        bytes.len() >= 4,
        bytes.subrange(0, 4) == spec_encode_client_message(message),
{
    lemma_u32_le_round_trip(0, bytes.subrange(0, 4));
}

/// A server's control message that is written and read back is the same
/// message, field for field, whatever follows it in the payload.
pub proof fn lemma_server_message_round_trip(message: ServerMessage, rest: Seq<u8>)
    ensures
        spec_decode_server_message(spec_encode_server_message(message) + rest) == Ok::<
            ServerMessage,
            DecodeError,
        >(message),
{
    let tag = spec_server_tag(message);
    let payload = spec_encode_server_message(message) + rest;
    lemma_u32_le_round_trip(tag, Seq::empty());
    match message {
        ServerMessage::PlayerCreate { entity, id, translation } => {
            lemma_entity_round_trip(entity, Seq::empty());
            lemma_u64_le_round_trip(id, Seq::empty());
            lemma_translation_round_trip(translation, Seq::empty());
            assert(payload.subrange(0, 4) =~= spec_u32_le(tag));
            assert(payload.subrange(4, 12) =~= spec_encode_entity(entity));
            assert(payload.subrange(12, 20) =~= spec_u64_le(id));
            assert(payload.subrange(20, 32) =~= spec_encode_translation(translation));
        },
        ServerMessage::PlayerRemove { id } => {
            lemma_u64_le_round_trip(id, Seq::empty());
            assert(payload.subrange(0, 4) =~= spec_u32_le(tag));
            assert(payload.subrange(4, 12) =~= spec_u64_le(id));
        },
        ServerMessage::ClientDisconnected { client_id } => {
            lemma_u64_le_round_trip(client_id, Seq::empty());
            assert(payload.subrange(0, 4) =~= spec_u32_le(tag));
            assert(payload.subrange(4, 12) =~= spec_u64_le(client_id));
        },
    }
}

/// A payload is read as a server's control message only if it starts with
/// the bytes of that message.
pub proof fn lemma_server_message_read_was_written(bytes: Seq<u8>, message: ServerMessage)
    requires
        spec_decode_server_message(bytes) == Ok::<ServerMessage, DecodeError>(message),
    ensures
        spec_encode_server_message(message).len() <= bytes.len(),
        bytes.subrange(0, spec_encode_server_message(message).len() as int)
            == spec_encode_server_message(message),
{
    let written = spec_encode_server_message(message);
    lemma_u32_le_round_trip(0, bytes.subrange(0, 4));
    match message {
        ServerMessage::PlayerCreate { entity, id, translation } => {
            lemma_entity_round_trip(0, bytes.subrange(4, 12));
            lemma_u64_le_round_trip(0, bytes.subrange(12, 20));
            lemma_translation_round_trip(translation, bytes.subrange(20, 32));
            assert(bytes.subrange(0, 32) =~= bytes.subrange(0, 4) + bytes.subrange(4, 12)
                + bytes.subrange(12, 20) + bytes.subrange(20, 32));
        },
        ServerMessage::PlayerRemove { id } => {
            lemma_u64_le_round_trip(0, bytes.subrange(4, 12));
            assert(bytes.subrange(0, 12) =~= bytes.subrange(0, 4) + bytes.subrange(4, 12));
        },
        ServerMessage::ClientDisconnected { client_id } => {
            lemma_u64_le_round_trip(0, bytes.subrange(4, 12));
            assert(bytes.subrange(0, 12) =~= bytes.subrange(0, 4) + bytes.subrange(4, 12));
        },
    }
}

/// A column of `n` entity handles takes `8 * n` bytes.
pub proof fn lemma_entities_len(entities: Seq<ServerEntityId>)
    ensures
        spec_encode_entities(entities).len() == 8 * entities.len(),
    decreases entities.len(),
{
    if entities.len() > 0 {
        lemma_entities_len(entities.drop_last());
        lemma_entity_round_trip(entities.last(), Seq::empty());
    }
}

/// A column of `n` positions takes `12 * n` bytes.
pub proof fn lemma_translations_len(translations: Seq<Translation>)
    ensures
        spec_encode_translations(translations).len() == 12 * translations.len(),
    decreases translations.len(),
{
    if translations.len() > 0 {
        lemma_translations_len(translations.drop_last());
        lemma_translation_round_trip(translations.last(), Seq::empty());
    }
}

/// Row `i` of a written column of entity handles is handle `i`.
proof fn lemma_entities_row(entities: Seq<ServerEntityId>, i: int)
    requires
        0 <= i < entities.len(),
    ensures
        spec_encode_entities(entities).subrange(8 * i, 8 * i + 8) == spec_encode_entity(
            entities[i],
        ),
    decreases entities.len(),
{
    let front = entities.drop_last();
    lemma_entities_len(entities);
    lemma_entities_len(front);
    lemma_entity_round_trip(entities.last(), Seq::empty());
    let written = spec_encode_entities(entities);
    if i == entities.len() - 1 {
        assert(written.subrange(8 * i, 8 * i + 8) =~= spec_encode_entity(entities.last()));
    } else {
        lemma_entities_row(front, i);
        assert(written.subrange(8 * i, 8 * i + 8) =~= spec_encode_entities(front).subrange(
            8 * i,
            8 * i + 8,
        ));
    }
}

/// Row `i` of a written column of positions is position `i`.
proof fn lemma_translations_row(translations: Seq<Translation>, i: int)
    requires
        0 <= i < translations.len(),
    ensures
        spec_encode_translations(translations).subrange(12 * i, 12 * i + 12)
            == spec_encode_translation(translations[i]),
    decreases translations.len(),
{
    let front = translations.drop_last();
    lemma_translations_len(translations);
    lemma_translations_len(front);
    lemma_translation_round_trip(translations.last(), Seq::empty());
    let written = spec_encode_translations(translations);
    if i == translations.len() - 1 {
        assert(written.subrange(12 * i, 12 * i + 12) =~= spec_encode_translation(
            translations.last(),
        ));
    } else {
        lemma_translations_row(front, i);
        assert(written.subrange(12 * i, 12 * i + 12) =~= spec_encode_translations(
            front,
        ).subrange(12 * i, 12 * i + 12));
    }
}

/// The rows of entity handles that a stretch of bytes holds, written again,
/// are that stretch.
proof fn lemma_entity_rows_written(bytes: Seq<u8>, start: int, rows: nat)
    requires
        0 <= start,
        start + 8 * rows <= bytes.len(),
    ensures
        spec_encode_entities(spec_entity_rows(bytes, start, rows)) == bytes.subrange(
            start,
            start + 8 * rows,
        ),
    decreases rows,
{
    let column = spec_entity_rows(bytes, start, rows);
    if rows == 0 {
        assert(spec_encode_entities(column) =~= bytes.subrange(start, start + 8 * rows));
    } else {
        let front = (rows - 1) as nat;
        lemma_entity_rows_written(bytes, start, front);
        assert(column.drop_last() =~= spec_entity_rows(bytes, start, front));
        let row = bytes.subrange(start + 8 * front, start + 8 * front + 8);
        lemma_entity_round_trip(0, row);
        assert(column.last() == spec_entity_from(row));
        assert(bytes.subrange(start, start + 8 * front) + row =~= bytes.subrange(
            start,
            start + 8 * rows,
        ));
    }
}

/// The rows of positions that a stretch of bytes holds, written again, are
/// that stretch.
proof fn lemma_translation_rows_written(bytes: Seq<u8>, start: int, rows: nat)
    requires
        0 <= start,
        start + 12 * rows <= bytes.len(),
    ensures
        spec_encode_translations(spec_translation_rows(bytes, start, rows)) == bytes.subrange(
            start,
            start + 12 * rows,
        ),
    decreases rows,
{
    let column = spec_translation_rows(bytes, start, rows);
    if rows == 0 {
        assert(spec_encode_translations(column) =~= bytes.subrange(start, start + 12 * rows));
    } else {
        let front = (rows - 1) as nat;
        lemma_translation_rows_written(bytes, start, front);
        assert(column.drop_last() =~= spec_translation_rows(bytes, start, front));
        let row = bytes.subrange(start + 12 * front, start + 12 * front + 12);
        lemma_translation_round_trip(column.last(), row);
        assert(column.last() == spec_translation_from(row));
        assert(bytes.subrange(start, start + 12 * front) + row =~= bytes.subrange(
            start,
            start + 12 * rows,
        ));
    }
}

/// A snapshot that is written and read back is the same snapshot, row for
/// row and bit for bit, whatever follows it in the payload.
pub proof fn lemma_snapshot_round_trip(snapshot: SnapshotView, rest: Seq<u8>)
    requires
        snapshot.aligned(),
        snapshot.entities.len() <= u64::MAX,
    ensures
        spec_decode_snapshot(spec_encode_snapshot(snapshot) + rest) == Ok::<
            SnapshotView,
            DecodeError,
        >(snapshot),
{
    let n = snapshot.entities.len() as int;
    let head = spec_u64_le(n as u64);
    let first = spec_encode_entities(snapshot.entities);
    let second = spec_encode_translations(snapshot.translations);
    let payload = spec_encode_snapshot(snapshot) + rest;
    lemma_u64_le_round_trip(n as u64, Seq::empty());
    lemma_entities_len(snapshot.entities);
    lemma_translations_len(snapshot.translations);
    assert(payload.subrange(0, 8) =~= head);
    assert(payload.subrange(8 + 8 * n, 16 + 8 * n) =~= head);
    let read = spec_decode_snapshot(payload);
    assert(read is Ok);
    let got = read->Ok_0;
    assert forall|i: int| 0 <= i < n implies #[trigger] got.entities[i] == snapshot.entities[i] by {
        lemma_entities_row(snapshot.entities, i);
        lemma_entity_round_trip(snapshot.entities[i], Seq::empty());
        assert(payload.subrange(8 + 8 * i, 8 + 8 * i + 8) =~= first.subrange(8 * i, 8 * i + 8));
    }
    assert forall|i: int| 0 <= i < n implies #[trigger] got.translations[i]
        == snapshot.translations[i] by {
        lemma_translations_row(snapshot.translations, i);
        lemma_translation_round_trip(snapshot.translations[i], Seq::empty());
        assert(payload.subrange(16 + 8 * n + 12 * i, 16 + 8 * n + 12 * i + 12) =~= second.subrange(
            12 * i,
            12 * i + 12,
        ));
    }
    assert(got.entities =~= snapshot.entities);
    assert(got.translations =~= snapshot.translations);
}

/// A payload is read as a snapshot only if it starts with the bytes of that
/// snapshot, and the snapshot's rows are aligned.
pub proof fn lemma_snapshot_read_was_written(bytes: Seq<u8>, snapshot: SnapshotView)
    requires
        spec_decode_snapshot(bytes) == Ok::<SnapshotView, DecodeError>(snapshot),
    ensures
        snapshot.aligned(),
        spec_encode_snapshot(snapshot).len() <= bytes.len(),
        bytes.subrange(0, spec_encode_snapshot(snapshot).len() as int) == spec_encode_snapshot(
            snapshot,
        ),
{
    let rows = spec_u64_from_le(bytes.subrange(0, 8));
    let n = rows as int;
    lemma_u64_le_round_trip(0, bytes.subrange(0, 8));
    lemma_u64_le_round_trip(0, bytes.subrange(8 + 8 * n, 16 + 8 * n));
    lemma_entity_rows_written(bytes, 8, n as nat);
    lemma_translation_rows_written(bytes, 16 + 8 * n, n as nat);
    lemma_entities_len(snapshot.entities);
    lemma_translations_len(snapshot.translations);
    let written = spec_encode_snapshot(snapshot);
    assert(written =~= bytes.subrange(0, 8) + bytes.subrange(8, 8 + 8 * n) + bytes.subrange(
        8 + 8 * n,
        16 + 8 * n,
    ) + bytes.subrange(16 + 8 * n, 16 + 8 * n + 12 * n));
    assert(bytes.subrange(0, 16 + 20 * n) =~= written);
}

} // verus!
