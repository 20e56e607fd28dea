//! The fixed-width pieces every message is made of, and how they lie on
//! the wire: integers little-endian, a truth value as one byte.

use vstd::prelude::*;

verus! {

/// Why a payload is not a message.
#[derive(Debug, Clone, Copy, PartialEq, Eq, Structural)]
pub enum DecodeError {
    /// The payload ends before the message does.
    UnexpectedEnd,
    /// The payload names a kind of message that this schema does not have.
    UnknownKind { tag: u32 },
    /// A truth value is neither 0 nor 1.
    InvalidBool { byte: u8 },
    /// A snapshot's two columns differ in length.
    Misaligned { entities: u64, translations: u64 },
}

/// The four bytes of `x`, least significant first.
pub open spec fn spec_u32_le(x: u32) -> Seq<u8> {
    seq![
        (x % 256) as u8,
        (x / 256 % 256) as u8,
        (x / 256 / 256 % 256) as u8,
        (x / 256 / 256 / 256) as u8,
    ]
}

/// The number whose four bytes, least significant first, are `bytes`.
pub open spec fn spec_u32_from_le(bytes: Seq<u8>) -> u32
    recommends
        bytes.len() == 4,
{
    (bytes[0] + bytes[1] * 256 + bytes[2] * 65536 + bytes[3] * 16777216) as u32
}

/// The eight bytes of `x`, least significant first.
pub open spec fn spec_u64_le(x: u64) -> Seq<u8> {
    spec_u32_le((x % 0x1_0000_0000) as u32) + spec_u32_le((x / 0x1_0000_0000) as u32)
}

/// The number whose eight bytes, least significant first, are `bytes`.
pub open spec fn spec_u64_from_le(bytes: Seq<u8>) -> u64
    recommends
        bytes.len() == 8,
{
    (spec_u32_from_le(bytes.subrange(0, 4)) + spec_u32_from_le(bytes.subrange(4, 8))
        * 0x1_0000_0000) as u64
}

/// The byte of a truth value.
pub open spec fn spec_bool_byte(b: bool) -> u8 {
    if b {
        1u8
    } else {
        0u8
    }
}

/// The truth value at `at`, the way a reader that goes byte by byte finds
/// it.
pub open spec fn spec_bool_at(bytes: Seq<u8>, at: int) -> Result<bool, DecodeError> {
    if at >= bytes.len() {
        Err(DecodeError::UnexpectedEnd)
    } else if bytes[at] == 0 {
        Ok(false)
    } else if bytes[at] == 1 {
        Ok(true)
    } else {
        Err(DecodeError::InvalidBool { byte: bytes[at] })
    }
}

/// A number is the sum of its four base-256 digits.
proof fn lemma_u32_digits(x: u32)
    ensures
        x % 256 + (x / 256 % 256) * 256 + (x / 256 / 256 % 256) * 65536 + (x / 256 / 256 / 256)
            * 16777216 == x,
        x / 256 / 256 / 256 < 256,
{
    let q1 = x / 256;
    let q2 = q1 / 256;
    let q3 = q2 / 256;
    assert(x == q1 * 256 + x % 256);
    assert(q1 == q2 * 256 + q1 % 256);
    assert(q2 == q3 * 256 + q2 % 256);
}

/// Four base-256 digits are the digits of their sum.
proof fn lemma_u32_of_digits(a: u8, b: u8, c: u8, d: u8)
    ensures
        ({
            let v = a + b * 256 + c * 65536 + d * 16777216;
            &&& v <= u32::MAX
            &&& v % 256 == a
            &&& v / 256 % 256 == b
            &&& v / 256 / 256 % 256 == c
            &&& v / 256 / 256 / 256 == d
        }),
{
    let v = a + b * 256 + c * 65536 + d * 16777216;
    let q1 = b + c * 256 + d * 65536;
    let q2 = c + d * 256;
    assert(v == q1 * 256 + a);
    assert(v / 256 == q1);
    assert(q1 == q2 * 256 + b);
    assert(q1 / 256 == q2);
    assert(q2 == d * 256 + c);
    assert(q2 / 256 == d);
}

/// Four bytes read back give the number that was written, and the bytes of
/// what four bytes say are those bytes.
pub proof fn lemma_u32_le_round_trip(x: u32, bytes: Seq<u8>)
    ensures
        spec_u32_le(x).len() == 4,
        spec_u32_from_le(spec_u32_le(x)) == x,
        bytes.len() == 4 ==> spec_u32_le(spec_u32_from_le(bytes)) == bytes,
{
    lemma_u32_digits(x);
    if bytes.len() == 4 {
        lemma_u32_of_digits(bytes[0], bytes[1], bytes[2], bytes[3]);
        assert(spec_u32_le(spec_u32_from_le(bytes)) =~= bytes);
    }
}

/// Eight bytes read back give the number that was written, and the bytes of
/// what eight bytes say are those bytes.
pub proof fn lemma_u64_le_round_trip(x: u64, bytes: Seq<u8>)
    ensures
        spec_u64_le(x).len() == 8,
        spec_u64_from_le(spec_u64_le(x)) == x,
        bytes.len() == 8 ==> spec_u64_le(spec_u64_from_le(bytes)) == bytes,
{
    let lo = (x % 0x1_0000_0000) as u32;
    let hi = (x / 0x1_0000_0000) as u32;
    lemma_u32_le_round_trip(lo, bytes.subrange(0, 4));
    lemma_u32_le_round_trip(hi, bytes.subrange(4, 8));
    assert(spec_u64_le(x).subrange(0, 4) =~= spec_u32_le(lo));
    assert(spec_u64_le(x).subrange(4, 8) =~= spec_u32_le(hi));
    assert(x == hi * 0x1_0000_0000 + lo);
    if bytes.len() == 8 {
        let l = spec_u32_from_le(bytes.subrange(0, 4));
        let h = spec_u32_from_le(bytes.subrange(4, 8));
        let v = spec_u64_from_le(bytes);
        assert(v == h * 0x1_0000_0000 + l);
        assert((v % 0x1_0000_0000) as u32 == l);
        assert((v / 0x1_0000_0000) as u32 == h);
        assert(spec_u64_le(v) =~= bytes.subrange(0, 4) + bytes.subrange(4, 8));
        assert(bytes.subrange(0, 4) + bytes.subrange(4, 8) =~= bytes);
    }
}

/// Appends the four bytes of `x`.
pub fn put_u32(out: &mut Vec<u8>, x: u32)
    ensures
        final(out)@ == old(out)@ + spec_u32_le(x),
{
    out.push((x % 256) as u8);
    out.push((x / 256 % 256) as u8);
    out.push((x / 256 / 256 % 256) as u8);
    out.push((x / 256 / 256 / 256) as u8);
    assert(out@ =~= old(out)@ + spec_u32_le(x));
}

/// Appends the eight bytes of `x`.
pub fn put_u64(out: &mut Vec<u8>, x: u64)
    ensures
        final(out)@ == old(out)@ + spec_u64_le(x),
{
    put_u32(out, (x % 0x1_0000_0000) as u32);
    put_u32(out, (x / 0x1_0000_0000) as u32);
    assert(out@ =~= old(out)@ + spec_u64_le(x));
}

/// Appends the byte of a truth value.
pub fn put_bool(out: &mut Vec<u8>, b: bool)
    ensures
        final(out)@ == old(out)@.push(spec_bool_byte(b)),
{
    out.push(if b { 1u8 } else { 0u8 });
}

/// Reads the four bytes that start at `at`.
pub(crate) fn get_u32(bytes: &[u8], at: usize) -> (x: u32)
    requires
        at + 4 <= bytes@.len(),
    ensures
        x == spec_u32_from_le(bytes@.subrange(at as int, at + 4)),
{
    let b0: u32 = bytes[at] as u32;
    let b1: u32 = bytes[at + 1] as u32;
    let b2: u32 = bytes[at + 2] as u32;
    let b3: u32 = bytes[at + 3] as u32;
    b0 + b1 * 256 + b2 * 65536 + b3 * 16777216
}

/// Reads the eight bytes that start at `at`.
pub(crate) fn get_u64(bytes: &[u8], at: usize) -> (x: u64)
    requires
        at + 8 <= bytes@.len(),
    ensures
        x == spec_u64_from_le(bytes@.subrange(at as int, at + 8)),
{
    let len: usize = bytes.len();
    assert(at + 8 <= len);
    let lo: u64 = get_u32(bytes, at) as u64;
    let hi: u64 = get_u32(bytes, at + 4) as u64;
    proof {
        let whole = bytes@.subrange(at as int, at + 8);
        assert(whole.subrange(0, 4) =~= bytes@.subrange(at as int, at + 4));
        assert(whole.subrange(4, 8) =~= bytes@.subrange(at + 4, at + 8));
    }
    lo + hi * 0x1_0000_0000
}

/// Reads the truth value at `at`.
pub fn get_bool(bytes: &[u8], at: usize) -> (b: Result<bool, DecodeError>)
    ensures
        b == spec_bool_at(bytes@, at as int),
{
    if at >= bytes.len() {
        Err(DecodeError::UnexpectedEnd)
    } else if bytes[at] == 0 {
        Ok(false)
    } else if bytes[at] == 1 {
        Ok(true)
    } else {
        Err(DecodeError::InvalidBool { byte: bytes[at] })
    }
}

} // verus!
