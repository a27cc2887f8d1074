//! Big-endian integers and UTF-8 text as they appear in broker records.

use byteorder::{BigEndian, ByteOrder};
use vstd::prelude::*;
use vstd::string::StringSliceAdditionalSpecFns;
use vstd::utf8::{decode_utf8, encode_utf8_decode_utf8, valid_utf8};

verus! {

/// The unsigned number that the first two bytes spell, most significant byte first.
pub open spec fn be_u16(bytes: Seq<u8>) -> int {
    bytes[0] as int * 0x100 + bytes[1] as int
}

/// The unsigned number that the first four bytes spell, most significant byte first.
pub open spec fn be_u32(bytes: Seq<u8>) -> int {
    be_u16(bytes) * 0x1_0000 + be_u16(bytes.skip(2))
}

/// The unsigned number that the first eight bytes spell, most significant byte first.
pub open spec fn be_u64(bytes: Seq<u8>) -> int {
    be_u32(bytes) * 0x1_0000_0000 + be_u32(bytes.skip(4))
}

/// The two's complement reading of the first two bytes.
pub open spec fn be_i16(bytes: Seq<u8>) -> int {
    if be_u16(bytes) >= 0x8000 {
        be_u16(bytes) - 0x1_0000
    } else {
        be_u16(bytes)
    }
}

/// The two's complement reading of the first four bytes.
pub open spec fn be_i32(bytes: Seq<u8>) -> int {
    if be_u32(bytes) >= 0x8000_0000 {
        be_u32(bytes) - 0x1_0000_0000
    } else {
        be_u32(bytes)
    }
}

/// The two's complement reading of the first eight bytes.
pub open spec fn be_i64(bytes: Seq<u8>) -> int {
    if be_u64(bytes) >= 0x8000_0000_0000_0000 {
        be_u64(bytes) - 0x1_0000_0000_0000_0000
    } else {
        be_u64(bytes)
    }
}

/// The two bytes that spell the unsigned number `value`, most significant byte first.
pub open spec fn be_bytes_u16(value: int) -> Seq<u8> {
    seq![(value / 0x100) as u8, (value % 0x100) as u8]
}

/// The four bytes that spell the unsigned number `value`, most significant byte first.
pub open spec fn be_bytes_u32(value: int) -> Seq<u8> {
    be_bytes_u16(value / 0x1_0000) + be_bytes_u16(value % 0x1_0000)
}

/// The eight bytes that spell the unsigned number `value`, most significant byte first.
pub open spec fn be_bytes_u64(value: int) -> Seq<u8> {
    be_bytes_u32(value / 0x1_0000_0000) + be_bytes_u32(value % 0x1_0000_0000)
}

/// The two bytes that spell `value` in two's complement, most significant byte first.
pub open spec fn be_bytes_i16(value: i16) -> Seq<u8> {
    be_bytes_u16(
        if value < 0 {
            value + 0x1_0000
        } else {
            value as int
        },
    )
}

/// The four bytes that spell `value` in two's complement, most significant byte first.
pub open spec fn be_bytes_i32(value: i32) -> Seq<u8> {
    be_bytes_u32(
        if value < 0 {
            value + 0x1_0000_0000
        } else {
            value as int
        },
    )
}

/// The eight bytes that spell `value` in two's complement, most significant byte first.
pub open spec fn be_bytes_i64(value: i64) -> Seq<u8> {
    be_bytes_u64(
        if value < 0 {
            value + 0x1_0000_0000_0000_0000
        } else {
            value as int
        },
    )
}

proof fn lemma_u16_round_trip(value: int, tail: Seq<u8>)
    requires
        0 <= value < 0x1_0000,
    ensures
        be_bytes_u16(value).len() == 2,
        be_u16(be_bytes_u16(value) + tail) == value,
        (be_bytes_u16(value) + tail).skip(2) == tail,
{
}

proof fn lemma_u32_round_trip(value: int, tail: Seq<u8>)
    requires
        0 <= value < 0x1_0000_0000,
    ensures
        be_bytes_u32(value).len() == 4,
        be_u32(be_bytes_u32(value) + tail) == value,
        (be_bytes_u32(value) + tail).skip(4) == tail,
{
    let high = value / 0x1_0000;
    let low = value % 0x1_0000;
    lemma_u16_round_trip(high, be_bytes_u16(low) + tail);
    lemma_u16_round_trip(low, tail);
}

proof fn lemma_u64_round_trip(value: int, tail: Seq<u8>)
    requires
        0 <= value < 0x1_0000_0000_0000_0000,
    ensures
        be_bytes_u64(value).len() == 8,
        be_u64(be_bytes_u64(value) + tail) == value,
        (be_bytes_u64(value) + tail).skip(8) == tail,
{
    let high = value / 0x1_0000_0000;
    let low = value % 0x1_0000_0000;
    lemma_u32_round_trip(high, be_bytes_u32(low) + tail);
    lemma_u32_round_trip(low, tail);
}

/// Reading back the bytes of a 16-bit number gives the number, whatever follows them.
pub proof fn lemma_i16_round_trip(value: i16, tail: Seq<u8>)
    ensures
        be_bytes_i16(value).len() == 2,
        be_i16(be_bytes_i16(value) + tail) == value,
        (be_bytes_i16(value) + tail).skip(2) == tail,
{
    lemma_u16_round_trip(
        if value < 0 {
            value + 0x1_0000
        } else {
            value as int
        },
        tail,
    );
}

/// Reading back the bytes of a 32-bit number gives the number, whatever follows them.
pub proof fn lemma_i32_round_trip(value: i32, tail: Seq<u8>)
    ensures
        be_bytes_i32(value).len() == 4,
        be_i32(be_bytes_i32(value) + tail) == value,
        (be_bytes_i32(value) + tail).skip(4) == tail,
{
    lemma_u32_round_trip(
        if value < 0 {
            value + 0x1_0000_0000
        } else {
            value as int
        },
        tail,
    );
}

/// Reading back the bytes of a 64-bit number gives the number, whatever follows them.
pub proof fn lemma_i64_round_trip(value: i64, tail: Seq<u8>)
    ensures
        be_bytes_i64(value).len() == 8,
        be_i64(be_bytes_i64(value) + tail) == value,
        (be_bytes_i64(value) + tail).skip(8) == tail,
{
    lemma_u64_round_trip(
        if value < 0 {
            value + 0x1_0000_0000_0000_0000
        } else {
            value as int
        },
        tail,
    );
}

/// `byteorder::ByteOrder::read_i16` of `BigEndian`: the two's complement number
/// spelled by the first two bytes of the buffer. The call panics on a shorter
/// buffer, which the precondition rules out.
#[verifier::external_body]
fn read_i16_be(buf: &[u8]) -> (value: i16)
    requires
        buf@.len() >= 2,
    ensures
        value as int == be_i16(buf@),
{
    BigEndian::read_i16(buf)
}

/// `byteorder::ByteOrder::read_i32` of `BigEndian`: the two's complement number
/// spelled by the first four bytes of the buffer. The call panics on a shorter
/// buffer, which the precondition rules out.
#[verifier::external_body]
fn read_i32_be(buf: &[u8]) -> (value: i32)
    requires
        buf@.len() >= 4,
    ensures
        value as int == be_i32(buf@),
{
    BigEndian::read_i32(buf)
}

/// `byteorder::ByteOrder::read_i64` of `BigEndian`: the two's complement number
/// spelled by the first eight bytes of the buffer. The call panics on a shorter
/// buffer, which the precondition rules out.
#[verifier::external_body]
fn read_i64_be(buf: &[u8]) -> (value: i64)
    requires
        buf@.len() >= 8,
    ensures
        value as int == be_i64(buf@),
{
    BigEndian::read_i64(buf)
}

/// `core::str::from_utf8`, with its error dropped: the text is returned exactly
/// when the bytes are well-formed UTF-8, and its encoding is then those bytes.
#[verifier::external_body]
fn utf8_text(bytes: &[u8]) -> (text: Option<&str>)
    ensures
        text is Some <==> valid_utf8(bytes@),
        text matches Some(s) ==> s.spec_bytes() == bytes@,
{
    core::str::from_utf8(bytes).ok()
}

/// Takes a 16-bit big-endian number off the front of `input`.
pub fn take_i16(input: &[u8]) -> (r: Option<(i16, &[u8])>)
    ensures
        r is Some <==> input@.len() >= 2,
        r matches Some((value, rest)) ==> value as int == be_i16(input@) && rest@ == input@.skip(2),
{
    if input.len() < 2 {
        None
    } else {
        let value = read_i16_be(input);
        Some((value, vstd::slice::slice_subrange(input, 2, input.len())))
    }
}

/// Takes a 32-bit big-endian number off the front of `input`.
pub fn take_i32(input: &[u8]) -> (r: Option<(i32, &[u8])>)
    ensures
        r is Some <==> input@.len() >= 4,
        r matches Some((value, rest)) ==> value as int == be_i32(input@) && rest@ == input@.skip(4),
{
    if input.len() < 4 {
        None
    } else {
        let value = read_i32_be(input);
        Some((value, vstd::slice::slice_subrange(input, 4, input.len())))
    }
}

/// Takes a 64-bit big-endian number off the front of `input`.
pub fn take_i64(input: &[u8]) -> (r: Option<(i64, &[u8])>)
    ensures
        r is Some <==> input@.len() >= 8,
        r matches Some((value, rest)) ==> value as int == be_i64(input@) && rest@ == input@.skip(8),
{
    if input.len() < 8 {
        None
    } else {
        let value = read_i64_be(input);
        Some((value, vstd::slice::slice_subrange(input, 8, input.len())))
    }
}

/// Reads `bytes` as UTF-8 text, or reports that they are not.
pub fn text_of(bytes: &[u8]) -> (text: Option<&str>)
    ensures
        text is Some <==> valid_utf8(bytes@),
        text matches Some(s) ==> s@ == decode_utf8(bytes@),
{
    let text = utf8_text(bytes);
    proof {
        if let Some(s) = text {
            encode_utf8_decode_utf8(s@);
        }
    }
    text
}

} // verus!
