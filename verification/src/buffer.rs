//! Byte buffers: what the library uses of the `bytes` crate, and big-endian integers.

use bytes::{BufMut, Bytes, BytesMut};
use vstd::endian::{endianness, Endian};
use vstd::prelude::*;

verus! {

/// `bytes::Bytes`: an immutable run of bytes that is cheap to clone and to slice.
#[verifier::external_type_specification]
#[verifier::external_body]
pub struct ExBytes(bytes::Bytes);

/// `bytes::BytesMut`: a run of bytes that grows at its end.
#[verifier::external_type_specification]
#[verifier::external_body]
pub struct ExBytesMut(bytes::BytesMut);

/// The bytes that a `Bytes` holds, in order.
pub uninterp spec fn bytes_contents(bytes: Bytes) -> Seq<u8>;

/// The bytes that a `BytesMut` holds, in order.
pub uninterp spec fn bytes_mut_contents(buffer: BytesMut) -> Seq<u8>;

/// The most bytes that a buffer may hold. One allocation holds `isize::MAX` bytes, and a buffer that
/// grows may take twice as many as it needs.
pub open spec fn max_buffer_len() -> int {
    usize::MAX as int / 4
}

/// Whether `count` more bytes can be appended to a buffer.
pub open spec fn has_room(buffer: BytesMut, count: nat) -> bool {
    bytes_mut_contents(buffer).len() + count <= max_buffer_len()
}

/// `Bytes::deref`: the contents as a slice.
#[verifier::external_body]
pub(crate) fn as_slice(bytes: &Bytes) -> (slice: &[u8])
    ensures
        slice@ == bytes_contents(*bytes),
{
    &bytes[..]
}

/// `Bytes::slice`: the bytes from position `start` up to, without, position `end`. It panics where
/// these are no positions of the buffer in that order.
#[verifier::external_body]
pub(crate) fn slice_bytes(bytes: &Bytes, start: usize, end: usize) -> (part: Bytes)
    requires
        start <= end <= bytes_contents(*bytes).len(),
    ensures
        bytes_contents(part) == bytes_contents(*bytes).subrange(start as int, end as int),
{
    bytes.slice(start..end)
}

/// `Bytes::clone`: another handle to the same bytes.
pub assume_specification[ <bytes::Bytes as Clone>::clone ](source: &bytes::Bytes) -> (copy:
    bytes::Bytes)
    ensures
        bytes_contents(copy) == bytes_contents(*source),
;

/// `BytesMut::with_capacity`: an empty buffer with room for `capacity` bytes. It panics where one
/// allocation cannot hold as many.
#[verifier::external_body]
pub(crate) fn buffer_with_capacity(capacity: usize) -> (buffer: BytesMut)
    requires
        capacity <= max_buffer_len(),
    ensures
        bytes_mut_contents(buffer) == Seq::<u8>::empty(),
{
    BytesMut::with_capacity(capacity)
}

/// `BytesMut::freeze`: the contents as an immutable buffer.
#[verifier::external_body]
pub(crate) fn freeze(buffer: BytesMut) -> (bytes: Bytes)
    ensures
        bytes_contents(bytes) == bytes_mut_contents(buffer),
{
    buffer.freeze()
}

/// `BufMut::put_slice`: appends the bytes of `source`.
#[verifier::external_body]
pub(crate) fn put_slice(buffer: &mut BytesMut, source: &[u8])
    requires
        has_room(*old(buffer), source@.len()),
    ensures
        bytes_mut_contents(*final(buffer)) == bytes_mut_contents(*old(buffer)) + source@,
{
    buffer.put_slice(source);
}

/// `BufMut::put_u8`: appends one byte.
#[verifier::external_body]
pub(crate) fn put_u8(buffer: &mut BytesMut, value: u8)
    requires
        has_room(*old(buffer), 1),
    ensures
        bytes_mut_contents(*final(buffer)) == bytes_mut_contents(*old(buffer)) + seq![value],
{
    buffer.put_u8(value);
}

/// `BufMut::put_u16`: appends the two bytes of `value`, the high one first.
#[verifier::external_body]
pub(crate) fn put_u16(buffer: &mut BytesMut, value: u16)
    requires
        has_room(*old(buffer), 2),
    ensures
        bytes_mut_contents(*final(buffer)) == bytes_mut_contents(*old(buffer)) + be16_bytes(value),
{
    buffer.put_u16(value);
}

/// `BufMut::put_u32`: appends the four bytes of `value`, the highest first.
#[verifier::external_body]
pub(crate) fn put_u32(buffer: &mut BytesMut, value: u32)
    requires
        has_room(*old(buffer), 4),
    ensures
        bytes_mut_contents(*final(buffer)) == bytes_mut_contents(*old(buffer)) + be32_bytes(value),
{
    buffer.put_u32(value);
}

/// `BufMut::put_u64_ne`: appends the eight bytes of `value` in the order of the machine.
#[verifier::external_body]
pub(crate) fn put_u64_ne(buffer: &mut BytesMut, value: u64)
    requires
        has_room(*old(buffer), 8),
    ensures
        bytes_mut_contents(*final(buffer)) == bytes_mut_contents(*old(buffer)) + ne_bytes(
            value as nat,
            8,
        ),
{
    buffer.put_u64_ne(value);
}

/// `BufMut::put_u128_ne`: appends the sixteen bytes of `value` in the order of the machine.
#[verifier::external_body]
pub(crate) fn put_u128_ne(buffer: &mut BytesMut, value: u128)
    requires
        has_room(*old(buffer), 16),
    ensures
        bytes_mut_contents(*final(buffer)) == bytes_mut_contents(*old(buffer)) + ne_bytes(
            value as nat,
            16,
        ),
{
    buffer.put_u128_ne(value);
}

/// `u64::from_ne_bytes`: the integer that the bytes hold in the order of the machine.
#[verifier::external_body]
pub(crate) fn u64_from_ne_bytes(bytes: [u8; 8]) -> (value: u64)
    ensures
        value == ne_value(bytes@),
{
    u64::from_ne_bytes(bytes)
}

/// `u128::from_ne_bytes`: the integer that the bytes hold in the order of the machine.
#[verifier::external_body]
pub(crate) fn u128_from_ne_bytes(bytes: [u8; 16]) -> (value: u128)
    ensures
        value == ne_value(bytes@),
{
    u128::from_ne_bytes(bytes)
}

/// The `count` low bytes of an integer, the lowest first.
pub open spec fn le_bytes(value: nat, count: nat) -> Seq<u8>
    decreases count,
{
    if count == 0 {
        Seq::empty()
    } else {
        seq![(value % 256) as u8] + le_bytes(value / 256, (count - 1) as nat)
    }
}

/// The integer that bytes hold, the lowest first.
pub open spec fn le_value(bytes: Seq<u8>) -> nat
    decreases bytes.len(),
{
    if bytes.len() == 0 {
        0
    } else {
        bytes[0] as nat + 256 * le_value(bytes.skip(1))
    }
}

/// The `count` low bytes of an integer, in the order of the machine.
pub open spec fn ne_bytes(value: nat, count: nat) -> Seq<u8> {
    if endianness() == Endian::Little {
        le_bytes(value, count)
    } else {
        le_bytes(value, count).reverse()
    }
}

/// The integer that bytes hold, in the order of the machine.
pub open spec fn ne_value(bytes: Seq<u8>) -> nat {
    if endianness() == Endian::Little {
        le_value(bytes)
    } else {
        le_value(bytes.reverse())
    }
}

/// A power of 256.
pub open spec fn pow256(count: nat) -> nat
    decreases count,
{
    if count == 0 {
        1
    } else {
        256 * pow256((count - 1) as nat)
    }
}

proof fn le_round_trip(value: nat, count: nat)
    requires
        value < pow256(count),
    ensures
        le_bytes(value, count).len() == count,
        le_value(le_bytes(value, count)) == value,
    decreases count,
{
    if count > 0 {
        le_round_trip(value / 256, (count - 1) as nat);
        assert(le_bytes(value, count).skip(1) =~= le_bytes(value / 256, (count - 1) as nat));
    }
}

/// Writing an integer in the order of the machine and reading it gives it back.
pub proof fn ne_round_trip(value: nat, count: nat)
    requires
        value < pow256(count),
    ensures
        ne_bytes(value, count).len() == count,
        ne_value(ne_bytes(value, count)) == value,
{
    le_round_trip(value, count);
    assert(le_bytes(value, count).reverse().reverse() =~= le_bytes(value, count));
}

/// The two bytes of an integer, the high one first.
pub open spec fn be16_bytes(value: u16) -> Seq<u8> {
    seq![(value / 256) as u8, (value % 256) as u8]
}

/// The four bytes of an integer, the highest first.
pub open spec fn be32_bytes(value: u32) -> Seq<u8> {
    seq![
        (value / 0x100_0000) as u8,
        (value / 0x1_0000 % 256) as u8,
        (value / 0x100 % 256) as u8,
        (value % 256) as u8,
    ]
}

/// The integer that two bytes hold, the high one first.
pub open spec fn be16(high: u8, low: u8) -> u16 {
    (high * 256 + low) as u16
}

/// The integer that four bytes hold, the highest first.
pub open spec fn be32(a: u8, b: u8, c: u8, d: u8) -> u32 {
    (a * 0x100_0000 + b * 0x1_0000 + c * 0x100 + d) as u32
}

/// The big-endian integer at a position.
pub open spec fn be16_at(bytes: Seq<u8>, at: int) -> u16 {
    be16(bytes[at], bytes[at + 1])
}

/// The big-endian integer at a position.
pub open spec fn be32_at(bytes: Seq<u8>, at: int) -> u32 {
    be32(bytes[at], bytes[at + 1], bytes[at + 2], bytes[at + 3])
}

/// Writing a 16-bit integer and reading it gives it back.
pub broadcast proof fn be16_round_trip(value: u16)
    ensures
        #![trigger be16_bytes(value)]
        be16_bytes(value).len() == 2,
        be16(be16_bytes(value)[0], be16_bytes(value)[1]) == value,
{
}

/// Writing a 32-bit integer and reading it gives it back.
pub broadcast proof fn be32_round_trip(value: u32)
    ensures
        #![trigger be32_bytes(value)]
        be32_bytes(value).len() == 4,
        be32(
            be32_bytes(value)[0],
            be32_bytes(value)[1],
            be32_bytes(value)[2],
            be32_bytes(value)[3],
        ) == value,
{
    let a: int = value as int / 0x100_0000;
    let b: int = value as int / 0x1_0000;
    let c: int = value as int / 0x100;
    assert(value == a * 0x100_0000 + (b % 256) * 0x1_0000 + (c % 256) * 0x100 + value as int % 256)
        by {
        assert(b / 256 == a);
        assert(c / 256 == b);
    }
}

/// Reads the big-endian 16-bit integer at a position.
pub fn read_be16(bytes: &[u8], at: usize) -> (value: u16)
    requires
        at + 2 <= bytes@.len(),
    ensures
        value == be16_at(bytes@, at as int),
{
    bytes[at] as u16 * 256 + bytes[at + 1] as u16
}

/// Reads the big-endian 32-bit integer at a position.
pub fn read_be32(bytes: &[u8], at: usize) -> (value: u32)
    requires
        at + 4 <= bytes@.len(),
    ensures
        value == be32_at(bytes@, at as int),
{
    bytes[at] as u32 * 0x100_0000 + bytes[at + 1] as u32 * 0x1_0000 + bytes[at + 2] as u32 * 0x100
        + bytes[at + 3] as u32
}

} // verus!
