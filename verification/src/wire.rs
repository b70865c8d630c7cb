//! Byte buffers and big-endian integers.
//!
//! The buffers are those of the `bytes` crate. Each function marked
//! `external_body` here is one call into that crate or into `std`; its contract
//! is taken on trust, everything built on it is proved.

use vstd::prelude::*;

verus! {

broadcast use vstd::slice::group_slice_axioms;

/// The growable buffer of the `bytes` crate.
#[verifier::external_type_specification]
#[verifier::external_body]
pub struct ExBytesMut(bytes::BytesMut);

/// The shared, immutable byte string of the `bytes` crate.
#[verifier::external_type_specification]
#[verifier::external_body]
pub struct ExBytes(bytes::Bytes);

/// The bytes a `BytesMut` holds, from first to last.
pub uninterp spec fn buffer_contents(buf: bytes::BytesMut) -> Seq<u8>;

/// The bytes a `Bytes` holds, from first to last.
pub uninterp spec fn bytes_contents(b: bytes::Bytes) -> Seq<u8>;

/// Big-endian encoding of a 16 bit number.
pub open spec fn be_u16(n: u16) -> Seq<u8> {
    seq![(n / 256) as u8, (n % 256) as u8]
}

/// The 16 bit number whose big-endian encoding starts `s`.
pub open spec fn u16_from_be(s: Seq<u8>) -> u16 {
    (s[0] * 256 + s[1]) as u16
}

/// The two's complement bit pattern of `n`, as a number below 2^32.
pub open spec fn i32_pattern(n: i32) -> int {
    if n >= 0 {
        n as int
    } else {
        n + 0x1_0000_0000
    }
}

/// Big-endian encoding of a signed 32 bit number.
pub open spec fn be_i32(n: i32) -> Seq<u8> {
    let u = i32_pattern(n);
    seq![
        (u / 0x100_0000) as u8,
        (u / 0x1_0000 % 0x100) as u8,
        (u / 0x100 % 0x100) as u8,
        (u % 0x100) as u8,
    ]
}

/// The signed 32 bit number whose big-endian encoding starts `s`.
pub open spec fn i32_from_be(s: Seq<u8>) -> i32 {
    let u = s[0] * 0x100_0000 + s[1] * 0x1_0000 + s[2] * 0x100 + s[3];
    if u < 0x8000_0000 {
        u as i32
    } else {
        (u - 0x1_0000_0000) as i32
    }
}

/// Reading back a 16 bit number gives the number that was written, whatever follows it.
pub proof fn law_u16_round_trip(n: u16, rest: Seq<u8>)
    ensures
        u16_from_be(be_u16(n) + rest) == n,
{
}

/// Reading back a 32 bit number gives the number that was written, whatever follows it.
pub proof fn law_i32_round_trip(n: i32, rest: Seq<u8>)
    ensures
        i32_from_be(be_i32(n) + rest) == n,
{
    let u = i32_pattern(n);
    assert(0 <= u < 0x1_0000_0000);
    let s = be_i32(n) + rest;
    assert(u / 0x1_0000 == u / 0x100_0000 * 0x100 + u / 0x1_0000 % 0x100);
    assert(u / 0x100 == u / 0x1_0000 * 0x100 + u / 0x100 % 0x100);
    assert(u == u / 0x100 * 0x100 + u % 0x100);
    assert(s[0] == u / 0x100_0000);
    assert(s[1] == u / 0x1_0000 % 0x100);
    assert(s[2] == u / 0x100 % 0x100);
    assert(s[3] == u % 0x100);
}

/// `bytes::BytesMut::new`: the new buffer is empty.
#[verifier::external_body]
pub(crate) fn new_buffer() -> (buf: bytes::BytesMut)
    ensures
        buffer_contents(buf) == Seq::<u8>::empty(),
{
    bytes::BytesMut::new()
}

/// `bytes::BytesMut` seen as a slice and copied: the copy holds the buffer's bytes.
#[verifier::external_body]
pub(crate) fn buffer_to_vec(buf: &bytes::BytesMut) -> (v: Vec<u8>)
    ensures
        v@ == buffer_contents(*buf),
{
    buf.to_vec()
}

/// `bytes::BufMut::put_u8` on a `BytesMut`: appends the byte. It panics where the
/// buffer would grow past `isize::MAX`.
#[verifier::external_body]
pub(crate) fn put_u8(buf: &mut bytes::BytesMut, n: u8)
    requires
        buffer_contents(*old(buf)).len() + 1 <= isize::MAX,
    ensures
        buffer_contents(*final(buf)) == buffer_contents(*old(buf)).push(n),
{
    bytes::BufMut::put_u8(buf, n)
}

/// `bytes::BufMut::put_u16` on a `BytesMut`: appends the number in big-endian order.
/// It panics where the buffer would grow past `isize::MAX`.
#[verifier::external_body]
pub(crate) fn put_u16(buf: &mut bytes::BytesMut, n: u16)
    requires
        buffer_contents(*old(buf)).len() + 2 <= isize::MAX,
    ensures
        buffer_contents(*final(buf)) == buffer_contents(*old(buf)) + be_u16(n),
{
    bytes::BufMut::put_u16(buf, n)
}

/// `bytes::BufMut::put_i32` on a `BytesMut`: appends the number in big-endian two's
/// complement. It panics where the buffer would grow past `isize::MAX`.
#[verifier::external_body]
pub(crate) fn put_i32(buf: &mut bytes::BytesMut, n: i32)
    requires
        buffer_contents(*old(buf)).len() + 4 <= isize::MAX,
    ensures
        buffer_contents(*final(buf)) == buffer_contents(*old(buf)) + be_i32(n),
{
    bytes::BufMut::put_i32(buf, n)
}

/// `bytes::BufMut::put_slice` on a `BytesMut`: appends the bytes of the slice. It
/// panics where the buffer would grow past `isize::MAX`.
#[verifier::external_body]
pub(crate) fn put_slice(buf: &mut bytes::BytesMut, src: &[u8])
    requires
        buffer_contents(*old(buf)).len() + src@.len() <= isize::MAX,
    ensures
        buffer_contents(*final(buf)) == buffer_contents(*old(buf)) + src@,
{
    bytes::BufMut::put_slice(buf, src)
}

/// `bytes::Buf::get_u8` on a slice: the first byte, and the slice moves past it. It
/// panics on an empty slice.
#[verifier::external_body]
pub(crate) fn get_u8(buf: &mut &[u8]) -> (n: u8)
    requires
        old(buf)@.len() >= 1,
    ensures
        n == old(buf)@[0],
        final(buf)@ == old(buf)@.skip(1),
{
    bytes::Buf::get_u8(buf)
}

/// `bytes::Buf::get_u16` on a slice: the big-endian number in front, and the slice
/// moves past it. It panics on fewer than two bytes.
#[verifier::external_body]
pub(crate) fn get_u16(buf: &mut &[u8]) -> (n: u16)
    requires
        old(buf)@.len() >= 2,
    ensures
        n == u16_from_be(old(buf)@),
        final(buf)@ == old(buf)@.skip(2),
{
    bytes::Buf::get_u16(buf)
}

/// `bytes::Buf::get_i32` on a slice: the big-endian two's complement number in
/// front, and the slice moves past it. It panics on fewer than four bytes.
#[verifier::external_body]
pub(crate) fn get_i32(buf: &mut &[u8]) -> (n: i32)
    requires
        old(buf)@.len() >= 4,
    ensures
        n == i32_from_be(old(buf)@),
        final(buf)@ == old(buf)@.skip(4),
{
    bytes::Buf::get_i32(buf)
}

/// `bytes::Buf::copy_to_bytes` on a slice: the first `len` bytes, and the slice moves
/// past them. It panics on fewer than `len` bytes.
#[verifier::external_body]
pub(crate) fn copy_to_bytes(buf: &mut &[u8], len: usize) -> (b: bytes::Bytes)
    requires
        old(buf)@.len() >= len,
    ensures
        bytes_contents(b) == old(buf)@.take(len as int),
        final(buf)@ == old(buf)@.skip(len as int),
{
    bytes::Buf::copy_to_bytes(buf, len)
}

/// `bytes::Bytes` as a slice (its `Deref`): the bytes it holds.
#[verifier::external_body]
pub(crate) fn bytes_as_slice(b: &bytes::Bytes) -> (s: &[u8])
    ensures
        s@ == bytes_contents(*b),
{
    b
}

/// `bytes::Bytes::copy_from_slice`: holds a copy of the bytes.
#[verifier::external_body]
pub(crate) fn bytes_copy(src: &[u8]) -> (b: bytes::Bytes)
    ensures
        bytes_contents(b) == src@,
{
    bytes::Bytes::copy_from_slice(src)
}

/// `bytes::Bytes` made from a vector (its `From<Vec<u8>>`): holds the vector's bytes.
#[verifier::external_body]
pub(crate) fn bytes_from_vec(v: Vec<u8>) -> (b: bytes::Bytes)
    ensures
        bytes_contents(b) == v@,
{
    bytes::Bytes::from(v)
}

/// `String::from_utf8` of `std`: succeeds exactly on well-formed UTF-8, with the
/// characters that the bytes encode.
#[verifier::external_body]
pub(crate) fn string_from_utf8(v: Vec<u8>) -> (r: Result<String, std::string::FromUtf8Error>)
    ensures
        r is Ok <==> vstd::utf8::valid_utf8(v@),
        r matches Ok(s) ==> s@ == vstd::utf8::decode_utf8(v@),
{
    String::from_utf8(v)
}

/// The error of `String::from_utf8`.
#[verifier::external_type_specification]
#[verifier::external_body]
pub struct ExFromUtf8Error(std::string::FromUtf8Error);

} // verus!
