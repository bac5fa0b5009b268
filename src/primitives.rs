//! The calls this library makes into `bytes`, `byteorder`, `memchr` and std,
//! each with the contract it is relied on for.
use byteorder::ByteOrder;
use vstd::prelude::*;

verus! {

/// Unsigned value of a byte sequence read most significant byte first.
pub open spec fn be_uint(b: Seq<u8>) -> nat
    decreases b.len(),
{
    if b.len() == 0 {
        0
    } else {
        be_uint(b.drop_last()) * 256 + b.last() as nat
    }
}

/// Two's complement reading of `u`, for a width whose sign bit is worth `half`.
pub open spec fn signed_of(u: int, half: int) -> int {
    if u < half {
        u
    } else {
        u - 2 * half
    }
}

#[verifier::external_type_specification]
#[verifier::external_body]
pub struct ExBytes(bytes::Bytes);

#[verifier::external_type_specification]
#[verifier::external_body]
pub struct ExUtf8Error(core::str::Utf8Error);

/// The bytes a shared buffer holds.
pub uninterp spec fn bytes_content(b: bytes::Bytes) -> Seq<u8>;

/// The text a byte sequence holds when it is valid UTF-8.
pub uninterp spec fn utf8_text(b: Seq<u8>) -> Option<Seq<char>>;

/// Relies on `Deref for bytes::Bytes`: a borrowed view of the same bytes.
#[verifier::external_body]
pub(crate) fn bytes_as_slice(b: &bytes::Bytes) -> (r: &[u8])
    ensures
        r@ == bytes_content(*b),
{
    b
}

/// Relies on `bytes::Bytes::slice`: a buffer sharing storage with `b` that
/// holds the bytes `start..end`; it panics only outside those bounds.
#[verifier::external_body]
pub(crate) fn bytes_slice(b: &bytes::Bytes, start: usize, end: usize) -> (r: bytes::Bytes)
    requires
        start <= end <= bytes_content(*b).len(),
    ensures
        bytes_content(r) == bytes_content(*b).subrange(start as int, end as int),
{
    b.slice(start..end)
}

/// Relies on `memchr::memchr`: the first position of `needle` in `haystack`.
#[verifier::external_body]
pub(crate) fn find_byte(needle: u8, haystack: &[u8]) -> (r: Option<usize>)
    ensures
        match r {
            Some(i) => i < haystack@.len() && haystack@[i as int] == needle && forall|j: int|
                0 <= j < i ==> haystack@[j] != needle,
            None => forall|j: int| 0 <= j < haystack@.len() ==> haystack@[j] != needle,
        },
{
    memchr::memchr(needle, haystack)
}

/// Relies on `byteorder::BigEndian::read_i16`: the first two bytes, big-endian,
/// two's complement; it panics on fewer than two.
#[verifier::external_body]
pub(crate) fn be_read_i16(b: &[u8]) -> (r: i16)
    requires
        b@.len() >= 2,
    ensures
        r as int == signed_of(be_uint(b@.take(2)) as int, 0x8000),
{
    byteorder::BigEndian::read_i16(b)
}

/// Relies on `byteorder::BigEndian::read_u32`: the first four bytes, big-endian;
/// it panics on fewer than four.
#[verifier::external_body]
pub(crate) fn be_read_u32(b: &[u8]) -> (r: u32)
    requires
        b@.len() >= 4,
    ensures
        r as int == be_uint(b@.take(4)),
{
    byteorder::BigEndian::read_u32(b)
}

/// Relies on `byteorder::BigEndian::read_i32`: the first four bytes, big-endian,
/// two's complement; it panics on fewer than four.
#[verifier::external_body]
pub(crate) fn be_read_i32(b: &[u8]) -> (r: i32)
    requires
        b@.len() >= 4,
    ensures
        r as int == signed_of(be_uint(b@.take(4)) as int, 0x8000_0000),
{
    byteorder::BigEndian::read_i32(b)
}

/// Relies on `byteorder::BigEndian::read_u64`: the first eight bytes, big-endian;
/// it panics on fewer than eight.
#[verifier::external_body]
pub(crate) fn be_read_u64(b: &[u8]) -> (r: u64)
    requires
        b@.len() >= 8,
    ensures
        r as int == be_uint(b@.take(8)),
{
    byteorder::BigEndian::read_u64(b)
}

/// Relies on `byteorder::BigEndian::read_i64`: the first eight bytes, big-endian,
/// two's complement; it panics on fewer than eight.
#[verifier::external_body]
pub(crate) fn be_read_i64(b: &[u8]) -> (r: i64)
    requires
        b@.len() >= 8,
    ensures
        r as int == signed_of(be_uint(b@.take(8)) as int, 0x8000_0000_0000_0000),
{
    byteorder::BigEndian::read_i64(b)
}

/// Relies on `core::str::from_utf8`: the same bytes as text when they are
/// valid UTF-8, an error otherwise.
#[verifier::external_body]
pub(crate) fn str_from_utf8(b: &[u8]) -> (r: Result<&str, core::str::Utf8Error>)
    ensures
        match r {
            Ok(s) => utf8_text(b@) == Some(s@),
            Err(_) => utf8_text(b@) is None,
        },
{
    core::str::from_utf8(b)
}

} // verus!
