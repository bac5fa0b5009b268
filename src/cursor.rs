//! Executable readers of single fields, each agreeing with its spec reader.
use crate::error::DecodeError;
use crate::primitives::{
    be_read_i16, be_read_i32, be_read_i64, be_read_u32, be_read_u64, bytes_content, bytes_slice,
    find_byte,
};
use crate::wire::{
    fail, lemma_find_zero_at, lemma_find_zero_none, ok, read_cstr, read_i16, read_i32, read_i64,
    read_i8, read_text, read_u32, read_u64, read_u8, Parsed,
};
use vstd::prelude::*;
use vstd::slice::slice_subrange;

verus! {

/// An executable read result agrees with the spec outcome.
pub open spec fn agrees<T>(r: Result<(T, usize), DecodeError>, m: Parsed<T>) -> bool {
    match r {
        Ok((v, q)) => m == ok(v, q as int),
        Err(e) => m == fail::<T>(e),
    }
}

/// Same as `agrees`, through the view of the value read.
pub open spec fn agrees_view<T: View>(r: Result<(T, usize), DecodeError>, m: Parsed<T::V>) -> bool {
    match r {
        Ok((v, q)) => m == ok(v@, q as int),
        Err(e) => m == fail::<T::V>(e),
    }
}

/// Same as `agrees`, for a field that shares the payload's buffer.
pub open spec fn agrees_bytes(r: Result<(bytes::Bytes, usize), DecodeError>, m: Parsed<Seq<u8>>) -> bool {
    match r {
        Ok((v, q)) => m == ok(bytes_content(v), q as int),
        Err(e) => m == fail::<Seq<u8>>(e),
    }
}

/// A successful read ends between its start and the end of the payload.
pub open spec fn within<T>(r: Result<(T, usize), DecodeError>, pos: usize, len: int) -> bool {
    match r {
        Ok((_, q)) => pos <= q <= len,
        Err(_) => true,
    }
}

pub fn get_u8(s: &[u8], pos: usize) -> (r: Result<(u8, usize), DecodeError>)
    requires
        pos <= s@.len(),
    ensures
        agrees(r, read_u8(s@, pos as int)),
        within(r, pos, s@.len() as int),
{
    if pos < s.len() {
        Ok((s[pos], pos + 1))
    } else {
        Err(DecodeError::UnexpectedEnd)
    }
}

pub fn get_i8(s: &[u8], pos: usize) -> (r: Result<(i8, usize), DecodeError>)
    requires
        pos <= s@.len(),
    ensures
        agrees(r, read_i8(s@, pos as int)),
        within(r, pos, s@.len() as int),
{
    if pos < s.len() {
        let b = s[pos];
        let v: i8 = if b < 128 {
            b as i8
        } else {
            (b as i16 - 256) as i8
        };
        Ok((v, pos + 1))
    } else {
        Err(DecodeError::UnexpectedEnd)
    }
}

pub fn get_i16(s: &[u8], pos: usize) -> (r: Result<(i16, usize), DecodeError>)
    requires
        pos <= s@.len(),
    ensures
        agrees(r, read_i16(s@, pos as int)),
        within(r, pos, s@.len() as int),
{
    if s.len() - pos >= 2 {
        let b = slice_subrange(s, pos, pos + 2);
        assert(b@.take(2) =~= s@.subrange(pos as int, pos + 2));
        Ok((be_read_i16(b), pos + 2))
    } else {
        Err(DecodeError::UnexpectedEnd)
    }
}

pub fn get_u32(s: &[u8], pos: usize) -> (r: Result<(u32, usize), DecodeError>)
    requires
        pos <= s@.len(),
    ensures
        agrees(r, read_u32(s@, pos as int)),
        within(r, pos, s@.len() as int),
{
    if s.len() - pos >= 4 {
        let b = slice_subrange(s, pos, pos + 4);
        assert(b@.take(4) =~= s@.subrange(pos as int, pos + 4));
        Ok((be_read_u32(b), pos + 4))
    } else {
        Err(DecodeError::UnexpectedEnd)
    }
}

pub fn get_i32(s: &[u8], pos: usize) -> (r: Result<(i32, usize), DecodeError>)
    requires
        pos <= s@.len(),
    ensures
        agrees(r, read_i32(s@, pos as int)),
        within(r, pos, s@.len() as int),
{
    if s.len() - pos >= 4 {
        let b = slice_subrange(s, pos, pos + 4);
        assert(b@.take(4) =~= s@.subrange(pos as int, pos + 4));
        Ok((be_read_i32(b), pos + 4))
    } else {
        Err(DecodeError::UnexpectedEnd)
    }
}

pub fn get_u64(s: &[u8], pos: usize) -> (r: Result<(u64, usize), DecodeError>)
    requires
        pos <= s@.len(),
    ensures
        agrees(r, read_u64(s@, pos as int)),
        within(r, pos, s@.len() as int),
{
    if s.len() - pos >= 8 {
        let b = slice_subrange(s, pos, pos + 8);
        assert(b@.take(8) =~= s@.subrange(pos as int, pos + 8));
        Ok((be_read_u64(b), pos + 8))
    } else {
        Err(DecodeError::UnexpectedEnd)
    }
}

pub fn get_i64(s: &[u8], pos: usize) -> (r: Result<(i64, usize), DecodeError>)
    requires
        pos <= s@.len(),
    ensures
        agrees(r, read_i64(s@, pos as int)),
        within(r, pos, s@.len() as int),
{
    if s.len() - pos >= 8 {
        let b = slice_subrange(s, pos, pos + 8);
        assert(b@.take(8) =~= s@.subrange(pos as int, pos + 8));
        Ok((be_read_i64(b), pos + 8))
    } else {
        Err(DecodeError::UnexpectedEnd)
    }
}

/// A zero-terminated field, terminator included, sharing `buf`'s storage.
pub fn get_cstr(buf: &bytes::Bytes, s: &[u8], pos: usize) -> (r: Result<(bytes::Bytes, usize), DecodeError>)
    requires
        s@ == bytes_content(*buf),
        pos <= s@.len(),
    ensures
        agrees_bytes(r, read_cstr(s@, pos as int)),
        within(r, pos, s@.len() as int),
{
    let rest = slice_subrange(s, pos, s.len());
    match find_byte(0, rest) {
        Some(i) => {
            proof {
                assert forall|j: int| pos <= j < pos + i implies s@[j] != 0 by {
                    assert(rest@[j - pos] == s@[j]);
                }
                assert(rest@[i as int] == s@[pos + i]);
                lemma_find_zero_at(s@, pos as int, pos + i);
            }
            let end = pos + i + 1;
            Ok((bytes_slice(buf, pos, end), end))
        },
        None => {
            proof {
                assert forall|j: int| pos <= j < s@.len() implies s@[j] != 0 by {
                    assert(rest@[j - pos] == s@[j]);
                }
                lemma_find_zero_none(s@, pos as int);
            }
            Err(DecodeError::UnexpectedEnd)
        },
    }
}

/// A length-prefixed field, sharing `buf`'s storage; a negative length is refused.
pub fn get_text(buf: &bytes::Bytes, s: &[u8], pos: usize) -> (r: Result<(bytes::Bytes, usize), DecodeError>)
    requires
        s@ == bytes_content(*buf),
        pos <= s@.len(),
    ensures
        agrees_bytes(r, read_text(s@, pos as int)),
        within(r, pos, s@.len() as int),
{
    let (n, q) = match get_i32(s, pos) {
        Ok(v) => v,
        Err(e) => return Err(e),
    };
    if n < 0 {
        return Err(DecodeError::NegativeLength(n));
    }
    let n = n as usize;
    if s.len() - q >= n {
        Ok((bytes_slice(buf, q, q + n), q + n))
    } else {
        Err(DecodeError::UnexpectedEnd)
    }
}

} // verus!
