//! Big-endian reads from a byte buffer at an explicit position.
//!
//! Every decoder of this crate takes the whole buffer and the position it
//! starts at, and hands back its value together with the position just past
//! the bytes it consumed. The spec side of each decoder instead returns the
//! number of bytes consumed, so that a decoded record never moves backwards.
use byteorder::{BigEndian, ByteOrder};
use vstd::prelude::*;
use vstd::utf8::{decode_utf8, valid_utf8};

use crate::class::attribute::NotFoundAttribute;
use crate::class::constant_pool::tag::NotFoundConstantTagError;
use crate::class::method::NotFoundUtf8;

verus! {

/// Why decoding stopped. Every failure aborts the whole decode.
#[derive(Clone, Copy, Debug, PartialEq, Eq, Structural)]
pub enum DecodeError {
    /// The buffer ended inside a record.
    Truncated,
    /// A constant-pool count of zero: the count is one more than the number
    /// of records, so it is never zero.
    ZeroPoolCount,
    /// A constant-pool tag that this decoder does not represent.
    UnknownTag(NotFoundConstantTagError),
    /// An attribute whose name is not one this decoder knows.
    UnknownAttribute(NotFoundAttribute),
    /// A pool index that should name a UTF-8 entry and does not.
    NotFoundUtf8(NotFoundUtf8),
    /// A UTF-8 entry, by pool index, whose bytes are not valid UTF-8.
    InvalidUtf8(u16),
    /// An instruction byte outside the supported set.
    UnsupportedOpcode(u8),
}

/// A decoded value and the position just past it.
pub type ReaderResult<T> = Result<(T, usize), DecodeError>;

/// A decoded value (or its view) and the number of bytes it took.
pub type Decoded<V> = Result<(V, nat), DecodeError>;

/// `r` is the executable outcome of a decode that started at `pos` and
/// whose meaning is `d`: same error, or same value and end position.
pub open spec fn decodes_to<T>(r: ReaderResult<T>, pos: usize, d: Decoded<T>) -> bool {
    match d {
        Ok((v, k)) => r is Ok && r->Ok_0.0 == v && r->Ok_0.1 == pos + k,
        Err(e) => r == Err::<(T, usize), DecodeError>(e),
    }
}

/// As `decodes_to`, for a value compared through its view.
pub open spec fn decodes_to_view<T: View>(r: ReaderResult<T>, pos: usize, d: Decoded<T::V>) -> bool {
    match d {
        Ok((v, k)) => r is Ok && r->Ok_0.0@ == v && r->Ok_0.1 == pos + k,
        Err(e) => r == Err::<(T, usize), DecodeError>(e),
    }
}

/// A list of which `pre` is decoded, taking `used` bytes, followed by the
/// decoding `rest` of the remainder.
pub open spec fn joined<V>(pre: Seq<V>, used: nat, rest: Decoded<Seq<V>>) -> Decoded<Seq<V>> {
    match rest {
        Ok((r, k)) => Ok((pre + r, used + k)),
        Err(e) => Err(e),
    }
}

pub open spec fn be_u16(s: Seq<u8>, p: int) -> u16 {
    (s[p] as int * 0x100 + s[p + 1] as int) as u16
}

pub open spec fn be_u32(s: Seq<u8>, p: int) -> u32 {
    (s[p] as int * 0x1000000 + s[p + 1] as int * 0x10000 + s[p + 2] as int * 0x100 + s[p
        + 3] as int) as u32
}

/// The distance from `p` to the end `len`, or zero past it: the measure
/// that every recursive decoder decreases.
pub open spec fn remaining(len: int, p: int) -> nat {
    if p < len {
        (len - p) as nat
    } else {
        0
    }
}

/// Whether `n` bytes are available at `p`.
pub open spec fn available(s: Seq<u8>, p: int, n: int) -> bool {
    0 <= p && p + n <= s.len()
}

pub open spec fn spec_u8(s: Seq<u8>, p: int) -> Decoded<u8> {
    if available(s, p, 1) {
        Ok((s[p], 1))
    } else {
        Err(DecodeError::Truncated)
    }
}

pub open spec fn spec_u16(s: Seq<u8>, p: int) -> Decoded<u16> {
    if available(s, p, 2) {
        Ok((be_u16(s, p), 2))
    } else {
        Err(DecodeError::Truncated)
    }
}

pub open spec fn spec_u32(s: Seq<u8>, p: int) -> Decoded<u32> {
    if available(s, p, 4) {
        Ok((be_u32(s, p), 4))
    } else {
        Err(DecodeError::Truncated)
    }
}

/// Relies on byteorder's `BigEndian::read_u16`: the first two bytes of the
/// slice, most significant first; it panics on fewer than two.
#[verifier::external_body]
fn big_endian_u16(buf: &[u8], pos: usize) -> (r: u16)
    requires
        pos + 2 <= buf@.len(),
    ensures
        r == be_u16(buf@, pos as int),
{
    BigEndian::read_u16(&buf[pos..])
}

/// Relies on byteorder's `BigEndian::read_u32`: the first four bytes of the
/// slice, most significant first; it panics on fewer than four.
#[verifier::external_body]
fn big_endian_u32(buf: &[u8], pos: usize) -> (r: u32)
    requires
        pos + 4 <= buf@.len(),
    ensures
        r == be_u32(buf@, pos as int),
{
    BigEndian::read_u32(&buf[pos..])
}

/// Relies on std's `String::from_utf8`: it succeeds exactly on valid UTF-8,
/// and the string then holds the characters those bytes encode.
#[verifier::external_body]
pub(crate) fn utf8_string(b: &[u8]) -> (r: Option<String>)
    ensures
        match r {
            Some(t) => valid_utf8(b@) && t@ == decode_utf8(b@),
            None => !valid_utf8(b@),
        },
{
    String::from_utf8(b.to_vec()).ok()
}

/// The `n` bytes from `start`, copied out.
pub fn copy_bytes(bytes: &[u8], start: usize, n: usize) -> (r: Vec<u8>)
    requires
        start + n <= bytes@.len(),
    ensures
        r@ == bytes@.subrange(start as int, start + n),
{
    let mut out: Vec<u8> = Vec::with_capacity(n);
    let len = bytes.len();
    let mut i: usize = 0;
    while i < n
        invariant
            i <= n,
            len == bytes@.len(),
            start + n <= len,
            out@ == bytes@.subrange(start as int, start + i),
        decreases n - i,
    {
        out.push(bytes[start + i]);
        i = i + 1;
        assert(out@ =~= bytes@.subrange(start as int, start + i));
    }
    out
}

/// Whether two byte strings are equal.
pub fn same_bytes(a: &[u8], b: &[u8]) -> (r: bool)
    ensures
        r == (a@ == b@),
{
    if a.len() != b.len() {
        return false;
    }
    let mut i: usize = 0;
    while i < a.len()
        invariant
            a@.len() == b@.len(),
            i <= a@.len(),
            a@.subrange(0, i as int) == b@.subrange(0, i as int),
        decreases a@.len() - i,
    {
        if a[i] != b[i] {
            assert(a@.subrange(0, i + 1)[i as int] != b@.subrange(0, i + 1)[i as int]);
            return false;
        }
        assert(a@.subrange(0, i + 1) =~= a@.subrange(0, i as int).push(a@[i as int]));
        assert(b@.subrange(0, i + 1) =~= b@.subrange(0, i as int).push(b@[i as int]));
        i = i + 1;
    }
    assert(a@ =~= a@.subrange(0, i as int));
    assert(b@ =~= b@.subrange(0, i as int));
    true
}

pub fn read_u8(bytes: &[u8], pos: usize) -> (r: ReaderResult<u8>)
    ensures
        decodes_to(r, pos, spec_u8(bytes@, pos as int)),
{
    if pos < bytes.len() {
        Ok((bytes[pos], pos + 1))
    } else {
        Err(DecodeError::Truncated)
    }
}

pub fn read_u16(bytes: &[u8], pos: usize) -> (r: ReaderResult<u16>)
    ensures
        decodes_to(r, pos, spec_u16(bytes@, pos as int)),
{
    if pos <= bytes.len() && 2 <= bytes.len() - pos {
        Ok((big_endian_u16(bytes, pos), pos + 2))
    } else {
        Err(DecodeError::Truncated)
    }
}

pub fn read_u32(bytes: &[u8], pos: usize) -> (r: ReaderResult<u32>)
    ensures
        decodes_to(r, pos, spec_u32(bytes@, pos as int)),
{
    if pos <= bytes.len() && 4 <= bytes.len() - pos {
        Ok((big_endian_u32(bytes, pos), pos + 4))
    } else {
        Err(DecodeError::Truncated)
    }
}

} // verus!
