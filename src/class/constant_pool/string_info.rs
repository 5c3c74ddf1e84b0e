//! A string literal: the pool index of its UTF-8 text.
use vstd::prelude::*;

use crate::reader::{be_u16, available, read_u16, Decoded, DecodeError, ReaderResult, decodes_to};

verus! {

#[derive(Clone, Copy, Debug, PartialEq, Eq, Structural)]
pub struct StringInfo {
    pub utf8_index: u16,
}

/// The record body at `p`: one big-endian pool index.
pub open spec fn spec_string_info(s: Seq<u8>, p: int) -> Decoded<StringInfo> {
    if available(s, p, 2) {
        Ok((StringInfo { utf8_index: be_u16(s, p) }, 2))
    } else {
        Err(DecodeError::Truncated)
    }
}

impl StringInfo {
    pub fn new(bytes: &[u8], pos: usize) -> (r: ReaderResult<Self>)
        ensures
            decodes_to(r, pos, spec_string_info(bytes@, pos as int)),
    {
        let (utf8_index, pos) = read_u16(bytes, pos)?;
        Ok((Self { utf8_index }, pos))
    }
}

} // verus!
