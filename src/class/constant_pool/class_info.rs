//! A class reference: the pool index of the class name.
use vstd::prelude::*;

use crate::reader::{be_u16, available, read_u16, Decoded, DecodeError, ReaderResult, decodes_to};

verus! {

#[derive(Clone, Copy, Debug, PartialEq, Eq, Structural)]
pub struct ClassInfo {
    pub name_index: u16,
}

/// The record body at `p`: one big-endian pool index.
pub open spec fn spec_class_info(s: Seq<u8>, p: int) -> Decoded<ClassInfo> {
    if available(s, p, 2) {
        Ok((ClassInfo { name_index: be_u16(s, p) }, 2))
    } else {
        Err(DecodeError::Truncated)
    }
}

impl ClassInfo {
    pub fn new(bytes: &[u8], pos: usize) -> (r: ReaderResult<Self>)
        ensures
            decodes_to(r, pos, spec_class_info(bytes@, pos as int)),
    {
        let (name_index, pos) = read_u16(bytes, pos)?;
        Ok((Self { name_index }, pos))
    }
}

} // verus!
