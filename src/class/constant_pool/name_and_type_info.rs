//! A name-and-type pair: the pool indices of a name and a descriptor.
use vstd::prelude::*;

use crate::reader::{be_u16, available, read_u16, Decoded, DecodeError, ReaderResult, decodes_to};

verus! {

#[derive(Clone, Copy, Debug, PartialEq, Eq, Structural)]
pub struct NameAndTypeInfo {
    pub name_index: u16,
    pub descriptor_index: u16,
}

/// The record body at `p`: two big-endian pool indices.
pub open spec fn spec_name_and_type_info(s: Seq<u8>, p: int) -> Decoded<NameAndTypeInfo> {
    if available(s, p, 4) {
        Ok((NameAndTypeInfo { name_index: be_u16(s, p), descriptor_index: be_u16(s, p + 2) }, 4))
    } else {
        Err(DecodeError::Truncated)
    }
}

impl NameAndTypeInfo {
    pub fn new(bytes: &[u8], pos: usize) -> (r: ReaderResult<Self>)
        ensures
            decodes_to(r, pos, spec_name_and_type_info(bytes@, pos as int)),
    {
        let (name_index, mid) = read_u16(bytes, pos)?;
        let (descriptor_index, end) = read_u16(bytes, mid)?;
        Ok((Self { name_index, descriptor_index }, end))
    }
}

} // verus!
