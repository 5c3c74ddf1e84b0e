//! A method reference: its class and its name-and-type pair.
use vstd::prelude::*;

use crate::reader::{be_u16, available, read_u16, Decoded, DecodeError, ReaderResult, decodes_to};

verus! {

#[derive(Clone, Copy, Debug, PartialEq, Eq, Structural)]
pub struct MethodrefInfo {
    pub class_index: u16,
    pub name_and_type_index: u16,
}

/// The record body at `p`: two big-endian pool indices.
pub open spec fn spec_methodref_info(s: Seq<u8>, p: int) -> Decoded<MethodrefInfo> {
    if available(s, p, 4) {
        Ok((MethodrefInfo { class_index: be_u16(s, p), name_and_type_index: be_u16(s, p + 2) }, 4))
    } else {
        Err(DecodeError::Truncated)
    }
}

impl MethodrefInfo {
    pub fn new(bytes: &[u8], pos: usize) -> (r: ReaderResult<Self>)
        ensures
            decodes_to(r, pos, spec_methodref_info(bytes@, pos as int)),
    {
        let (class_index, mid) = read_u16(bytes, pos)?;
        let (name_and_type_index, end) = read_u16(bytes, mid)?;
        Ok((Self { class_index, name_and_type_index }, end))
    }
}

} // verus!
