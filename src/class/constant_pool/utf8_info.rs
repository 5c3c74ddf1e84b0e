//! A UTF-8 text blob, kept as its raw bytes.
use vstd::prelude::*;

use crate::reader::{copy_bytes, be_u16, available, read_u16, Decoded, DecodeError, ReaderResult, decodes_to_view};

verus! {

pub struct Utf8Info {
    pub bytes: Vec<u8>,
}

impl View for Utf8Info {
    type V = Seq<u8>;

    open spec fn view(&self) -> Seq<u8> {
        self.bytes@
    }
}

/// The record body at `p`: a big-endian byte count, then that many bytes.
pub open spec fn spec_utf8_info(s: Seq<u8>, p: int) -> Decoded<Seq<u8>> {
    if available(s, p, 2) && available(s, p + 2, be_u16(s, p) as int) {
        let n = be_u16(s, p) as int;
        Ok((s.subrange(p + 2, p + 2 + n), (2 + n) as nat))
    } else {
        Err(DecodeError::Truncated)
    }
}

impl Utf8Info {
    pub fn new(bytes: &[u8], pos: usize) -> (r: ReaderResult<Self>)
        ensures
            decodes_to_view(r, pos, spec_utf8_info(bytes@, pos as int)),
    {
        let (length, start) = read_u16(bytes, pos)?;
        let n = length as usize;
        if n > bytes.len() - start {
            return Err(DecodeError::Truncated);
        }
        let text = copy_bytes(bytes, start, n);
        Ok((Self { bytes: text }, start + n))
    }

    /// A copy holding the same bytes.
    pub fn duplicate(&self) -> (r: Self)
        ensures
            r@ == self@,
    {
        let mut bytes: Vec<u8> = Vec::with_capacity(self.bytes.len());
        let mut i: usize = 0;
        while i < self.bytes.len()
            invariant
                i <= self.bytes@.len(),
                bytes@ == self.bytes@.subrange(0, i as int),
            decreases self.bytes@.len() - i,
        {
            bytes.push(self.bytes[i]);
            i = i + 1;
            assert(bytes@ =~= self.bytes@.subrange(0, i as int));
        }
        assert(bytes@ =~= self.bytes@);
        Self { bytes }
    }
}

} // verus!
