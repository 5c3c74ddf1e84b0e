//! The line-number table: debug information mapping code offsets to source
//! lines.
use vstd::prelude::*;

use crate::reader::{
    be_u16, decodes_to, decodes_to_view, available, read_u16, DecodeError, Decoded, ReaderResult,
};

verus! {

#[derive(Clone, Copy, Debug, PartialEq, Eq, Structural)]
pub struct LineNumber {
    pub start_pc: u16,
    pub line_number: u16,
}

/// The pair stored at `p`.
pub open spec fn line_number_at(s: Seq<u8>, p: int) -> LineNumber {
    LineNumber { start_pc: be_u16(s, p), line_number: be_u16(s, p + 2) }
}

pub open spec fn spec_line_number(s: Seq<u8>, p: int) -> Decoded<LineNumber> {
    if available(s, p, 4) {
        Ok((line_number_at(s, p), 4))
    } else {
        Err(DecodeError::Truncated)
    }
}

impl LineNumber {
    pub fn new(bytes: &[u8], pos: usize) -> (r: ReaderResult<Self>)
        ensures
            decodes_to(r, pos, spec_line_number(bytes@, pos as int)),
    {
        let (start_pc, mid) = read_u16(bytes, pos)?;
        let (line_number, end) = read_u16(bytes, mid)?;
        Ok((Self { start_pc, line_number }, end))
    }
}

pub struct LineNumberTableAttribute {
    pub line_number_table: Vec<LineNumber>,
}

impl View for LineNumberTableAttribute {
    type V = Seq<LineNumber>;

    open spec fn view(&self) -> Seq<LineNumber> {
        self.line_number_table@
    }
}

/// The body at `p`: a count, then that many four-byte pairs.
pub open spec fn spec_line_number_table(s: Seq<u8>, p: int) -> Decoded<Seq<LineNumber>> {
    if available(s, p, 2) && available(s, p + 2, 4 * be_u16(s, p)) {
        let n = be_u16(s, p) as int;
        Ok((Seq::new(n as nat, |i: int| line_number_at(s, p + 2 + 4 * i)), (2 + 4 * n) as nat))
    } else {
        Err(DecodeError::Truncated)
    }
}

impl LineNumberTableAttribute {
    pub fn new(bytes: &[u8], pos: usize) -> (r: ReaderResult<Self>)
        ensures
            decodes_to_view(r, pos, spec_line_number_table(bytes@, pos as int)),
    {
        let (count, start) = read_u16(bytes, pos)?;
        let ghost s = bytes@;
        let mut line_number_table: Vec<LineNumber> = Vec::new();
        let mut cur = start;
        let mut i: u16 = 0;
        while i < count
            invariant
                s == bytes@,
                start == pos + 2,
                available(s, pos as int, 2),
                count == be_u16(s, pos as int),
                i <= count,
                cur == start + 4 * i,
                cur <= s.len(),
                line_number_table@ == Seq::new(i as nat, |j: int| line_number_at(s, start + 4 * j)),
            decreases count - i,
        {
            let (line, next) = match LineNumber::new(bytes, cur) {
                Ok(v) => v,
                Err(e) => {
                    assert(!available(s, start as int, 4 * count));
                    return Err(e);
                },
            };
            line_number_table.push(line);
            cur = next;
            i = i + 1;
            assert(line_number_table@ =~= Seq::new(
                i as nat,
                |j: int| line_number_at(s, start + 4 * j),
            ));
        }
        Ok((Self { line_number_table }, cur))
    }
}

} // verus!
