//! The code attribute: a method's instructions, its exception table and
//! its nested attributes.
use vstd::prelude::*;

use crate::class::attribute::{
    attributes_view, decode_attributes, spec_attributes, Attribute, AttributeView,
};
use crate::class::constant_pool_table::{texts, Utf8Table};
use crate::instruction::{spec_instructions, Instruction};
use crate::reader::{
    available, be_u16, be_u32, copy_bytes, decodes_to, decodes_to_view, read_u16, read_u32,
    remaining, DecodeError, Decoded, ReaderResult,
};

verus! {

/// One exception-table range. Decoded, never consulted.
#[derive(Clone, Copy, Debug, PartialEq, Eq, Structural)]
pub struct Exception {
    pub start_pc: u16,
    pub end_pc: u16,
    pub handle_pc: u16,
    pub catch_type: u16,
}

pub open spec fn exception_at(s: Seq<u8>, p: int) -> Exception {
    Exception {
        start_pc: be_u16(s, p),
        end_pc: be_u16(s, p + 2),
        handle_pc: be_u16(s, p + 4),
        catch_type: be_u16(s, p + 6),
    }
}

pub open spec fn spec_exception(s: Seq<u8>, p: int) -> Decoded<Exception> {
    if available(s, p, 8) {
        Ok((exception_at(s, p), 8))
    } else {
        Err(DecodeError::Truncated)
    }
}

impl Exception {
    pub fn new(bytes: &[u8], pos: usize) -> (r: ReaderResult<Self>)
        ensures
            decodes_to(r, pos, spec_exception(bytes@, pos as int)),
    {
        let (start_pc, at1) = read_u16(bytes, pos)?;
        let (end_pc, at2) = read_u16(bytes, at1)?;
        let (handle_pc, at3) = read_u16(bytes, at2)?;
        let (catch_type, end) = read_u16(bytes, at3)?;
        Ok((Self { start_pc, end_pc, handle_pc, catch_type }, end))
    }
}

/// The exception table at `p`: a count, then that many eight-byte ranges.
pub open spec fn spec_exception_table(s: Seq<u8>, p: int) -> Decoded<Seq<Exception>> {
    if available(s, p, 2) && available(s, p + 2, 8 * be_u16(s, p)) {
        let n = be_u16(s, p) as int;
        Ok((Seq::new(n as nat, |i: int| exception_at(s, p + 2 + 8 * i)), (2 + 8 * n) as nat))
    } else {
        Err(DecodeError::Truncated)
    }
}

/// Decodes an exception table: a count, then that many ranges.
pub fn decode_exception_table(bytes: &[u8], pos: usize) -> (r: ReaderResult<Vec<Exception>>)
    ensures
        decodes_to_view(r, pos, spec_exception_table(bytes@, pos as int)),
{
    let (count, start) = read_u16(bytes, pos)?;
    let ghost s = bytes@;
    let mut table: Vec<Exception> = Vec::new();
    let mut cur = start;
    let mut i: u16 = 0;
    while i < count
        invariant
            s == bytes@,
            start == pos + 2,
            available(s, pos as int, 2),
            count == be_u16(s, pos as int),
            i <= count,
            cur == start + 8 * i,
            cur <= s.len(),
            table@ == Seq::new(i as nat, |j: int| exception_at(s, start + 8 * j)),
        decreases count - i,
    {
        let (exception, next) = match Exception::new(bytes, cur) {
            Ok(v) => v,
            Err(e) => {
                assert(available(s, start as int, 8 * count) == false);
                return Err(e);
            },
        };
        table.push(exception);
        cur = next;
        i = i + 1;
        assert(table@ =~= Seq::new(i as nat, |j: int| exception_at(s, start + 8 * j)));
    }
    Ok((table, cur))
}

pub struct CodeAttribute {
    pub max_stack: u16,
    pub max_locals: u16,
    pub code_length: u32,
    pub instructions: Vec<Instruction>,
    pub exception_table: Vec<Exception>,
    pub attribute_info: Vec<Attribute>,
}

pub ghost struct CodeView {
    pub max_stack: u16,
    pub max_locals: u16,
    pub code_length: u32,
    pub instructions: Seq<Instruction>,
    pub exception_table: Seq<Exception>,
    pub attributes: Seq<AttributeView>,
}

pub open spec fn code_view(c: CodeAttribute) -> CodeView
    decreases c,
{
    CodeView {
        max_stack: c.max_stack,
        max_locals: c.max_locals,
        code_length: c.code_length,
        instructions: c.instructions@,
        exception_table: c.exception_table@,
        attributes: attributes_view(c.attribute_info@),
    }
}

impl View for CodeAttribute {
    type V = CodeView;

    open spec fn view(&self) -> CodeView {
        code_view(*self)
    }
}

/// The body of a code attribute at `p`: stack and local limits, the code
/// bytes with their length in front, the exception table, and the nested
/// attributes with their count in front.
pub open spec fn spec_code(s: Seq<u8>, p: int, t: Map<u16, Seq<u8>>) -> Decoded<CodeView>
    decreases remaining(s.len() as int, p), 0nat,
{
    if !available(s, p, 8) || !available(s, p + 8, be_u32(s, p + 4) as int) {
        Err(DecodeError::Truncated)
    } else {
        let n = be_u32(s, p + 4) as int;
        let q = p + 8 + n;
        match spec_instructions(s.subrange(p + 8, q), 0) {
            Err(e) => Err(e),
            Ok(instructions) => match spec_exception_table(s, q) {
                Err(e) => Err(e),
                Ok((exception_table, k1)) => {
                    if !available(s, q + k1, 2) {
                        Err(DecodeError::Truncated)
                    } else {
                        let count = be_u16(s, q + k1);
                        match spec_attributes(s, q + k1 + 2, count as nat, t) {
                            Err(e) => Err(e),
                            Ok((attributes, k2)) => Ok(
                                (
                                    CodeView {
                                        max_stack: be_u16(s, p),
                                        max_locals: be_u16(s, p + 2),
                                        code_length: n as u32,
                                        instructions,
                                        exception_table,
                                        attributes,
                                    },
                                    (8 + n + k1 + 2 + k2) as nat,
                                ),
                            ),
                        }
                    }
                },
            },
        }
    }
}

impl CodeAttribute {
    /// Decodes a code attribute's body at `pos`; nested attribute names are
    /// resolved through `utf8_table`.
    pub fn new(bytes: &[u8], pos: usize, utf8_table: &Utf8Table) -> (r: ReaderResult<Self>)
        ensures
            decodes_to_view(r, pos, spec_code(bytes@, pos as int, texts(utf8_table@))),
            r is Ok ==> crate::instruction::total_width(r->Ok_0.0.instructions@)
                == r->Ok_0.0.code_length,
        decreases remaining(bytes@.len() as int, pos as int), 0nat,
    {
        let ghost s = bytes@;
        let (max_stack, at1) = read_u16(bytes, pos)?;
        let (max_locals, at2) = read_u16(bytes, at1)?;
        let (code_length, code_start) = read_u32(bytes, at2)?;
        if code_length as u64 > (bytes.len() - code_start) as u64 {
            return Err(DecodeError::Truncated);
        }
        let n = code_length as usize;
        let code = copy_bytes(bytes, code_start, n);
        let code_end = code_start + n;
        assert(code@ == s.subrange(pos + 8, pos + 8 + code_length as int));
        let instructions = Instruction::from_codes(code)?;
        let (exception_table, at4) = decode_exception_table(bytes, code_end)?;
        let (attributes_count, at5) = read_u16(bytes, at4)?;
        let (attribute_info, end) = decode_attributes(bytes, at5, attributes_count, utf8_table)?;
        Ok(
            (
                Self {
                    max_stack,
                    max_locals,
                    code_length,
                    instructions,
                    exception_table,
                    attribute_info,
                },
                end,
            ),
        )
    }
}

} // verus!
