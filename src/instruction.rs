//! The supported instruction set and the decoder from raw code bytes.
use vstd::prelude::*;

use crate::reader::{remaining, DecodeError};

verus! {

/// One decoded instruction, with its operand bytes as they stood in the
/// code.
#[derive(Clone, Copy, Debug, PartialEq, Eq, Structural)]
pub enum Instruction {
    Iconst0,
    Iconst1,
    Iconst2,
    Iconst3,
    Iconst4,
    Iconst5,
    Ldc(u8),
    Iload1,
    Iload2,
    Aload0,
    Istore1,
    Istore2,
    Iadd,
    Isub,
    Return,
    GetStatic(u8, u8),
    InvokeVirtual(u8, u8),
    Invokespecial(u8, u8),
}

/// The number of code bytes an instruction occupies: its opcode and its
/// operands.
pub open spec fn width(i: Instruction) -> nat {
    match i {
        Instruction::Ldc(_) => 2,
        Instruction::GetStatic(..) | Instruction::InvokeVirtual(..) | Instruction::Invokespecial(
            ..,
        ) => 3,
        _ => 1,
    }
}

/// The number of code bytes a sequence of instructions occupies.
pub open spec fn total_width(s: Seq<Instruction>) -> nat
    decreases s.len(),
{
    if s.len() == 0 {
        0
    } else {
        width(s[0]) + total_width(s.drop_first())
    }
}

/// The instruction whose opcode stands at `p`, with its operands.
pub open spec fn spec_instruction(c: Seq<u8>, p: int) -> Result<Instruction, DecodeError>
    recommends
        0 <= p < c.len(),
{
    let op = c[p];
    let one = p + 1 < c.len();
    let two = p + 2 < c.len();
    if op == 0x03 {
        Ok(Instruction::Iconst0)
    } else if op == 0x04 {
        Ok(Instruction::Iconst1)
    } else if op == 0x05 {
        Ok(Instruction::Iconst2)
    } else if op == 0x06 {
        Ok(Instruction::Iconst3)
    } else if op == 0x07 {
        Ok(Instruction::Iconst4)
    } else if op == 0x08 {
        Ok(Instruction::Iconst5)
    } else if op == 0x12 {
        if one {
            Ok(Instruction::Ldc(c[p + 1]))
        } else {
            Err(DecodeError::Truncated)
        }
    } else if op == 0x1b {
        Ok(Instruction::Iload1)
    } else if op == 0x1c {
        Ok(Instruction::Iload2)
    } else if op == 0x2a {
        Ok(Instruction::Aload0)
    } else if op == 0x3c {
        Ok(Instruction::Istore1)
    } else if op == 0x3d {
        Ok(Instruction::Istore2)
    } else if op == 0x60 {
        Ok(Instruction::Iadd)
    } else if op == 0x64 {
        Ok(Instruction::Isub)
    } else if op == 0xb1 {
        Ok(Instruction::Return)
    } else if op == 0xb2 || op == 0xb6 || op == 0xb7 {
        if !two {
            Err(DecodeError::Truncated)
        } else if op == 0xb2 {
            Ok(Instruction::GetStatic(c[p + 1], c[p + 2]))
        } else if op == 0xb6 {
            Ok(Instruction::InvokeVirtual(c[p + 1], c[p + 2]))
        } else {
            Ok(Instruction::Invokespecial(c[p + 1], c[p + 2]))
        }
    } else {
        Err(DecodeError::UnsupportedOpcode(op))
    }
}

/// `pre` followed by the decoded `rest`, or the error that stopped it.
pub open spec fn prefixed(pre: Seq<Instruction>, rest: Result<Seq<Instruction>, DecodeError>) -> Result<
    Seq<Instruction>,
    DecodeError,
> {
    match rest {
        Ok(s) => Ok(pre + s),
        Err(e) => Err(e),
    }
}

/// The instructions of the code bytes from `p` to the end, in order.
pub open spec fn spec_instructions(c: Seq<u8>, p: int) -> Result<Seq<Instruction>, DecodeError>
    decreases remaining(c.len() as int, p),
{
    if p < 0 || p >= c.len() {
        Ok(seq![])
    } else {
        match spec_instruction(c, p) {
            Ok(i) => prefixed(seq![i], spec_instructions(c, p + width(i))),
            Err(e) => Err(e),
        }
    }
}

/// A decoded sequence occupies exactly the bytes it was decoded from.
pub proof fn lemma_instructions_length_preserving(c: Seq<u8>, p: int)
    requires
        0 <= p <= c.len(),
    ensures
        spec_instructions(c, p) is Ok ==> total_width(spec_instructions(c, p)->Ok_0) == c.len()
            - p,
    decreases remaining(c.len() as int, p),
{
    if p < c.len() {
        if let Ok(i) = spec_instruction(c, p) {
            if p + width(i) <= c.len() {
                lemma_instructions_length_preserving(c, p + width(i));
            }
            if let Ok(rest) = spec_instructions(c, p + width(i)) {
                assert((seq![i] + rest).drop_first() =~= rest);
            }
        }
    }
}

/// The opcodes this decoder accepts.
pub open spec fn supported(op: u8) -> bool {
    (0x03 <= op <= 0x08) || op == 0x12 || op == 0x1b || op == 0x1c || op == 0x2a || op == 0x3c
        || op == 0x3d || op == 0x60 || op == 0x64 || op == 0xb1 || op == 0xb2 || op == 0xb6 || op
        == 0xb7
}

/// Bytes after a cleanly decoded stretch do not change how it decodes.
proof fn lemma_decode_prefix(pre: Seq<u8>, x: Seq<u8>, p: int)
    requires
        0 <= p <= pre.len(),
        spec_instructions(pre, p) is Ok,
    ensures
        spec_instructions(pre + x, p) == prefixed(
            spec_instructions(pre, p)->Ok_0,
            spec_instructions(pre + x, pre.len() as int),
        ),
    decreases remaining(pre.len() as int, p),
{
    let c = pre + x;
    if p == pre.len() {
        if let Ok(t) = spec_instructions(c, p) {
            assert(Seq::<Instruction>::empty() + t =~= t);
        }
    } else {
        assert(c[p] == pre[p]);
        if p + 1 < pre.len() {
            assert(c[p + 1] == pre[p + 1]);
        }
        if p + 2 < pre.len() {
            assert(c[p + 2] == pre[p + 2]);
        }
        let i = spec_instruction(pre, p)->Ok_0;
        assert(spec_instruction(c, p) == spec_instruction(pre, p));
        lemma_decode_prefix(pre, x, p + width(i));
        let rest = spec_instructions(pre, p + width(i))->Ok_0;
        if let Ok(t) = spec_instructions(c, pre.len() as int) {
            assert(seq![i] + (rest + t) =~= (seq![i] + rest) + t);
        }
    }
}

/// Once decoding reaches a byte outside the supported set, it fails with
/// that byte: nothing is skipped.
pub proof fn lemma_unsupported_opcode_fails(pre: Seq<u8>, op: u8, tail: Seq<u8>)
    requires
        spec_instructions(pre, 0) is Ok,
        !supported(op),
    ensures
        spec_instructions(pre + seq![op] + tail, 0) == Err::<Seq<Instruction>, DecodeError>(
            DecodeError::UnsupportedOpcode(op),
        ),
{
    let x = seq![op] + tail;
    assert(pre + seq![op] + tail =~= pre + x);
    lemma_decode_prefix(pre, x, 0);
    assert((pre + x)[pre.len() as int] == op);
}

impl Instruction {
    /// Decodes a whole code buffer, in stream order. An opcode outside the
    /// supported set, or one whose operands run past the end, stops it.
    pub fn from_codes(codes: Vec<u8>) -> (r: Result<Vec<Instruction>, DecodeError>)
        ensures
            match spec_instructions(codes@, 0) {
                Ok(s) => r is Ok && r->Ok_0@ == s,
                Err(e) => r == Err::<Vec<Instruction>, DecodeError>(e),
            },
            r is Ok ==> total_width(r->Ok_0@) == codes@.len(),
    {
        proof {
            lemma_instructions_length_preserving(codes@, 0);
        }
        let n = codes.len();
        let mut instructions: Vec<Instruction> = Vec::new();
        let mut i: usize = 0;
        while i < n
            invariant
                n == codes@.len(),
                i <= n,
                spec_instructions(codes@, 0) == prefixed(
                    instructions@,
                    spec_instructions(codes@, i as int),
                ),
            decreases n - i,
        {
            let op = codes[i];
            let one = n - i > 1;
            let two = n - i > 2;
            let inst = if op == 0x03 {
                Instruction::Iconst0
            } else if op == 0x04 {
                Instruction::Iconst1
            } else if op == 0x05 {
                Instruction::Iconst2
            } else if op == 0x06 {
                Instruction::Iconst3
            } else if op == 0x07 {
                Instruction::Iconst4
            } else if op == 0x08 {
                Instruction::Iconst5
            } else if op == 0x12 {
                if !one {
                    return Err(DecodeError::Truncated);
                }
                Instruction::Ldc(codes[i + 1])
            } else if op == 0x1b {
                Instruction::Iload1
            } else if op == 0x1c {
                Instruction::Iload2
            } else if op == 0x2a {
                Instruction::Aload0
            } else if op == 0x3c {
                Instruction::Istore1
            } else if op == 0x3d {
                Instruction::Istore2
            } else if op == 0x60 {
                Instruction::Iadd
            } else if op == 0x64 {
                Instruction::Isub
            } else if op == 0xb1 {
                Instruction::Return
            } else if op == 0xb2 || op == 0xb6 || op == 0xb7 {
                if !two {
                    return Err(DecodeError::Truncated);
                }
                if op == 0xb2 {
                    Instruction::GetStatic(codes[i + 1], codes[i + 2])
                } else if op == 0xb6 {
                    Instruction::InvokeVirtual(codes[i + 1], codes[i + 2])
                } else {
                    Instruction::Invokespecial(codes[i + 1], codes[i + 2])
                }
            } else {
                return Err(DecodeError::UnsupportedOpcode(op));
            };
            assert(spec_instruction(codes@, i as int) == Ok::<Instruction, DecodeError>(inst));
            let w: usize = match inst {
                Instruction::Ldc(_) => 2,
                Instruction::GetStatic(..) | Instruction::InvokeVirtual(..)
                | Instruction::Invokespecial(..) => 3,
                _ => 1,
            };
            assert(w == width(inst));
            proof {
                let rest = spec_instructions(codes@, i + w);
                if let Ok(t) = rest {
                    assert(instructions@ + (seq![inst] + t) =~= instructions@.push(inst) + t);
                }
            }
            instructions.push(inst);
            i = i + w;
        }
        assert(instructions@ + seq![] =~= instructions@);
        Ok(instructions)
    }
}

} // verus!
