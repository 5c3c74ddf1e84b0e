//! The execution engine: one frame per method activation, interpreting a
//! decoded instruction sequence against the class's constant pool.
use std::collections::HashMap;

use vstd::prelude::*;
use vstd::std_specs::hash::{group_hash_axioms, obeys_key_model};
use vstd::utf8::{decode_utf8, valid_utf8};

use crate::class::constant_pool::tag::ConstantTag;
use crate::class::constant_pool::utf8_info::Utf8Info;
use crate::class::constant_pool::{ConstantPoolInfo, EntryView};
use crate::class::attribute::code::{CodeAttribute, CodeView};
use crate::class::method::{code_attributes, MethodView};
use crate::class::{Class, ClassView};
use crate::class::constant_pool_table::{
    spec_resolve, spec_utf8_text, ConstantPoolTable, ResolutionError,
};
use crate::instruction::Instruction;
use crate::operand_stack::{OperandStack, Value};
use crate::reader::{same_bytes, utf8_string};

verus! {

broadcast use group_hash_axioms;

/// Why a run stopped. Every one of these is fatal.
#[derive(Clone, Copy, Debug, PartialEq, Eq, Structural)]
pub enum VmError {
    /// A pool index that is missing or of the wrong kind.
    Resolution(ResolutionError),
    /// A local-variable slot read before anything was stored in it.
    MissingLocal(usize),
    /// A pop from an empty operand stack.
    StackUnderflow,
    /// An operand of a kind the instruction cannot take.
    TypeError,
    /// A call to a method, by its methodref index, with no native behaviour.
    UnsupportedMethod(u16),
    /// String text, by pool index, that is not valid UTF-8.
    InvalidUtf8(u16),
    /// The class has no method named "main".
    NoMainMethod,
}

/// The decimal digit `d` as a character.
pub open spec fn digit_char(d: nat) -> char {
    if d == 0 {
        '0'
    } else if d == 1 {
        '1'
    } else if d == 2 {
        '2'
    } else if d == 3 {
        '3'
    } else if d == 4 {
        '4'
    } else if d == 5 {
        '5'
    } else if d == 6 {
        '6'
    } else if d == 7 {
        '7'
    } else if d == 8 {
        '8'
    } else {
        '9'
    }
}

/// The decimal digits of `n`, most significant first, without leading
/// zeros.
pub open spec fn digits(n: nat) -> Seq<char>
    decreases n,
{
    if n < 10 {
        seq![digit_char(n)]
    } else {
        digits(n / 10).push(digit_char(n % 10))
    }
}

/// The decimal rendering of `v`: a minus sign for negatives, then digits.
pub open spec fn decimal(v: int) -> Seq<char> {
    if v < 0 {
        seq!['-'] + digits((-v) as nat)
    } else {
        digits(v as nat)
    }
}

/// Relies on std's `Display` for `i64` (through `to_string`): the decimal
/// rendering, with a leading minus sign for negative numbers.
#[verifier::external_body]
fn decimal_text(v: i64) -> (r: String)
    ensures
        r@ == decimal(v as int),
{
    v.to_string()
}

/// The name of the one native call: "println".
pub open spec fn println_name() -> Seq<u8> {
    seq![0x70u8, 0x72, 0x69, 0x6e, 0x74, 0x6c, 0x6e]
}

/// The name of the method a run starts in.
pub open spec fn main_name() -> Seq<char> {
    seq!['m', 'a', 'i', 'n']
}

/// One method activation.
pub struct Frame {
    /// Index of the next instruction in the sequence being run.
    pub pc: usize,
    pub local_variable: HashMap<usize, Value>,
    pub operand_stack: OperandStack,
}

pub ghost struct FrameView {
    pub pc: int,
    pub locals: Map<usize, Value>,
    pub stack: Seq<Value>,
}

impl View for Frame {
    type V = FrameView;

    open spec fn view(&self) -> FrameView {
        FrameView { pc: self.pc as int, locals: self.local_variable@, stack: self.operand_stack@ }
    }
}

impl Frame {
    pub fn new(local_variable: HashMap<usize, Value>) -> (r: Self)
        ensures
            r@ == (FrameView { pc: 0, locals: local_variable@, stack: Seq::empty() }),
    {
        Self { pc: 0, local_variable, operand_stack: OperandStack::new() }
    }
}

/// What one instruction did besides changing the frame.
pub enum Effect {
    Continue,
    /// A line of output.
    Printed(String),
    /// The frame's interpretation ends here.
    Returned,
}

pub ghost enum EffectView {
    Continue,
    Printed(Seq<char>),
    Returned,
}

impl View for Effect {
    type V = EffectView;

    open spec fn view(&self) -> EffectView {
        match self {
            Effect::Continue => EffectView::Continue,
            Effect::Printed(s) => EffectView::Printed(s@),
            Effect::Returned => EffectView::Returned,
        }
    }
}

/// The text that println prints for `v`: an integer in decimal, a string
/// reference as the UTF-8 text it points at.
pub open spec fn spec_render(pool: Seq<EntryView>, v: Value) -> Result<Seq<char>, VmError> {
    match v {
        Value::Int(i) => Ok(decimal(i as int)),
        Value::StringRef(index) => match spec_utf8_text(pool, index) {
            Err(e) => Err(VmError::Resolution(e)),
            Ok(b) => if valid_utf8(b) {
                Ok(decode_utf8(b))
            } else {
                Err(VmError::InvalidUtf8(index))
            },
        },
        _ => Err(VmError::TypeError),
    }
}

/// The pool index that two operand bytes form, high byte first.
pub open spec fn operand_index(hi: u8, lo: u8) -> u16 {
    (hi as int * 0x100 + lo as int) as u16
}

/// The name a methodref at `index` resolves to, through its name-and-type
/// record.
pub open spec fn spec_method_name(pool: Seq<EntryView>, index: u16) -> Result<Seq<u8>, VmError> {
    match spec_resolve(pool, index, ConstantTag::Methodref) {
        Err(e) => Err(VmError::Resolution(e)),
        Ok(m) => match spec_resolve(pool, m->Methodref_0.name_and_type_index, ConstantTag::NameAndType) {
            Err(e) => Err(VmError::Resolution(e)),
            Ok(nt) => match spec_utf8_text(pool, nt->NameAndType_0.name_index) {
                Err(e) => Err(VmError::Resolution(e)),
                Ok(name) => Ok(name),
            },
        },
    }
}

/// `f` with `v` pushed and the program counter advanced.
pub open spec fn pushed(f: FrameView, v: Value) -> FrameView {
    FrameView { pc: f.pc + 1, locals: f.locals, stack: f.stack.push(v) }
}

/// The sum (or, with `add` false, the difference) of the two integers on
/// top of the stack, the left operand deeper; the result wraps.
pub open spec fn spec_arith(f: FrameView, add: bool) -> Result<(FrameView, EffectView), VmError> {
    let n = f.stack.len();
    if n < 2 {
        Err(VmError::StackUnderflow)
    } else {
        match (f.stack[n - 2], f.stack[n - 1]) {
            (Value::Int(v1), Value::Int(v2)) => {
                let r = if add {
                    v1.wrapping_add(v2)
                } else {
                    v1.wrapping_sub(v2)
                };
                Ok(
                    (
                        FrameView {
                            pc: f.pc + 1,
                            locals: f.locals,
                            stack: f.stack.subrange(0, n - 2).push(Value::Int(r)),
                        },
                        EffectView::Continue,
                    ),
                )
            },
            _ => Err(VmError::TypeError),
        }
    }
}

/// Loads local `slot` onto the stack.
pub open spec fn spec_load(f: FrameView, slot: usize) -> Result<(FrameView, EffectView), VmError> {
    if f.locals.contains_key(slot) {
        Ok((pushed(f, f.locals[slot]), EffectView::Continue))
    } else {
        Err(VmError::MissingLocal(slot))
    }
}

/// Pops the top of the stack into local `slot`.
pub open spec fn spec_store(f: FrameView, slot: usize) -> Result<(FrameView, EffectView), VmError> {
    if f.stack.len() == 0 {
        Err(VmError::StackUnderflow)
    } else {
        Ok(
            (
                FrameView {
                    pc: f.pc + 1,
                    locals: f.locals.insert(slot, f.stack.last()),
                    stack: f.stack.drop_last(),
                },
                EffectView::Continue,
            ),
        )
    }
}

/// One instruction's effect on frame `f`, with constants and names resolved
/// through `pool`.
pub open spec fn spec_step(pool: Seq<EntryView>, f: FrameView, inst: Instruction) -> Result<
    (FrameView, EffectView),
    VmError,
> {
    match inst {
        Instruction::Iconst0 => Ok((pushed(f, Value::Int(0)), EffectView::Continue)),
        Instruction::Iconst1 => Ok((pushed(f, Value::Int(1)), EffectView::Continue)),
        Instruction::Iconst2 => Ok((pushed(f, Value::Int(2)), EffectView::Continue)),
        Instruction::Iconst3 => Ok((pushed(f, Value::Int(3)), EffectView::Continue)),
        Instruction::Iconst4 => Ok((pushed(f, Value::Int(4)), EffectView::Continue)),
        Instruction::Iconst5 => Ok((pushed(f, Value::Int(5)), EffectView::Continue)),
        Instruction::Ldc(index) => match spec_resolve(pool, index as u16, ConstantTag::String_) {
            Err(e) => Err(VmError::Resolution(e)),
            Ok(s) => Ok(
                (pushed(f, Value::StringRef(s->String_0.utf8_index)), EffectView::Continue),
            ),
        },
        Instruction::Iload1 => spec_load(f, 1),
        Instruction::Iload2 => spec_load(f, 2),
        Instruction::Aload0 => spec_load(f, 0),
        Instruction::Istore1 => spec_store(f, 1),
        Instruction::Istore2 => spec_store(f, 2),
        Instruction::Iadd => spec_arith(f, true),
        Instruction::Isub => spec_arith(f, false),
        Instruction::Return => Ok(
            (FrameView { pc: f.pc + 1, locals: f.locals, stack: f.stack }, EffectView::Returned),
        ),
        Instruction::GetStatic(hi, lo) => Ok(
            (pushed(f, Value::FieldRef(operand_index(hi, lo) as usize)), EffectView::Continue),
        ),
        Instruction::Invokespecial(_, _) => Ok(
            (FrameView { pc: f.pc + 1, locals: f.locals, stack: f.stack }, EffectView::Continue),
        ),
        Instruction::InvokeVirtual(hi, lo) => {
            let index = operand_index(hi, lo);
            match spec_method_name(pool, index) {
                Err(e) => Err(e),
                Ok(name) => {
                    if name != println_name() {
                        Err(VmError::UnsupportedMethod(index))
                    } else if f.stack.len() == 0 {
                    Err(VmError::StackUnderflow)
                } else {
                    match spec_render(pool, f.stack.last()) {
                        Err(e) => Err(e),
                        Ok(line) => Ok(
                            (
                                FrameView {
                                    pc: f.pc + 1,
                                    locals: f.locals,
                                    stack: f.stack.drop_last(),
                                },
                                EffectView::Printed(line),
                            ),
                        ),
                    }
                    }
                },
            }
        }
    }
}

/// Where a run ended: the frame, the lines printed on the way, and the
/// error that stopped it, if one did. After an error the frame is that
/// before the failing instruction.
pub ghost struct Outcome {
    pub frame: FrameView,
    pub lines: Seq<Seq<char>>,
    pub error: Option<VmError>,
}

/// `o` with `lines` printed before it.
pub open spec fn after_lines(lines: Seq<Seq<char>>, o: Outcome) -> Outcome {
    Outcome { frame: o.frame, lines: lines + o.lines, error: o.error }
}

/// `f` moved to instruction `pc`.
pub open spec fn at_pc(f: FrameView, pc: int) -> FrameView {
    FrameView { pc, locals: f.locals, stack: f.stack }
}

/// Runs `insts` from `f.pc` until the end of the sequence, a return, or an
/// error.
pub open spec fn spec_run(pool: Seq<EntryView>, insts: Seq<Instruction>, f: FrameView) -> Outcome
    decreases insts.len() - f.pc,
{
    if f.pc < 0 || f.pc >= insts.len() {
        Outcome { frame: f, lines: Seq::empty(), error: None }
    } else {
        match spec_step(pool, f, insts[f.pc]) {
            Err(e) => Outcome { frame: f, lines: Seq::empty(), error: Some(e) },
            Ok((g, EffectView::Returned)) => Outcome { frame: g, lines: Seq::empty(), error: None },
            Ok((g, EffectView::Printed(line))) => after_lines(
                seq![line],
                spec_run(pool, insts, at_pc(g, f.pc + 1)),
            ),
            Ok((g, EffectView::Continue)) => spec_run(pool, insts, at_pc(g, f.pc + 1)),
        }
    }
}

/// Runs each code sequence in turn in the same frame, each from its first
/// instruction, stopping at the first error.
pub open spec fn spec_run_codes(pool: Seq<EntryView>, codes: Seq<CodeView>, f: FrameView) -> Outcome
    decreases codes.len(),
{
    if codes.len() == 0 {
        Outcome { frame: f, lines: Seq::empty(), error: None }
    } else {
        let o = spec_run(pool, codes[0].instructions, at_pc(f, 0));
        if o.error is Some {
            o
        } else {
            after_lines(o.lines, spec_run_codes(pool, codes.drop_first(), o.frame))
        }
    }
}

/// The first method from `i` on whose name is "main".
pub open spec fn main_index(methods: Seq<MethodView>, i: int) -> Option<int>
    decreases methods.len() - i,
{
    if i < 0 || i >= methods.len() {
        None
    } else if methods[i].name == main_name() {
        Some(i)
    } else {
        main_index(methods, i + 1)
    }
}

/// The frame a run starts with: local 0 holds a reference standing for the
/// receiver.
pub open spec fn initial_frame(super_class: u16) -> FrameView {
    FrameView {
        pc: 0,
        locals: map![0usize => Value::ClassRef(super_class as usize)],
        stack: Seq::empty(),
    }
}

/// A whole run of class `c`: its "main" method's code, in a fresh frame.
pub open spec fn spec_exec(c: ClassView) -> Outcome {
    match main_index(c.methods, 0) {
        None => Outcome {
            frame: initial_frame(c.super_class),
            lines: Seq::empty(),
            error: Some(VmError::NoMainMethod),
        },
        Some(m) => spec_run_codes(
            c.pool,
            code_attributes(c.methods[m].attributes),
            initial_frame(c.super_class),
        ),
    }
}

/// Every instruction that succeeds moves on to the next one.
pub proof fn lemma_step_advances(pool: Seq<EntryView>, f: FrameView, inst: Instruction)
    ensures
        spec_step(pool, f, inst) is Ok ==> spec_step(pool, f, inst)->Ok_0.0.pc == f.pc + 1,
{
}

/// A println whose operand is a string reference prints the UTF-8 text the
/// reference points at, never the index itself.
pub proof fn lemma_println_prints_string_text(
    pool: Seq<EntryView>,
    f: FrameView,
    hi: u8,
    lo: u8,
    index: u16,
    text: Seq<u8>,
)
    requires
        spec_method_name(pool, operand_index(hi, lo)) == Ok::<Seq<u8>, VmError>(println_name()),
        f.stack.len() > 0,
        f.stack.last() == Value::StringRef(index),
        spec_utf8_text(pool, index) == Ok::<Seq<u8>, ResolutionError>(text),
        valid_utf8(text),
    ensures
        spec_step(pool, f, Instruction::InvokeVirtual(hi, lo)) == Ok::<
            (FrameView, EffectView),
            VmError,
        >(
            (
                FrameView { pc: f.pc + 1, locals: f.locals, stack: f.stack.drop_last() },
                EffectView::Printed(decode_utf8(text)),
            ),
        ),
{
}

/// The lines that `v` views as.
pub open spec fn lines_view(v: Seq<String>) -> Seq<Seq<char>> {
    v.map_values(|s: String| s@)
}

/// `r` reports the error of `o`, or success where `o` has none.
pub open spec fn reports(r: Result<(), VmError>, o: Outcome) -> bool {
    match o.error {
        Some(e) => r == Err::<(), VmError>(e),
        None => r == Ok::<(), VmError>(()),
    }
}

pub struct VM {
    pub class_info: Class,
    pub frames: Vec<Frame>,
    /// The lines printed so far, in order.
    pub output: Vec<String>,
}

/// Renders `v` for println.
fn render(pool: &ConstantPoolTable, v: Value) -> (r: Result<String, VmError>)
    ensures
        match spec_render(pool@, v) {
            Ok(t) => r is Ok && r->Ok_0@ == t,
            Err(e) => r == Err::<String, VmError>(e),
        },
{
    match v {
        Value::Int(i) => Ok(decimal_text(i)),
        Value::StringRef(index) => match pool.utf8_text(index) {
            Err(e) => Err(VmError::Resolution(e)),
            Ok(u) => match utf8_string(u.bytes.as_slice()) {
                Some(text) => Ok(text),
                None => Err(VmError::InvalidUtf8(index)),
            },
        },
        _ => Err(VmError::TypeError),
    }
}

/// The name that the methodref at `index` resolves to.
fn method_name(pool: &ConstantPoolTable, index: u16) -> (r: Result<&Utf8Info, VmError>)
    ensures
        match spec_method_name(pool@, index) {
            Ok(t) => r is Ok && r->Ok_0@ == t,
            Err(e) => r == Err::<&Utf8Info, VmError>(e),
        },
{
    let method_ref = match pool.resolve(index, ConstantTag::Methodref) {
        Ok(ConstantPoolInfo::MethodrefInfo(m)) => *m,
        Ok(_) => return Err(VmError::Resolution(ResolutionError::TypeMismatch(index))),
        Err(e) => return Err(VmError::Resolution(e)),
    };
    let name_and_type = match pool.resolve(method_ref.name_and_type_index, ConstantTag::NameAndType) {
        Ok(ConstantPoolInfo::NameAndTypeInfo(nt)) => *nt,
        Ok(_) => {
            return Err(
                VmError::Resolution(ResolutionError::TypeMismatch(method_ref.name_and_type_index)),
            )
        },
        Err(e) => return Err(VmError::Resolution(e)),
    };
    match pool.utf8_text(name_and_type.name_index) {
        Ok(u) => Ok(u),
        Err(e) => Err(VmError::Resolution(e)),
    }
}

/// Pushes `v` and advances past the instruction.
fn push_value(frame: &mut Frame, v: Value) -> (r: Result<Effect, VmError>)
    requires
        old(frame).pc < usize::MAX,
    ensures
        r == Ok::<Effect, VmError>(Effect::Continue),
        final(frame)@ == pushed(old(frame)@, v),
{
    frame.operand_stack.push(v);
    frame.pc = frame.pc + 1;
    Ok(Effect::Continue)
}

/// Copies local `slot` onto the stack.
fn load_local(frame: &mut Frame, slot: usize) -> (r: Result<Effect, VmError>)
    requires
        old(frame).pc < usize::MAX,
    ensures
        match spec_load(old(frame)@, slot) {
            Ok((g, e)) => r is Ok && r->Ok_0@ == e && final(frame)@ == g,
            Err(e) => r == Err::<Effect, VmError>(e) && final(frame)@ == old(frame)@,
        },
{
    assert(obeys_key_model::<usize>());
    let v = match frame.local_variable.get(&slot) {
        Some(v) => *v,
        None => return Err(VmError::MissingLocal(slot)),
    };
    push_value(frame, v)
}

/// Moves the top of the stack into local `slot`.
fn store_local(frame: &mut Frame, slot: usize) -> (r: Result<Effect, VmError>)
    requires
        old(frame).pc < usize::MAX,
    ensures
        match spec_store(old(frame)@, slot) {
            Ok((g, e)) => r is Ok && r->Ok_0@ == e && final(frame)@ == g,
            Err(e) => r == Err::<Effect, VmError>(e) && final(frame)@ == old(frame)@,
        },
{
    assert(obeys_key_model::<usize>());
    let v = match frame.operand_stack.pop() {
        Some(v) => v,
        None => return Err(VmError::StackUnderflow),
    };
    frame.local_variable.insert(slot, v);
    frame.pc = frame.pc + 1;
    Ok(Effect::Continue)
}

/// Adds (or subtracts) the two integers on top of the stack, wrapping.
fn arith(frame: &mut Frame, add: bool) -> (r: Result<Effect, VmError>)
    requires
        old(frame).pc < usize::MAX,
    ensures
        match spec_arith(old(frame)@, add) {
            Ok((g, e)) => r is Ok && r->Ok_0@ == e && final(frame)@ == g,
            Err(e) => r == Err::<Effect, VmError>(e) && final(frame)@ == old(frame)@,
        },
{
    let n = frame.operand_stack.stack.len();
    if n < 2 {
        return Err(VmError::StackUnderflow);
    }
    let (v1, v2) = match (frame.operand_stack.stack[n - 2], frame.operand_stack.stack[n - 1]) {
        (Value::Int(v1), Value::Int(v2)) => (v1, v2),
        _ => return Err(VmError::TypeError),
    };
    let ghost before = frame.operand_stack@;
    frame.operand_stack.pop();
    frame.operand_stack.pop();
    let result = if add {
        v1.wrapping_add(v2)
    } else {
        v1.wrapping_sub(v2)
    };
    frame.operand_stack.push(Value::Int(result));
    assert(before.drop_last().drop_last() =~= before.subrange(0, n - 2));
    frame.pc = frame.pc + 1;
    Ok(Effect::Continue)
}

impl VM {
    pub fn new(class_info: Class) -> (r: Self)
        ensures
            r.class_info == class_info,
            r.frames@ == Seq::<Frame>::empty(),
            r.output@ == Seq::<String>::empty(),
    {
        VM { class_info, frames: Vec::new(), output: Vec::new() }
    }

    /// Carries out one instruction on `frame`: the new frame, and whether it
    /// printed a line or returned.
    pub fn exec_per_inst(&self, frame: &mut Frame, inst: &Instruction) -> (r: Result<Effect, VmError>)
        requires
            old(frame).pc < usize::MAX,
        ensures
            match spec_step(self.class_info.cp_info@, old(frame)@, *inst) {
                Ok((g, e)) => r is Ok && r->Ok_0@ == e && final(frame)@ == g,
                Err(e) => r == Err::<Effect, VmError>(e) && final(frame)@ == old(frame)@,
            },
    {
        let pool = &self.class_info.cp_info;
        match inst {
            Instruction::Iconst0 => push_value(frame, Value::Int(0)),
            Instruction::Iconst1 => push_value(frame, Value::Int(1)),
            Instruction::Iconst2 => push_value(frame, Value::Int(2)),
            Instruction::Iconst3 => push_value(frame, Value::Int(3)),
            Instruction::Iconst4 => push_value(frame, Value::Int(4)),
            Instruction::Iconst5 => push_value(frame, Value::Int(5)),
            Instruction::Ldc(index) => {
                let index = *index as u16;
                match pool.resolve(index, ConstantTag::String_) {
                    Ok(ConstantPoolInfo::StringInfo(s)) => push_value(
                        frame,
                        Value::StringRef(s.utf8_index),
                    ),
                    Ok(_) => Err(VmError::Resolution(ResolutionError::TypeMismatch(index))),
                    Err(e) => Err(VmError::Resolution(e)),
                }
            },
            Instruction::Iload1 => load_local(frame, 1),
            Instruction::Iload2 => load_local(frame, 2),
            Instruction::Aload0 => load_local(frame, 0),
            Instruction::Istore1 => store_local(frame, 1),
            Instruction::Istore2 => store_local(frame, 2),
            Instruction::Iadd => arith(frame, true),
            Instruction::Isub => arith(frame, false),
            Instruction::Return => {
                frame.pc = frame.pc + 1;
                Ok(Effect::Returned)
            },
            Instruction::GetStatic(hi, lo) => {
                let index = (*hi as u16) * 0x100 + *lo as u16;
                push_value(frame, Value::FieldRef(index as usize))
            },
            Instruction::Invokespecial(_, _) => {
                frame.pc = frame.pc + 1;
                Ok(Effect::Continue)
            },
            Instruction::InvokeVirtual(hi, lo) => {
                let index = (*hi as u16) * 0x100 + *lo as u16;
                let name = method_name(pool, index)?;
                let println: [u8; 7] = [0x70, 0x72, 0x69, 0x6e, 0x74, 0x6c, 0x6e];
                assert(println@ =~= println_name());
                if !same_bytes(name.bytes.as_slice(), println.as_slice()) {
                    return Err(VmError::UnsupportedMethod(index));
                }
                let v = match frame.operand_stack.peek() {
                    Some(v) => v,
                    None => return Err(VmError::StackUnderflow),
                };
                let line = render(pool, v)?;
                frame.operand_stack.pop();
                frame.pc = frame.pc + 1;
                Ok(Effect::Printed(line))
            },
        }
    }

    /// Runs `insts` in `frame` from its program counter: the lines printed,
    /// and how the run ended.
    pub fn run_instructions(&self, frame: &mut Frame, insts: &Vec<Instruction>) -> (r: (
        Vec<String>,
        Result<(), VmError>,
    ))
        ensures
            ({
                let o = spec_run(self.class_info.cp_info@, insts@, old(frame)@);
                &&& lines_view(r.0@) == o.lines
                &&& reports(r.1, o)
                &&& final(frame)@ == o.frame
            }),
    {
        let ghost pool = self.class_info.cp_info@;
        let ghost start = frame@;
        let mut lines: Vec<String> = Vec::new();
        proof {
            let o = spec_run(pool, insts@, start);
            assert(Seq::<Seq<char>>::empty() + o.lines =~= o.lines);
        }
        while frame.pc < insts.len()
            invariant
                pool == self.class_info.cp_info@,
                start == old(frame)@,
                spec_run(pool, insts@, start) == after_lines(
                    lines_view(lines@),
                    spec_run(pool, insts@, frame@),
                ),
            decreases insts@.len() - frame.pc,
        {
            let ghost f = frame@;
            let inst = &insts[frame.pc];
            proof {
                lemma_step_advances(pool, f, *inst);
            }
            match self.exec_per_inst(frame, inst) {
                Err(e) => {
                    assert(lines_view(lines@) + Seq::<Seq<char>>::empty() =~= lines_view(lines@));
                    return (lines, Err(e));
                },
                Ok(Effect::Returned) => {
                    assert(lines_view(lines@) + Seq::<Seq<char>>::empty() =~= lines_view(lines@));
                    return (lines, Ok(()));
                },
                Ok(Effect::Printed(line)) => {
                    let ghost before = lines@;
                    proof {
                        assert(at_pc(frame@, f.pc + 1) == frame@);
                        let rest = spec_run(pool, insts@, frame@);
                        assert(lines_view(before) + (seq![line@] + rest.lines) =~= lines_view(
                            before.push(line),
                        ) + rest.lines);
                    }
                    lines.push(line);
                },
                Ok(Effect::Continue) => {
                    assert(at_pc(frame@, f.pc + 1) == frame@);
                },
            }
        }
        assert(lines_view(lines@) + Seq::<Seq<char>>::empty() =~= lines_view(lines@));
        (lines, Ok(()))
    }

    /// Runs the code attributes of method `index` in turn in `frame`: the
    /// lines printed, and how the run ended.
    pub fn run_method(&self, frame: &mut Frame, index: usize) -> (r: (
        Vec<String>,
        Result<(), VmError>,
    ))
        requires
            index < self.class_info.methods@.len(),
        ensures
            ({
                let o = spec_run_codes(
                    self.class_info.cp_info@,
                    code_attributes(self.class_info.methods@[index as int]@.attributes),
                    old(frame)@,
                );
                &&& lines_view(r.0@) == o.lines
                &&& reports(r.1, o)
                &&& final(frame)@ == o.frame
            }),
    {
        let ghost pool = self.class_info.cp_info@;
        let ghost start = frame@;
        let codes = self.class_info.methods[index].code_attribute();
        let ghost cv = codes@.map_values(|c: &CodeAttribute| c@);
        let mut lines: Vec<String> = Vec::new();
        let mut k: usize = 0;
        proof {
            assert(cv.subrange(0, cv.len() as int) =~= cv);
            let o = spec_run_codes(pool, cv, start);
            assert(Seq::<Seq<char>>::empty() + o.lines =~= o.lines);
        }
        while k < codes.len()
            invariant
                pool == self.class_info.cp_info@,
                start == old(frame)@,
                cv == codes@.map_values(|c: &CodeAttribute| c@),
                cv == code_attributes(self.class_info.methods@[index as int]@.attributes),
                k <= cv.len(),
                spec_run_codes(pool, cv, start) == after_lines(
                    lines_view(lines@),
                    spec_run_codes(pool, cv.subrange(k as int, cv.len() as int), frame@),
                ),
            decreases cv.len() - k,
        {
            let ghost f = frame@;
            proof {
                assert(cv.subrange(k as int, cv.len() as int).drop_first() =~= cv.subrange(
                    k + 1,
                    cv.len() as int,
                ));
                assert(cv.subrange(k as int, cv.len() as int)[0] == cv[k as int]);
            }
            frame.pc = 0;
            let (mut more, result) = self.run_instructions(frame, &codes[k].instructions);
            let ghost before = lines@;
            let ghost added = more@;
            lines.append(&mut more);
            proof {
                assert(lines_view(lines@) =~= lines_view(before) + lines_view(added));
                let o = spec_run(pool, cv[k as int].instructions, at_pc(f, 0));
                let rest = spec_run_codes(pool, cv.subrange(k + 1, cv.len() as int), o.frame);
                assert(lines_view(before) + (o.lines + rest.lines) =~= (lines_view(before)
                    + o.lines) + rest.lines);
                assert(lines_view(before) + (o.lines + Seq::<Seq<char>>::empty()) =~= lines_view(
                    before,
                ) + o.lines);
                assert(o.lines + Seq::<Seq<char>>::empty() =~= o.lines);
            }
            if let Err(e) = result {
                return (lines, Err(e));
            }
            k = k + 1;
        }
        assert(lines_view(lines@) + Seq::<Seq<char>>::empty() =~= lines_view(lines@));
        (lines, Ok(()))
    }

    /// Runs method `index` in the frame on top of the frame stack, which is
    /// discarded once the method returns. Printed lines go to `output`.
    pub fn exec_method(&mut self, index: usize) -> (r: Result<(), VmError>)
        requires
            old(self).frames@.len() > 0,
            index < old(self).class_info.methods@.len(),
        ensures
            ({
                let o = spec_run_codes(
                    old(self).class_info.cp_info@,
                    code_attributes(old(self).class_info.methods@[index as int]@.attributes),
                    old(self).frames@.last()@,
                );
                &&& lines_view(final(self).output@) == lines_view(old(self).output@) + o.lines
                &&& reports(r, o)
            }),
            final(self).frames@ == old(self).frames@.drop_last(),
            final(self).class_info == old(self).class_info,
    {
        let mut frame = match self.frames.pop() {
            Some(f) => f,
            None => return Ok(()),
        };
        let (mut lines, result) = self.run_method(&mut frame, index);
        let ghost before = self.output@;
        let ghost added = lines@;
        self.output.append(&mut lines);
        assert(lines_view(self.output@) =~= lines_view(before) + lines_view(added));
        result
    }

    /// Runs the class: finds the method named "main", gives it a frame whose
    /// local 0 holds a reference standing for the receiver, and interprets
    /// its code to the end.
    pub fn exec(&mut self) -> (r: Result<(), VmError>)
        ensures
            ({
                let o = spec_exec(old(self).class_info@);
                &&& lines_view(final(self).output@) == lines_view(old(self).output@) + o.lines
                &&& reports(r, o)
            }),
            final(self).frames@ == old(self).frames@,
            final(self).class_info == old(self).class_info,
    {
        let ghost methods = self.class_info@.methods;
        let main_name_text = "main".to_owned();
        proof {
            reveal_strlit("main");
        }
        let n = self.class_info.methods.len();
        let mut i: usize = 0;
        while i < n
            invariant
                n == methods.len(),
                methods == self.class_info@.methods,
                main_name_text@ == main_name(),
                i <= n,
                main_index(methods, 0) == main_index(methods, i as int),
            ensures
                i < n ==> methods[i as int].name == main_name(),
                main_index(methods, 0) == main_index(methods, i as int),
                i <= n,
            decreases n - i,
        {
            if self.class_info.methods[i].name == main_name_text {
                break;
            }
            i = i + 1;
        }
        if i == n {
            assert(lines_view(self.output@) + Seq::<Seq<char>>::empty() =~= lines_view(
                self.output@,
            ));
            return Err(VmError::NoMainMethod);
        }
        assert(obeys_key_model::<usize>());
        let mut local_variable: HashMap<usize, Value> = HashMap::new();
        local_variable.insert(0, Value::ClassRef(self.class_info.super_class as usize));
        assert(local_variable@ =~= map![0usize => Value::ClassRef(self.class_info.super_class as usize)]);
        let frame = Frame::new(local_variable);
        assert(frame@ == initial_frame(self.class_info.super_class));
        assert(main_index(methods, i as int) == Some(i as int));
        assert(methods[i as int] == self.class_info.methods@[i as int]@);
        self.frames.push(frame);
        let r = self.exec_method(i);
        assert(self.frames@ =~= old(self).frames@);
        r
    }
}

} // verus!