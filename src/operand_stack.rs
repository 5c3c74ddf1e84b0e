//! Values and the operand stack that holds them.
use vstd::prelude::*;

verus! {

/// What the operand stack and the local variables hold: an integer, or a
/// reference-like tag carrying an index, since there is no heap.
#[derive(Clone, Copy, Debug, PartialEq, Eq, Structural)]
pub enum Value {
    Int(i64),
    ClassRef(usize),
    /// The pool index of a string literal's UTF-8 text.
    StringRef(u16),
    FieldRef(usize),
    ObjectRef(usize),
    ArrayRef(usize),
}

pub struct OperandStack {
    pub stack: Vec<Value>,
}

impl View for OperandStack {
    type V = Seq<Value>;

    open spec fn view(&self) -> Seq<Value> {
        self.stack@
    }
}

impl OperandStack {
    pub fn new() -> (r: Self)
        ensures
            r@ == Seq::<Value>::empty(),
    {
        Self { stack: Vec::new() }
    }

    pub fn push(&mut self, item: Value)
        ensures
            final(self)@ == old(self)@.push(item),
    {
        self.stack.push(item)
    }

    /// The top value, taken off; `None` on an empty stack.
    pub fn pop(&mut self) -> (r: Option<Value>)
        ensures
            old(self)@.len() == 0 ==> r is None && final(self)@ == old(self)@,
            old(self)@.len() > 0 ==> r == Some(old(self)@.last()) && final(self)@ == old(
                self,
            )@.drop_last(),
    {
        self.stack.pop()
    }

    /// The top value, left in place.
    pub fn peek(&self) -> (r: Option<Value>)
        ensures
            self@.len() == 0 ==> r is None,
            self@.len() > 0 ==> r == Some(self@.last()),
    {
        let n = self.stack.len();
        if n == 0 {
            None
        } else {
            Some(self.stack[n - 1])
        }
    }
}

} // verus!
