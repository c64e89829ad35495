//! The operand stack.

use crate::engine::error::{Error, ErrorView};
use crate::engine::value::{NativeObject, Value, ValueView};
use vstd::prelude::*;
use vstd::string::StringExecFns;

verus! {

/// A stack of values; the last one is the top.
#[derive(Debug)]
pub struct Stack<N> {
    stack: Vec<Value<N>>,
}

/// The views of a sequence of values, in order.
pub open spec fn value_views<N>(v: Seq<Value<N>>) -> Seq<ValueView<N>> {
    Seq::new(v.len(), |i: int| v[i]@)
}

impl<N> View for Stack<N> {
    type V = Seq<ValueView<N>>;

    closed spec fn view(&self) -> Seq<ValueView<N>> {
        value_views(self.stack@)
    }
}

/// The failure of a pop or a peek on an empty stack.
pub open spec fn empty_stack() -> ErrorView {
    ErrorView::StackError("Stack is empty"@)
}

impl<N: NativeObject> Stack<N> {
    /// An empty stack.
    pub fn new() -> (r: Self)
        ensures
            r@ == Seq::<ValueView<N>>::empty(),
    {
        let r = Stack { stack: Vec::new() };
        assert(r@ =~= Seq::<ValueView<N>>::empty());
        r
    }

    /// The number of values on the stack.
    pub fn len(&self) -> (n: usize)
        ensures
            n == self@.len(),
    {
        self.stack.len()
    }

    /// Puts `value` on top.
    pub fn push(&mut self, value: Value<N>)
        ensures
            final(self)@ == old(self)@.push(value@),
    {
        self.stack.push(value);
        assert(self@ =~= old(self)@.push(value@));
    }

    /// Takes the top value off; fails on an empty stack, which it leaves
    /// empty.
    pub fn pop(&mut self) -> (r: Result<Value<N>, Error>)
        ensures
            match r {
                Ok(value) => old(self)@.len() > 0 && value@ == old(self)@.last() && final(self)@
                    == old(self)@.drop_last(),
                Err(e) => old(self)@.len() == 0 && e@ == empty_stack() && final(self)@ == old(
                    self,
                )@,
            },
    {
        match self.stack.pop() {
            Some(value) => {
                assert(self@ =~= old(self)@.drop_last());
                Ok(value)
            },
            None => Err(Error::StackError(String::from_str("Stack is empty"))),
        }
    }

    /// A handle to the top value, which stays on the stack.
    pub fn peek(&self) -> (r: Result<Value<N>, Error>)
        ensures
            match r {
                Ok(value) => self@.len() > 0 && value@ == self@.last(),
                Err(e) => self@.len() == 0 && e@ == empty_stack(),
            },
    {
        let n = self.stack.len();
        if n > 0 {
            Ok(self.stack[n - 1].clone())
        } else {
            Err(Error::StackError(String::from_str("Stack is empty")))
        }
    }

    pub fn push_bool(&mut self, b: bool)
        ensures
            final(self)@ == old(self)@.push(ValueView::Bool(b)),
    {
        self.push(Value::bool(b));
    }

    pub fn push_char(&mut self, r: char)
        ensures
            final(self)@ == old(self)@.push(ValueView::Char(r)),
    {
        self.push(Value::char(r));
    }

    /// Pushes the number whose IEEE-754 bits are `bits`.
    pub fn push_num(&mut self, bits: u64)
        ensures
            final(self)@ == old(self)@.push(ValueView::Num(bits)),
    {
        self.push(Value::num(bits));
    }

    pub fn push_symbol(&mut self, s: String)
        ensures
            final(self)@ == old(self)@.push(ValueView::Symbol(s@)),
    {
        self.push(Value::symbol(s.as_str()));
    }

    /// Pushes a value that carries `obj`.
    pub fn push_native(&mut self, obj: N)
        ensures
            final(self)@ == old(self)@.push(ValueView::Native(obj)),
    {
        self.push(Value::native(obj));
    }

    /// After a push, a pop gives back what was pushed and leaves the stack
    /// as it was before the push: for every stack `before`, every `value`
    /// pushed on it, and whatever a pop then answers.
    pub proof fn lemma_push_pop(
        before: Self,
        value: Value<N>,
        pushed: Self,
        popped: Result<Value<N>, Error>,
        after: Self,
    )
        requires
            pushed@ == before@.push(value@),
            match popped {
                Ok(top) => pushed@.len() > 0 && top@ == pushed@.last() && after@
                    == pushed@.drop_last(),
                Err(e) => pushed@.len() == 0 && e@ == empty_stack() && after@ == pushed@,
            },
        ensures
            popped matches Ok(top) && top@ == value@,
            after@ == before@,
    {
        assert(before@.push(value@).drop_last() =~= before@);
    }
}

} // verus!
