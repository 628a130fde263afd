//! The word stack of a frame.

use vstd::prelude::*;
use crate::exit::ExitError;
use crate::word::Word;

verus! {

/// A bounded stack of words. Its view lists the words from the bottom up, so
/// the top of the stack is the last element.
pub struct Stack {
    data: Vec<Word>,
    limit: usize,
}

impl View for Stack {
    type V = Seq<Word>;

    closed spec fn view(&self) -> Seq<Word> {
        self.data@
    }
}

impl Stack {
    /// The depth is within the limit.
    pub open spec fn wf(&self) -> bool {
        self@.len() <= self.spec_limit()
    }

    /// The largest depth the stack may reach.
    pub closed spec fn spec_limit(&self) -> nat {
        self.limit as nat
    }

    /// The word `depth` places below the top.
    pub open spec fn at_depth(&self, depth: int) -> Word {
        self@[self@.len() - 1 - depth]
    }

    /// An empty stack that holds at most `limit` words.
    pub fn new(limit: usize) -> (r: Stack)
        ensures
            r.wf(),
            r@ == Seq::<Word>::empty(),
            r.spec_limit() == limit,
    {
        Stack { data: Vec::new(), limit }
    }

    /// The largest depth the stack may reach.
    pub fn limit(&self) -> (r: usize)
        ensures
            r == self.spec_limit(),
    {
        self.limit
    }

    /// The depth of the stack.
    pub fn len(&self) -> (r: usize)
        ensures
            r == self@.len(),
    {
        self.data.len()
    }

    /// Whether the stack holds no word.
    pub fn is_empty(&self) -> (r: bool)
        ensures
            r == (self@.len() == 0),
    {
        self.data.len() == 0
    }

    /// Takes the top word off. An empty stack is left as it is.
    pub fn pop(&mut self) -> (r: Result<Word, ExitError>)
        requires
            old(self).wf(),
        ensures
            final(self).wf(),
            final(self).spec_limit() == old(self).spec_limit(),
            old(self)@.len() > 0 ==> r == Ok::<Word, ExitError>(old(self)@.last())
                && final(self)@ == old(self)@.drop_last(),
            old(self)@.len() == 0 ==> r == Err::<Word, ExitError>(ExitError::StackUnderflow)
                && final(self)@ == old(self)@,
    {
        match self.data.pop() {
            Some(v) => Ok(v),
            None => Err(ExitError::StackUnderflow),
        }
    }

    /// Puts `value` on top. A full stack is left as it is.
    pub fn push(&mut self, value: Word) -> (r: Result<(), ExitError>)
        requires
            old(self).wf(),
        ensures
            final(self).wf(),
            final(self).spec_limit() == old(self).spec_limit(),
            old(self)@.len() < old(self).spec_limit() ==> r == Ok::<(), ExitError>(())
                && final(self)@ == old(self)@.push(value),
            old(self)@.len() >= old(self).spec_limit() ==> r == Err::<(), ExitError>(
                ExitError::StackOverflow,
            ) && final(self)@ == old(self)@,
    {
        if self.data.len() >= self.limit {
            return Err(ExitError::StackOverflow);
        }
        self.data.push(value);
        Ok(())
    }

    /// Reads the word `depth` places below the top.
    pub fn peek(&self, depth: usize) -> (r: Result<Word, ExitError>)
        ensures
            depth < self@.len() ==> r == Ok::<Word, ExitError>(self.at_depth(depth as int)),
            depth >= self@.len() ==> r == Err::<Word, ExitError>(ExitError::StackUnderflow),
    {
        let n = self.data.len();
        if depth < n {
            Ok(self.data[n - 1 - depth])
        } else {
            Err(ExitError::StackUnderflow)
        }
    }

    /// Overwrites the word `depth` places below the top.
    pub fn set(&mut self, depth: usize, value: Word) -> (r: Result<(), ExitError>)
        requires
            old(self).wf(),
        ensures
            final(self).wf(),
            final(self).spec_limit() == old(self).spec_limit(),
            depth < old(self)@.len() ==> r == Ok::<(), ExitError>(()) && final(self)@ == old(
                self,
            )@.update(old(self)@.len() - 1 - depth, value),
            depth >= old(self)@.len() ==> r == Err::<(), ExitError>(ExitError::StackUnderflow)
                && final(self)@ == old(self)@,
    {
        let n = self.data.len();
        if depth < n {
            self.data.set(n - 1 - depth, value);
            Ok(())
        } else {
            Err(ExitError::StackUnderflow)
        }
    }
}

} // verus!
