//! A last-in-first-out container that knows which of the machine's stacks it
//! is, so that a failed pop or peek can say where it happened.
//!
//! A stack is modelled by the sequence of its elements, bottom first. A few
//! functions on sequences say what each operation returns and leaves behind;
//! the methods are proved to do exactly that, and the laws at the end of the
//! file are proved of those functions.

use super::ErrorKind;
use vstd::prelude::*;

verus! {

/// Which of the machine's stacks a [`Stack`] is; used only to label errors.
#[derive(Copy, Clone, Debug)]
pub enum StackKind {
    Value,
    Frame,
    Scope,
}

/// How a stack operation failed. No operation overflows: a stack grows
/// without bound.
#[derive(Copy, Clone, Debug, PartialEq, Eq, Structural)]
pub enum StackErrorKind {
    StackOverflow,
    StackUnderflow,
}

/// A growable stack; the last element of `stack` is the top.
#[derive(Debug)]
pub struct Stack<T> {
    pub stack: Vec<T>,
    pub kind: StackKind,
}

impl<T> View for Stack<T> {
    type V = Seq<T>;

    open spec fn view(&self) -> Seq<T> {
        self.stack@
    }
}

/// The error of a pop or a peek on an empty stack of the given kind.
pub open spec fn underflow(kind: StackKind) -> ErrorKind {
    ErrorKind::StackError(kind, StackErrorKind::StackUnderflow)
}

/// The result of a peek at a stack that holds `s`.
pub open spec fn peek<T>(s: Seq<T>, kind: StackKind) -> Result<T, ErrorKind> {
    if s.len() == 0 {
        Err(underflow(kind))
    } else {
        Ok(s.last())
    }
}

/// What a stack that holds `s` holds after a pop: the top is gone, and an
/// empty stack stays empty.
pub open spec fn popped<T>(s: Seq<T>) -> Seq<T> {
    if s.len() == 0 {
        s
    } else {
        s.drop_last()
    }
}

/// What a stack that holds `s` holds after it is cut down to `len` elements:
/// the lowest `len` of them, or all where there are no more than `len`.
pub open spec fn truncated<T>(s: Seq<T>, len: nat) -> Seq<T> {
    if len <= s.len() {
        s.take(len as int)
    } else {
        s
    }
}

impl<T> Stack<T> {
    /// An empty stack of the given kind.
    pub fn new(kind: StackKind) -> (r: Stack<T>)
        ensures
            r@ == Seq::<T>::empty(),
            r.kind == kind,
    {
        Stack { stack: Vec::new(), kind }
    }

    /// Puts `value` on top. Never fails.
    pub fn push(&mut self, value: T) -> (r: Result<(), ErrorKind>)
        ensures
            r == Ok::<(), ErrorKind>(()),
            final(self)@ == old(self)@.push(value),
            final(self).kind == old(self).kind,
    {
        self.stack.push(value);
        Ok(())
    }

    /// Removes the top element and returns it; fails with an underflow, and
    /// changes nothing, exactly when the stack is empty.
    pub fn pop(&mut self) -> (r: Result<T, ErrorKind>)
        ensures
            r == peek(old(self)@, old(self).kind),
            final(self)@ == popped(old(self)@),
            final(self).kind == old(self).kind,
    {
        match self.stack.pop() {
            Some(value) => Ok(value),
            None => Err(self.determine_stack_error()),
        }
    }

    /// The top element; fails with an underflow exactly when the stack is
    /// empty.
    pub fn top(&self) -> (r: Result<&T, ErrorKind>)
        ensures
            match peek(self@, self.kind) {
                Ok(t) => r == Ok::<&T, ErrorKind>(&t),
                Err(e) => r == Err::<&T, ErrorKind>(e),
            },
    {
        match self.stack.last() {
            Some(t) => Ok(t),
            None => Err(self.determine_stack_error()),
        }
    }

    /// The top element, for writing; fails with an underflow exactly when the
    /// stack is empty. Whatever the caller writes becomes the new top, and
    /// nothing below it changes.
    pub fn top_mut(&mut self) -> (r: Result<&mut T, ErrorKind>)
        ensures
            final(self).kind == old(self).kind,
            match peek(old(self)@, old(self).kind) {
                Ok(t) => r is Ok && *r->Ok_0 == t && final(self)@ == old(self)@.drop_last().push(
                    *final(r->Ok_0),
                ),
                Err(e) => r == Err::<&mut T, ErrorKind>(e) && final(self)@ == old(self)@,
            },
    {
        let err = self.determine_stack_error();
        match self.stack.last_mut() {
            Some(t) => Ok(t),
            None => Err(err),
        }
    }

    /// Whether the stack holds nothing.
    pub fn is_empty(&self) -> (r: bool)
        ensures
            r == (self@.len() == 0),
    {
        self.stack.is_empty()
    }

    /// Drops every element above the lowest `len`; a stack that holds no more
    /// than `len` elements is left as it is.
    pub fn truncate(&mut self, len: usize)
        ensures
            final(self)@ == truncated(old(self)@, len as nat),
            final(self).kind == old(self).kind,
    {
        self.stack.truncate(len);
    }

    /// How many elements the stack holds.
    pub fn len(&self) -> (r: usize)
        ensures
            r == self@.len(),
    {
        self.stack.len()
    }

    /// The error that a failure on this stack reports. Pops and peeks are
    /// the only operations that fail, and they fail on an empty stack only; a
    /// stack has no bound, so the error is always an underflow.
    pub fn determine_stack_error(&self) -> (r: ErrorKind)
        ensures
            r == underflow(self.kind),
    {
        ErrorKind::StackError(self.kind, StackErrorKind::StackUnderflow)
    }
}

/// Cutting a stack down to `len` elements twice leaves what cutting it down
/// once leaves.
pub proof fn lemma_truncate_idempotent<T>(s: Seq<T>, len: nat)
    ensures
        truncated(truncated(s, len), len) == truncated(s, len),
{
}

/// A value that is pushed and at once popped comes back as it was, and the
/// stack holds what it held before, so it is as long as before.
pub proof fn lemma_push_pop_round_trip<T>(s: Seq<T>, value: T, kind: StackKind)
    ensures
        peek(s.push(value), kind) == Ok::<T, ErrorKind>(value),
        popped(s.push(value)) == s,
        popped(s.push(value)).len() == s.len(),
{
}

/// A pop or a peek fails exactly on an empty stack, and then with an
/// underflow of the stack's own kind: never with an overflow.
pub proof fn lemma_failure_is_underflow<T>(s: Seq<T>, kind: StackKind)
    ensures
        peek(s, kind) is Err <==> s.len() == 0,
        peek(s, kind) is Err ==> peek(s, kind) == Err::<T, ErrorKind>(
            ErrorKind::StackError(kind, StackErrorKind::StackUnderflow),
        ),
        peek(Seq::<T>::empty(), kind) == Err::<T, ErrorKind>(
            ErrorKind::StackError(kind, StackErrorKind::StackUnderflow),
        ),
        popped(Seq::<T>::empty()) == Seq::<T>::empty(),
{
}

} // verus!
