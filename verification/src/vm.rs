//! The execution engine: values, instructions, stacks, frames, the
//! single-instruction evaluator and the run loop.

use vstd::prelude::*;

pub mod eval;
pub mod frame;
pub mod instr;
pub mod inter;
pub mod laws;
pub mod stack;
pub mod value;

use self::instr::Instr;
use self::stack::{StackErrorKind, StackKind};
use self::value::Value;

verus! {

/// Everything that can abort a run.
#[derive(Debug)]
pub enum ErrorKind {
    /// A pop or a peek met an empty stack of the given kind.
    StackError(StackKind, StackErrorKind),
    /// An operand of a binary operator is not of the type the operator works on.
    InvalidBinop { instr: Instr, l: Value, r: Value },
    /// The operand of a unary operator is not of the type the operator works on.
    InvalidUnary { instr: Instr, val: Value },
    /// A conditional jump popped something other than a boolean.
    InvalidJumpValue(Value),
    /// A name is bound neither in an enclosing scope nor globally.
    UnknownConst(String),
    /// An integer division had a zero divisor.
    DivideByZero,
}

impl Clone for ErrorKind {
    fn clone(&self) -> (r: Self)
        ensures
            r == *self,
    {
        match self {
            ErrorKind::StackError(kind, error) => ErrorKind::StackError(*kind, *error),
            ErrorKind::InvalidBinop { instr, l, r } => ErrorKind::InvalidBinop {
                instr: instr.clone(),
                l: l.clone(),
                r: r.clone(),
            },
            ErrorKind::InvalidUnary { instr, val } => ErrorKind::InvalidUnary {
                instr: instr.clone(),
                val: val.clone(),
            },
            ErrorKind::InvalidJumpValue(value) => ErrorKind::InvalidJumpValue(value.clone()),
            ErrorKind::UnknownConst(name) => ErrorKind::UnknownConst(name.clone()),
            ErrorKind::DivideByZero => ErrorKind::DivideByZero,
        }
    }
}

} // verus!
