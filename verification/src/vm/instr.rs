//! The instruction set.

use super::value::Value;
use vstd::prelude::*;

verus! {

/// The comparisons that `Compare` can make.
#[derive(Copy, Clone, Debug)]
pub enum CompareKind {
    Equal,
    NotEqual,
}

/// The binary operators: four on integers, two on booleans.
#[derive(Copy, Clone, Debug)]
pub enum BinopKind {
    Plus,
    Minus,
    Times,
    Divide,
    And,
    Or,
}

/// The unary operators.
#[derive(Copy, Clone, Debug)]
pub enum UnaryKind {
    Not,
}

/// One instruction of a program. Jump targets and the index carried by
/// `PushScope` are absolute positions in the program.
#[derive(Debug)]
pub enum Instr {
    Binop(BinopKind),
    Unary(UnaryKind),
    Print,
    Exit,
    Push(Value),
    Pop,
    Jump(usize),
    Compare(CompareKind),
    PopJumpFalse(usize),
    PopJumpTrue(usize),
    Store(String),
    StoreGlobal(String),
    Load(String),
    PushScope(usize),
    PopScope,
}

impl Clone for Instr {
    fn clone(&self) -> (r: Self)
        ensures
            r == *self,
    {
        match self {
            Instr::Binop(kind) => Instr::Binop(*kind),
            Instr::Unary(kind) => Instr::Unary(*kind),
            Instr::Print => Instr::Print,
            Instr::Exit => Instr::Exit,
            Instr::Push(value) => Instr::Push(value.clone()),
            Instr::Pop => Instr::Pop,
            Instr::Jump(target) => Instr::Jump(*target),
            Instr::Compare(kind) => Instr::Compare(*kind),
            Instr::PopJumpFalse(target) => Instr::PopJumpFalse(*target),
            Instr::PopJumpTrue(target) => Instr::PopJumpTrue(*target),
            Instr::Store(name) => Instr::Store(name.clone()),
            Instr::StoreGlobal(name) => Instr::StoreGlobal(name.clone()),
            Instr::Load(name) => Instr::Load(name.clone()),
            Instr::PushScope(after_instr) => Instr::PushScope(*after_instr),
            Instr::PopScope => Instr::PopScope,
        }
    }
}

} // verus!
