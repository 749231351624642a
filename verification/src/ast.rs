//! The syntax tree that the parser builds.

use vstd::prelude::*;

verus! {

/// The operators of the source language.
#[derive(Copy, Clone, Debug)]
pub enum BinopKind {
    Plus,
    Minus,
    Times,
    Divide,
}

/// An expression.
#[derive(Debug)]
pub enum Expr {
    Number(i32),
    Binop(BinopKind, Box<Expr>, Box<Expr>),
}

/// A statement.
#[derive(Debug)]
pub enum Stmt {
    /// `let name = expr`.
    Binding(String, Expr),
}

impl Clone for Expr {
    fn clone(&self) -> (r: Self)
        ensures
            r == *self,
        decreases self,
    {
        match self {
            Expr::Number(n) => Expr::Number(*n),
            Expr::Binop(kind, l, r) => Expr::Binop(
                *kind,
                Box::new((&**l).clone()),
                Box::new((&**r).clone()),
            ),
        }
    }
}

impl Clone for Stmt {
    fn clone(&self) -> (r: Self)
        ensures
            r == *self,
    {
        match self {
            Stmt::Binding(name, value) => Stmt::Binding(name.clone(), value.clone()),
        }
    }
}

} // verus!
