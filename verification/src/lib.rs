//! A small stack machine and the front end of its language, verified with
//! Verus.
//!
//! * [`vm`] is the execution engine: a program is a sequence of instructions
//!   that work on a stack of values, bind variables in nested blocks and
//!   jump. The meaning of every instruction is a function on a mathematical
//!   model of the machine, and the interpreter is proved to follow it.
//! * [`lexer`] turns source text into tokens, and [`parser`] turns tokens
//!   into the statements of [`ast`]. Both are proved against a definition of
//!   what a text, or a token sequence, consists of.
//! * [`int32`] says how 32-bit integers wrap, and [`text`] lists what is
//!   taken on trust about std.
//!
//! The library does no input or output. What a program prints is kept by the
//! machine, for the embedding program to write out.

pub mod ast;
pub mod int32;
pub mod lexer;
pub mod parser;
pub mod text;
pub mod vm;
