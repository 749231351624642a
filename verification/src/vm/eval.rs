//! The evaluator: the machine's registers and the execution of one
//! instruction.
//!
//! [`step`] is the meaning of the instruction set: a function from the state
//! before an instruction to the state after it and to how the instruction
//! ended. [`Evaluator::eval`] is proved to compute exactly that.

use super::frame::{lemma_owner, lookup, owner, Block, BlockView, Frame, FrameView};
use super::instr::{BinopKind, CompareKind, Instr, UnaryKind};
use super::stack::{popped, peek, truncated, underflow, Stack, StackKind};
use super::value::Value;
use super::ErrorKind;
use crate::int32::{quotient, wrap};
use vstd::hash_map::StringHashMap;
use vstd::prelude::*;

verus! {

/// The machine's registers, and what the program has printed. The machine
/// writes nothing itself: `Print` adds a line to `output`, and the embedding
/// program takes the lines from there.
pub struct Evaluator {
    /// The index of the next instruction.
    pub pc: usize,
    /// Cleared by `Exit`; a machine that is not running executes nothing.
    pub running: bool,
    /// The variables that are visible everywhere.
    pub globals: StringHashMap<Value>,
    /// What `Print` has emitted so far, oldest first.
    pub output: Vec<String>,
}

/// An [`Evaluator`] with its globals as a map and its output as texts.
#[verifier::ext_equal]
pub struct EvaluatorView {
    pub pc: nat,
    pub running: bool,
    pub globals: Map<Seq<char>, Value>,
    pub output: Seq<Seq<char>>,
}

impl View for Evaluator {
    type V = EvaluatorView;

    open spec fn view(&self) -> EvaluatorView {
        EvaluatorView {
            pc: self.pc as nat,
            running: self.running,
            globals: self.globals@,
            output: self.output@.map_values(|s: String| s@),
        }
    }
}

/// The state after an instruction, and how the instruction ended. A failed
/// instruction keeps what it did before it failed.
#[verifier::ext_equal]
pub struct Step {
    pub ev: EvaluatorView,
    pub frame: FrameView,
    pub result: Result<(), ErrorKind>,
}

/// The result of an arithmetic operator on `l`, the operand that was on top
/// of the stack, and `r`, the operand below it. A result that does not fit in
/// 32 bits wraps around; a zero divisor is an error.
pub open spec fn arith(kind: BinopKind, l: i32, r: i32) -> Result<Value, ErrorKind> {
    match kind {
        BinopKind::Plus => Ok(Value::Int(wrap(l + r))),
        BinopKind::Minus => Ok(Value::Int(wrap(l - r))),
        BinopKind::Times => Ok(Value::Int(wrap(l * r))),
        _ => if r == 0 {
            Err(ErrorKind::DivideByZero)
        } else {
            Ok(Value::Int(wrap(quotient(l as int, r as int))))
        },
    }
}

/// The result of a logical operator.
pub open spec fn logic(kind: BinopKind, l: bool, r: bool) -> Value {
    match kind {
        BinopKind::And => Value::Bool(l && r),
        _ => Value::Bool(l || r),
    }
}

/// The result of the binary operator of `instr` on `l`, the operand that was
/// on top of the stack, and `r`, the operand below it.
pub open spec fn binop(kind: BinopKind, instr: Instr, l: Value, r: Value) -> Result<
    Value,
    ErrorKind,
> {
    match kind {
        BinopKind::And | BinopKind::Or => match (l, r) {
            (Value::Bool(a), Value::Bool(b)) => Ok(logic(kind, a, b)),
            _ => Err(ErrorKind::InvalidBinop { instr, l, r }),
        },
        _ => match (l, r) {
            (Value::Int(a), Value::Int(b)) => arith(kind, a, b),
            _ => Err(ErrorKind::InvalidBinop { instr, l, r }),
        },
    }
}

/// The result of a comparison of `l` with `r`.
pub open spec fn compare(kind: CompareKind, l: Value, r: Value) -> Value {
    match kind {
        CompareKind::Equal => Value::Bool(l@ == r@),
        CompareKind::NotEqual => Value::Bool(l@ != r@),
    }
}

/// The value that `name` resolves to: its binding in the innermost block
/// that has one, else its global binding.
pub open spec fn resolve(
    blocks: Seq<BlockView>,
    globals: Map<Seq<char>, Value>,
    name: Seq<char>,
) -> Option<Value> {
    match lookup(blocks, name) {
        Some(v) => Some(v),
        None => if globals.contains_key(name) {
            Some(globals[name])
        } else {
            None
        },
    }
}

/// The blocks after `value` is stored under `name`: the innermost block that
/// binds `name` has the new value; where none binds it, the innermost block
/// binds it now. `None` where there is no block at all.
pub open spec fn store(blocks: Seq<BlockView>, name: Seq<char>, value: Value) -> Option<
    Seq<BlockView>,
> {
    match owner(blocks, name) {
        Some(i) => Some(blocks.update(i, blocks[i].bind(name, value))),
        None => if blocks.len() == 0 {
            None
        } else {
            Some(blocks.update(blocks.len() - 1, blocks.last().bind(name, value)))
        },
    }
}

impl EvaluatorView {
    /// The registers with another program counter.
    pub open spec fn at(self, pc: nat) -> EvaluatorView {
        EvaluatorView { pc, ..self }
    }
}

/// An instruction that succeeded.
pub open spec fn done(ev: EvaluatorView, frame: FrameView) -> Step {
    Step { ev, frame, result: Ok(()) }
}

/// An instruction that failed.
pub open spec fn failed(ev: EvaluatorView, frame: FrameView, error: ErrorKind) -> Step {
    Step { ev, frame, result: Err(error) }
}

/// The operands of a binary instruction on a stack that holds `vals`: the
/// value on top, the value below it, and what is below the two. `None` where
/// the stack holds fewer than two values.
pub open spec fn operands(vals: Seq<Value>) -> Option<(Value, Value, Seq<Value>)> {
    let n = vals.len() as int;
    if n < 2 {
        None
    } else {
        Some((vals[n - 1], vals[n - 2], vals.take(n - 2)))
    }
}

/// What a binary operator does to the value stack: the two topmost values
/// give way to the result. With fewer than two values it underflows, and the
/// one value that may have been there is gone.
pub open spec fn operate(vals: Seq<Value>, label: StackKind, kind: BinopKind, instr: Instr) -> (
    Seq<Value>,
    Result<(), ErrorKind>,
) {
    match operands(vals) {
        None => (popped(vals), Err(underflow(label))),
        Some((l, r, rest)) => match binop(kind, instr, l, r) {
            Ok(v) => (rest.push(v), Ok(())),
            Err(e) => (rest, Err(e)),
        },
    }
}

/// What `Not` does to the value stack: a boolean on top gives way to its
/// negation; anything else is popped and reported.
pub open spec fn negate(vals: Seq<Value>, label: StackKind, instr: Instr) -> (
    Seq<Value>,
    Result<(), ErrorKind>,
) {
    match peek(vals, label) {
        Err(e) => (vals, Err(e)),
        Ok(Value::Bool(b)) => (popped(vals).push(Value::Bool(!b)), Ok(())),
        Ok(val) => (popped(vals), Err(ErrorKind::InvalidUnary { instr, val })),
    }
}

/// What a comparison does to the value stack: the two topmost values give
/// way to the boolean that compares them.
pub open spec fn compare_top(vals: Seq<Value>, label: StackKind, kind: CompareKind) -> (
    Seq<Value>,
    Result<(), ErrorKind>,
) {
    match operands(vals) {
        None => (popped(vals), Err(underflow(label))),
        Some((l, r, rest)) => (rest.push(compare(kind, l, r)), Ok(())),
    }
}

/// What `Store` does to a frame: the top value is popped and stored under
/// `name`.
pub open spec fn store_top(frame: FrameView, name: Seq<char>) -> (
    FrameView,
    Result<(), ErrorKind>,
) {
    match peek(frame.vals, frame.vals_kind) {
        Err(e) => (frame, Err(e)),
        Ok(top) => match store(frame.blocks, name, top) {
            Some(blocks) => (frame.with_vals(popped(frame.vals)).with_blocks(blocks), Ok(())),
            None => (frame.with_vals(popped(frame.vals)), Err(underflow(frame.blocks_kind))),
        },
    }
}

/// What `PopScope` does to a frame: the innermost block is closed and the
/// value stack is cut down to the length it had when the block was entered.
/// Also the block that was closed.
pub open spec fn close_block(frame: FrameView) -> (FrameView, Result<BlockView, ErrorKind>) {
    if frame.blocks.len() == 0 {
        (frame, Err(underflow(frame.blocks_kind)))
    } else {
        let block = frame.blocks.last();
        (
            frame.with_vals(truncated(frame.vals, block.stack_level)).with_blocks(
                frame.blocks.drop_last(),
            ),
            Ok(block),
        )
    }
}

/// A conditional jump that goes to `target` where the popped boolean is
/// `when`, and to the next instruction otherwise.
pub open spec fn pop_jump(ev: EvaluatorView, frame: FrameView, target: usize, when: bool) -> Step {
    match peek(frame.vals, frame.vals_kind) {
        Err(e) => failed(ev, frame, e),
        Ok(Value::Bool(b)) => done(
            if b == when {
                ev.at(target as nat)
            } else {
                ev
            },
            frame.with_vals(popped(frame.vals)),
        ),
        Ok(top) => failed(
            ev,
            frame.with_vals(popped(frame.vals)),
            ErrorKind::InvalidJumpValue(top),
        ),
    }
}

/// What one instruction does. The program counter is advanced before
/// anything else; a jump or the end of a block then overwrites it.
pub open spec fn step(ev: EvaluatorView, frame: FrameView, instr: Instr) -> Step {
    let ev = ev.at(ev.pc + 1);
    let vals = frame.vals;
    match instr {
        Instr::Binop(kind) => Step {
            ev,
            frame: frame.with_vals(operate(vals, frame.vals_kind, kind, instr).0),
            result: operate(vals, frame.vals_kind, kind, instr).1,
        },
        Instr::Unary(UnaryKind::Not) => Step {
            ev,
            frame: frame.with_vals(negate(vals, frame.vals_kind, instr).0),
            result: negate(vals, frame.vals_kind, instr).1,
        },
        Instr::Print => match peek(vals, frame.vals_kind) {
            Err(e) => failed(ev, frame, e),
            Ok(top) => done(
                EvaluatorView { output: ev.output.push(top@.text()), ..ev },
                frame.with_vals(popped(vals)),
            ),
        },
        Instr::Exit => done(EvaluatorView { running: false, ..ev }, frame),
        Instr::Push(value) => done(ev, frame.with_vals(vals.push(value))),
        Instr::Pop => match peek(vals, frame.vals_kind) {
            Err(e) => failed(ev, frame, e),
            Ok(_) => done(ev, frame.with_vals(popped(vals))),
        },
        Instr::Jump(target) => done(ev.at(target as nat), frame),
        Instr::Compare(kind) => Step {
            ev,
            frame: frame.with_vals(compare_top(vals, frame.vals_kind, kind).0),
            result: compare_top(vals, frame.vals_kind, kind).1,
        },
        Instr::PopJumpFalse(target) => pop_jump(ev, frame, target, false),
        Instr::PopJumpTrue(target) => pop_jump(ev, frame, target, true),
        Instr::Store(name) => Step {
            ev,
            frame: store_top(frame, name@).0,
            result: store_top(frame, name@).1,
        },
        Instr::StoreGlobal(name) => match peek(vals, frame.vals_kind) {
            Err(e) => failed(ev, frame, e),
            Ok(top) => done(
                EvaluatorView { globals: ev.globals.insert(name@, top), ..ev },
                frame.with_vals(popped(vals)),
            ),
        },
        Instr::Load(name) => match resolve(frame.blocks, ev.globals, name@) {
            Some(v) => done(ev, frame.with_vals(vals.push(v))),
            None => failed(ev, frame, ErrorKind::UnknownConst(name)),
        },
        Instr::PushScope(after_instr) => done(
            ev,
            frame.with_blocks(
                frame.blocks.push(
                    BlockView {
                        stack_level: vals.len(),
                        after_instr: after_instr as nat,
                        locals: Map::empty(),
                    },
                ),
            ),
        ),
        Instr::PopScope => match close_block(frame).1 {
            Err(e) => failed(ev, frame, e),
            Ok(block) => done(ev.at(block.after_instr), close_block(frame).0),
        },
    }
}

impl Default for Evaluator {
    /// Registers of a machine that has not started: at instruction 0,
    /// running, with no globals and no output.
    fn default() -> (r: Self)
        ensures
            r@ == (EvaluatorView {
                pc: 0,
                running: true,
                globals: Map::empty(),
                output: Seq::empty(),
            }),
    {
        Evaluator { pc: 0, running: true, globals: StringHashMap::new(), output: Vec::new() }
    }
}

impl Evaluator {
    /// Hands over what `Print` has emitted since the output was last taken,
    /// oldest first, and forgets it.
    pub fn take_output(&mut self) -> (r: Vec<String>)
        ensures
            r@.map_values(|s: String| s@) == old(self)@.output,
            final(self)@ == (EvaluatorView { output: Seq::empty(), ..old(self)@ }),
    {
        let mut output: Vec<String> = Vec::new();
        std::mem::swap(&mut output, &mut self.output);
        output
    }

    /// Executes `instr` on `frame`: the registers and the frame afterwards,
    /// and the result, are those of [`step`].
    pub fn eval(&mut self, frame: &mut Frame, instr: &Instr) -> (r: Result<(), ErrorKind>)
        requires
            old(self).pc < usize::MAX,
        ensures
            final(self)@ == step(old(self)@, old(frame)@, *instr).ev,
            final(frame)@ == step(old(self)@, old(frame)@, *instr).frame,
            r == step(old(self)@, old(frame)@, *instr).result,
    {
        self.pc += 1;
        match instr {
            Instr::Binop(kind) => Evaluator::eval_binop(&mut frame.vals, instr, *kind),
            Instr::Unary(kind) => match kind {
                UnaryKind::Not => match frame.vals.pop()? {
                    Value::Bool(val) => frame.vals.push(Value::Bool(!val)),
                    val => Err(ErrorKind::InvalidUnary { instr: instr.clone(), val }),
                },
            },
            Instr::Print => {
                let top = frame.vals.pop()?;
                self.output.push(top.to_string());
                Ok(())
            },
            Instr::Push(value) => frame.vals.push(value.clone()),
            Instr::Pop => {
                frame.vals.pop()?;
                Ok(())
            },
            Instr::Exit => {
                self.running = false;
                Ok(())
            },
            Instr::Jump(new_pc) => {
                self.pc = *new_pc;
                Ok(())
            },
            Instr::Compare(kind) => Evaluator::eval_compare(&mut frame.vals, *kind),
            Instr::PopJumpFalse(new_pc) => {
                let on_false = |val: bool| -> (taken: bool)
                    ensures
                        taken == !val,
                    { !val };
                self.eval_pop_jump(frame, *new_pc, on_false)
            },
            Instr::PopJumpTrue(new_pc) => {
                let on_true = |val: bool| -> (taken: bool)
                    ensures
                        taken == val,
                    { val };
                self.eval_pop_jump(frame, *new_pc, on_true)
            },
            Instr::Store(name) => Evaluator::eval_store(frame, name),
            Instr::StoreGlobal(name) => {
                let top = frame.vals.pop()?;
                self.globals.insert(name.clone(), top);
                Ok(())
            },
            Instr::Load(name) => {
                let local = match frame.get_local(name) {
                    Some(val) => Some(val.clone()),
                    None => None,
                };
                match local {
                    Some(val) => frame.vals.push(val),
                    None => match self.globals.get(name.as_str()) {
                        Some(val) => frame.vals.push(val.clone()),
                        None => Err(ErrorKind::UnknownConst(name.clone())),
                    },
                }
            },
            Instr::PushScope(after_instr) => Evaluator::eval_push_scope(frame, *after_instr),
            Instr::PopScope => {
                let block = Evaluator::eval_pop_scope(frame)?;
                self.pc = block.after_instr;
                Ok(())
            },
        }
    }

    /// Applies the binary operator `kind` to the two topmost values of `stack`.
    fn eval_binop(stack: &mut Stack<Value>, instr: &Instr, kind: BinopKind) -> (r: Result<
        (),
        ErrorKind,
    >)
        ensures
            final(stack).kind == old(stack).kind,
            (final(stack)@, r) == operate(old(stack)@, old(stack).kind, kind, *instr),
    {
        match kind {
            BinopKind::Plus => {
                let plus = |l: i32, r: i32| -> (v: Result<Value, ErrorKind>)
                    ensures
                        v == arith(BinopKind::Plus, l, r),
                    { Ok(Value::Int(l.wrapping_add(r))) };
                Evaluator::eval_num_binop(stack, instr, plus)
            },
            BinopKind::Minus => {
                let minus = |l: i32, r: i32| -> (v: Result<Value, ErrorKind>)
                    ensures
                        v == arith(BinopKind::Minus, l, r),
                    { Ok(Value::Int(l.wrapping_sub(r))) };
                Evaluator::eval_num_binop(stack, instr, minus)
            },
            BinopKind::Times => {
                let times = |l: i32, r: i32| -> (v: Result<Value, ErrorKind>)
                    ensures
                        v == arith(BinopKind::Times, l, r),
                    { Ok(Value::Int(l.wrapping_mul(r))) };
                Evaluator::eval_num_binop(stack, instr, times)
            },
            BinopKind::Divide => {
                let divide = |l: i32, r: i32| -> (v: Result<Value, ErrorKind>)
                    ensures
                        v == arith(BinopKind::Divide, l, r),
                    {
                        if r == 0 {
                            Err(ErrorKind::DivideByZero)
                        } else {
                            match l.checked_div(r) {
                                Some(q) => Ok(Value::Int(q)),
                                None => Ok(Value::Int(i32::MIN)),
                            }
                        }
                    };
                Evaluator::eval_num_binop(stack, instr, divide)
            },
            BinopKind::And => {
                let and = |l: bool, r: bool| -> (v: Value)
                    ensures
                        v == logic(BinopKind::And, l, r),
                    { Value::Bool(l && r) };
                Evaluator::eval_bool_binop(stack, instr, and)
            },
            BinopKind::Or => {
                let or = |l: bool, r: bool| -> (v: Value)
                    ensures
                        v == logic(BinopKind::Or, l, r),
                    { Value::Bool(l || r) };
                Evaluator::eval_bool_binop(stack, instr, or)
            },
        }
    }

    /// Replaces the two topmost values of `stack` by the boolean that
    /// compares them.
    fn eval_compare(stack: &mut Stack<Value>, kind: CompareKind) -> (r: Result<(), ErrorKind>)
        ensures
            final(stack).kind == old(stack).kind,
            (final(stack)@, r) == compare_top(old(stack)@, old(stack).kind, kind),
    {
        let l = stack.pop()?;
        let r = stack.pop()?;
        match kind {
            CompareKind::Equal => stack.push(Value::Bool(l == r)),
            CompareKind::NotEqual => stack.push(Value::Bool(l != r)),
        }
    }

    /// Pops the top value and stores it under `name`: in the innermost block
    /// that binds `name`, or else as a new variable of the innermost block.
    fn eval_store(frame: &mut Frame, name: &String) -> (r: Result<(), ErrorKind>)
        ensures
            (final(frame)@, r) == store_top(old(frame)@, name@),
    {
        let top = frame.vals.pop()?;
        let ghost blocks = frame@.blocks;
        proof {
            lemma_owner(blocks, name@);
        }
        match frame.get_local_mut(name) {
            Some(local) => {
                local.locals.insert(name.clone(), top);
            },
            None => {
                frame.blocks.top_mut()?.locals.insert(name.clone(), top);
            },
        }
        assert(Some(frame@.blocks) =~= store(blocks, name@, top));
        Ok(())
    }

    /// Opens a block that remembers the present length of the value stack.
    fn eval_push_scope(frame: &mut Frame, after_instr: usize) -> (r: Result<(), ErrorKind>)
        ensures
            r == Ok::<(), ErrorKind>(()),
            final(frame)@ == old(frame)@.with_blocks(
                old(frame)@.blocks.push(
                    BlockView {
                        stack_level: old(frame)@.vals.len(),
                        after_instr: after_instr as nat,
                        locals: Map::empty(),
                    },
                ),
            ),
    {
        frame.blocks.push(Block::new(frame.vals.len(), after_instr))
    }

    /// Closes the innermost block, cuts the value stack down to the length
    /// it had when the block was opened, and returns the block.
    fn eval_pop_scope(frame: &mut Frame) -> (r: Result<Block, ErrorKind>)
        ensures
            final(frame)@ == close_block(old(frame)@).0,
            match close_block(old(frame)@).1 {
                Ok(block) => r is Ok && r->Ok_0@ == block,
                Err(e) => r == Err::<Block, ErrorKind>(e),
            },
    {
        let block = frame.blocks.pop()?;
        frame.vals.truncate(block.stack_level);
        Ok(block)
    }

    /// Pops two operands and, where both are booleans, pushes what `eval_fn`
    /// makes of them; `l` is the operand that was on top.
    pub fn eval_bool_binop<F>(stack: &mut Stack<Value>, instr: &Instr, eval_fn: F) -> (r: Result<
        (),
        ErrorKind,
    >) where F: FnOnce(bool, bool) -> Value
        requires
            forall|l: bool, r: bool| call_requires(eval_fn, (l, r)),
        ensures
            final(stack).kind == old(stack).kind,
            match operands(old(stack)@) {
                None => {
                    &&& r == Err::<(), ErrorKind>(underflow(old(stack).kind))
                    &&& final(stack)@ == popped(old(stack)@)
                },
                Some((Value::Bool(a), Value::Bool(b), rest)) => {
                    &&& r == Ok::<(), ErrorKind>(())
                    &&& final(stack)@.len() == rest.len() + 1
                    &&& final(stack)@.drop_last() == rest
                    &&& call_ensures(eval_fn, (a, b), final(stack)@.last())
                },
                Some((l, r2, rest)) => {
                    &&& r == Err::<(), ErrorKind>(
                        ErrorKind::InvalidBinop { instr: *instr, l, r: r2 },
                    )
                    &&& final(stack)@ == rest
                },
            },
    {
        let l = stack.pop()?;
        let r = stack.pop()?;
        match (l, r) {
            (Value::Bool(l), Value::Bool(r)) => stack.push(eval_fn(l, r)),
            (l, r) => Err(ErrorKind::InvalidBinop { instr: instr.clone(), l, r }),
        }
    }

    /// Pops two operands and, where both are integers, pushes what `eval_fn`
    /// makes of them, or fails with the error that `eval_fn` returns; `l` is
    /// the operand that was on top.
    pub fn eval_num_binop<F>(stack: &mut Stack<Value>, instr: &Instr, eval_fn: F) -> (r: Result<
        (),
        ErrorKind,
    >) where F: FnOnce(i32, i32) -> Result<Value, ErrorKind>
        requires
            forall|l: i32, r: i32| call_requires(eval_fn, (l, r)),
        ensures
            final(stack).kind == old(stack).kind,
            match operands(old(stack)@) {
                None => {
                    &&& r == Err::<(), ErrorKind>(underflow(old(stack).kind))
                    &&& final(stack)@ == popped(old(stack)@)
                },
                Some((Value::Int(a), Value::Int(b), rest)) => match r {
                    Ok(_) => {
                        &&& r == Ok::<(), ErrorKind>(())
                        &&& final(stack)@.len() == rest.len() + 1
                        &&& final(stack)@.drop_last() == rest
                        &&& call_ensures(
                            eval_fn,
                            (a, b),
                            Ok::<Value, ErrorKind>(final(stack)@.last()),
                        )
                    },
                    Err(e) => {
                        &&& final(stack)@ == rest
                        &&& call_ensures(eval_fn, (a, b), Err::<Value, ErrorKind>(e))
                    },
                },
                Some((l, r2, rest)) => {
                    &&& r == Err::<(), ErrorKind>(
                        ErrorKind::InvalidBinop { instr: *instr, l, r: r2 },
                    )
                    &&& final(stack)@ == rest
                },
            },
    {
        let l = stack.pop()?;
        let r = stack.pop()?;
        match (l, r) {
            (Value::Int(l), Value::Int(r)) => {
                let value = eval_fn(l, r)?;
                stack.push(value)
            },
            (l, r) => Err(ErrorKind::InvalidBinop { instr: instr.clone(), l, r }),
        }
    }

    /// Pops a boolean and jumps to `new_pc` where `eval_fn` says so of it.
    /// Anything else on top is popped and reported.
    pub fn eval_pop_jump<F>(&mut self, frame: &mut Frame, new_pc: usize, eval_fn: F) -> (r: Result<
        (),
        ErrorKind,
    >) where F: FnOnce(bool) -> bool
        requires
            forall|val: bool| call_requires(eval_fn, (val,)),
        ensures
            final(frame)@ == old(frame)@.with_vals(popped(old(frame)@.vals)),
            final(self)@ == old(self)@.at(final(self)@.pc),
            match peek(old(frame)@.vals, old(frame)@.vals_kind) {
                Err(e) => r == Err::<(), ErrorKind>(e) && final(self).pc == old(self).pc,
                Ok(Value::Bool(val)) => {
                    &&& r == Ok::<(), ErrorKind>(())
                    &&& {
                        ||| call_ensures(eval_fn, (val,), true) && final(self).pc == new_pc
                        ||| call_ensures(eval_fn, (val,), false) && final(self).pc == old(self).pc
                    }
                },
                Ok(top) => {
                    &&& r == Err::<(), ErrorKind>(ErrorKind::InvalidJumpValue(top))
                    &&& final(self).pc == old(self).pc
                },
            },
    {
        let top = frame.vals.pop()?;
        match top {
            Value::Bool(val) => {
                if eval_fn(val) {
                    self.pc = new_pc
                }
                Ok(())
            },
            _ => Err(ErrorKind::InvalidJumpValue(top)),
        }
    }
}

} // verus!
