//! Laws of the machine, proved of the model that the interpreter is proved
//! to follow.

use super::eval::{close_block, compare, step, store, EvaluatorView};
use super::frame::{lemma_owner, lookup, owner, BlockView, FrameView};
use super::instr::{BinopKind, CompareKind, Instr};
use super::inter::InterView;
use super::value::Value;
use super::ErrorKind;
use crate::int32::{lemma_wrap_exact, quotient, wrap};
use vstd::prelude::*;

verus! {

/// The program that pushes `a`, pushes `b` and applies the operator `kind`.
pub open spec fn binop_program(a: i32, b: i32, kind: BinopKind) -> Seq<Instr> {
    seq![Instr::Push(Value::Int(a)), Instr::Push(Value::Int(b)), Instr::Binop(kind)]
}

/// A fresh machine that runs `Push(a); Push(b); Binop(kind)` with an
/// arithmetic operator ends with one value on the stack: `a + b` for `Plus`,
/// `b - a` for `Minus`, `a * b` for `Times` and, for `Divide`, the quotient
/// of `b` by `a` rounded toward zero, each wrapped to 32 bits. `Divide` by
/// `a == 0` fails with `DivideByZero` and leaves the stack empty.
pub proof fn lemma_arithmetic(a: i32, b: i32, kind: BinopKind, limit: nat)
    requires
        kind is Plus || kind is Minus || kind is Times || kind is Divide,
        limit >= 3,
    ensures
        ({
            let (end, result) = InterView::fresh().load(binop_program(a, b, kind)).run(limit);
            let vals = end.frames.last().vals;
            match kind {
                BinopKind::Plus => result is Ok && vals == seq![Value::Int(wrap(a + b))],
                BinopKind::Minus => result is Ok && vals == seq![Value::Int(wrap(b - a))],
                BinopKind::Times => result is Ok && vals == seq![Value::Int(wrap(a * b))],
                _ => if a == 0 {
                    result == Err::<(), ErrorKind>(ErrorKind::DivideByZero) && vals.len() == 0
                } else {
                    result is Ok && vals == seq![Value::Int(wrap(quotient(b as int, a as int)))]
                },
            }
        }),
{
    let m0 = InterView::fresh().load(binop_program(a, b, kind));
    assert(m0.instrs =~= binop_program(a, b, kind));
    reveal_with_fuel(InterView::run, 4);
    let m1 = m0.cycle().0;
    assert(m1.frames.last().vals =~= seq![Value::Int(a)]);
    let m2 = m1.cycle().0;
    assert(m2.frames.last().vals =~= seq![Value::Int(a), Value::Int(b)]);
    let m3 = m2.cycle().0;
    assert(m2.frames.last().vals.take(0) =~= Seq::<Value>::empty());
    assert(m3.halted());
}

/// The exact result of `kind` on `a`, the integer pushed first, and `b`, the
/// integer pushed second: the sum, the difference `b - a`, the product, or
/// the quotient of `b` by `a` rounded toward zero.
pub open spec fn exact(kind: BinopKind, a: int, b: int) -> int {
    match kind {
        BinopKind::Plus => a + b,
        BinopKind::Minus => b - a,
        BinopKind::Times => a * b,
        _ => quotient(b, a),
    }
}

/// Where the exact result of the operator fits in 32 bits, and the divisor of
/// a division is not 0, a fresh machine that runs `Push(a); Push(b);
/// Binop(kind)` ends with exactly that result on top of the stack.
pub proof fn lemma_arithmetic_exact(a: i32, b: i32, kind: BinopKind, limit: nat)
    requires
        kind is Plus || kind is Minus || kind is Times || kind is Divide,
        kind is Divide ==> a != 0,
        i32::MIN <= exact(kind, a as int, b as int) <= i32::MAX,
        limit >= 3,
    ensures
        ({
            let (end, result) = InterView::fresh().load(binop_program(a, b, kind)).run(limit);
            result is Ok && end.frames.last().vals.last() == Value::Int(
                exact(kind, a as int, b as int) as i32,
            )
        }),
{
    lemma_arithmetic(a, b, kind, limit);
    lemma_wrap_exact(exact(kind, a as int, b as int));
}

/// A halted machine stays as it is, however long it is run.
pub proof fn lemma_halted_stays(m: InterView, limit: nat)
    requires
        m.halted(),
    ensures
        m.run(limit) == (m, Ok::<(), ErrorKind>(())),
        m.tick() == (m, Ok::<(), ErrorKind>(())),
{
}

/// `Exit` ends the run: a machine that is about to execute `Exit` stops
/// after that one instruction, with the running flag cleared, and executes
/// nothing of what follows.
pub proof fn lemma_exit_halts(m: InterView, limit: nat)
    requires
        !m.halted(),
        m.frames.len() > 0,
        m.instrs[m.evaler.pc as int] is Exit,
        limit >= 1,
    ensures
        m.run(limit) == m.cycle(),
        m.run(limit).1 is Ok,
        !m.run(limit).0.evaler.running,
        m.run(limit).0.evaler.pc == m.evaler.pc + 1,
        m.run(limit).0.frames == m.frames,
{
    reveal_with_fuel(InterView::run, 2);
    assert(m.cycle().0.frames =~= m.frames);
}

/// A run ends in one of three ways: an instruction fails, the machine halts,
/// or the run has taken as many cycles as it was allowed. It never takes
/// more.
pub proof fn lemma_run_outcome(m: InterView, limit: nat)
    ensures
        m.cycles(limit) <= limit,
        m.run(limit).1 is Err || m.run(limit).0.halted() || m.cycles(limit) == limit,
    decreases limit,
{
    if !m.halted() && limit > 0 && m.cycle().1 is Ok {
        lemma_run_outcome(m.cycle().0, (limit - 1) as nat);
    }
}

/// A run that ended because the machine halted or an instruction failed is
/// the same run when it is allowed more cycles.
pub proof fn lemma_run_settles(m: InterView, limit: nat, more: nat)
    requires
        m.run(limit).1 is Err || m.run(limit).0.halted(),
    ensures
        m.run(limit + more) == m.run(limit),
    decreases limit,
{
    reveal_with_fuel(InterView::run, 2);
    if !m.halted() && limit > 0 && m.cycle().1 is Ok {
        lemma_run_settles(m.cycle().0, (limit - 1) as nat, more);
    }
}

/// Closing a block brings the value stack back to the length it had when the
/// block was opened, unless it is shorter than that already; what was on the
/// stack before the block was opened is as it was.
pub proof fn lemma_close_block_restores(frame: FrameView)
    requires
        frame.blocks.len() > 0,
    ensures
        ({
            let level = frame.blocks.last().stack_level;
            let after = close_block(frame).0;
            &&& after.blocks == frame.blocks.drop_last()
            &&& after.vals.len() <= level
            &&& frame.vals.len() >= level ==> after.vals == frame.vals.take(level as int)
            &&& frame.vals.len() <= level ==> after.vals == frame.vals
        }),
{
}

/// A block that is opened and closed at once changes nothing in the frame,
/// and sends the machine to the instruction that the block names.
pub proof fn lemma_open_then_close(ev: EvaluatorView, frame: FrameView, after_instr: usize)
    ensures
        ({
            let opened = step(ev, frame, Instr::PushScope(after_instr));
            let closed = step(opened.ev, opened.frame, Instr::PopScope);
            &&& opened.result is Ok
            &&& closed.result is Ok
            &&& closed.frame == frame
            &&& closed.ev == ev.at(after_instr as nat)
        }),
{
    let opened = step(ev, frame, Instr::PushScope(after_instr));
    assert(opened.frame.blocks.drop_last() =~= frame.blocks);
}

/// A value equals itself, values of different variants are never equal, and
/// `NotEqual` says the opposite of what `Equal` says.
pub proof fn lemma_compare(l: Value, r: Value)
    ensures
        compare(CompareKind::Equal, l, l) == Value::Bool(true),
        compare(CompareKind::NotEqual, l, l) == Value::Bool(false),
        compare(CompareKind::Equal, l, r) == compare(CompareKind::Equal, r, l),
        compare(CompareKind::NotEqual, l, r) == Value::Bool(
            compare(CompareKind::Equal, l, r) == Value::Bool(false),
        ),
        (l is Int && !(r is Int)) || (l is Bool && !(r is Bool)) || (l is String && !(r is String))
            ==> compare(CompareKind::Equal, l, r) == Value::Bool(false),
{
}

/// After `value` is stored under `name`, the name resolves to `value`, in
/// the block that bound it before where there was one and in the innermost
/// block otherwise; every other name resolves as before, and no block is
/// opened or closed.
pub proof fn lemma_store_then_lookup(blocks: Seq<BlockView>, name: Seq<char>, value: Value)
    requires
        blocks.len() > 0,
    ensures
        store(blocks, name, value) is Some,
        ({
            let after = store(blocks, name, value)->0;
            &&& after.len() == blocks.len()
            &&& lookup(after, name) == Some(value)
            &&& owner(after, name) == match owner(blocks, name) {
                Some(i) => Some(i),
                None => Some(blocks.len() - 1),
            }
            &&& forall|other: Seq<char>| other != name ==> lookup(after, other) == lookup(blocks, other)
        }),
{
    let after = store(blocks, name, value)->0;
    lemma_owner(blocks, name);
    let at = match owner(blocks, name) {
        Some(i) => i,
        None => blocks.len() - 1,
    };
    assert(after == blocks.update(at, blocks[at].bind(name, value)));
    lemma_owner_of_bound(blocks, at, name, value);
    assert forall|other: Seq<char>| other != name implies lookup(after, other) == lookup(
        blocks,
        other,
    ) by {
        lemma_bind_keeps_others(blocks, at, name, value, other);
    }
}

/// Binding `name` in the block at `at`, with no block further in binding it,
/// makes that block the owner of `name`.
proof fn lemma_owner_of_bound(blocks: Seq<BlockView>, at: int, name: Seq<char>, value: Value)
    requires
        0 <= at < blocks.len(),
        forall|j: int| at < j < blocks.len() ==> !blocks[j].locals.contains_key(name),
    ensures
        owner(blocks.update(at, blocks[at].bind(name, value)), name) == Some(at),
    decreases blocks.len(),
{
    let after = blocks.update(at, blocks[at].bind(name, value));
    if at < blocks.len() - 1 {
        assert(after.drop_last() == blocks.drop_last().update(
            at,
            blocks.drop_last()[at].bind(name, value),
        ));
        lemma_owner_of_bound(blocks.drop_last(), at, name, value);
    }
}

/// Binding `name` in one block changes the owner of no other name.
proof fn lemma_bind_keeps_others(
    blocks: Seq<BlockView>,
    at: int,
    name: Seq<char>,
    value: Value,
    other: Seq<char>,
)
    requires
        0 <= at < blocks.len(),
        other != name,
    ensures
        owner(blocks.update(at, blocks[at].bind(name, value)), other) == owner(blocks, other),
        lookup(blocks.update(at, blocks[at].bind(name, value)), other) == lookup(blocks, other),
    decreases blocks.len(),
{
    let after = blocks.update(at, blocks[at].bind(name, value));
    lemma_owner(blocks, other);
    if at < blocks.len() - 1 {
        assert(after.drop_last() == blocks.drop_last().update(
            at,
            blocks.drop_last()[at].bind(name, value),
        ));
        lemma_bind_keeps_others(blocks.drop_last(), at, name, value, other);
    } else {
        assert(after.drop_last() == blocks.drop_last());
    }
}

} // verus!
