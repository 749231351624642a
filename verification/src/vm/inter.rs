//! The interpreter: a program, the registers and the frame stack, and the
//! loop that runs the program.
//!
//! The machine is either running or halted. It halts when `Exit` clears the
//! running flag and when the program counter leaves the program; an
//! instruction that fails aborts the run and leaves the machine as the
//! failure left it.
//!
//! There is one frame for the whole program: no instruction opens another.
//! The frame stack is kept as the place where calls would go.

use super::eval::{step, Evaluator, EvaluatorView};
use super::frame::{Frame, FrameView};
use super::instr::Instr;
use super::stack::{underflow, Stack, StackKind};
use super::ErrorKind;
use vstd::prelude::*;

verus! {

/// The most instructions that [`Inter::run`] executes before it returns.
pub const STEP_LIMIT: u64 = 0xffff_ffff_ffff_ffff;

/// A machine with its program.
pub struct Inter {
    pub evaler: Evaluator,
    pub instrs: Vec<Instr>,
    pub frames: Stack<Frame>,
}

/// An [`Inter`] as registers, program and frames, the active frame last.
#[verifier::ext_equal]
pub struct InterView {
    pub evaler: EvaluatorView,
    pub instrs: Seq<Instr>,
    pub frames: Seq<FrameView>,
    /// The kind that the frame stack is labelled with.
    pub frames_kind: StackKind,
}

impl View for Inter {
    type V = InterView;

    open spec fn view(&self) -> InterView {
        InterView {
            evaler: self.evaler@,
            instrs: self.instrs@,
            frames: self.frames@.map_values(|f: Frame| f@),
            frames_kind: self.frames.kind,
        }
    }
}

impl InterView {
    /// A machine that has not started and has no program: at instruction 0,
    /// with one frame whose value stack is empty and whose outermost block is
    /// open.
    pub open spec fn fresh() -> InterView {
        InterView {
            evaler: EvaluatorView {
                pc: 0,
                running: true,
                globals: Map::empty(),
                output: Seq::empty(),
            },
            instrs: Seq::empty(),
            frames: seq![FrameView::fresh()],
            frames_kind: StackKind::Frame,
        }
    }

    /// The machine with `instrs` added at the end of its program.
    pub open spec fn load(self, instrs: Seq<Instr>) -> InterView {
        InterView { instrs: self.instrs + instrs, ..self }
    }

    /// Whether the machine executes nothing more: `Exit` has stopped it, or
    /// the program counter is outside the program.
    pub open spec fn halted(self) -> bool {
        !self.evaler.running || self.evaler.pc >= self.instrs.len()
    }

    /// One cycle of a machine that has not halted: the instruction at the
    /// program counter is executed on the active frame. Without a frame the
    /// cycle fails and changes nothing.
    pub open spec fn cycle(self) -> (InterView, Result<(), ErrorKind>) {
        if self.frames.len() == 0 {
            (self, Err(underflow(self.frames_kind)))
        } else {
            let s = step(self.evaler, self.frames.last(), self.instrs[self.evaler.pc as int]);
            (
                InterView { evaler: s.ev, frames: self.frames.drop_last().push(s.frame), ..self },
                s.result,
            )
        }
    }

    /// One cycle of any machine: a halted machine stays as it is.
    pub open spec fn tick(self) -> (InterView, Result<(), ErrorKind>) {
        if self.halted() {
            (self, Ok(()))
        } else {
            self.cycle()
        }
    }

    /// The run of at most `limit` cycles: the machine cycles until it halts,
    /// until a cycle fails, or until `limit` cycles are done. The result is
    /// the first failure, if there is one.
    pub open spec fn run(self, limit: nat) -> (InterView, Result<(), ErrorKind>)
        decreases limit,
    {
        if self.halted() || limit == 0 {
            (self, Ok(()))
        } else if self.cycle().1 is Err {
            self.cycle()
        } else {
            self.cycle().0.run((limit - 1) as nat)
        }
    }

    /// How many cycles the run of at most `limit` cycles takes.
    pub open spec fn cycles(self, limit: nat) -> nat
        decreases limit,
    {
        if self.halted() || limit == 0 {
            0
        } else if self.cycle().1 is Err {
            1
        } else {
            1 + self.cycle().0.cycles((limit - 1) as nat)
        }
    }
}

impl Inter {
    /// A machine that has not started and has no program.
    pub fn new() -> (r: Result<Self, ErrorKind>)
        ensures
            r is Ok,
            r->Ok_0@ == InterView::fresh(),
    {
        let mut inter = Inter {
            evaler: Evaluator::default(),
            instrs: Vec::new(),
            frames: Stack::new(StackKind::Frame),
        };
        inter.frames.push(Frame::new()?)?;
        Ok(inter)
    }

    /// Whether the machine executes nothing more.
    pub fn is_halted(&self) -> (r: bool)
        ensures
            r == self@.halted(),
    {
        !self.evaler.running || self.evaler.pc >= self.instrs.len()
    }

    /// Executes the instruction at the program counter on the active frame;
    /// does nothing on a halted machine.
    pub fn tick(&mut self) -> (r: Result<(), ErrorKind>)
        ensures
            final(self)@ == old(self)@.tick().0,
            r == old(self)@.tick().1,
    {
        if self.is_halted() {
            return Ok(());
        }
        let ghost frames = self.frames@;
        assert(self.evaler.pc < self.instrs.len());
        let top_frame = self.frames.top_mut()?;
        let r = self.evaler.eval(top_frame, &self.instrs[self.evaler.pc]);
        assert(self.frames@ == frames.drop_last().push(self.frames@.last()));
        assert(self@.frames == old(self)@.frames.drop_last().push(self.frames@.last()@));
        r
    }

    /// Runs the program until the machine halts or an instruction fails, and
    /// returns the failure if there was one. A run that has executed
    /// [`STEP_LIMIT`] instructions returns as it stands.
    pub fn run(&mut self) -> (r: Result<(), ErrorKind>)
        ensures
            final(self)@ == old(self)@.run(STEP_LIMIT as nat).0,
            r == old(self)@.run(STEP_LIMIT as nat).1,
    {
        self.run_steps(STEP_LIMIT)
    }

    /// Runs the program for at most `limit` instructions: until the machine
    /// halts, an instruction fails, or the limit is reached.
    pub fn run_steps(&mut self, limit: u64) -> (r: Result<(), ErrorKind>)
        ensures
            final(self)@ == old(self)@.run(limit as nat).0,
            r == old(self)@.run(limit as nat).1,
    {
        let mut left = limit;
        while !self.is_halted() && left > 0
            invariant
                self@.run(left as nat) == old(self)@.run(limit as nat),
            decreases left,
        {
            self.tick()?;
            left -= 1;
        }
        Ok(())
    }

    /// Adds `instrs` at the end of the program.
    pub fn push_instrs(&mut self, instrs: &[Instr])
        ensures
            final(self)@ == old(self)@.load(instrs@),
    {
        let mut i: usize = 0;
        while i < instrs.len()
            invariant
                i <= instrs@.len(),
                self@ == old(self)@.load(instrs@.take(i as int)),
            decreases instrs@.len() - i,
        {
            self.push_instr(instrs[i].clone());
            i += 1;
        }
        assert(instrs@.take(i as int) == instrs@);
    }

    /// Adds `instr` at the end of the program.
    pub fn push_instr(&mut self, instr: Instr)
        ensures
            final(self)@ == old(self)@.load(seq![instr]),
    {
        self.instrs.push(instr);
    }
}

} // verus!
