use stackvm::vm::instr::{BinopKind, CompareKind, Instr};
use stackvm::vm::inter::{Inter, STEP_LIMIT};
use stackvm::vm::stack::{StackErrorKind, StackKind};
use stackvm::vm::value::Value;
use stackvm::vm::ErrorKind;

fn name(text: &str) -> String {
    text.to_string()
}

fn loaded(instrs: &[Instr]) -> Inter {
    let mut inter = Inter::new().unwrap();

    inter.push_instrs(instrs);

    inter
}

#[test]
fn a_new_machine_is_halted_at_zero() {
    let inter = Inter::new().unwrap();

    assert_eq!(inter.evaler.pc, 0);
    assert!(inter.evaler.running);
    assert!(inter.instrs.is_empty());
    assert_eq!(inter.frames.len(), 1);
    assert!(inter.is_halted());
    assert!(matches!(inter.frames.kind, StackKind::Frame));
}

#[test]
fn running_an_empty_program_does_nothing() {
    let mut inter = Inter::new().unwrap();

    inter.run().unwrap();

    assert_eq!(inter.evaler.pc, 0);
    assert!(inter.evaler.running);
    assert!(inter.frames.top().unwrap().vals.is_empty());
}

#[test]
fn push_instrs_appends() {
    let mut inter = loaded(&[Instr::Push(Value::Int(1)), Instr::Pop]);

    inter.push_instrs(&[]);
    inter.push_instrs(&[Instr::Exit]);
    inter.push_instr(Instr::Print);

    assert_eq!(inter.instrs.len(), 4);
    assert!(matches!(inter.instrs[0], Instr::Push(Value::Int(1))));
    assert!(matches!(inter.instrs[1], Instr::Pop));
    assert!(matches!(inter.instrs[2], Instr::Exit));
    assert!(matches!(inter.instrs[3], Instr::Print));
    assert_eq!(inter.evaler.pc, 0);
}

#[test]
fn a_run_ends_when_the_counter_leaves_the_program() {
    let mut inter = loaded(&[Instr::Push(Value::Int(1)), Instr::Push(Value::Int(2))]);

    inter.run().unwrap();

    assert_eq!(inter.evaler.pc, 2);
    assert!(inter.evaler.running);
    assert!(inter.is_halted());
}

#[test]
fn exit_halts_before_the_next_instruction() {
    let mut inter = loaded(&[Instr::Push(Value::Int(400)), Instr::Exit, Instr::Print]);

    inter.run().unwrap();

    assert!(!inter.evaler.running);
    assert_eq!(inter.evaler.pc, 2);
    assert!(inter.evaler.output.is_empty());
    assert_eq!(inter.frames.top().unwrap().vals.stack, vec![Value::Int(400)]);
}

#[test]
fn a_jump_out_of_the_program_ends_the_run() {
    let mut inter = loaded(&[Instr::Jump(100), Instr::Push(Value::Int(1))]);

    inter.run().unwrap();

    assert_eq!(inter.evaler.pc, 100);
    assert!(inter.frames.top().unwrap().vals.is_empty());
}

#[test]
fn a_failure_aborts_the_run_and_keeps_the_state() {
    let mut inter = loaded(&[
        Instr::Push(Value::Int(1)),
        Instr::StoreGlobal(name("g")),
        Instr::Push(Value::Int(2)),
        Instr::Binop(BinopKind::And),
        Instr::Push(Value::Int(3)),
    ]);

    assert!(matches!(
        inter.run(),
        Err(ErrorKind::StackError(StackKind::Value, StackErrorKind::StackUnderflow))
    ));
    assert_eq!(inter.evaler.pc, 4);
    assert!(inter.evaler.running);
    assert!(inter.evaler.globals.contains_key("g"));
    assert!(inter.frames.top().unwrap().vals.is_empty());
}

#[test]
fn a_run_goes_on_after_a_failure_where_it_is_asked_to() {
    let mut inter = loaded(&[Instr::Pop, Instr::Push(Value::Int(3))]);

    assert!(inter.run().is_err());

    inter.run().unwrap();

    assert_eq!(inter.frames.top().unwrap().vals.stack, vec![Value::Int(3)]);
}

#[test]
fn tick_executes_one_instruction() {
    let mut inter = loaded(&[Instr::Push(Value::Int(1)), Instr::Push(Value::Int(2))]);

    inter.tick().unwrap();

    assert_eq!(inter.evaler.pc, 1);
    assert_eq!(inter.frames.top().unwrap().vals.stack, vec![Value::Int(1)]);

    inter.tick().unwrap();
    inter.tick().unwrap();

    assert_eq!(inter.evaler.pc, 2);
    assert_eq!(inter.frames.top().unwrap().vals.stack, vec![Value::Int(1), Value::Int(2)]);
}

#[test]
fn run_steps_stops_at_the_limit() {
    let mut inter = loaded(&[Instr::Push(Value::Int(1)), Instr::Jump(0)]);

    inter.run_steps(7).unwrap();

    assert!(!inter.is_halted());
    assert_eq!(inter.evaler.pc, 1);
    assert_eq!(inter.frames.top().unwrap().vals.len(), 4);

    inter.run_steps(0).unwrap();

    assert_eq!(inter.evaler.pc, 1);
    assert_eq!(inter.frames.top().unwrap().vals.len(), 4);
}

#[test]
fn run_steps_with_room_to_spare_runs_to_the_end() {
    let mut inter = loaded(&[Instr::Push(Value::Int(1)), Instr::Exit]);

    inter.run_steps(100).unwrap();

    assert!(inter.is_halted());
    assert_eq!(inter.evaler.pc, 2);
}

#[test]
fn the_step_limit_is_the_largest_there_is() {
    assert_eq!(STEP_LIMIT, u64::MAX);
}

#[test]
fn a_machine_without_a_frame_fails_when_it_has_to_execute() {
    let mut inter = loaded(&[Instr::Push(Value::Int(1))]);

    inter.frames.pop().unwrap();

    assert!(matches!(
        inter.run(),
        Err(ErrorKind::StackError(StackKind::Frame, StackErrorKind::StackUnderflow))
    ));
    assert_eq!(inter.evaler.pc, 0);
}

#[test]
fn a_halted_machine_without_a_frame_does_not_fail() {
    let mut inter = Inter::new().unwrap();

    inter.frames.pop().unwrap();

    inter.run().unwrap();
    inter.tick().unwrap();
}

#[test]
fn two_integers_and_an_operator() {
    let pairs = [(0, 0), (1, 2), (400, 400), (-7, 2), (2, -7), (12345, -678), (i32::MAX, i32::MIN)];

    for (a, b) in pairs {
        for (kind, expected) in [
            (BinopKind::Plus, a.wrapping_add(b)),
            (BinopKind::Minus, b.wrapping_sub(a)),
            (BinopKind::Times, a.wrapping_mul(b)),
        ] {
            let mut inter = loaded(&[
                Instr::Push(Value::Int(a)),
                Instr::Push(Value::Int(b)),
                Instr::Binop(kind),
            ]);

            inter.run().unwrap();

            assert_eq!(inter.frames.top().unwrap().vals.stack, vec![Value::Int(expected)]);
        }

        let mut inter = loaded(&[
            Instr::Push(Value::Int(a)),
            Instr::Push(Value::Int(b)),
            Instr::Binop(BinopKind::Divide),
        ]);

        if a == 0 {
            assert!(matches!(inter.run(), Err(ErrorKind::DivideByZero)));
        } else {
            inter.run().unwrap();

            assert_eq!(
                inter.frames.top().unwrap().vals.stack,
                vec![Value::Int(b.wrapping_div(a))]
            );
        }
    }
}

#[test]
fn the_loop_leaves_i_in_the_outermost_block() {
    let mut inter = loaded(&[
        Instr::Push(Value::Int(0)),            // 0
        Instr::Store(name("i")),               // 1
        Instr::PushScope(15),                  // 2
        Instr::Load(name("i")),                // 3
        Instr::Push(Value::Int(3)),            // 4
        Instr::Compare(CompareKind::NotEqual), // 5
        Instr::PopJumpFalse(14),               // 6
        Instr::Push(Value::Int(4)),            // 7
        Instr::Store(name("x")),               // 8
        Instr::Load(name("i")),                // 9
        Instr::Push(Value::Int(1)),            // 10
        Instr::Binop(BinopKind::Plus),         // 11
        Instr::Store(name("i")),               // 12
        Instr::Jump(3),                        // 13
        Instr::PopScope,                       // 14
        Instr::Exit,                           // 15
    ]);

    inter.run().unwrap();

    let frame = inter.frames.top().unwrap();

    assert_eq!(frame.blocks.len(), 1);
    assert_eq!(frame.blocks.top().unwrap().locals.get("i"), Some(&Value::Int(3)));
    assert!(!frame.blocks.top().unwrap().locals.contains_key("x"));
    assert!(frame.vals.is_empty());
    assert!(!inter.evaler.running);
    assert_eq!(inter.evaler.pc, 16);
}

#[test]
fn a_loop_prints_as_it_counts() {
    let mut inter = loaded(&[
        Instr::Push(Value::Int(0)),            // 0
        Instr::Store(name("i")),               // 1
        Instr::Load(name("i")),                // 2
        Instr::Push(Value::Int(3)),            // 3
        Instr::Compare(CompareKind::NotEqual), // 4
        Instr::PopJumpFalse(13),               // 5
        Instr::Load(name("i")),                // 6
        Instr::Print,                          // 7
        Instr::Load(name("i")),                // 8
        Instr::Push(Value::Int(1)),            // 9
        Instr::Binop(BinopKind::Plus),         // 10
        Instr::Store(name("i")),               // 11
        Instr::Jump(2),                        // 12
        Instr::Exit,                           // 13
    ]);

    inter.run().unwrap();

    assert_eq!(inter.evaler.output, vec![name("0"), name("1"), name("2")]);
}
