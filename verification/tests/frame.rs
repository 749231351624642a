use stackvm::vm::frame::{Block, Frame};
use stackvm::vm::stack::StackKind;
use stackvm::vm::value::Value;

fn name(text: &str) -> String {
    text.to_string()
}

#[test]
fn a_new_block_has_no_variables() {
    let block = Block::new(3, 9);

    assert_eq!(block.stack_level, 3);
    assert_eq!(block.after_instr, 9);
    assert!(block.locals.is_empty());
}

#[test]
fn a_new_frame_has_the_outermost_block() {
    let frame = Frame::new().unwrap();

    assert!(frame.vals.is_empty());
    assert_eq!(frame.blocks.len(), 1);
    assert_eq!(frame.blocks.top().unwrap().stack_level, 0);
    assert_eq!(frame.blocks.top().unwrap().after_instr, 0);
    assert!(frame.blocks.top().unwrap().locals.is_empty());
    assert!(matches!(frame.vals.kind, StackKind::Value));
    assert!(matches!(frame.blocks.kind, StackKind::Scope));
}

#[test]
fn an_unbound_name_resolves_to_nothing() {
    let mut frame = Frame::new().unwrap();

    assert!(frame.get_local(&name("x")).is_none());
    assert!(frame.get_local_mut(&name("x")).is_none());
}

#[test]
fn a_name_resolves_in_the_block_that_binds_it() {
    let mut frame = Frame::new().unwrap();

    frame.blocks.top_mut().unwrap().locals.insert(name("x"), Value::Int(1));

    assert_eq!(frame.get_local(&name("x")), Some(&Value::Int(1)));
    assert!(frame.get_local(&name("y")).is_none());
}

#[test]
fn an_outer_binding_is_seen_from_inside() {
    let mut frame = Frame::new().unwrap();

    frame.blocks.top_mut().unwrap().locals.insert(name("x"), Value::Int(1));
    frame.blocks.push(Block::new(0, 0)).unwrap();
    frame.blocks.push(Block::new(0, 0)).unwrap();

    assert_eq!(frame.get_local(&name("x")), Some(&Value::Int(1)));
}

#[test]
fn the_innermost_binding_wins() {
    let mut frame = Frame::new().unwrap();

    frame.blocks.top_mut().unwrap().locals.insert(name("x"), Value::Int(1));
    frame.blocks.push(Block::new(0, 0)).unwrap();
    frame.blocks.top_mut().unwrap().locals.insert(name("x"), Value::Int(2));
    frame.blocks.push(Block::new(0, 0)).unwrap();

    assert_eq!(frame.get_local(&name("x")), Some(&Value::Int(2)));

    frame.blocks.pop().unwrap();
    frame.blocks.pop().unwrap();

    assert_eq!(frame.get_local(&name("x")), Some(&Value::Int(1)));
}

#[test]
fn get_local_mut_gives_the_block_that_binds_the_name() {
    let mut frame = Frame::new().unwrap();

    frame.blocks.top_mut().unwrap().locals.insert(name("x"), Value::Int(1));
    frame.blocks.push(Block::new(5, 6)).unwrap();
    frame.blocks.top_mut().unwrap().locals.insert(name("y"), Value::Int(2));

    let outer = frame.get_local_mut(&name("x")).unwrap();

    assert_eq!(outer.stack_level, 0);

    outer.locals.insert(name("x"), Value::Int(10));

    let inner = frame.get_local_mut(&name("y")).unwrap();

    assert_eq!(inner.stack_level, 5);
    assert_eq!(inner.after_instr, 6);

    assert_eq!(frame.get_local(&name("x")), Some(&Value::Int(10)));
    assert_eq!(frame.blocks.stack[0].locals.get("x"), Some(&Value::Int(10)));
    assert!(!frame.blocks.stack[1].locals.contains_key("x"));
}

#[test]
fn a_frame_without_blocks_binds_nothing() {
    let mut frame = Frame::new().unwrap();

    frame.blocks.top_mut().unwrap().locals.insert(name("x"), Value::Int(1));
    frame.blocks.pop().unwrap();

    assert!(frame.get_local(&name("x")).is_none());
    assert!(frame.get_local_mut(&name("x")).is_none());
}
