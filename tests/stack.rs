use chip8::{MachineError, Stack, STACK_SIZE};

#[test]
fn interpreter_stack_pushing_and_popping() {
    let mut stack = Stack::new();
    stack.push(10).unwrap();
    stack.push(20).unwrap();
    assert_eq!(stack.pop(), Some(20));
    stack.push(30).unwrap();
    assert_eq!(stack.pop(), Some(30));
    assert_eq!(stack.pop(), Some(10));
    assert_eq!(stack.pop(), None);
}

#[test]
fn main_stack_pushing_and_popping() {
    let mut stack = Stack::new();
    stack.push(10).unwrap();
    stack.push(20).unwrap();
    assert_eq!(stack.pop(), Some(20));
    stack.push(30).unwrap();
    assert_eq!(stack.pop(), Some(30));
    assert_eq!(stack.pop(), Some(10));
    assert_eq!(stack.pop(), None);
}

#[test]
fn push_onto_full_stack_overflows() {
    let mut stack = Stack::new();
    for k in 0..STACK_SIZE {
        assert_eq!(stack.push(k as u8), Ok(()));
    }
    assert_eq!(stack.len(), STACK_SIZE);
    assert_eq!(stack.push(99), Err(MachineError::StackOverflow));
    assert_eq!(stack.len(), STACK_SIZE);
    assert_eq!(stack.pop(), Some((STACK_SIZE - 1) as u8));
}

#[test]
fn pop_on_new_stack_is_none() {
    let mut stack = Stack::new();
    assert_eq!(stack.pop(), None);
    assert_eq!(stack.len(), 0);
}
