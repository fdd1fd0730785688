use chip8::{
    Instruction, Interpreter, MachineError, FLAG_REGISTER, FONT_START_ADDRESS, MEMORY_SIZE,
    PC_START_ADDRESS, SCREEN_WIDTH, STACK_SIZE,
};

const PROGRAM: [u8; 10] = [0, 1, 2, 3, 4, 5, 6, 7, 8, 9];

#[test]
fn load_program() {
    let mut interpreter = Interpreter::new();
    interpreter.load_program(&PROGRAM).unwrap();

    for i in 0..PROGRAM.len() {
        assert_eq!(interpreter.memory()[PC_START_ADDRESS + i], PROGRAM[i])
    }
}

#[test]
fn fetch_instruction() {
    let mut interpreter = Interpreter::new();
    interpreter.load_program(&PROGRAM).unwrap();

    assert_eq!(interpreter.fetch_instruction(), Ok(1));
    assert_eq!(interpreter.fetch_instruction(), Ok(0b0000001000000011));
    assert_eq!(interpreter.fetch_instruction(), Ok(0b0000010000000101));
    assert_eq!(interpreter.fetch_instruction(), Ok(0b0000011000000111));
    assert_eq!(interpreter.fetch_instruction(), Ok(0b0000100000001001));
}

#[test]
fn fetch_advances_pc_by_two() {
    let mut interpreter = Interpreter::new();
    interpreter.load_program(&PROGRAM).unwrap();
    assert_eq!(interpreter.pc(), PC_START_ADDRESS);
    interpreter.fetch_instruction().unwrap();
    assert_eq!(interpreter.pc(), PC_START_ADDRESS + 2);
    interpreter.fetch_instruction().unwrap();
    assert_eq!(interpreter.pc(), PC_START_ADDRESS + 4);
}

#[test]
fn new_machine_holds_the_font() {
    let interpreter = Interpreter::new();
    let memory = interpreter.memory();
    assert_eq!(memory.len(), MEMORY_SIZE);
    assert_eq!(&memory[FONT_START_ADDRESS..FONT_START_ADDRESS + 5], &[0xF0, 0x90, 0x90, 0x90, 0xF0]);
    assert_eq!(&memory[FONT_START_ADDRESS + 75..FONT_START_ADDRESS + 80], &[0xF0, 0x80, 0xF0, 0x80, 0x80]);
    assert_eq!(memory[FONT_START_ADDRESS - 1], 0);
    assert_eq!(memory[FONT_START_ADDRESS + 80], 0);
    assert!(interpreter.screen().iter().all(|&c| c == 0));
    assert!(interpreter.registers().iter().all(|&r| r == 0));
}

#[test]
fn largest_program_loads_and_larger_is_refused() {
    let mut interpreter = Interpreter::new();
    let largest = vec![0xAB; MEMORY_SIZE - PC_START_ADDRESS];
    assert_eq!(interpreter.load_program(&largest), Ok(()));
    assert_eq!(interpreter.memory()[MEMORY_SIZE - 1], 0xAB);

    let mut fresh = Interpreter::new();
    let too_large = vec![0xCD; MEMORY_SIZE - PC_START_ADDRESS + 1];
    assert_eq!(fresh.load_program(&too_large), Err(MachineError::ProgramLoadOverflow));
    assert!(fresh.memory()[PC_START_ADDRESS..].iter().all(|&b| b == 0));
}

#[test]
fn empty_program_changes_nothing() {
    let mut interpreter = Interpreter::new();
    assert_eq!(interpreter.load_program(&[]), Ok(()));
    assert_eq!(interpreter.memory()[PC_START_ADDRESS], 0);
}

#[test]
fn fetch_past_end_of_memory_fails() {
    let mut interpreter = Interpreter::new();
    // JP 0xFFF
    interpreter.load_program(&[0x1F, 0xFF]).unwrap();
    assert_eq!(interpreter.cycle(), Ok(()));
    assert_eq!(interpreter.pc(), 0xFFF);
    assert_eq!(interpreter.fetch_instruction(), Err(MachineError::OutOfBoundsFetch));
    assert_eq!(interpreter.pc(), 0xFFF);
    assert_eq!(interpreter.cycle(), Err(MachineError::OutOfBoundsFetch));
}

#[test]
fn add_to_register_wraps_without_flag() {
    let mut interpreter = Interpreter::new();
    // V3 := 0xFF; VF := 7; V3 += 0x01
    interpreter.load_program(&[0x63, 0xFF, 0x6F, 0x07, 0x73, 0x01]).unwrap();
    for _ in 0..3 {
        interpreter.cycle().unwrap();
    }
    assert_eq!(interpreter.registers()[3], 0x00);
    assert_eq!(interpreter.registers()[FLAG_REGISTER], 7);
    assert_eq!(interpreter.pc(), PC_START_ADDRESS + 6);
}

#[test]
fn add_to_register_without_overflow() {
    let mut interpreter = Interpreter::new();
    interpreter.execute(Instruction::SetRegister(2, 40)).unwrap();
    interpreter.execute(Instruction::AddToRegister(2, 2)).unwrap();
    assert_eq!(interpreter.registers()[2], 42);
}

#[test]
fn set_i_and_jump() {
    let mut interpreter = Interpreter::new();
    interpreter.execute(Instruction::SetI(0x123)).unwrap();
    assert_eq!(interpreter.index(), 0x123);
    interpreter.execute(Instruction::Jump(0x300)).unwrap();
    assert_eq!(interpreter.pc(), 0x300);
}

#[test]
fn not_implemented_is_reported() {
    let mut interpreter = Interpreter::new();
    interpreter.load_program(&[0x51, 0x21]).unwrap();
    assert_eq!(interpreter.cycle(), Err(MachineError::UnimplementedOpcode));
    assert_eq!(interpreter.pc(), PC_START_ADDRESS + 2);
    assert_eq!(
        interpreter.execute(Instruction::NotImplemented),
        Err(MachineError::UnimplementedOpcode)
    );
}

fn lit(interpreter: &Interpreter, x: usize, y: usize) -> u8 {
    interpreter.screen()[y * SCREEN_WIDTH + x]
}

#[test]
fn draw_sprite_twice_toggles_off_and_collides() {
    let mut interpreter = Interpreter::new();
    // I := font glyph "0"; V0 := 10; V1 := 5; draw 5 rows; draw again.
    interpreter
        .load_program(&[0xA0, 0x50, 0x60, 0x0A, 0x61, 0x05, 0xD0, 0x15, 0xD0, 0x15])
        .unwrap();
    for _ in 0..4 {
        interpreter.cycle().unwrap();
    }
    assert_eq!(interpreter.registers()[FLAG_REGISTER], 0);
    // Glyph "0" first row is 0xF0: four lit pixels then four unlit.
    for dx in 0..4 {
        assert_eq!(lit(&interpreter, 10 + dx, 5), 1);
    }
    assert_eq!(lit(&interpreter, 14, 5), 0);
    // Second row 0x90: pixels 0 and 3.
    assert_eq!(lit(&interpreter, 10, 6), 1);
    assert_eq!(lit(&interpreter, 11, 6), 0);
    assert_eq!(lit(&interpreter, 13, 6), 1);
    let lit_count: usize = interpreter.screen().iter().map(|&c| c as usize).sum();
    assert_eq!(lit_count, 4 + 2 + 2 + 2 + 4);

    interpreter.cycle().unwrap();
    assert_eq!(interpreter.registers()[FLAG_REGISTER], 1);
    assert!(interpreter.screen().iter().all(|&c| c == 0));
}

#[test]
fn draw_sprite_wraps_around_edges() {
    let mut interpreter = Interpreter::new();
    interpreter.execute(Instruction::SetI(FONT_START_ADDRESS as u16)).unwrap();
    // A y coordinate past the bottom edge is taken modulo the height.
    interpreter.execute(Instruction::SetRegister(0, 62)).unwrap();
    interpreter.execute(Instruction::SetRegister(1, 31 + 32)).unwrap();
    interpreter.execute(Instruction::DrawSprite(0, 1, 2)).unwrap();
    // Row 0 (0xF0) on line 31, columns 62, 63, 0, 1.
    assert_eq!(lit(&interpreter, 62, 31), 1);
    assert_eq!(lit(&interpreter, 63, 31), 1);
    assert_eq!(lit(&interpreter, 0, 31), 1);
    assert_eq!(lit(&interpreter, 1, 31), 1);
    assert_eq!(lit(&interpreter, 2, 31), 0);
    // Row 1 (0x90) wraps to line 0: columns 62 and 1.
    assert_eq!(lit(&interpreter, 62, 0), 1);
    assert_eq!(lit(&interpreter, 63, 0), 0);
    assert_eq!(lit(&interpreter, 1, 0), 1);
    assert_eq!(interpreter.registers()[FLAG_REGISTER], 0);
}

#[test]
fn clear_screen_unlights_every_cell() {
    let mut interpreter = Interpreter::new();
    interpreter.execute(Instruction::SetI(FONT_START_ADDRESS as u16)).unwrap();
    interpreter.execute(Instruction::DrawSprite(0, 0, 5)).unwrap();
    assert!(interpreter.screen().iter().any(|&c| c == 1));
    interpreter.execute(Instruction::ClearScreen).unwrap();
    assert!(interpreter.screen().iter().all(|&c| c == 0));
}

#[test]
fn update_timers_on_stopped_timers_keeps_them_at_zero() {
    let mut interpreter = Interpreter::new();
    interpreter.update_timers();
    assert_eq!(interpreter.timers().delay_timer, 0);
    assert_eq!(interpreter.timers().sound_timer, 0);
}

fn run(program: &[u8], cycles: usize) -> Interpreter {
    let mut interpreter = Interpreter::new();
    interpreter.load_program(program).unwrap();
    for _ in 0..cycles {
        interpreter.cycle().unwrap();
    }
    interpreter
}

#[test]
fn call_and_return() {
    // 200: CALL 206; 202: V1 := 2; 204: JP 204; 206: V0 := 1; 208: RET
    let program = [0x22, 0x06, 0x61, 0x02, 0x12, 0x04, 0x60, 0x01, 0x00, 0xEE];
    let interpreter = run(&program, 1);
    assert_eq!(interpreter.pc(), 0x206);
    let interpreter = run(&program, 4);
    assert_eq!(interpreter.registers()[0], 1);
    assert_eq!(interpreter.registers()[1], 2);
    assert_eq!(interpreter.pc(), 0x204);
}

#[test]
fn return_with_empty_stack_underflows() {
    let mut interpreter = Interpreter::new();
    assert_eq!(interpreter.execute(Instruction::Return), Err(MachineError::StackUnderflow));
    assert_eq!(interpreter.pc(), PC_START_ADDRESS);
}

#[test]
fn runaway_calls_overflow_the_stack() {
    // 200: CALL 200, forever.
    let mut interpreter = Interpreter::new();
    interpreter.load_program(&[0x22, 0x00]).unwrap();
    for _ in 0..STACK_SIZE / 2 {
        assert_eq!(interpreter.cycle(), Ok(()));
    }
    assert_eq!(interpreter.cycle(), Err(MachineError::StackOverflow));
}

#[test]
fn skips_on_register_comparisons() {
    let mut interpreter = Interpreter::new();
    interpreter.execute(Instruction::SetRegister(1, 7)).unwrap();
    interpreter.execute(Instruction::SetRegister(2, 7)).unwrap();
    interpreter.execute(Instruction::SkipIfEqual(1, 7)).unwrap();
    assert_eq!(interpreter.pc(), PC_START_ADDRESS + 2);
    interpreter.execute(Instruction::SkipIfNotEqual(1, 7)).unwrap();
    assert_eq!(interpreter.pc(), PC_START_ADDRESS + 2);
    interpreter.execute(Instruction::SkipIfRegistersEqual(1, 2)).unwrap();
    assert_eq!(interpreter.pc(), PC_START_ADDRESS + 4);
    interpreter.execute(Instruction::SkipIfRegistersNotEqual(1, 2)).unwrap();
    assert_eq!(interpreter.pc(), PC_START_ADDRESS + 4);
    interpreter.execute(Instruction::SkipIfNotEqual(1, 8)).unwrap();
    assert_eq!(interpreter.pc(), PC_START_ADDRESS + 6);
}

fn with_registers(a: u8, b: u8) -> Interpreter {
    let mut interpreter = Interpreter::new();
    interpreter.execute(Instruction::SetRegister(1, a)).unwrap();
    interpreter.execute(Instruction::SetRegister(2, b)).unwrap();
    interpreter
}

#[test]
fn register_arithmetic_sets_flags() {
    let mut m = with_registers(200, 100);
    m.execute(Instruction::AddRegisters(1, 2)).unwrap();
    assert_eq!((m.registers()[1], m.registers()[FLAG_REGISTER]), (44, 1));

    let mut m = with_registers(20, 100);
    m.execute(Instruction::AddRegisters(1, 2)).unwrap();
    assert_eq!((m.registers()[1], m.registers()[FLAG_REGISTER]), (120, 0));

    let mut m = with_registers(10, 30);
    m.execute(Instruction::SubtractRegisters(1, 2)).unwrap();
    assert_eq!((m.registers()[1], m.registers()[FLAG_REGISTER]), (236, 0));

    let mut m = with_registers(30, 10);
    m.execute(Instruction::SubtractRegisters(1, 2)).unwrap();
    assert_eq!((m.registers()[1], m.registers()[FLAG_REGISTER]), (20, 1));

    let mut m = with_registers(10, 30);
    m.execute(Instruction::SubtractReversed(1, 2)).unwrap();
    assert_eq!((m.registers()[1], m.registers()[FLAG_REGISTER]), (20, 1));

    let mut m = with_registers(0, 0b1000_0011);
    m.execute(Instruction::ShiftRight(1, 2)).unwrap();
    assert_eq!((m.registers()[1], m.registers()[FLAG_REGISTER]), (0b0100_0001, 1));

    let mut m = with_registers(0, 0b1000_0011);
    m.execute(Instruction::ShiftLeft(1, 2)).unwrap();
    assert_eq!((m.registers()[1], m.registers()[FLAG_REGISTER]), (0b0000_0110, 1));
}

#[test]
fn register_logic() {
    let mut m = with_registers(0b1100, 0b1010);
    m.execute(Instruction::Or(1, 2)).unwrap();
    assert_eq!(m.registers()[1], 0b1110);
    let mut m = with_registers(0b1100, 0b1010);
    m.execute(Instruction::And(1, 2)).unwrap();
    assert_eq!(m.registers()[1], 0b1000);
    let mut m = with_registers(0b1100, 0b1010);
    m.execute(Instruction::Xor(1, 2)).unwrap();
    assert_eq!(m.registers()[1], 0b0110);
    let mut m = with_registers(1, 99);
    m.execute(Instruction::CopyRegister(1, 2)).unwrap();
    assert_eq!(m.registers()[1], 99);
}

#[test]
fn jump_with_offset() {
    let mut m = Interpreter::new();
    m.execute(Instruction::SetRegister(0, 0x10)).unwrap();
    m.execute(Instruction::JumpOffset(0x300)).unwrap();
    assert_eq!(m.pc(), 0x310);
}

#[test]
fn keypad_skips_and_wait() {
    let mut m = Interpreter::new();
    m.load_program(&[0xF3, 0x0A]).unwrap();
    // No key down: the wait repeats.
    m.cycle().unwrap();
    assert_eq!(m.pc(), PC_START_ADDRESS);
    m.set_key(0xC, true);
    m.set_key(0x9, true);
    m.cycle().unwrap();
    assert_eq!(m.pc(), PC_START_ADDRESS + 2);
    assert_eq!(m.registers()[3], 0x9);
    m.execute(Instruction::SkipIfKey(3)).unwrap();
    assert_eq!(m.pc(), PC_START_ADDRESS + 4);
    m.execute(Instruction::SkipIfNotKey(3)).unwrap();
    assert_eq!(m.pc(), PC_START_ADDRESS + 4);
    m.set_key(0x9, false);
    m.execute(Instruction::SkipIfNotKey(3)).unwrap();
    assert_eq!(m.pc(), PC_START_ADDRESS + 6);
}

#[test]
fn timer_instructions() {
    let mut m = Interpreter::new();
    m.execute(Instruction::SetRegister(4, 42)).unwrap();
    m.execute(Instruction::SetDelayTimer(4)).unwrap();
    m.execute(Instruction::SetSoundTimer(4)).unwrap();
    assert_eq!(m.timers().delay(), 42);
    assert_eq!(m.timers().sound(), 42);
    m.execute(Instruction::ReadDelayTimer(5)).unwrap();
    assert_eq!(m.registers()[5], 42);
}

#[test]
fn index_register_instructions() {
    let mut m = Interpreter::new();
    m.execute(Instruction::SetI(0xFFFE)).unwrap();
    m.execute(Instruction::SetRegister(1, 3)).unwrap();
    m.execute(Instruction::AddToI(1)).unwrap();
    assert_eq!(m.index(), 1);
    m.execute(Instruction::SetRegister(1, 0x1A)).unwrap();
    m.execute(Instruction::FontCharacter(1)).unwrap();
    assert_eq!(m.index() as usize, FONT_START_ADDRESS + 0xA * 5);
}

#[test]
fn store_decimal_digits() {
    let mut m = Interpreter::new();
    m.execute(Instruction::SetI(0x300)).unwrap();
    m.execute(Instruction::SetRegister(2, 254)).unwrap();
    m.execute(Instruction::StoreDecimal(2)).unwrap();
    assert_eq!(&m.memory()[0x300..0x303], &[2, 5, 4]);
    assert_eq!(m.index(), 0x300);
}

#[test]
fn store_and_load_registers() {
    let mut m = Interpreter::new();
    for r in 0..4 {
        m.execute(Instruction::SetRegister(r, (r as u8 + 1) * 11)).unwrap();
    }
    m.execute(Instruction::SetI(0x400)).unwrap();
    m.execute(Instruction::StoreRegisters(2)).unwrap();
    assert_eq!(&m.memory()[0x400..0x404], &[11, 22, 33, 0]);
    assert_eq!(m.index(), 0x403);

    let mut fresh = Interpreter::new();
    fresh.load_program(&[5, 6, 7, 8]).unwrap();
    fresh.execute(Instruction::SetI(PC_START_ADDRESS as u16)).unwrap();
    fresh.execute(Instruction::LoadRegisters(2)).unwrap();
    assert_eq!(&fresh.registers()[0..4], &[5, 6, 7, 0]);
    assert_eq!(fresh.index() as usize, PC_START_ADDRESS + 3);
}

#[test]
fn memory_instructions_refuse_bad_addresses() {
    let mut m = Interpreter::new();
    m.execute(Instruction::SetI(FONT_START_ADDRESS as u16)).unwrap();
    assert_eq!(m.execute(Instruction::StoreDecimal(0)), Err(MachineError::ReservedMemoryWrite));
    assert_eq!(m.execute(Instruction::StoreRegisters(0)), Err(MachineError::ReservedMemoryWrite));
    assert_eq!(m.memory()[FONT_START_ADDRESS], 0xF0);
    m.execute(Instruction::SetI((MEMORY_SIZE - 2) as u16)).unwrap();
    assert_eq!(m.execute(Instruction::StoreDecimal(0)), Err(MachineError::OutOfBoundsAccess));
    assert_eq!(m.execute(Instruction::LoadRegisters(3)), Err(MachineError::OutOfBoundsAccess));
    assert_eq!(m.execute(Instruction::LoadRegisters(1)), Ok(()));
}

#[test]
fn random_bytes_follow_the_generator_and_mask() {
    let mut m = Interpreter::new();
    m.execute(Instruction::Random(1, 0xFF)).unwrap();
    assert_eq!(m.registers()[1], 15);
    m.execute(Instruction::Random(2, 0x0F)).unwrap();
    assert_eq!(m.registers()[2], 5);
    m.execute(Instruction::Random(3, 0x00)).unwrap();
    assert_eq!(m.registers()[3], 0);
}

#[test]
fn zero_seed_gives_zero_bytes() {
    let mut m = Interpreter::new();
    m.seed_random(0);
    m.execute(Instruction::Random(1, 0xFF)).unwrap();
    assert_eq!(m.registers()[1], 0);
}
