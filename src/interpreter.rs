use vstd::prelude::*;
use crate::error::MachineError;
use crate::instruction::{decode, Instruction};
use crate::stack::{Stack, STACK_SIZE};
use crate::timers::{decayed, with_delay, with_sound, TimerState, Timers, CARRY_SCALE};

verus! {

/// Bytes of addressable memory.
pub const MEMORY_SIZE: usize = 4096;

/// Width of the display in pixels.
pub const SCREEN_WIDTH: usize = 64;

/// Height of the display in pixels.
pub const SCREEN_HEIGHT: usize = 32;

/// Cells of the display, row-major.
pub const SCREEN_CELLS: usize = 2048;

/// Address at which programs are loaded and execution starts.
pub const PC_START_ADDRESS: usize = 0x200;

/// Address of the first byte of the built-in font.
pub const FONT_START_ADDRESS: usize = 0x50;

/// Bytes of the built-in font: sixteen glyphs of five rows each.
pub const FONT_SIZE: usize = 80;

/// Largest value of the 16-bit program counter.
pub const PC_LIMIT: usize = 0xFFFF;

/// Number of keys on the keypad.
pub const KEY_COUNT: usize = 16;

/// Bytes of one font glyph.
pub const GLYPH_SIZE: usize = 5;

/// State of the random number generator of a new machine.
pub const RANDOM_SEED: u16 = 0xACE1;

/// Register that receives the collision flag.
pub const FLAG_REGISTER: usize = 0xF;

/// Number of general-purpose registers.
pub const REGISTER_COUNT: usize = 16;

/// The hexadecimal glyphs 0 to F, five rows each, the leftmost pixel in the
/// most significant bit.
pub open spec fn font() -> Seq<u8> {
    seq![
        0xF0u8, 0x90, 0x90, 0x90, 0xF0,
        0x20, 0x60, 0x20, 0x20, 0x70,
        0xF0, 0x10, 0xF0, 0x80, 0xF0,
        0xF0, 0x10, 0xF0, 0x10, 0xF0,
        0x90, 0x90, 0xF0, 0x10, 0x10,
        0xF0, 0x80, 0xF0, 0x10, 0xF0,
        0xF0, 0x80, 0xF0, 0x90, 0xF0,
        0xF0, 0x10, 0x20, 0x40, 0x40,
        0xF0, 0x90, 0xF0, 0x90, 0xF0,
        0xF0, 0x90, 0xF0, 0x10, 0xF0,
        0xF0, 0x90, 0xF0, 0x90, 0x90,
        0xE0, 0x90, 0xE0, 0x90, 0xE0,
        0xF0, 0x80, 0x80, 0x80, 0xF0,
        0xE0, 0x90, 0x90, 0x90, 0xE0,
        0xF0, 0x80, 0xF0, 0x80, 0xF0,
        0xF0, 0x80, 0xF0, 0x80, 0x80,
    ]
}

/// The font, as bytes to copy into memory.
fn font_bytes() -> (r: Vec<u8>)
    ensures
        r@ == font(),
{
    let r = vec![
        0xF0u8, 0x90, 0x90, 0x90, 0xF0,
        0x20, 0x60, 0x20, 0x20, 0x70,
        0xF0, 0x10, 0xF0, 0x80, 0xF0,
        0xF0, 0x10, 0xF0, 0x10, 0xF0,
        0x90, 0x90, 0xF0, 0x10, 0x10,
        0xF0, 0x80, 0xF0, 0x10, 0xF0,
        0xF0, 0x80, 0xF0, 0x90, 0xF0,
        0xF0, 0x10, 0x20, 0x40, 0x40,
        0xF0, 0x90, 0xF0, 0x90, 0xF0,
        0xF0, 0x90, 0xF0, 0x10, 0xF0,
        0xF0, 0x90, 0xF0, 0x90, 0x90,
        0xE0, 0x90, 0xE0, 0x90, 0xE0,
        0xF0, 0x80, 0x80, 0x80, 0xF0,
        0xE0, 0x90, 0x90, 0x90, 0xE0,
        0xF0, 0x80, 0xF0, 0x80, 0xF0,
        0xF0, 0x80, 0xF0, 0x80, 0x80,
    ];
    assert(r@ =~= font());
    r
}


/// Everything the machine holds, as mathematical values.
pub struct MachineState {
    pub pc: int,
    pub i: u16,
    pub memory: Seq<u8>,
    pub registers: Seq<u8>,
    pub screen: Seq<u8>,
    pub stack: Seq<u8>,
    pub timers: TimerState,
    pub keys: Seq<bool>,
    pub random: u16,
}

/// Memory with `bytes` written from address `at` on.
pub open spec fn stored(memory: Seq<u8>, at: int, bytes: Seq<u8>) -> Seq<u8> {
    Seq::new(
        memory.len(),
        |j: int|
            if at <= j < at + bytes.len() {
                bytes[j - at]
            } else {
                memory[j]
            },
    )
}

/// Memory after `bytes` are copied in from the load address on.
pub open spec fn loaded(memory: Seq<u8>, bytes: Seq<u8>) -> Seq<u8> {
    stored(memory, PC_START_ADDRESS as int, bytes)
}

/// The big-endian instruction word stored at `address`.
pub open spec fn word_at(memory: Seq<u8>, address: int) -> u16 {
    (memory[address] as int * 256 + memory[address + 1] as int) as u16
}

/// The machine's invariant: sizes of memory, registers, keypad and display,
/// a program counter that fits in 16 bits, display
/// cells that are 0 or 1, the font in place, a stack within its capacity and a
/// carry of less than one tick.
pub open spec fn state_well_formed(s: MachineState) -> bool {
    &&& s.memory.len() == MEMORY_SIZE
    &&& s.registers.len() == REGISTER_COUNT
    &&& s.keys.len() == KEY_COUNT
    &&& 0 <= s.pc <= PC_LIMIT
    &&& s.screen.len() == SCREEN_CELLS
    &&& forall|p: int| 0 <= p < SCREEN_CELLS ==> #[trigger] s.screen[p] <= 1
    &&& s.memory.subrange(FONT_START_ADDRESS as int, FONT_START_ADDRESS + FONT_SIZE) == font()
    &&& s.stack.len() <= STACK_SIZE
    &&& 0 <= s.timers.carry < CARRY_SCALE
}

/// Whether bit `col` of a sprite row is set, counting from the most
/// significant bit.
pub open spec fn sprite_bit(row_byte: u8, col: int) -> bool {
    (row_byte >> ((7 - col) as u8)) & 1u8 == 1u8
}

/// The sprite row that display cell `p` falls in, for a sprite whose top edge
/// is on line `y0`, counting with wraparound.
pub open spec fn sprite_row(p: int, y0: int) -> int {
    (p / SCREEN_WIDTH as int - y0 + SCREEN_HEIGHT as int) % SCREEN_HEIGHT as int
}

/// The sprite column that display cell `p` falls in, for a sprite whose left
/// edge is in column `x0`, counting with wraparound.
pub open spec fn sprite_col(p: int, x0: int) -> int {
    (p % SCREEN_WIDTH as int - x0 + SCREEN_WIDTH as int) % SCREEN_WIDTH as int
}

/// Display cell `p` lies under a set pixel of the sprite of `height` rows read
/// from memory at `i` and drawn at (`x0`, `y0`), among the rows before `row`
/// and the columns before `col` of row `row`.
pub open spec fn covered_before(
    memory: Seq<u8>,
    i: u16,
    x0: int,
    y0: int,
    p: int,
    row: int,
    col: int,
) -> bool {
    let r = sprite_row(p, y0);
    let c = sprite_col(p, x0);
    &&& c < 8
    &&& (r < row || (r == row && c < col))
    &&& sprite_bit(memory[(i as int + r) % MEMORY_SIZE as int], c)
}

/// A display cell toggled by a set sprite pixel.
pub open spec fn toggled(cell: u8) -> u8 {
    if cell == 0 {
        1
    } else {
        0
    }
}

/// The display with the cells under the sprite pixels before (`row`, `col`)
/// toggled.
pub open spec fn drawn_before(
    screen: Seq<u8>,
    memory: Seq<u8>,
    i: u16,
    x0: int,
    y0: int,
    row: int,
    col: int,
) -> Seq<u8> {
    Seq::new(
        screen.len(),
        |p: int|
            if covered_before(memory, i, x0, y0, p, row, col) {
                toggled(screen[p])
            } else {
                screen[p]
            },
    )
}

/// Some lit cell lies under a sprite pixel before (`row`, `col`).
pub open spec fn collides_before(
    screen: Seq<u8>,
    memory: Seq<u8>,
    i: u16,
    x0: int,
    y0: int,
    row: int,
    col: int,
) -> bool {
    exists|p: int|
        0 <= p < screen.len() && #[trigger] covered_before(memory, i, x0, y0, p, row, col)
            && screen[p] != 0
}

/// The display after an XOR draw of the `height`-row sprite at `i` at
/// (`x0`, `y0`), with wraparound at the edges.
pub open spec fn drawn(screen: Seq<u8>, memory: Seq<u8>, i: u16, x0: int, y0: int, height: int) -> Seq<u8> {
    drawn_before(screen, memory, i, x0, y0, height, 0)
}

/// The draw clears a lit cell.
pub open spec fn collides(screen: Seq<u8>, memory: Seq<u8>, i: u16, x0: int, y0: int, height: int) -> bool {
    collides_before(screen, memory, i, x0, y0, height, 0)
}

/// The state after `state` of the 16-bit xorshift generator behind the
/// random-number instruction.
pub open spec fn next_random(state: u16) -> u16 {
    let a = state ^ (state << 7u16);
    let b = a ^ (a >> 9u16);
    b ^ (b << 8u16)
}

/// `s` with register `x` set to `value`.
pub open spec fn with_register(s: MachineState, x: int, value: u8) -> MachineState {
    MachineState { registers: s.registers.update(x, value), ..s }
}

/// `s` with register `x` set to `value` modulo 256 and then the flag register
/// set to 1 or 0 as `flag` says.
pub open spec fn with_result_and_flag(s: MachineState, x: int, value: int, flag: bool) -> MachineState {
    MachineState {
        registers: s.registers.update(x, (value % 256) as u8).update(
            FLAG_REGISTER as int,
            if flag {
                1u8
            } else {
                0u8
            },
        ),
        ..s
    }
}

/// `s` with the next instruction skipped when `condition` holds; skipping
/// past the range of the program counter is an out-of-bounds fetch.
pub open spec fn skipped_if(s: MachineState, condition: bool) -> Result<MachineState, MachineError> {
    if !condition {
        Ok(s)
    } else if s.pc + 2 > PC_LIMIT {
        Err(MachineError::OutOfBoundsFetch)
    } else {
        Ok(MachineState { pc: s.pc + 2, ..s })
    }
}

/// The lowest key at or after `from` that is down, or `KEY_COUNT` when none is.
pub open spec fn lowest_key(keys: Seq<bool>, from: int) -> int
    decreases KEY_COUNT - from,
{
    if from < 0 || from >= KEY_COUNT {
        KEY_COUNT as int
    } else if keys[from] {
        from
    } else {
        lowest_key(keys, from + 1)
    }
}

/// The hundreds, tens and units digits of `value`.
pub open spec fn decimal_digits(value: u8) -> Seq<u8> {
    seq![(value / 100) as u8, ((value / 10) % 10) as u8, (value % 10) as u8]
}

/// Why `count` bytes cannot be written from the index register on, if they
/// cannot.
pub open spec fn write_refusal(s: MachineState, count: int) -> Option<MachineError> {
    if s.i < PC_START_ADDRESS {
        Some(MachineError::ReservedMemoryWrite)
    } else if s.i + count > MEMORY_SIZE {
        Some(MachineError::OutOfBoundsAccess)
    } else {
        None
    }
}

/// The state after one instruction, or the error it raises. Where an
/// arithmetic instruction sets both a result and the flag register, the flag
/// is written last.
pub open spec fn executed(s: MachineState, ins: Instruction) -> Result<MachineState, MachineError> {
    let v = s.registers;
    match ins {
        Instruction::NotImplemented => Err(MachineError::UnimplementedOpcode),
        Instruction::ClearScreen => Ok(
            MachineState { screen: Seq::new(SCREEN_CELLS as nat, |p: int| 0u8), ..s },
        ),
        Instruction::Return => {
            let n = s.stack.len();
            if n < 2 {
                Err(MachineError::StackUnderflow)
            } else {
                Ok(
                    MachineState {
                        pc: s.stack[n - 2] as int * 256 + s.stack[n - 1] as int,
                        stack: s.stack.subrange(0, n - 2),
                        ..s
                    },
                )
            }
        },
        Instruction::Jump(address) => Ok(MachineState { pc: address as int, ..s }),
        Instruction::Call(address) => {
            if s.stack.len() + 2 > STACK_SIZE {
                Err(MachineError::StackOverflow)
            } else {
                Ok(
                    MachineState {
                        pc: address as int,
                        stack: s.stack.push((s.pc / 256) as u8).push((s.pc % 256) as u8),
                        ..s
                    },
                )
            }
        },
        Instruction::SkipIfEqual(x, value) => skipped_if(s, v[x as int] == value),
        Instruction::SkipIfNotEqual(x, value) => skipped_if(s, v[x as int] != value),
        Instruction::SkipIfRegistersEqual(x, y) => skipped_if(s, v[x as int] == v[y as int]),
        Instruction::SetRegister(x, value) => Ok(with_register(s, x as int, value)),
        Instruction::AddToRegister(x, value) => Ok(
            with_register(s, x as int, ((v[x as int] + value) % 256) as u8),
        ),
        Instruction::CopyRegister(x, y) => Ok(with_register(s, x as int, v[y as int])),
        Instruction::Or(x, y) => Ok(with_register(s, x as int, v[x as int] | v[y as int])),
        Instruction::And(x, y) => Ok(with_register(s, x as int, v[x as int] & v[y as int])),
        Instruction::Xor(x, y) => Ok(with_register(s, x as int, v[x as int] ^ v[y as int])),
        Instruction::AddRegisters(x, y) => Ok(
            with_result_and_flag(
                s,
                x as int,
                v[x as int] + v[y as int],
                v[x as int] + v[y as int] > 255,
            ),
        ),
        Instruction::SubtractRegisters(x, y) => Ok(
            with_result_and_flag(
                s,
                x as int,
                v[x as int] - v[y as int] + 256,
                v[x as int] >= v[y as int],
            ),
        ),
        Instruction::ShiftRight(x, y) => Ok(
            with_result_and_flag(s, x as int, v[y as int] as int / 2, v[y as int] % 2 == 1),
        ),
        Instruction::SubtractReversed(x, y) => Ok(
            with_result_and_flag(
                s,
                x as int,
                v[y as int] - v[x as int] + 256,
                v[y as int] >= v[x as int],
            ),
        ),
        Instruction::ShiftLeft(x, y) => Ok(
            with_result_and_flag(s, x as int, v[y as int] * 2, v[y as int] >= 128),
        ),
        Instruction::SkipIfRegistersNotEqual(x, y) => skipped_if(s, v[x as int] != v[y as int]),
        Instruction::SetI(value) => Ok(MachineState { i: value, ..s }),
        Instruction::JumpOffset(address) => Ok(
            MachineState { pc: address + v[0] as int, ..s },
        ),
        Instruction::Random(x, mask) => {
            let next = next_random(s.random);
            Ok(MachineState { random: next, ..with_register(s, x as int, (next % 256) as u8 & mask) })
        },
        Instruction::DrawSprite(x, y, height) => {
            let x0 = v[x as int] as int % SCREEN_WIDTH as int;
            let y0 = v[y as int] as int % SCREEN_HEIGHT as int;
            Ok(
                MachineState {
                    screen: drawn(s.screen, s.memory, s.i, x0, y0, height as int),
                    registers: v.update(
                        FLAG_REGISTER as int,
                        if collides(s.screen, s.memory, s.i, x0, y0, height as int) {
                            1u8
                        } else {
                            0u8
                        },
                    ),
                    ..s
                },
            )
        },
        Instruction::SkipIfKey(x) => skipped_if(s, s.keys[v[x as int] as int % 16]),
        Instruction::SkipIfNotKey(x) => skipped_if(s, !s.keys[v[x as int] as int % 16]),
        Instruction::ReadDelayTimer(x) => Ok(with_register(s, x as int, s.timers.delay)),
        Instruction::WaitForKey(x) => {
            let k = lowest_key(s.keys, 0);
            if k < KEY_COUNT {
                Ok(with_register(s, x as int, k as u8))
            } else {
                // Stay on this instruction until a key is down.
                Ok(
                    MachineState {
                        pc: if s.pc >= 2 {
                            s.pc - 2
                        } else {
                            s.pc
                        },
                        ..s
                    },
                )
            }
        },
        Instruction::SetDelayTimer(x) => Ok(
            MachineState { timers: with_delay(s.timers, v[x as int]), ..s },
        ),
        Instruction::SetSoundTimer(x) => Ok(
            MachineState { timers: with_sound(s.timers, v[x as int]), ..s },
        ),
        Instruction::AddToI(x) => Ok(
            MachineState { i: ((s.i + v[x as int]) % 0x10000) as u16, ..s },
        ),
        Instruction::FontCharacter(x) => Ok(
            MachineState {
                i: (FONT_START_ADDRESS + (v[x as int] % 16) * GLYPH_SIZE) as u16,
                ..s
            },
        ),
        Instruction::StoreDecimal(x) => match write_refusal(s, 3) {
            Some(e) => Err(e),
            None => Ok(
                MachineState {
                    memory: stored(s.memory, s.i as int, decimal_digits(v[x as int])),
                    ..s
                },
            ),
        },
        Instruction::StoreRegisters(x) => match write_refusal(s, x + 1) {
            Some(e) => Err(e),
            None => Ok(
                MachineState {
                    memory: stored(s.memory, s.i as int, v.subrange(0, x + 1)),
                    i: (s.i + x + 1) as u16,
                    ..s
                },
            ),
        },
        Instruction::LoadRegisters(x) => {
            if s.i + x + 1 > MEMORY_SIZE {
                Err(MachineError::OutOfBoundsAccess)
            } else {
                Ok(
                    MachineState {
                        registers: s.memory.subrange(s.i as int, s.i + x + 1) + v.subrange(
                            x + 1,
                            REGISTER_COUNT as int,
                        ),
                        i: (s.i + x + 1) as u16,
                        ..s
                    },
                )
            }
        },
    }
}

/// `after` and `r` are what running an instruction with `outcome` from
/// `before` leaves: the new state and `Ok`, or the old state and the error.
pub open spec fn carried_out(
    before: MachineState,
    outcome: Result<MachineState, MachineError>,
    after: MachineState,
    r: Result<(), MachineError>,
) -> bool {
    match outcome {
        Ok(s) => r == Ok::<(), MachineError>(()) && after == s,
        Err(e) => r == Err::<(), MachineError>(e) && after == before,
    }
}

/// Instructions that move the program counter or use the call stack.
pub open spec fn is_flow(ins: Instruction) -> bool {
    match ins {
        Instruction::Return | Instruction::Jump(_) | Instruction::Call(_)
        | Instruction::SkipIfEqual(_, _) | Instruction::SkipIfNotEqual(_, _)
        | Instruction::SkipIfRegistersEqual(_, _) | Instruction::SkipIfRegistersNotEqual(_, _)
        | Instruction::JumpOffset(_) | Instruction::SkipIfKey(_) | Instruction::SkipIfNotKey(_)
        | Instruction::WaitForKey(_) => true,
        _ => false,
    }
}

/// Instructions that compute on registers.
pub open spec fn is_arithmetic(ins: Instruction) -> bool {
    match ins {
        Instruction::SetRegister(_, _) | Instruction::AddToRegister(_, _)
        | Instruction::CopyRegister(_, _) | Instruction::Or(_, _) | Instruction::And(_, _)
        | Instruction::Xor(_, _) | Instruction::AddRegisters(_, _)
        | Instruction::SubtractRegisters(_, _) | Instruction::ShiftRight(_, _)
        | Instruction::SubtractReversed(_, _) | Instruction::ShiftLeft(_, _)
        | Instruction::Random(_, _) => true,
        _ => false,
    }
}

/// Instructions on the timers, the index register and memory.
pub open spec fn is_misc(ins: Instruction) -> bool {
    match ins {
        Instruction::SetI(_) | Instruction::ReadDelayTimer(_) | Instruction::SetDelayTimer(_)
        | Instruction::SetSoundTimer(_) | Instruction::AddToI(_)
        | Instruction::FontCharacter(_) | Instruction::StoreDecimal(_)
        | Instruction::StoreRegisters(_) | Instruction::LoadRegisters(_) => true,
        _ => false,
    }
}

/// The display cell of sprite pixel (`row`, `col`) drawn at (`x0`, `y0`) is
/// on the display, and no other cell has that row and column.
proof fn lemma_sprite_cell(x0: int, y0: int, row: int, col: int)
    requires
        0 <= x0 < SCREEN_WIDTH,
        0 <= y0 < SCREEN_HEIGHT,
        0 <= row < SCREEN_HEIGHT,
        0 <= col < 8,
    ensures
        ({
            let idx = ((y0 + row) % 32) * 64 + (x0 + col) % 64;
            &&& 0 <= idx < SCREEN_CELLS
            &&& sprite_row(idx, y0) == row
            &&& sprite_col(idx, x0) == col
            &&& forall|p: int|
                0 <= p < SCREEN_CELLS && #[trigger] sprite_row(p, y0) == row && sprite_col(p, x0)
                    == col ==> p == idx
        }),
{
    let py = (y0 + row) % 32;
    let px = (x0 + col) % 64;
    let idx = py * 64 + px;
    assert(idx / 64 == py && idx % 64 == px);
    assert forall|p: int|
        0 <= p < SCREEN_CELLS && #[trigger] sprite_row(p, y0) == row && sprite_col(p, x0) == col
            implies p == idx by {
        assert(p == (p / 64) * 64 + p % 64);
    }
}

/// The CHIP-8 machine: memory, registers, call stack, timers and display.
pub struct Interpreter {
    pc: usize,
    i: u16,
    stack: Stack,
    memory: Vec<u8>,
    registers: Vec<u8>,
    timers: Timers,
    screen_buffer: Vec<u8>,
    keys: Vec<bool>,
    random: u16,
}

impl View for Interpreter {
    type V = MachineState;

    closed spec fn view(&self) -> MachineState {
        MachineState {
            pc: self.pc as int,
            i: self.i,
            memory: self.memory@,
            registers: self.registers@,
            screen: self.screen_buffer@,
            stack: self.stack@,
            timers: self.timers@,
            keys: self.keys@,
            random: self.random,
        }
    }
}

/// `n` zero bytes.
fn zeroed(n: usize) -> (r: Vec<u8>)
    ensures
        r@ == Seq::new(n as nat, |j: int| 0u8),
{
    let mut r: Vec<u8> = Vec::new();
    let mut k: usize = 0;
    while k < n
        invariant
            k <= n,
            r@ == Seq::new(k as nat, |j: int| 0u8),
        decreases n - k,
    {
        r.push(0);
        k = k + 1;
        assert(r@ =~= Seq::new(k as nat, |j: int| 0u8));
    }
    r
}

/// A keypad with every key up.
fn released_keys() -> (r: Vec<bool>)
    ensures
        r@ == Seq::new(KEY_COUNT as nat, |k: int| false),
{
    let mut r: Vec<bool> = Vec::new();
    let mut k: usize = 0;
    while k < KEY_COUNT
        invariant
            k <= KEY_COUNT,
            r@ == Seq::new(k as nat, |j: int| false),
        decreases KEY_COUNT - k,
    {
        r.push(false);
        k = k + 1;
        assert(r@ =~= Seq::new(k as nat, |j: int| false));
    }
    r
}

impl Interpreter {
    /// The machine's invariant holds of its state.
    pub open spec fn well_formed(&self) -> bool {
        state_well_formed(self@)
    }

    /// A machine with zeroed memory holding the font, zeroed registers and
    /// display, an empty stack, stopped timers, and the program counter at the
    /// load address.
    pub fn new() -> (r: Self)
        ensures
            r.well_formed(),
            r@.pc == PC_START_ADDRESS,
            r@.i == 0,
            r@.memory == Seq::new(
                MEMORY_SIZE as nat,
                |j: int|
                    if FONT_START_ADDRESS <= j < FONT_START_ADDRESS + FONT_SIZE {
                        font()[j - FONT_START_ADDRESS]
                    } else {
                        0u8
                    },
            ),
            r@.registers == Seq::new(REGISTER_COUNT as nat, |j: int| 0u8),
            r@.screen == Seq::new(SCREEN_CELLS as nat, |j: int| 0u8),
            r@.stack == Seq::<u8>::empty(),
            r@.timers == (TimerState { delay: 0, sound: 0, carry: 0 }),
            r@.keys == Seq::new(KEY_COUNT as nat, |k: int| false),
            r@.random == RANDOM_SEED,
    {
        let mut memory = zeroed(MEMORY_SIZE);
        let glyphs = font_bytes();
        let mut k: usize = 0;
        while k < FONT_SIZE
            invariant
                k <= FONT_SIZE,
                glyphs@ == font(),
                memory@.len() == MEMORY_SIZE,
                forall|j: int|
                    0 <= j < MEMORY_SIZE ==> #[trigger] memory@[j] == if FONT_START_ADDRESS <= j
                        < FONT_START_ADDRESS + k {
                        font()[j - FONT_START_ADDRESS]
                    } else {
                        0u8
                    },
            decreases FONT_SIZE - k,
        {
            memory.set(FONT_START_ADDRESS + k, glyphs[k]);
            k = k + 1;
        }
        let r = Self {
            pc: PC_START_ADDRESS,
            i: 0,
            stack: Stack::new(),
            memory,
            registers: zeroed(REGISTER_COUNT),
            timers: Timers::new(),
            screen_buffer: zeroed(SCREEN_CELLS),
            keys: released_keys(),
            random: RANDOM_SEED,
        };
        assert(r@.memory.subrange(FONT_START_ADDRESS as int, FONT_START_ADDRESS + FONT_SIZE)
            =~= font());
        assert(r@.memory =~= Seq::new(
            MEMORY_SIZE as nat,
            |j: int|
                if FONT_START_ADDRESS <= j < FONT_START_ADDRESS + FONT_SIZE {
                    font()[j - FONT_START_ADDRESS]
                } else {
                    0u8
                },
        ));
        r
    }

    /// Copies a program into memory from the load address on. A program that
    /// does not fit is refused with `ProgramLoadOverflow` before anything is
    /// written.
    pub fn load_program(&mut self, bytes: &[u8]) -> (r: Result<(), MachineError>)
        requires
            old(self).well_formed(),
        ensures
            final(self).well_formed(),
            bytes@.len() > MEMORY_SIZE - PC_START_ADDRESS ==> r == Err::<(), MachineError>(
                MachineError::ProgramLoadOverflow,
            ) && final(self)@ == old(self)@,
            bytes@.len() <= MEMORY_SIZE - PC_START_ADDRESS ==> r == Ok::<(), MachineError>(())
                && final(self)@ == (MachineState {
                memory: loaded(old(self)@.memory, bytes@),
                ..old(self)@
            }),
    {
        if bytes.len() > MEMORY_SIZE - PC_START_ADDRESS {
            return Err(MachineError::ProgramLoadOverflow);
        }
        let ghost start = self@;
        let ghost before = self.memory@;
        let mut k: usize = 0;
        while k < bytes.len()
            invariant
                start == old(self)@,
                before == start.memory,
                self@ == (MachineState { memory: self.memory@, ..start }),
                k <= bytes@.len() <= MEMORY_SIZE - PC_START_ADDRESS,
                before.len() == MEMORY_SIZE,
                self.memory@.len() == MEMORY_SIZE,
                forall|j: int|
                    0 <= j < MEMORY_SIZE ==> #[trigger] self.memory@[j] == if PC_START_ADDRESS
                        <= j < PC_START_ADDRESS + k {
                        bytes@[j - PC_START_ADDRESS]
                    } else {
                        before[j]
                    },
            decreases bytes@.len() - k,
        {
            self.memory.set(PC_START_ADDRESS + k, bytes[k]);
            k = k + 1;
        }
        assert(self.memory@ =~= loaded(before, bytes@));
        assert(self.memory@.subrange(FONT_START_ADDRESS as int, FONT_START_ADDRESS + FONT_SIZE)
            =~= before.subrange(FONT_START_ADDRESS as int, FONT_START_ADDRESS + FONT_SIZE));
        Ok(())
    }

    /// Reads the big-endian word at the program counter and moves the counter
    /// past it. A counter that does not address two bytes of memory gives
    /// `OutOfBoundsFetch` and changes nothing.
    pub fn fetch_instruction(&mut self) -> (r: Result<u16, MachineError>)
        requires
            old(self).well_formed(),
        ensures
            final(self).well_formed(),
            old(self)@.pc + 1 < MEMORY_SIZE ==> r == Ok::<u16, MachineError>(
                word_at(old(self)@.memory, old(self)@.pc),
            ) && final(self)@ == (MachineState { pc: old(self)@.pc + 2, ..old(self)@ }),
            old(self)@.pc + 1 >= MEMORY_SIZE ==> r == Err::<u16, MachineError>(
                MachineError::OutOfBoundsFetch,
            ) && final(self)@ == old(self)@,
    {
        if self.pc >= MEMORY_SIZE - 1 {
            return Err(MachineError::OutOfBoundsFetch);
        }
        let high = self.memory[self.pc] as u16;
        let low = self.memory[self.pc + 1] as u16;
        self.pc = self.pc + 2;
        Ok(high * 256 + low)
    }

    /// XORs the `height`-row sprite read from memory at the index register
    /// onto the display at the coordinates held by registers `x` and `y`,
    /// wrapping at the edges, and sets the flag register to 1 when a lit cell
    /// was cleared, else to 0.
    fn draw_sprite(&mut self, x: usize, y: usize, height: u8)
        requires
            old(self).well_formed(),
            x < REGISTER_COUNT,
            y < REGISTER_COUNT,
            height < 16,
        ensures
            executed(old(self)@, Instruction::DrawSprite(x, y, height)) == Ok::<
                MachineState,
                MachineError,
            >(final(self)@),
            final(self).well_formed(),
    {
        let ghost start = self@;
        let x0: usize = (self.registers[x] % 64) as usize;
        let y0: usize = (self.registers[y] % 32) as usize;
        let ghost memory = start.memory;
        let ghost screen = start.screen;
        let ghost i = start.i;
        let mut collision = false;
        let mut row: usize = 0;
        while row < height as usize
            invariant
                start == old(self)@,
                state_well_formed(start),
                memory == start.memory,
                screen == start.screen,
                i == start.i,
                row <= height,
                height < 16,
                x0 < SCREEN_WIDTH,
                y0 < SCREEN_HEIGHT,
                self@ == (MachineState { screen: self.screen_buffer@, ..start }),
                self.screen_buffer@ == drawn_before(screen, memory, i, x0 as int, y0 as int, row as int, 0),
                collision == collides_before(screen, memory, i, x0 as int, y0 as int, row as int, 0),
            decreases height - row,
        {
            let byte = self.memory[(self.i as usize + row) % MEMORY_SIZE];
            let mut col: usize = 0;
            while col < 8
                invariant
                    start == old(self)@,
                    state_well_formed(start),
                    memory == start.memory,
                    screen == start.screen,
                    i == start.i,
                    row < height,
                    height < 16,
                    col <= 8,
                    x0 < SCREEN_WIDTH,
                    y0 < SCREEN_HEIGHT,
                    byte == memory[(i as int + row) % MEMORY_SIZE as int],
                    self@ == (MachineState { screen: self.screen_buffer@, ..start }),
                    self.screen_buffer@ == drawn_before(screen, memory, i, x0 as int, y0 as int, row as int, col as int),
                    collision == collides_before(screen, memory, i, x0 as int, y0 as int, row as int, col as int),
                decreases 8 - col,
            {
                let ghost was_collision = collision;
                let shift: u8 = (7 - col) as u8;
                let idx: usize = ((y0 + row) % 32) * 64 + (x0 + col) % 64;
                proof {
                    lemma_sprite_cell(x0 as int, y0 as int, row as int, col as int);
                }
                if (byte >> shift) & 1u8 == 1u8 {
                    if self.screen_buffer[idx] == 1 {
                        collision = true;
                        self.screen_buffer.set(idx, 0);
                    } else {
                        self.screen_buffer.set(idx, 1);
                    }
                }
                proof {
                    assert(covered_before(memory, i, x0 as int, y0 as int, idx as int, row as int, col as int + 1)
                        == sprite_bit(byte, col as int));
                    assert(!covered_before(memory, i, x0 as int, y0 as int, idx as int, row as int, col as int));
                    assert forall|p: int| 0 <= p < SCREEN_CELLS && p != idx implies
                        #[trigger] covered_before(memory, i, x0 as int, y0 as int, p, row as int, col as int + 1)
                        == covered_before(memory, i, x0 as int, y0 as int, p, row as int, col as int) by {
                    }
                    assert(self.screen_buffer@ =~= drawn_before(screen, memory, i, x0 as int, y0 as int, row as int, col + 1));
                    if collision {
                        if !was_collision {
                            assert(covered_before(memory, i, x0 as int, y0 as int, idx as int, row as int, col as int + 1));
                        } else {
                            let w = choose|p: int| 0 <= p < screen.len() && #[trigger] covered_before(memory, i, x0 as int, y0 as int, p, row as int, col as int)
                                && screen[p] != 0;
                            assert(covered_before(memory, i, x0 as int, y0 as int, w, row as int, col as int + 1));
                        }
                    } else {
                        if collides_before(screen, memory, i, x0 as int, y0 as int, row as int, col as int + 1) {
                            let w = choose|p: int| 0 <= p < screen.len() && #[trigger] covered_before(memory, i, x0 as int, y0 as int, p, row as int, col as int + 1)
                                && screen[p] != 0;
                            assert(covered_before(memory, i, x0 as int, y0 as int, w, row as int, col as int));
                        }
                    }
                }
                col = col + 1;
            }
            proof {
                assert forall|p: int| 0 <= p < SCREEN_CELLS implies
                    #[trigger] covered_before(memory, i, x0 as int, y0 as int, p, row as int, 8)
                    == covered_before(memory, i, x0 as int, y0 as int, p, row as int + 1, 0) by {
                }
                assert(self.screen_buffer@ =~= drawn_before(screen, memory, i, x0 as int, y0 as int, row + 1, 0));
                if collision {
                    let w = choose|p: int| 0 <= p < screen.len() && #[trigger] covered_before(memory, i, x0 as int, y0 as int, p, row as int, 8)
                        && screen[p] != 0;
                    assert(covered_before(memory, i, x0 as int, y0 as int, w, row as int + 1, 0));
                } else if collides_before(screen, memory, i, x0 as int, y0 as int, row as int + 1, 0) {
                    let w = choose|p: int| 0 <= p < screen.len() && #[trigger] covered_before(memory, i, x0 as int, y0 as int, p, row as int + 1, 0)
                        && screen[p] != 0;
                    assert(covered_before(memory, i, x0 as int, y0 as int, w, row as int, 8));
                }
            }
            row = row + 1;
        }
        let flag: u8 = if collision {
            1
        } else {
            0
        };
        self.registers.set(FLAG_REGISTER, flag);
        proof {
            assert forall|p: int| 0 <= p < SCREEN_CELLS implies #[trigger] self.screen_buffer@[p] <= 1 by {
                assert(screen[p] <= 1);
            }
        }
    }

    /// Turns every display cell off.
    fn clear_screen(&mut self)
        requires
            old(self).well_formed(),
        ensures
            executed(old(self)@, Instruction::ClearScreen) == Ok::<MachineState, MachineError>(
                final(self)@,
            ),
            final(self).well_formed(),
    {
        let ghost start = self@;
        let mut p: usize = 0;
        while p < SCREEN_CELLS
            invariant
                start == old(self)@,
                p <= SCREEN_CELLS,
                self@ == (MachineState { screen: self.screen_buffer@, ..start }),
                self.screen_buffer@.len() == SCREEN_CELLS,
                forall|q: int| 0 <= q < p ==> #[trigger] self.screen_buffer@[q] == 0,
                forall|q: int| p <= q < SCREEN_CELLS ==> #[trigger] self.screen_buffer@[q] <= 1,
            decreases SCREEN_CELLS - p,
        {
            self.screen_buffer.set(p, 0);
            p = p + 1;
        }
        assert(self.screen_buffer@ =~= Seq::new(SCREEN_CELLS as nat, |q: int| 0u8));
    }

    /// Skips the next instruction when `condition` holds.
    fn skip_if(&mut self, condition: bool) -> (r: Result<(), MachineError>)
        requires
            old(self).well_formed(),
        ensures
            final(self).well_formed(),
            carried_out(old(self)@, skipped_if(old(self)@, condition), final(self)@, r),
    {
        if condition {
            if self.pc > PC_LIMIT - 2 {
                return Err(MachineError::OutOfBoundsFetch);
            }
            self.pc = self.pc + 2;
        }
        Ok(())
    }

    /// Sets register `x`.
    fn set_register(&mut self, x: usize, value: u8)
        requires
            old(self).well_formed(),
            x < REGISTER_COUNT,
        ensures
            final(self).well_formed(),
            final(self)@ == with_register(old(self)@, x as int, value),
    {
        self.registers.set(x, value);
    }

    /// Sets register `x`, then the flag register.
    fn set_result_and_flag(&mut self, x: usize, value: u8, flag: bool)
        requires
            old(self).well_formed(),
            x < REGISTER_COUNT,
        ensures
            final(self).well_formed(),
            final(self)@ == with_result_and_flag(old(self)@, x as int, value as int, flag),
    {
        self.registers.set(x, value);
        self.registers.set(FLAG_REGISTER, if flag { 1 } else { 0 });
    }

    /// Instructions that move the program counter or use the call stack.
    fn execute_flow(&mut self, instruction: Instruction) -> (r: Result<(), MachineError>)
        requires
            old(self).well_formed(),
            instruction.operands_in_range(),
            is_flow(instruction),
        ensures
            final(self).well_formed(),
            carried_out(old(self)@, executed(old(self)@, instruction), final(self)@, r),
    {
        let ghost start = self@;
        match instruction {
            Instruction::Return => {
                if self.stack.len() < 2 {
                    return Err(MachineError::StackUnderflow);
                }
                let low = self.stack.pop();
                let high = self.stack.pop();
                match (high, low) {
                    (Some(h), Some(l)) => {
                        self.pc = h as usize * 256 + l as usize;
                    },
                    _ => {},
                }
                assert(self.stack@ =~= start.stack.subrange(0, start.stack.len() - 2));
                Ok(())
            },
            Instruction::Jump(address) => {
                self.pc = address;
                Ok(())
            },
            Instruction::Call(address) => {
                if self.stack.len() + 2 > STACK_SIZE {
                    return Err(MachineError::StackOverflow);
                }
                let back = self.pc;
                let _ = self.stack.push((back / 256) as u8);
                let _ = self.stack.push((back % 256) as u8);
                self.pc = address;
                Ok(())
            },
            Instruction::SkipIfEqual(x, value) => self.skip_if(self.registers[x] == value),
            Instruction::SkipIfNotEqual(x, value) => self.skip_if(self.registers[x] != value),
            Instruction::SkipIfRegistersEqual(x, y) => self.skip_if(
                self.registers[x] == self.registers[y],
            ),
            Instruction::SkipIfRegistersNotEqual(x, y) => self.skip_if(
                self.registers[x] != self.registers[y],
            ),
            Instruction::JumpOffset(address) => {
                self.pc = address + self.registers[0] as usize;
                Ok(())
            },
            Instruction::SkipIfKey(x) => self.skip_if(self.keys[(self.registers[x] % 16) as usize]),
            Instruction::SkipIfNotKey(x) => self.skip_if(
                !self.keys[(self.registers[x] % 16) as usize],
            ),
            Instruction::WaitForKey(x) => {
                let mut k: usize = 0;
                while k < KEY_COUNT && !self.keys[k]
                    invariant
                        self@ == start,
                        state_well_formed(start),
                        k <= KEY_COUNT,
                        lowest_key(start.keys, 0) == lowest_key(start.keys, k as int),
                    decreases KEY_COUNT - k,
                {
                    k = k + 1;
                }
                if k < KEY_COUNT {
                    self.set_register(x, k as u8);
                } else if self.pc >= 2 {
                    self.pc = self.pc - 2;
                }
                Ok(())
            },
            _ => Ok(()),
        }
    }

    /// Advances the random number generator and puts its low byte, masked,
    /// in register `x`.
    fn random_register(&mut self, x: usize, mask: u8)
        requires
            old(self).well_formed(),
            x < REGISTER_COUNT,
        ensures
            final(self).well_formed(),
            executed(old(self)@, Instruction::Random(x, mask)) == Ok::<MachineState, MachineError>(
                final(self)@,
            ),
    {
        let state = self.random;
        let a = state ^ (state << 7u16);
        let b = a ^ (a >> 9u16);
        let next = b ^ (b << 8u16);
        self.set_register(x, (next % 256) as u8 & mask);
        self.random = next;
    }

    /// Instructions that compute on registers.
    fn execute_arithmetic(&mut self, instruction: Instruction) -> (r: Result<(), MachineError>)
        requires
            old(self).well_formed(),
            instruction.operands_in_range(),
            is_arithmetic(instruction),
        ensures
            final(self).well_formed(),
            carried_out(old(self)@, executed(old(self)@, instruction), final(self)@, r),
    {
        match instruction {
            Instruction::SetRegister(x, value) => self.set_register(x, value),
            Instruction::AddToRegister(x, value) => {
                let sum: u8 = ((self.registers[x] as u16 + value as u16) % 256) as u8;
                self.set_register(x, sum);
            },
            Instruction::CopyRegister(x, y) => self.set_register(x, self.registers[y]),
            Instruction::Or(x, y) => self.set_register(x, self.registers[x] | self.registers[y]),
            Instruction::And(x, y) => self.set_register(x, self.registers[x] & self.registers[y]),
            Instruction::Xor(x, y) => self.set_register(x, self.registers[x] ^ self.registers[y]),
            Instruction::AddRegisters(x, y) => {
                let a = self.registers[x] as u16;
                let b = self.registers[y] as u16;
                self.set_result_and_flag(x, ((a + b) % 256) as u8, a + b > 255);
            },
            Instruction::SubtractRegisters(x, y) => {
                let a = self.registers[x] as u16;
                let b = self.registers[y] as u16;
                self.set_result_and_flag(x, ((a + 256 - b) % 256) as u8, a >= b);
            },
            Instruction::ShiftRight(x, y) => {
                let b = self.registers[y];
                self.set_result_and_flag(x, b / 2, b % 2 == 1);
            },
            Instruction::SubtractReversed(x, y) => {
                let a = self.registers[x] as u16;
                let b = self.registers[y] as u16;
                self.set_result_and_flag(x, ((b + 256 - a) % 256) as u8, b >= a);
            },
            Instruction::ShiftLeft(x, y) => {
                let b = self.registers[y] as u16;
                self.set_result_and_flag(x, ((b * 2) % 256) as u8, b >= 128);
            },
            Instruction::Random(x, mask) => self.random_register(x, mask),
            _ => {},
        }
        Ok(())
    }

    /// Writes `bytes` to memory from the index register on.
    fn store_bytes(&mut self, bytes: &Vec<u8>)
        requires
            old(self).well_formed(),
            write_refusal(old(self)@, bytes@.len() as int) is None,
        ensures
            final(self).well_formed(),
            final(self)@ == (MachineState {
                memory: stored(old(self)@.memory, old(self)@.i as int, bytes@),
                ..old(self)@
            }),
    {
        let ghost start = self@;
        let at = self.i as usize;
        let mut k: usize = 0;
        while k < bytes.len()
            invariant
                state_well_formed(start),
                start.i == at,
                PC_START_ADDRESS <= at,
                at + bytes@.len() <= MEMORY_SIZE,
                k <= bytes@.len(),
                self@ == (MachineState { memory: self.memory@, ..start }),
                self.memory@ == stored(start.memory, at as int, bytes@.subrange(0, k as int)),
            decreases bytes@.len() - k,
        {
            self.memory.set(at + k, bytes[k]);
            k = k + 1;
            assert(self.memory@ =~= stored(start.memory, at as int, bytes@.subrange(0, k as int)));
        }
        assert(bytes@.subrange(0, bytes@.len() as int) =~= bytes@);
        assert(self.memory@.subrange(FONT_START_ADDRESS as int, FONT_START_ADDRESS + FONT_SIZE)
            =~= start.memory.subrange(FONT_START_ADDRESS as int, FONT_START_ADDRESS + FONT_SIZE));
    }

    /// Instructions on the timers, the index register and memory.
    fn execute_misc(&mut self, instruction: Instruction) -> (r: Result<(), MachineError>)
        requires
            old(self).well_formed(),
            instruction.operands_in_range(),
            is_misc(instruction),
        ensures
            final(self).well_formed(),
            carried_out(old(self)@, executed(old(self)@, instruction), final(self)@, r),
    {
        let ghost start = self@;
        match instruction {
            Instruction::SetI(value) => {
                self.i = value;
            },
            Instruction::ReadDelayTimer(x) => {
                let d = self.timers.delay();
                self.set_register(x, d);
            },
            Instruction::SetDelayTimer(x) => {
                let value = self.registers[x];
                self.timers.set_delay(value);
            },
            Instruction::SetSoundTimer(x) => {
                let value = self.registers[x];
                self.timers.set_sound(value);
            },
            Instruction::AddToI(x) => {
                self.i = ((self.i as u32 + self.registers[x] as u32) % 0x10000) as u16;
            },
            Instruction::FontCharacter(x) => {
                self.i = (FONT_START_ADDRESS + (self.registers[x] % 16) as usize * GLYPH_SIZE) as u16;
            },
            Instruction::StoreDecimal(x) => {
                if self.i < PC_START_ADDRESS as u16 {
                    return Err(MachineError::ReservedMemoryWrite);
                }
                if self.i as usize + 3 > MEMORY_SIZE {
                    return Err(MachineError::OutOfBoundsAccess);
                }
                let value = self.registers[x];
                let digits = vec![value / 100, (value / 10) % 10, value % 10];
                assert(digits@ =~= decimal_digits(value));
                self.store_bytes(&digits);
            },
            Instruction::StoreRegisters(x) => {
                if self.i < PC_START_ADDRESS as u16 {
                    return Err(MachineError::ReservedMemoryWrite);
                }
                if self.i as usize + x + 1 > MEMORY_SIZE {
                    return Err(MachineError::OutOfBoundsAccess);
                }
                let mut values: Vec<u8> = Vec::new();
                let mut k: usize = 0;
                while k <= x
                    invariant
                        self@ == start,
                        state_well_formed(start),
                        x < REGISTER_COUNT,
                        k <= x + 1,
                        values@ == start.registers.subrange(0, k as int),
                    decreases x + 1 - k,
                {
                    values.push(self.registers[k]);
                    k = k + 1;
                    assert(values@ =~= start.registers.subrange(0, k as int));
                }
                self.store_bytes(&values);
                self.i = self.i + x as u16 + 1;
            },
            Instruction::LoadRegisters(x) => {
                if self.i as usize + x + 1 > MEMORY_SIZE {
                    return Err(MachineError::OutOfBoundsAccess);
                }
                let at = self.i as usize;
                let mut k: usize = 0;
                while k <= x
                    invariant
                        state_well_formed(start),
                        start.i == at,
                        x < REGISTER_COUNT,
                        at + x + 1 <= MEMORY_SIZE,
                        k <= x + 1,
                        self@ == (MachineState { registers: self.registers@, ..start }),
                        self.registers@ == start.memory.subrange(at as int, at + k)
                            + start.registers.subrange(k as int, REGISTER_COUNT as int),
                    decreases x + 1 - k,
                {
                    let byte = self.memory[at + k];
                    self.registers.set(k, byte);
                    k = k + 1;
                    assert(self.registers@ =~= start.memory.subrange(at as int, at + k)
                        + start.registers.subrange(k as int, REGISTER_COUNT as int));
                }
                self.i = self.i + x as u16 + 1;
            },
            _ => {},
        }
        Ok(())
    }

    /// Carries out one decoded instruction. On an error nothing changes;
    /// `NotImplemented` raises `UnimplementedOpcode`.
    pub fn execute(&mut self, instruction: Instruction) -> (r: Result<(), MachineError>)
        requires
            old(self).well_formed(),
            instruction.operands_in_range(),
        ensures
            final(self).well_formed(),
            carried_out(old(self)@, executed(old(self)@, instruction), final(self)@, r),
    {
        match instruction {
            Instruction::NotImplemented => Err(MachineError::UnimplementedOpcode),
            Instruction::ClearScreen => {
                self.clear_screen();
                Ok(())
            },
            Instruction::DrawSprite(x, y, height) => {
                self.draw_sprite(x, y, height);
                Ok(())
            },
            Instruction::Return | Instruction::Jump(_) | Instruction::Call(_)
            | Instruction::SkipIfEqual(_, _) | Instruction::SkipIfNotEqual(_, _)
            | Instruction::SkipIfRegistersEqual(_, _) | Instruction::SkipIfRegistersNotEqual(_, _)
            | Instruction::JumpOffset(_) | Instruction::SkipIfKey(_) | Instruction::SkipIfNotKey(_)
            | Instruction::WaitForKey(_) => self.execute_flow(instruction),
            Instruction::SetRegister(_, _) | Instruction::AddToRegister(_, _)
            | Instruction::CopyRegister(_, _) | Instruction::Or(_, _) | Instruction::And(_, _)
            | Instruction::Xor(_, _) | Instruction::AddRegisters(_, _)
            | Instruction::SubtractRegisters(_, _) | Instruction::ShiftRight(_, _)
            | Instruction::SubtractReversed(_, _) | Instruction::ShiftLeft(_, _)
            | Instruction::Random(_, _) => self.execute_arithmetic(
                instruction,
            ),
            _ => self.execute_misc(instruction),
        }
    }

    /// One engine cycle: fetch the word at the program counter, decode it and
    /// execute it. A failed fetch changes nothing; otherwise the instruction
    /// runs with the counter already moved past it.
    pub fn cycle(&mut self) -> (r: Result<(), MachineError>)
        requires
            old(self).well_formed(),
        ensures
            final(self).well_formed(),
            old(self)@.pc + 1 >= MEMORY_SIZE ==> r == Err::<(), MachineError>(
                MachineError::OutOfBoundsFetch,
            ) && final(self)@ == old(self)@,
            old(self)@.pc + 1 < MEMORY_SIZE ==> {
                let fetched = MachineState { pc: old(self)@.pc + 2, ..old(self)@ };
                carried_out(
                    fetched,
                    executed(fetched, decode(word_at(old(self)@.memory, old(self)@.pc))),
                    final(self)@,
                    r,
                )
            },
    {
        let word = match self.fetch_instruction() {
            Ok(word) => word,
            Err(e) => return Err(e),
        };
        self.execute(Instruction::from_raw(word))
    }

    /// Decays the delay and sound timers by the time that has passed since
    /// their previous update.
    pub fn update_timers(&mut self)
        requires
            old(self).well_formed(),
        ensures
            final(self).well_formed(),
            exists|elapsed_micros: u64|
                final(self)@ == (MachineState {
                    timers: #[trigger] decayed(old(self)@.timers, elapsed_micros as int),
                    ..old(self)@
                }),
    {
        self.timers.decrement_timers();
    }

    /// Restarts the random number generator from `seed`; a zero seed makes
    /// every random byte zero.
    pub fn seed_random(&mut self, seed: u16)
        requires
            old(self).well_formed(),
        ensures
            final(self).well_formed(),
            final(self)@ == (MachineState { random: seed, ..old(self)@ }),
    {
        self.random = seed;
    }

    /// Records whether `key` of the keypad is down.
    pub fn set_key(&mut self, key: usize, pressed: bool)
        requires
            old(self).well_formed(),
            key < KEY_COUNT,
        ensures
            final(self).well_formed(),
            final(self)@ == (MachineState { keys: old(self)@.keys.update(key as int, pressed), ..old(self)@ }),
    {
        self.keys.set(key, pressed);
    }

    /// The whole of memory.
    pub fn memory(&self) -> (r: &[u8])
        ensures
            r@ == self@.memory,
    {
        self.memory.as_slice()
    }

    /// The display cells, row-major, each 0 or 1.
    pub fn screen(&self) -> (r: &[u8])
        ensures
            r@ == self@.screen,
    {
        self.screen_buffer.as_slice()
    }

    /// The sixteen general-purpose registers.
    pub fn registers(&self) -> (r: &[u8])
        ensures
            r@ == self@.registers,
    {
        self.registers.as_slice()
    }

    /// The program counter.
    pub fn pc(&self) -> (r: usize)
        ensures
            r == self@.pc,
    {
        self.pc
    }

    /// The index register.
    pub fn index(&self) -> (r: u16)
        ensures
            r == self@.i,
    {
        self.i
    }

    /// The delay and sound timers.
    pub fn timers(&self) -> (r: &Timers)
        ensures
            r@ == self@.timers,
    {
        &self.timers
    }
}

} // verus!
