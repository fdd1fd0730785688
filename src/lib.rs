//! A CHIP-8 virtual machine core: instruction decoding, memory, call stack,
//! countdown timers and the fetch-decode-execute engine.
pub mod error;
pub mod instruction;
pub mod interpreter;
pub mod laws;
pub mod stack;
pub mod timers;

pub use error::MachineError;
pub use instruction::Instruction;
pub use interpreter::{
    Interpreter, MachineState, FLAG_REGISTER, FONT_START_ADDRESS, MEMORY_SIZE, PC_START_ADDRESS,
    GLYPH_SIZE, KEY_COUNT, PC_LIMIT, RANDOM_SEED, REGISTER_COUNT, SCREEN_CELLS, SCREEN_HEIGHT, SCREEN_WIDTH,
};
pub use stack::{Stack, STACK_SIZE};
pub use timers::{TimerState, Timers, CARRY_SCALE, TIMER_DECREMENT_FREQUENCY};
