//! A CHIP-8 interpreter core: machine state, instruction decoding and
//! execution, timers, framebuffer and keypad, with every operation specified
//! against a mathematical model of the machine.

pub mod entropy;
pub mod execute;
pub mod glyphs;
pub mod instruction;
pub mod laws;
pub mod machine;
pub mod sprite;
pub mod state;

pub use crate::instruction::{decode, Instruction};
pub use crate::machine::Chip8;
pub use crate::state::{
    Fault, Mode, NUM_KEYS, NUM_REGS, RAM_SIZE, SCREEN_HEIGHT, SCREEN_WIDTH, STACK_SIZE, START_ADDR,
};
