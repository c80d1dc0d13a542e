//! A CHIP-8 virtual machine core with machine-checked instruction semantics.
//!
//! The host creates an [`Emulator`], loads a program, calls
//! [`Emulator::tick`] for every instruction and [`Emulator::tick_timers`]
//! sixty times a second, and reads the display and the sound timer back.
//!
//! [`model`] describes the machine as a mathematical object: its state and
//! the effect of every operation on it. [`emulator`] holds the interpreter,
//! every operation of which is proved to do what the model says. [`laws`]
//! states and proves what follows for all states and all instruction words.
//! [`opcode`], [`alu`] and [`sprite`] hold decoding, arithmetic and drawing.

pub mod alu;
pub mod consts;
pub mod emulator;
pub mod error;
pub mod laws;
pub mod model;
pub mod opcode;
mod rng;
pub mod sprite;

pub use consts::{SCREEN_HEIGHT, SCREEN_WIDTH};
pub use emulator::Emulator;
pub use error::Chip8Error;
pub use model::MachineState;
pub use opcode::Instruction;
