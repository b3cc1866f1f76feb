//! A verified CHIP-8 core: a decoder for the 35-instruction set and a
//! machine that owns all mutable state (memory, registers, program counter,
//! call stack, timers, keypad snapshot, framebuffer) and executes one
//! decoded instruction per step.

pub mod draw;
pub mod exec;
pub mod laws;
pub mod machine;
pub mod opcode;

pub use machine::Chip8;
pub use machine::Fault;
pub use opcode::decode_opcode;
pub use opcode::Opcode;
