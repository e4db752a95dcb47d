//! A CHIP-8 virtual machine core: memory, display, processor and the machine
//! that owns them, with every opcode's effect stated as a contract.

pub mod cpu;
pub mod display;
mod error;
pub mod instruction;
pub mod machine;
pub mod ram;
pub mod theorems;

pub use cpu::Cpu;
pub use display::Display;
pub use error::Chip8Error;
pub use instruction::Instruction;
pub use machine::Chip8;
pub use ram::Ram;
