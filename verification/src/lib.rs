//! A CHIP-8 virtual machine: memory, register file, instruction decoder and
//! execution engine, each with a machine-checked contract.

pub mod display;
pub mod input;
pub mod instruction;
pub mod laws;
pub mod machine;
pub mod memory;
pub mod sprite;
