//! A CHIP-8 virtual machine: memory, registers, call stack, timers and a
//! monochrome frame buffer, together with the interpreter that executes one
//! opcode at a time.

pub mod cpu;
pub mod semantics;
pub mod interpreter;
pub mod screen;
pub mod laws;
pub mod instruction_laws;
