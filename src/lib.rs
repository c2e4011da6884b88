//! An interpreter core for the CHIP-8 virtual machine: memory, registers,
//! stack, timers, framebuffer and keypad, advanced one instruction at a time.
pub mod instruction;
pub mod display;
pub mod machine;
pub mod cpu;
pub mod laws;
