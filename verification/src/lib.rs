//! A verified CHIP-8 virtual machine core: memory, registers, instruction
//! decode and execute, the monochrome framebuffer, the keyboard state model
//! and the two hardware timers.
//!
//! The presentation layer (a renderer that reads the machine state and paints
//! it) and ROM-file discovery live outside this crate; they drive the machine
//! through `emulator::Emulator` and read it back through its accessors.

pub mod cpu;
pub mod decoder;
pub mod display;
pub mod emulator;
pub mod fault;
pub mod input;
pub mod key_map;
pub mod memory;
pub mod mode;
pub mod timers;
