//! A CHIP-8 virtual machine: instruction decoder, interpreter core and the
//! pixel and key state it works on.

pub mod chip8;
pub mod cpu;
pub mod display;
pub mod error;
pub mod input;
pub mod instruction;
pub mod keymap;
pub mod laws;
pub mod sprite;
pub mod state;
