//! A CHIP-8 virtual machine: the decoder of its instruction set and the engine
//! that runs one instruction at a time against memory, registers, timers and
//! a 64x32 monochrome screen. Pixels, keys and random bytes come from the
//! host, through three small traits.

pub mod insts;
pub mod keypad;
pub mod state;
pub mod vm;
pub mod laws;
