//! A CHIP-8 virtual machine: 4 KiB of memory, sixteen 8-bit registers, a
//! 64x32 monochrome display drawn by XOR, a 16-key pad and two timers.
//!
//! Every executable function carries a contract over a mathematical model of
//! the machine, and the contracts are proved.
pub mod util;
pub mod fault;
pub mod rom;
pub mod memory;
pub mod display;
pub mod keyboard;
pub mod sprite;
pub mod machine;
pub mod decode;
pub mod cpu;
pub mod laws;
pub mod chip8;
