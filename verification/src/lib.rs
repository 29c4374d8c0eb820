//! A CHIP-8 virtual machine core: instruction decoding, the execution engine,
//! the XOR-composited pixel plane, the keypad and the timers, with every
//! operation specified over a mathematical model of the machine.

pub mod chip;
pub mod display;
pub mod emulator;
pub mod hex;
pub mod instructions;
pub mod keyboard;
pub mod registers;
