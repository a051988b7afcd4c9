//! An interpreter for a small 8-bit virtual machine: 4 KB of memory, sixteen byte registers,
//! a sixteen-level call stack, two countdown timers, a 64×32 monochrome screen and a
//! sixteen-key keypad.
//!
//! The host calls [`cpu::Cpu::emulate_cycle`] once per step. Words that encode no instruction
//! are skipped as no-ops. A return on an empty stack, a call on a full one, a memory access past
//! the end of memory and a key above `0xF` are faults: the step changes nothing and reports the
//! fault. Arithmetic on registers, `pc` and `i` wraps at their widths.

pub mod cpu;
pub mod display;
pub mod keypad;
pub mod machine;
pub mod theorems;

pub use cpu::Cpu;
pub use display::Display;
pub use keypad::Keypad;
pub use machine::{Fault, Instruction};
