//! A small 16-bit register machine: a word-addressed, bounds-checked memory,
//! a bijective instruction codec, and a fetch-decode-execute engine with
//! condition flags and a call/data stack.

pub mod cpu;
pub mod instruction;
pub mod memory;
