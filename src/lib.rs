//! An assembler and an emulator for a small 8-bit machine.
//!
//! The assembler runs source text through a lexer, a backtracking parser, a
//! macro expander and a two-pass encoder; the emulator executes the resulting
//! image one instruction at a time.
pub mod isa;
pub mod encoder;
pub mod emulator;
pub mod lexer;
pub mod macros;
pub mod parser;
pub mod expander;
pub mod assembler;
