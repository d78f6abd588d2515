//! A register-based bytecode interpreter.
//!
//! A program is a byte buffer: a four-byte magic header followed by a stream
//! of instructions. An engine ([`vm::VM`]) validates the header and then
//! fetches, decodes and executes instructions against a bank of 32 integer
//! registers until the program halts, runs off its end, or holds a byte that
//! names no operation. What happened is reported as a list of lifecycle
//! events.
//!
//! The meaning of a program is given once, as mathematics, in [`semantics`];
//! the executable engine is proved to compute exactly that.

pub mod instructions;
pub mod host;
pub mod semantics;
pub mod vm;
pub mod laws;
pub mod loader;
pub mod report;
