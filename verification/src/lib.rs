//! A verified stack-based bytecode virtual machine.
//!
//! A program is an ordered sequence of 32-bit words. The two most-significant
//! bits of each word form a tag that selects between data literals and
//! instructions; the whole word, reinterpreted as a signed 32-bit integer,
//! is the data value. The machine drives a fetch-decode-execute cycle against
//! a bounded operand stack until a halt instruction is reached or a fatal
//! error occurs.

pub mod errors;
pub mod loader;
pub mod stack;
pub mod vm;
