//! A verified emulator core for a 16-bit word-addressable machine with
//! eight general-purpose registers, a program counter, condition flags,
//! PC-relative addressing and a small trap-based service layer.

pub mod ops;
pub mod ops_parse;
pub mod vm;
pub mod vm_spec;
