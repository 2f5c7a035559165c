//! A stack virtual machine for the bytecode of the Monkey language.
//!
//! [`vm::Vm`] runs a [`code::Bytecode`]. What each operation does is stated over
//! [`vm::machine::Machine`], a mathematical machine, and every executable function is verified
//! against it. [`vm::laws`] holds what follows for whole runs.

pub mod ast;
pub mod code;
pub mod object;
pub mod text;
pub mod vm;
