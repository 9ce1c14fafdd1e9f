//! The rustc shim's own pieces: how locals are laid out in memory, the
//! bytecode emitter, and the lowering of a MIR body onto it.

pub mod abi;
pub mod emit;
pub mod lower;
pub mod backend;
