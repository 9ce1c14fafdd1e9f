//! An EVM backend's verified core: the instruction-set table, an assembler
//! and disassembler, a typed SSA intermediate representation with its
//! hand-written construction surface, the word type contracts compute with,
//! and the compiler shim's layout and bytecode emitter.

pub mod isa;
pub mod assembler;
pub mod text;
pub mod ir;
pub mod word;
pub mod shim;
pub mod driver;
pub mod binding;

pub use assembler::{Asm, AsmError, Label, MAX_CONTRACT_SIZE};
