//! The backend rustc loads.
//!
//! rustc drives it in three phases: lower every reachable function's MIR to
//! bytecode, collect the results, and write them out. The lowering itself is
//! [`codegen_fn`](super::lower::codegen_fn).

use vstd::prelude::*;

verus! {

/// The EVM codegen backend. Zero-sized: all mutable state lives in the
/// per-crate lowering.
#[derive(Clone, Copy, Debug, PartialEq, Eq, Structural)]
pub struct EvmCodegenBackend;

impl EvmCodegenBackend {
    pub fn new() -> (r: EvmCodegenBackend)
        ensures
            r == EvmCodegenBackend,
    {
        EvmCodegenBackend
    }
}

} // verus!
