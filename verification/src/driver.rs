//! The codegen backend rustc loads, as the pipeline drives it: one module of
//! EVM bytecode per codegen unit, handed from `codegen_crate` to
//! `join_codegen` in an [`OngoingCodegen`].

use vstd::prelude::*;

verus! {

/// The backend. Zero-sized.
#[derive(Clone, Copy, Debug, PartialEq, Eq, Structural)]
pub struct EvmCodegenBackend;

impl EvmCodegenBackend {
    pub fn new() -> (r: EvmCodegenBackend)
        ensures
            r == EvmCodegenBackend,
    {
        EvmCodegenBackend
    }

    /// The name rustc knows the backend by.
    pub fn name(&self) -> (r: &'static str)
        ensures
            r@ == "evm"@,
    {
        "evm"
    }

    /// The CPU to target: the one asked for, else `generic`.
    pub fn target_cpu(&self, requested: Option<String>) -> (r: String)
        ensures
            r@ == match requested {
                Some(cpu) => cpu@,
                None => "generic"@,
            },
    {
        match requested {
            Some(cpu) => cpu,
            None => String::from_str("generic"),
        }
    }
}

/// One codegen unit lowered to EVM bytecode, still in memory.
#[derive(Clone, Debug)]
pub struct EvmModule {
    pub name: String,
    pub bytecode: Vec<u8>,
}

/// What `codegen_crate` hands `join_codegen`: one module per codegen unit.
pub struct OngoingCodegen {
    pub modules: Vec<EvmModule>,
}

impl OngoingCodegen {
    /// One module per codegen unit, in order, named after it. No unit's items
    /// are lowered yet, so each module's bytecode is empty.
    pub fn for_units(unit_names: &[String]) -> (r: OngoingCodegen)
        ensures
            r.modules@.len() == unit_names@.len(),
            forall|i: int|
                0 <= i < unit_names@.len() ==> (#[trigger] r.modules@[i]).name@ == unit_names@[i]@
                    && r.modules@[i].bytecode@.len() == 0,
    {
        let mut modules: Vec<EvmModule> = Vec::new();
        let mut i: usize = 0;
        while i < unit_names.len()
            invariant
                i <= unit_names@.len(),
                modules@.len() == i,
                forall|j: int|
                    0 <= j < i ==> (#[trigger] modules@[j]).name@ == unit_names@[j]@ && modules@[j].bytecode@.len()
                        == 0,
            decreases unit_names@.len() - i,
        {
            let name = unit_names[i].clone();
            modules.push(EvmModule { name, bytecode: Vec::new() });
            i += 1;
        }
        OngoingCodegen { modules }
    }
}

} // verus!
