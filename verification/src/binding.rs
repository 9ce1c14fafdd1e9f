//! The check an opcode binding is held to.
//!
//! Each raw opcode binding is a Rust function standing for one EVM opcode:
//! the backend emits the opcode wherever the function is called. A binding is
//! right when its mnemonic names a table entry and its signature matches
//! that entry's stack arity: one argument per value the opcode pops, and one
//! result if it pushes one.

use vstd::prelude::*;

use crate::isa::table::{spec_opcode, OPCODE_COUNT};
use crate::isa::{by_mnemonic, lemma_lookups_round_trip, spec_by_mnemonic, OpSpec};

verus! {

/// Why a binding does not match the table.
#[derive(Debug, Clone, PartialEq, Eq)]
pub enum BindingError {
    /// No opcode has this mnemonic.
    UnknownOpcode(String),
    /// The signature's arity is not the opcode's.
    ArityMismatch { mnemonic: &'static str, stack_in: u8, stack_out: u8, params: usize, results: usize },
}

/// [`BindingError`] as contracts see it: the mnemonic by its text.
pub enum BindingFault {
    UnknownOpcode(Seq<char>),
    ArityMismatch { mnemonic: &'static str, stack_in: u8, stack_out: u8, params: usize, results: usize },
}

impl View for BindingError {
    type V = BindingFault;

    open spec fn view(&self) -> BindingFault {
        match self {
            BindingError::UnknownOpcode(m) => BindingFault::UnknownOpcode(m@),
            BindingError::ArityMismatch { mnemonic, stack_in, stack_out, params, results } => {
                BindingFault::ArityMismatch {
                    mnemonic: *mnemonic,
                    stack_in: *stack_in,
                    stack_out: *stack_out,
                    params: *params,
                    results: *results,
                }
            },
        }
    }
}

/// What checking a binding of `mnemonic` with `params` arguments and
/// `results` results gives: the table entry when the arities agree.
pub open spec fn binding_outcome(mnemonic: Seq<char>, params: usize, results: usize) -> Result<OpSpec, BindingFault> {
    match spec_by_mnemonic(mnemonic) {
        None => Err(BindingFault::UnknownOpcode(mnemonic)),
        Some(s) => if params == s.stack_in && results == s.stack_out {
            Ok(s)
        } else {
            Err(
                BindingFault::ArityMismatch {
                    mnemonic: s.mnemonic,
                    stack_in: s.stack_in,
                    stack_out: s.stack_out,
                    params,
                    results,
                },
            )
        },
    }
}

/// Every table entry binds with its own arity and with no other: binding an
/// entry's mnemonic with one argument per value it pops and as many results
/// as it pushes is accepted and gives that entry, and any binding that is
/// accepted has its entry's mnemonic, pop count and push count.
pub proof fn lemma_bindings_match_the_table(k: int, mnemonic: Seq<char>, params: usize, results: usize)
    requires
        0 <= k < OPCODE_COUNT,
    ensures
        binding_outcome(spec_opcode(k).mnemonic@, spec_opcode(k).stack_in as usize, spec_opcode(k).stack_out as usize)
            == Ok::<OpSpec, BindingFault>(spec_opcode(k)),
        binding_outcome(mnemonic, params, results) matches Ok(s) ==> s.mnemonic@ == mnemonic && s.stack_in == params
            && s.stack_out == results,
{
    lemma_lookups_round_trip(k, mnemonic);
}

/// Check a binding of `mnemonic` taking `params` arguments and returning
/// `results` values (zero for `()` and for `!`) against the table.
pub fn check_binding(mnemonic: &str, params: usize, results: usize) -> (r: Result<OpSpec, BindingError>)
    ensures
        match r {
            Ok(s) => binding_outcome(mnemonic@, params, results) == Ok::<OpSpec, BindingFault>(s),
            Err(e) => binding_outcome(mnemonic@, params, results) == Err::<OpSpec, BindingFault>(e@),
        },
{
    match by_mnemonic(mnemonic) {
        None => Err(BindingError::UnknownOpcode(mnemonic.to_owned())),
        Some(s) => if params == s.stack_in as usize && results == s.stack_out as usize {
            Ok(s)
        } else {
            Err(
                BindingError::ArityMismatch {
                    mnemonic: s.mnemonic,
                    stack_in: s.stack_in,
                    stack_out: s.stack_out,
                    params,
                    results,
                },
            )
        },
    }
}

} // verus!
