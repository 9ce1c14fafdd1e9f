//! EIR — the machine-independent IR the backend pipeline is built around.
//!
//! Typed, SSA, block-structured, and a pure data structure: it has no notion
//! of where a value lives at runtime.
//!
//! - Values carry a Rust type, signedness included, and every instruction
//!   carries the [`Repair`] that restores it.
//! - SSA with block parameters, not phi nodes.
//! - It is meant to be written by hand, through [`builder`].

pub mod builder;
pub mod effect;
pub mod entity;
pub mod func;
pub mod inst;
pub mod types;

pub use builder::{FunctionBuilder, InsBuilder};
pub use effect::Effects;
pub use entity::{Block, Func, Inst, Value};
pub use func::{BlockData, BlockKind, Function, ValueData, ValueDef};
pub use inst::{BlockCall, Cmp, InstData, Op, Terminator};
pub use types::{IntTy, Repair, Signature, Type};
pub mod module;
pub mod repr;

pub use module::Module;

use vstd::prelude::*;

verus! {

/// What can go wrong building or checking EIR. Reported by
/// [`FunctionBuilder::finish`](builder::FunctionBuilder::finish) and
/// [`Module::verify`].
#[derive(Debug, Clone, PartialEq, Eq)]
pub enum IrError {
    /// An instruction was emitted with no block to put it in — after a
    /// terminator, and before the next `switch_to`.
    NoCurrentBlock,
    /// A second terminator, or an instruction after one.
    AlreadyTerminated { block: Block },
    /// No such mnemonic in the table.
    UnknownMnemonic(String),
    /// An opcode EIR reserves to itself rather than exposing raw.
    ReservedOpcode { mnemonic: &'static str, reason: &'static str },
    /// A body whose signature disagrees with its declaration.
    SignatureMismatch { func: Func, name: String },
    /// A second body for one declaration.
    AlreadyDefined { func: Func, name: String },
    /// A function declared but never defined.
    Undefined { func: Func, name: String },
    /// A module with no entry point.
    NoEntry,
}

impl IrError {
    /// How the error reads.
    pub open spec fn text(&self) -> Seq<char> {
        match self {
            IrError::NoCurrentBlock => "no block is being built \u{2014} the last one was terminated; `switch_to` another"@,
            IrError::AlreadyTerminated { block } => block.text() + " already ends in a terminator"@,
            IrError::UnknownMnemonic(m) => "unknown opcode `"@ + m@ + "`"@,
            IrError::ReservedOpcode { mnemonic, reason } => "`"@ + mnemonic@ + "` cannot be emitted as a raw opcode: "@
                + reason@,
            IrError::SignatureMismatch { func, name } => "the body given for `"@ + name@ + "` ("@ + func.text()
                + ") does not match its declared signature"@,
            IrError::AlreadyDefined { func, name } => "`"@ + name@ + "` ("@ + func.text() + ") is already defined"@,
            IrError::Undefined { func, name } => "`"@ + name@ + "` ("@ + func.text()
                + ") was declared but never defined"@,
            IrError::NoEntry => "the module has no entry function"@,
        }
    }

    pub fn to_string(&self) -> (r: String)
        ensures
            r@ == self.text(),
    {
        let mut s = String::new();
        match self {
            IrError::NoCurrentBlock => {
                s.append("no block is being built \u{2014} the last one was terminated; `switch_to` another");
            },
            IrError::AlreadyTerminated { block } => {
                let b = block.to_string();
                s.append(b.as_str());
                s.append(" already ends in a terminator");
            },
            IrError::UnknownMnemonic(m) => {
                s.append("unknown opcode `");
                s.append(m.as_str());
                s.append("`");
            },
            IrError::ReservedOpcode { mnemonic, reason } => {
                s.append("`");
                s.append(mnemonic);
                s.append("` cannot be emitted as a raw opcode: ");
                s.append(reason);
            },
            IrError::SignatureMismatch { func, name } => {
                s.append("the body given for `");
                s.append(name.as_str());
                s.append("` (");
                let f = func.to_string();
                s.append(f.as_str());
                s.append(") does not match its declared signature");
            },
            IrError::AlreadyDefined { func, name } => {
                s.append("`");
                s.append(name.as_str());
                s.append("` (");
                let f = func.to_string();
                s.append(f.as_str());
                s.append(") is already defined");
            },
            IrError::Undefined { func, name } => {
                s.append("`");
                s.append(name.as_str());
                s.append("` (");
                let f = func.to_string();
                s.append(f.as_str());
                s.append(") was declared but never defined");
            },
            IrError::NoEntry => {
                s.append("the module has no entry function");
            },
        }
        s
    }
}

/// [`IrError`] as contracts see it: strings by their text.
pub enum IrFault {
    NoCurrentBlock,
    AlreadyTerminated { block: Block },
    UnknownMnemonic(Seq<char>),
    ReservedOpcode { mnemonic: &'static str, reason: Seq<char> },
    SignatureMismatch { func: Func, name: Seq<char> },
    AlreadyDefined { func: Func, name: Seq<char> },
    Undefined { func: Func, name: Seq<char> },
    NoEntry,
}

impl View for IrError {
    type V = IrFault;

    open spec fn view(&self) -> IrFault {
        match self {
            IrError::NoCurrentBlock => IrFault::NoCurrentBlock,
            IrError::AlreadyTerminated { block } => IrFault::AlreadyTerminated { block: *block },
            IrError::UnknownMnemonic(m) => IrFault::UnknownMnemonic(m@),
            IrError::ReservedOpcode { mnemonic, reason } => IrFault::ReservedOpcode {
                mnemonic: *mnemonic,
                reason: reason@,
            },
            IrError::SignatureMismatch { func, name } => IrFault::SignatureMismatch {
                func: *func,
                name: name@,
            },
            IrError::AlreadyDefined { func, name } => IrFault::AlreadyDefined { func: *func, name: name@ },
            IrError::Undefined { func, name } => IrFault::Undefined { func: *func, name: name@ },
            IrError::NoEntry => IrFault::NoEntry,
        }
    }
}

/// A result with its error as contracts see it.
pub open spec fn ir_result<T>(r: Result<T, IrError>) -> Result<T, IrFault> {
    match r {
        Ok(t) => Ok(t),
        Err(e) => Err(e@),
    }
}

} // verus!
