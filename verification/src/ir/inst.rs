//! Operations, instructions, and terminators.
//!
//! [`Op::Opcode`] carries any EVM opcode that needs no special treatment, so
//! the enum only names operations the compiler has an opinion about: the
//! ones needing width repair, the ones with more than one result, and the
//! ones whose EVM encoding disagrees with how they read.
//!
//! Terminators are not instructions. They live in a field on the block,
//! which makes "every block ends in exactly one terminator" a check on one
//! `Option`.

use vstd::prelude::*;

use super::effect::{opcode_effect_bits, Effects};
use super::entity::{Block, Func, Value};
use super::types::{spec_mask, spec_sext, Repair, Type};
use crate::assembler::Immediate;
use crate::isa::table::spec_by_byte;
use crate::isa::OpSpec;

verus! {

/// An integer comparison. Signedness comes from the operand type.
#[derive(Debug, Clone, Copy, PartialEq, Eq, Structural, Hash)]
pub enum Cmp {
    Eq,
    Ne,
    Lt,
    Le,
    Gt,
    Ge,
}

/// What an instruction does.
#[derive(Debug, Clone, Copy, PartialEq, Eq)]
pub enum Op {
    /// A literal. No arguments; the width comes from the instruction's type.
    Const(Immediate),
    Add,
    Sub,
    Mul,
    /// EVM semantics: `x / 0 == 0`. Rust's panic is a branch the frontend
    /// emits, not something implicit here.
    Div,
    /// Remainder, with the same zero-divisor caveat as [`Div`](Op::Div).
    Rem,
    AddMod,
    MulMod,
    Exp,
    /// Checked arithmetic: two results, `(value: ty, overflow: bool)`.
    AddOverflow,
    SubOverflow,
    MulOverflow,
    And,
    Or,
    Xor,
    /// Bitwise complement. EVM `NOT` flips all 256 bits, so an unsigned
    /// result needs a mask; a signed one does not.
    Not,
    /// `args = [value, shift]` — reading order, not the EVM's.
    Shl,
    Shr,
    Sar,
    /// EVM `BYTE`. `args = [index, value]`.
    ExtractByte,
    /// Truncate, zero-extend, sign-extend, or reinterpret signedness.
    Convert,
    /// Result is always the one-bit `bool`.
    Icmp(Cmp),
    /// `args = [cond, then, otherwise]`, lowered branch-free.
    Select,
    /// Reserve `bytes` in the current frame; the result is a pointer.
    Alloca { bytes: u32 },
    /// `args = [ptr]`.
    Load,
    /// `args = [ptr, value]`, no results.
    Store,
    /// `args = [dst, src, len]`. `MCOPY`, so Cancun and later only.
    MemCopy,
    SLoad,
    SStore,
    TLoad,
    TStore,
    /// A raw EVM opcode inlined here. `args[i]` is the i-th value the opcode
    /// pops; results follow `spec.stack_out`.
    Opcode(OpSpec),
    /// An internal, `JUMP`-based call. Not a terminator.
    Call { callee: Func },
}

/// The repair an operation's raw result needs to satisfy `ty`'s invariant:
/// mask if unsigned, sign-extend if signed, except where the operands'
/// well-formedness already proves the result in range.
pub open spec fn default_repair_of(op: Op, ty: Type) -> Repair {
    let it = ty.int_of();
    match op {
        Op::Icmp(_) => Repair::NoRepair,
        Op::Const(_) => Repair::NoRepair,
        Op::Select | Op::Call { .. } | Op::Alloca { .. } => Repair::NoRepair,
        Op::And | Op::Or | Op::Xor => Repair::NoRepair,
        Op::Not if it.signed => Repair::NoRepair,
        Op::Div if !it.signed => Repair::NoRepair,
        Op::Rem if !it.signed => Repair::NoRepair,
        Op::Shr if !it.signed => Repair::NoRepair,
        _ => if it.signed {
            spec_sext(it.bits)
        } else {
            spec_mask(it.bits)
        },
    }
}

/// The effects of an operation, as bits of [`Effects`].
pub open spec fn op_effect_bits(op: Op) -> u16 {
    match op {
        Op::Alloca { .. } => 2,
        Op::Load => 1,
        Op::Store => 2,
        Op::MemCopy => 3,
        Op::SLoad => 4,
        Op::SStore => 8,
        Op::TLoad => 0x10,
        Op::TStore => 0x20,
        Op::Opcode(spec) => opcode_effect_bits(spec),
        Op::Call { .. } => 0x1ff,
        _ => 0,
    }
}

/// How many results an operation produces; `usize::MAX` for a call, whose
/// count comes from the callee's signature.
pub open spec fn op_result_count(op: Op) -> usize {
    match op {
        Op::AddOverflow | Op::SubOverflow | Op::MulOverflow => 2,
        Op::Store | Op::SStore | Op::TStore | Op::MemCopy => 0,
        Op::Opcode(spec) => spec.stack_out as usize,
        Op::Call { .. } => usize::MAX,
        _ => 1,
    }
}

/// An operation that is one EVM opcode has that opcode's effects, as the
/// instruction table classifies it: the memory, storage and transient-storage
/// loads, stores and copy are `MLOAD`, `MSTORE`, `MCOPY`, `SLOAD`, `SSTORE`,
/// `TLOAD` and `TSTORE`; an alloca counts as a memory write, as `MSTORE`
/// does; and the arithmetic, bitwise, shift and comparison operations are as
/// pure as their opcodes.
pub proof fn lemma_op_effects_agree_with_the_table()
    ensures
        op_effect_bits(Op::Load) == opcode_effect_bits(spec_by_byte(0x51)->0),
        op_effect_bits(Op::Store) == opcode_effect_bits(spec_by_byte(0x52)->0),
        op_effect_bits(Op::MemCopy) == opcode_effect_bits(spec_by_byte(0x5e)->0),
        op_effect_bits(Op::SLoad) == opcode_effect_bits(spec_by_byte(0x54)->0),
        op_effect_bits(Op::SStore) == opcode_effect_bits(spec_by_byte(0x55)->0),
        op_effect_bits(Op::TLoad) == opcode_effect_bits(spec_by_byte(0x5c)->0),
        op_effect_bits(Op::TStore) == opcode_effect_bits(spec_by_byte(0x5d)->0),
        forall|bytes: u32| op_effect_bits(Op::Alloca { bytes }) == opcode_effect_bits(spec_by_byte(0x52)->0),
        op_effect_bits(Op::Add) == opcode_effect_bits(spec_by_byte(0x01)->0),
        op_effect_bits(Op::Mul) == opcode_effect_bits(spec_by_byte(0x02)->0),
        op_effect_bits(Op::Sub) == opcode_effect_bits(spec_by_byte(0x03)->0),
        op_effect_bits(Op::Div) == opcode_effect_bits(spec_by_byte(0x04)->0),
        op_effect_bits(Op::Rem) == opcode_effect_bits(spec_by_byte(0x06)->0),
        op_effect_bits(Op::AddMod) == opcode_effect_bits(spec_by_byte(0x08)->0),
        op_effect_bits(Op::MulMod) == opcode_effect_bits(spec_by_byte(0x09)->0),
        op_effect_bits(Op::Exp) == opcode_effect_bits(spec_by_byte(0x0a)->0),
        forall|c: Cmp| op_effect_bits(Op::Icmp(c)) == opcode_effect_bits(spec_by_byte(0x10)->0),
        op_effect_bits(Op::And) == opcode_effect_bits(spec_by_byte(0x16)->0),
        op_effect_bits(Op::Or) == opcode_effect_bits(spec_by_byte(0x17)->0),
        op_effect_bits(Op::Xor) == opcode_effect_bits(spec_by_byte(0x18)->0),
        op_effect_bits(Op::Not) == opcode_effect_bits(spec_by_byte(0x19)->0),
        op_effect_bits(Op::ExtractByte) == opcode_effect_bits(spec_by_byte(0x1a)->0),
        op_effect_bits(Op::Shl) == opcode_effect_bits(spec_by_byte(0x1b)->0),
        op_effect_bits(Op::Shr) == opcode_effect_bits(spec_by_byte(0x1c)->0),
        op_effect_bits(Op::Sar) == opcode_effect_bits(spec_by_byte(0x1d)->0),
{
}

/// The mnemonic an operation has in a dump.
pub open spec fn op_name(op: Op) -> &'static str {
    match op {
        Op::Const(_) => "const",
        Op::Add => "add",
        Op::Sub => "sub",
        Op::Mul => "mul",
        Op::Div => "div",
        Op::Rem => "rem",
        Op::AddMod => "addmod",
        Op::MulMod => "mulmod",
        Op::Exp => "exp",
        Op::AddOverflow => "add.overflow",
        Op::SubOverflow => "sub.overflow",
        Op::MulOverflow => "mul.overflow",
        Op::And => "and",
        Op::Or => "or",
        Op::Xor => "xor",
        Op::Not => "not",
        Op::Shl => "shl",
        Op::Shr => "shr",
        Op::Sar => "sar",
        Op::ExtractByte => "byte",
        Op::Convert => "convert",
        Op::Icmp(Cmp::Eq) => "eq",
        Op::Icmp(Cmp::Ne) => "ne",
        Op::Icmp(Cmp::Lt) => "lt",
        Op::Icmp(Cmp::Le) => "le",
        Op::Icmp(Cmp::Gt) => "gt",
        Op::Icmp(Cmp::Ge) => "ge",
        Op::Select => "select",
        Op::Alloca { .. } => "alloca",
        Op::Load => "load",
        Op::Store => "store",
        Op::MemCopy => "memcopy",
        Op::SLoad => "sload",
        Op::SStore => "sstore",
        Op::TLoad => "tload",
        Op::TStore => "tstore",
        Op::Opcode(spec) => spec.mnemonic,
        Op::Call { .. } => "call",
    }
}

impl Op {
    /// The repair this operation's raw result needs to satisfy `ty`'s
    /// invariant. [`Convert`](Op::Convert) takes the general rule here; the
    /// builder asks [`Repair::for_convert`] for it instead, because its repair
    /// depends on the source type.
    pub fn default_repair(self, ty: Type) -> (r: Repair)
        ensures
            r == default_repair_of(self, ty),
    {
        let it = ty.as_int();
        match self {
            Op::Icmp(_) => Repair::NoRepair,
            Op::Const(_) => Repair::NoRepair,
            Op::Select | Op::Call { .. } | Op::Alloca { .. } => Repair::NoRepair,
            Op::And | Op::Or | Op::Xor => Repair::NoRepair,
            Op::Not if it.signed => Repair::NoRepair,
            Op::Div if !it.signed => Repair::NoRepair,
        Op::Rem if !it.signed => Repair::NoRepair,
            Op::Shr if !it.signed => Repair::NoRepair,
            _ => if it.signed {
                Repair::sext(it.bits)
            } else {
                Repair::mask(it.bits)
            },
        }
    }

    /// What this operation can observe or disturb. A call is assumed to do
    /// anything; an alloca counts as a memory write so two never merge.
    pub fn effects(self) -> (r: Effects)
        ensures
            r@ == op_effect_bits(self),
    {
        match self {
            Op::Alloca { .. } => Effects::writes_memory(),
            Op::Load => Effects::reads_memory(),
            Op::Store => Effects::writes_memory(),
            Op::MemCopy => {
                proof {
                    assert(1u16 | 2u16 == 3u16) by (bit_vector);
                }
                Effects::reads_memory().union(Effects::writes_memory())
            },
            Op::SLoad => Effects::reads_storage(),
            Op::SStore => Effects::writes_storage(),
            Op::TLoad => Effects::reads_transient(),
            Op::TStore => Effects::writes_transient(),
            Op::Opcode(spec) => Effects::of_opcode(spec),
            Op::Call { .. } => Effects::all(),
            _ => Effects::pure_(),
        }
    }

    /// The mnemonic used in a dump.
    pub fn name(self) -> (r: &'static str)
        ensures
            r == op_name(self),
    {
        match self {
            Op::Const(_) => "const",
            Op::Add => "add",
            Op::Sub => "sub",
            Op::Mul => "mul",
            Op::Div => "div",
            Op::Rem => "rem",
            Op::AddMod => "addmod",
            Op::MulMod => "mulmod",
            Op::Exp => "exp",
            Op::AddOverflow => "add.overflow",
            Op::SubOverflow => "sub.overflow",
            Op::MulOverflow => "mul.overflow",
            Op::And => "and",
            Op::Or => "or",
            Op::Xor => "xor",
            Op::Not => "not",
            Op::Shl => "shl",
            Op::Shr => "shr",
            Op::Sar => "sar",
            Op::ExtractByte => "byte",
            Op::Convert => "convert",
            Op::Icmp(Cmp::Eq) => "eq",
            Op::Icmp(Cmp::Ne) => "ne",
            Op::Icmp(Cmp::Lt) => "lt",
            Op::Icmp(Cmp::Le) => "le",
            Op::Icmp(Cmp::Gt) => "gt",
            Op::Icmp(Cmp::Ge) => "ge",
            Op::Select => "select",
            Op::Alloca { .. } => "alloca",
            Op::Load => "load",
            Op::Store => "store",
            Op::MemCopy => "memcopy",
            Op::SLoad => "sload",
            Op::SStore => "sstore",
            Op::TLoad => "tload",
            Op::TStore => "tstore",
            Op::Opcode(spec) => spec.mnemonic,
            Op::Call { .. } => "call",
        }
    }

    /// How many results this produces. Two only for checked arithmetic; a
    /// call's count depends on the callee, which `Op` cannot see.
    pub fn result_count(self) -> (r: usize)
        ensures
            r == op_result_count(self),
    {
        match self {
            Op::AddOverflow | Op::SubOverflow | Op::MulOverflow => 2,
            Op::Store | Op::SStore | Op::TStore | Op::MemCopy => 0,
            Op::Opcode(spec) => spec.stack_out as usize,
            Op::Call { .. } => usize::MAX,
            _ => 1,
        }
    }
}

/// One instruction: an operation, its type, its repair, and its wiring.
#[derive(Debug, Clone, PartialEq, Eq)]
pub struct InstData {
    pub op: Op,
    /// The type of the first result. Checked arithmetic's second result is
    /// always `bool`.
    pub ty: Type,
    pub repair: Repair,
    pub args: Vec<Value>,
    pub results: Vec<Value>,
    /// Free text a dump prints as a trailing comment.
    pub note: Option<String>,
}

/// A branch target and the values it passes to that block's parameters.
#[derive(Debug, Clone, PartialEq, Eq)]
pub struct BlockCall {
    pub block: Block,
    pub args: Vec<Value>,
}

/// A copy of `items` as a vector.
pub fn values_to_vec(items: &[Value]) -> (r: Vec<Value>)
    ensures
        r@ == items@,
{
    let mut out: Vec<Value> = Vec::new();
    let mut i: usize = 0;
    while i < items.len()
        invariant
            i <= items@.len(),
            out@ == items@.subrange(0, i as int),
        decreases items@.len() - i,
    {
        out.push(items[i]);
        i += 1;
        assert(out@ =~= items@.subrange(0, i as int));
    }
    assert(items@.subrange(0, i as int) =~= items@);
    out
}

impl BlockCall {
    pub fn new(block: Block, args: &[Value]) -> (r: BlockCall)
        ensures
            r.block == block,
            r.args@ == args@,
    {
        BlockCall { block, args: values_to_vec(args) }
    }
}

/// How a block ends. Exactly one per block.
#[derive(Debug, Clone, PartialEq, Eq)]
pub enum Terminator {
    Jump(BlockCall),
    Brif { cond: Value, then: BlockCall, otherwise: BlockCall },
    /// Lowered as a linear `EQ` chain.
    Switch { on: Value, cases: Vec<(Immediate, BlockCall)>, default: BlockCall },
    /// Return from an internal call. Not an EVM halt.
    Return(Vec<Value>),
    Stop,
    ReturnData { ptr: Value, len: Value },
    Revert { ptr: Value, len: Value },
    SelfDestruct { beneficiary: Value },
    /// The `INVALID` opcode: an observable halt the program means to execute.
    Invalid,
    /// "Control never reaches here" — a claim, not an instruction. Kept
    /// distinct from [`Invalid`](Terminator::Invalid) because an optimizer
    /// may reason from this one and must not from that one.
    Unreachable,
}

/// The branch targets of a terminator, in order, the default last.
pub open spec fn targets_of(t: Terminator) -> Seq<BlockCall> {
    match t {
        Terminator::Jump(target) => seq![target],
        Terminator::Brif { then, otherwise, .. } => seq![then, otherwise],
        Terminator::Switch { cases, default, .. } => cases@.map_values(|c: (Immediate, BlockCall)| c.1).push(
            default,
        ),
        _ => seq![],
    }
}

/// The values a terminator reads directly, before its edge arguments.
pub open spec fn direct_args_of(t: Terminator) -> Seq<Value> {
    match t {
        Terminator::Brif { cond, .. } => seq![cond],
        Terminator::Switch { on, .. } => seq![on],
        Terminator::Return(values) => values@,
        Terminator::ReturnData { ptr, len } => seq![ptr, len],
        Terminator::Revert { ptr, len } => seq![ptr, len],
        Terminator::SelfDestruct { beneficiary } => seq![beneficiary],
        _ => seq![],
    }
}

/// The edge arguments of `calls`, flattened in order.
pub open spec fn edge_args(calls: Seq<BlockCall>) -> Seq<Value>
    decreases calls.len(),
{
    if calls.len() == 0 {
        seq![]
    } else {
        edge_args(calls.drop_last()) + calls.last().args@
    }
}

/// Whether a terminator ends the whole EVM frame.
pub open spec fn is_halt_of(t: Terminator) -> bool {
    match t {
        Terminator::Stop | Terminator::ReturnData { .. } | Terminator::Revert { .. }
        | Terminator::SelfDestruct { .. } | Terminator::Invalid | Terminator::Unreachable => true,
        _ => false,
    }
}

impl Terminator {
    /// The blocks this can transfer control to, with their edge arguments.
    pub fn block_calls(&self) -> (r: Vec<&BlockCall>)
        ensures
            r@.map_values(|c: &BlockCall| *c) == targets_of(*self),
    {
        match self {
            Terminator::Jump(target) => {
                let mut v: Vec<&BlockCall> = Vec::new();
                v.push(target);
                assert(v@.map_values(|c: &BlockCall| *c) =~= targets_of(*self));
                v
            },
            Terminator::Brif { then, otherwise, .. } => {
                let mut v: Vec<&BlockCall> = Vec::new();
                v.push(then);
                v.push(otherwise);
                assert(v@.map_values(|c: &BlockCall| *c) =~= targets_of(*self));
                v
            },
            Terminator::Switch { cases, default, .. } => {
                let mut v: Vec<&BlockCall> = Vec::new();
                let mut i: usize = 0;
                while i < cases.len()
                    invariant
                        i <= cases@.len(),
                        v@.map_values(|c: &BlockCall| *c) =~= cases@.subrange(0, i as int).map_values(
                            |c: (Immediate, BlockCall)| c.1,
                        ),
                    decreases cases@.len() - i,
                {
                    let ghost prev = v@.map_values(|c: &BlockCall| *c);
                    v.push(&cases[i].1);
                    assert(v@.map_values(|c: &BlockCall| *c) =~= prev.push(cases@[i as int].1));
                    assert(cases@.subrange(0, i + 1).map_values(|c: (Immediate, BlockCall)| c.1)
                        =~= cases@.subrange(0, i as int).map_values(|c: (Immediate, BlockCall)| c.1).push(
                        cases@[i as int].1,
                    ));
                    i += 1;
                }
                assert(cases@.subrange(0, i as int) =~= cases@);
                v.push(default);
                assert(v@.map_values(|c: &BlockCall| *c) =~= targets_of(*self));
                v
            },
            _ => {
                let v: Vec<&BlockCall> = Vec::new();
                assert(v@.map_values(|c: &BlockCall| *c) =~= targets_of(*self));
                v
            },
        }
    }

    /// Values this reads: its own operands, then every edge argument.
    pub fn args(&self) -> (r: Vec<Value>)
        ensures
            r@ == direct_args_of(*self) + edge_args(targets_of(*self)),
    {
        let mut args: Vec<Value> = match self {
            Terminator::Brif { cond, .. } => vec![*cond],
            Terminator::Switch { on, .. } => vec![*on],
            Terminator::Return(values) => values_to_vec(values.as_slice()),
            Terminator::ReturnData { ptr, len } => vec![*ptr, *len],
            Terminator::Revert { ptr, len } => vec![*ptr, *len],
            Terminator::SelfDestruct { beneficiary } => vec![*beneficiary],
            _ => Vec::new(),
        };
        assert(args@ =~= direct_args_of(*self));
        let calls = self.block_calls();
        let ghost targets = targets_of(*self);
        let mut i: usize = 0;
        while i < calls.len()
            invariant
                i <= calls@.len(),
                calls@.map_values(|c: &BlockCall| *c) == targets,
                args@ == direct_args_of(*self) + edge_args(targets.subrange(0, i as int)),
            decreases calls@.len() - i,
        {
            let call = calls[i];
            let ghost before = args@;
            let mut j: usize = 0;
            while j < call.args.len()
                invariant
                    j <= call.args@.len(),
                    args@ == before + call.args@.subrange(0, j as int),
                decreases call.args@.len() - j,
            {
                args.push(call.args[j]);
                j += 1;
                assert(args@ =~= before + call.args@.subrange(0, j as int));
            }
            assert(call.args@.subrange(0, j as int) =~= call.args@);
            assert(targets.subrange(0, i + 1).drop_last() =~= targets.subrange(0, i as int));
            assert(targets[i as int] == *call);
            i += 1;
            assert(args@ =~= direct_args_of(*self) + edge_args(targets.subrange(0, i as int)));
        }
        assert(targets.subrange(0, i as int) =~= targets);
        args
    }

    /// Whether this ends the whole EVM frame rather than returning to a
    /// caller.
    pub fn is_halt(&self) -> (r: bool)
        ensures
            r == is_halt_of(*self),
    {
        match self {
            Terminator::Stop | Terminator::ReturnData { .. } | Terminator::Revert { .. }
            | Terminator::SelfDestruct { .. } | Terminator::Invalid | Terminator::Unreachable => true,
            _ => false,
        }
    }
}

} // verus!
