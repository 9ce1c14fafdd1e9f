//! Building a function by hand.
//!
//! EIR has to be writable without a frontend, so that a lowering bug can be
//! bisected by feeding hand-written EIR through the same pipeline; this is
//! that surface, held to the same standard as the rest of the API.
//!
//! Errors are **sticky**, exactly as in the assembler: the first failure is
//! recorded, later emissions and terminators become no-ops, and
//! [`finish`](FunctionBuilder::finish) reports it. Construction needs no `?`
//! on every line, and nothing downstream can act on a bad function because
//! `finish` is the only way to get one out.
//!
//! After an error, the [`Value`]s handed back are placeholders: safe, since
//! `finish` will not return a `Function` holding them, but meaningless.

use vstd::prelude::*;

use super::entity::{Block, Func, Inst, Value};
use super::func::{max_handle, max_position, BlockData, BlockKind, Function, ValueData, ValueDef};
use super::inst::{default_repair_of, values_to_vec, BlockCall, Cmp, InstData, Op, Terminator};
use super::types::{convert_repair, types_to_vec, IntTy, Repair, Signature, Type};
use super::{IrError, IrFault};
use crate::assembler::{Immediate, ToImmediate};
use crate::isa::table::{lemma_assigned_bytes_are_listed, spec_by_byte};
use crate::isa::{by_mnemonic, form_of_byte, op_form, spec_by_mnemonic, OpCategory, OpForm, OpSpec};

verus! {

/// The abstract state of a [`FunctionBuilder`].
pub struct BuilderModel {
    /// The function built so far.
    pub body: Function,
    /// The block instructions go into; `None` after a terminator.
    pub cursor: Option<Block>,
    /// The instruction a note attaches to.
    pub last: Option<Inst>,
    /// The first failure, if there has been one.
    pub fault: Option<IrFault>,
}

impl BuilderModel {
    /// The body's arenas are consistent and `last` names an instruction.
    pub open spec fn wf(self) -> bool {
        &&& self.body.consistent()
        &&& (self.last matches Some(i) ==> (i.0 as int) < self.body.inst_arena().len())
    }

    /// Whenever an emission would look at the cursor's block, it exists.
    pub open spec fn ready(self) -> bool {
        self.fault is None && self.cursor is Some ==> (self.cursor.unwrap().0 as int)
            < self.body.block_arena().len()
    }

    /// Why an instruction or terminator cannot go in right now: no current
    /// block, or a current block that is already terminated.
    pub open spec fn blocked(self) -> Option<IrFault> {
        match self.cursor {
            None => Some(IrFault::NoCurrentBlock),
            Some(block) => if self.body.block_arena()[block.0 as int].term is Some {
                Some(IrFault::AlreadyTerminated { block })
            } else {
                None
            },
        }
    }

    /// An emission with `n` results fits the arenas' `u32` handles and the
    /// `u16` result positions.
    pub open spec fn room(self, n: int) -> bool {
        self.fault is None && self.blocked() is None ==> {
            &&& self.body.inst_arena().len() <= max_handle()
            &&& self.body.value_arena().len() + n <= max_handle() + 1
            &&& n <= max_position() + 1
        }
    }

    /// The state after a failure: the first fault is the one kept.
    pub open spec fn failing(self, fault: IrFault) -> BuilderModel {
        BuilderModel {
            fault: if self.fault is Some {
                self.fault
            } else {
                Some(fault)
            },
            ..self
        }
    }
}

/// The values handed back in place of `n` results that were not emitted.
pub open spec fn placeholders(n: nat) -> Seq<Value> {
    Seq::new(n, |k: int| Value(0))
}

/// `after` is `before` with one instruction appended to `block`: its
/// operation, type, repair and arguments as given, no note, and one fresh
/// value per result type, numbered on from the value arena's end.
pub open spec fn appends_inst(
    before: Function,
    after: Function,
    block: Block,
    op: Op,
    ty: Type,
    repair: Repair,
    args: Seq<Value>,
    types: Seq<Type>,
) -> bool {
    let n = before.inst_arena().len() as int;
    let nv = before.value_arena().len() as int;
    let inst = Inst(n as u32);
    let bb = before.block_arena();
    let ab = after.block_arena();
    &&& after.inst_arena().len() == n + 1
    &&& forall|i: int| 0 <= i < n ==> #[trigger] after.inst_arena()[i] == before.inst_arena()[i]
    &&& after.inst_arena()[n].op == op
    &&& after.inst_arena()[n].ty == ty
    &&& after.inst_arena()[n].repair == repair
    &&& after.inst_arena()[n].args@ == args
    &&& after.inst_arena()[n].note is None
    &&& after.inst_arena()[n].results@ == Seq::new(types.len(), |j: int| Value((nv + j) as u32))
    &&& after.value_arena() == before.value_arena() + Seq::new(
        types.len(),
        |j: int| ValueData { ty: types[j], def: ValueDef::Result { inst, index: j as u16 } },
    )
    &&& ab.len() == bb.len()
    &&& forall|b: int| 0 <= b < bb.len() && b != block.0 ==> #[trigger] ab[b] == bb[b]
    &&& ab[block.0 as int].insts@ == bb[block.0 as int].insts@.push(inst)
    &&& ab[block.0 as int].params == bb[block.0 as int].params
    &&& ab[block.0 as int].term == bb[block.0 as int].term
    &&& ab[block.0 as int].kind == bb[block.0 as int].kind
    &&& after.entry_block() == before.entry_block()
    &&& after.name_text() == before.name_text()
    &&& after.signature() == before.signature()
}

/// One emission: a no-op after a failure; a failure with no open block;
/// otherwise the instruction is appended to the current block, becomes the
/// one a note attaches to, and `results` are its result values.
pub open spec fn emitted(
    before: BuilderModel,
    after: BuilderModel,
    op: Op,
    ty: Type,
    repair: Repair,
    args: Seq<Value>,
    types: Seq<Type>,
    results: Seq<Value>,
) -> bool {
    if before.fault is Some {
        after == before && results == placeholders(types.len())
    } else if before.blocked() is Some {
        after == before.failing(before.blocked().unwrap()) && results == placeholders(types.len())
    } else {
        let inst = Inst(before.body.inst_arena().len() as u32);
        &&& appends_inst(before.body, after.body, before.cursor.unwrap(), op, ty, repair, args, types)
        &&& after.cursor == before.cursor
        &&& after.last == Some(inst)
        &&& after.fault is None
        &&& results == after.body.inst_arena()[inst.0 as int].results@
    }
}

/// `after` is `before` with `block`'s terminator set to one that `fits`, and
/// nothing else changed.
pub open spec fn sets_terminator(
    before: Function,
    after: Function,
    block: Block,
    fits: spec_fn(Terminator) -> bool,
) -> bool {
    let bb = before.block_arena();
    let ab = after.block_arena();
    &&& ab.len() == bb.len()
    &&& forall|b: int| 0 <= b < bb.len() && b != block.0 ==> #[trigger] ab[b] == bb[b]
    &&& ab[block.0 as int].params == bb[block.0 as int].params
    &&& ab[block.0 as int].insts == bb[block.0 as int].insts
    &&& ab[block.0 as int].kind == bb[block.0 as int].kind
    &&& ab[block.0 as int].term matches Some(t) && fits(t)
    &&& after.inst_arena() == before.inst_arena()
    &&& after.value_arena() == before.value_arena()
    &&& after.entry_block() == before.entry_block()
    &&& after.name_text() == before.name_text()
    &&& after.signature() == before.signature()
}

/// One terminator: a no-op after a failure; a failure with no open block;
/// otherwise the current block is ended and no block is open any more.
pub open spec fn ended(before: BuilderModel, after: BuilderModel, fits: spec_fn(Terminator) -> bool) -> bool {
    if before.fault is Some {
        after == before
    } else if before.blocked() is Some {
        after == before.failing(before.blocked().unwrap())
    } else {
        &&& sets_terminator(before.body, after.body, before.cursor.unwrap(), fits)
        &&& after.cursor is None
        &&& after.last is None
        &&& after.fault is None
    }
}

/// Why EIR refuses to expose an opcode raw, if it does: the stack-shaping
/// families belong to the stackifier, jumps to EIR's own control flow, and
/// halting opcodes to its terminators.
pub open spec fn reserved_reason(spec: OpSpec) -> Option<Seq<char>> {
    if form_of_byte(spec.byte) != OpForm::Simple || spec.category == OpCategory::StackManip {
        Some("the stackifier owns the operand stack"@)
    } else if spec.category == OpCategory::Control {
        Some("EIR owns control flow"@)
    } else if spec.terminating {
        Some("terminating opcodes are terminators"@)
    } else {
        None
    }
}

/// No opcode EIR accepts raw can shape the operand stack, jump, or halt: an
/// opcode of the table that [`reserved_reason`] lets through is none of
/// `POP`, `PUSH0`-`PUSH32`, `DUP1`-`DUP16`, `SWAP1`-`SWAP16`, `JUMP`,
/// `JUMPI`, `JUMPDEST`, `STOP`, `RETURN`, `REVERT`, `INVALID` and
/// `SELFDESTRUCT`.
pub proof fn lemma_raw_opcodes_leave_stack_and_flow_to_eir(b: u8)
    requires
        spec_by_byte(b) is Some,
        reserved_reason(spec_by_byte(b)->0) is None,
    ensures
        b != 0x50,
        !(0x5f <= b <= 0x9f),
        b != 0x56 && b != 0x57 && b != 0x5b,
        b != 0x00 && b != 0xf3 && b != 0xfd && b != 0xfe && b != 0xff,
{
    lemma_assigned_bytes_are_listed(b);
}

/// One raw-opcode emission: an unknown mnemonic or a reserved opcode is a
/// failure; otherwise the opcode is emitted with no repair.
pub open spec fn raw_emitted(
    before: BuilderModel,
    after: BuilderModel,
    mnemonic: Seq<char>,
    ty: Type,
    args: Seq<Value>,
    types: Seq<Type>,
    results: Seq<Value>,
) -> bool {
    match spec_by_mnemonic(mnemonic) {
        None => after == before.failing(IrFault::UnknownMnemonic(mnemonic)) && results == placeholders(
            types.len(),
        ),
        Some(spec) => match reserved_reason(spec) {
            Some(reason) => after == before.failing(
                IrFault::ReservedOpcode { mnemonic: spec.mnemonic, reason },
            ) && results == placeholders(types.len()),
            None => emitted(before, after, Op::Opcode(spec), ty, Repair::NoRepair, args, types, results),
        },
    }
}

/// Errors are sticky: once a builder has failed, no instruction, raw opcode
/// or terminator changes it, so the fault [`FunctionBuilder::finish`]
/// reports is the first one.
pub proof fn lemma_first_failure_is_kept(
    before: BuilderModel,
    after: BuilderModel,
    op: Op,
    ty: Type,
    repair: Repair,
    args: Seq<Value>,
    types: Seq<Type>,
    results: Seq<Value>,
    mnemonic: Seq<char>,
    fits: spec_fn(Terminator) -> bool,
)
    requires
        before.fault is Some,
    ensures
        emitted(before, after, op, ty, repair, args, types, results) ==> after == before,
        raw_emitted(before, after, mnemonic, ty, args, types, results) ==> after == before,
        ended(before, after, fits) ==> after == before,
{
}

/// The values handed back for `count` results that were not emitted.
fn placeholder(count: usize) -> (r: Vec<Value>)
    ensures
        r@ == placeholders(count as nat),
{
    let mut out: Vec<Value> = Vec::new();
    let mut k: usize = 0;
    while k < count
        invariant
            k <= count,
            out@ == placeholders(k as nat),
        decreases count - k,
    {
        out.push(Value(0));
        k += 1;
        assert(out@ =~= placeholders(k as nat));
    }
    out
}

/// Builds one [`Function`].
pub struct FunctionBuilder {
    func: Function,
    current: Option<Block>,
    last: Option<Inst>,
    error: Option<IrError>,
}

impl View for FunctionBuilder {
    type V = BuilderModel;

    closed spec fn view(&self) -> BuilderModel {
        BuilderModel {
            body: self.func,
            cursor: self.current,
            last: self.last,
            fault: match self.error {
                Some(e) => Some(e@),
                None => None,
            },
        }
    }
}

impl FunctionBuilder {
    /// Starts a function whose entry block already carries one parameter per
    /// signature parameter, and switches to it.
    pub fn new(name: &str, sig: Signature) -> (r: FunctionBuilder)
        requires
            sig.params@.len() <= max_position() + 1,
        ensures
            r@.wf(),
            r@.cursor == Some(Block(0)),
            r@.last is None,
            r@.fault is None,
            r@.body.name_text() == name@,
            r@.body.signature() == sig,
            r@.body.entry_block() == Block(0),
            r@.body.inst_arena().len() == 0,
            r@.body.block_arena().len() == 1,
            r@.body.value_arena() == Seq::new(
                sig.params@.len(),
                |k: int| ValueData { ty: sig.params@[k], def: ValueDef::Param { block: Block(0), index: k as u16 } },
            ),
            r@.body.block_arena()[0].params@ == Seq::new(sig.params@.len(), |k: int| Value(k as u32)),
            r@.body.block_arena()[0].insts@.len() == 0,
            r@.body.block_arena()[0].term is None,
            r@.body.block_arena()[0].kind == BlockKind::Normal,
    {
        let func = Function::new(name, sig);
        let entry = func.entry();
        FunctionBuilder { func, current: Some(entry), last: None, error: None }
    }

    /// The only way to obtain a [`Function`]: the body if nothing failed,
    /// else the first failure. A body handed out is consistent.
    pub fn finish(self) -> (r: Result<Function, IrError>)
        requires
            self@.wf(),
        ensures
            match r {
                Ok(f) => self@.fault is None && f == self@.body && f.consistent(),
                Err(e) => self@.fault == Some(e@),
            },
    {
        match self.error {
            Some(error) => Err(error),
            None => Ok(self.func),
        }
    }

    /// The function built so far.
    pub fn func(&self) -> (r: &Function)
        ensures
            *r == self@.body,
    {
        &self.func
    }

    pub fn entry(&self) -> (r: Block)
        ensures
            r == self@.body.entry_block(),
    {
        self.func.entry()
    }

    /// The `n`th parameter of the function. There must be one: the signature
    /// is right there, so asking for another is an indexing mistake.
    pub fn param(&self, n: usize) -> (r: Value)
        requires
            self@.wf(),
            n < self@.body.block_arena()[0].params@.len(),
        ensures
            r == self@.body.block_arena()[0].params@[n as int],
    {
        let entry = self.func.entry();
        self.block_param(entry, n)
    }

    /// The `n`th parameter of `block`, which must have one.
    pub fn block_param(&self, block: Block, n: usize) -> (r: Value)
        requires
            (block.0 as int) < self@.body.block_arena().len(),
            n < self@.body.block_arena()[block.0 as int].params@.len(),
        ensures
            r == self@.body.block_arena()[block.0 as int].params@[n as int],
    {
        let params = self.func.block_params(block);
        params[n]
    }

    /// A new, empty, unterminated block. The cursor does not move.
    pub fn create_block(&mut self) -> (r: Block)
        requires
            old(self)@.wf(),
            old(self)@.body.block_arena().len() <= max_handle(),
        ensures
            final(self)@.wf(),
            r == Block(old(self)@.body.block_arena().len() as u32),
            final(self)@.body.block_arena().len() == old(self)@.body.block_arena().len() + 1,
            forall|b: int|
                0 <= b < old(self)@.body.block_arena().len() ==> #[trigger] final(self)@.body.block_arena()[b]
                    == old(self)@.body.block_arena()[b],
            final(self)@.body.block_arena()[r.0 as int].params@.len() == 0,
            final(self)@.body.block_arena()[r.0 as int].insts@.len() == 0,
            final(self)@.body.block_arena()[r.0 as int].term is None,
            final(self)@.body.block_arena()[r.0 as int].kind == BlockKind::Normal,
            final(self)@.body.inst_arena() == old(self)@.body.inst_arena(),
            final(self)@.body.value_arena() == old(self)@.body.value_arena(),
            final(self)@.body.entry_block() == old(self)@.body.entry_block(),
            final(self)@.body.name_text() == old(self)@.body.name_text(),
            final(self)@.body.signature() == old(self)@.body.signature(),
            final(self)@.cursor == old(self)@.cursor,
            final(self)@.last == old(self)@.last,
            final(self)@.fault == old(self)@.fault,
    {
        self.func.create_block()
    }

    /// A block taking `params`: the merge point that replaces a phi node.
    pub fn create_block_with(&mut self, params: &[Type]) -> (r: Block)
        requires
            old(self)@.wf(),
            old(self)@.body.block_arena().len() <= max_handle(),
            old(self)@.body.value_arena().len() + params@.len() <= max_handle() + 1,
            params@.len() <= max_position() + 1,
        ensures
            final(self)@.wf(),
            r == Block(old(self)@.body.block_arena().len() as u32),
            final(self)@.body.block_arena().len() == old(self)@.body.block_arena().len() + 1,
            forall|b: int|
                0 <= b < old(self)@.body.block_arena().len() ==> #[trigger] final(self)@.body.block_arena()[b]
                    == old(self)@.body.block_arena()[b],
            final(self)@.body.block_arena()[r.0 as int].params@ == Seq::new(
                params@.len(),
                |k: int| Value((old(self)@.body.value_arena().len() + k) as u32),
            ),
            final(self)@.body.block_arena()[r.0 as int].insts@.len() == 0,
            final(self)@.body.block_arena()[r.0 as int].term is None,
            final(self)@.body.block_arena()[r.0 as int].kind == BlockKind::Normal,
            final(self)@.body.value_arena() == old(self)@.body.value_arena() + Seq::new(
                params@.len(),
                |k: int| ValueData { ty: params@[k], def: ValueDef::Param { block: r, index: k as u16 } },
            ),
            final(self)@.body.inst_arena() == old(self)@.body.inst_arena(),
            final(self)@.body.entry_block() == old(self)@.body.entry_block(),
            final(self)@.body.name_text() == old(self)@.body.name_text(),
            final(self)@.body.signature() == old(self)@.body.signature(),
            final(self)@.cursor == old(self)@.cursor,
            final(self)@.last == old(self)@.last,
            final(self)@.fault == old(self)@.fault,
    {
        let block = self.func.create_block();
        let ghost start = self@.body;
        let mut k: usize = 0;
        while k < params.len()
            invariant
                k <= params@.len(),
                block == Block(old(self)@.body.block_arena().len() as u32),
                old(self)@.body.value_arena().len() + params@.len() <= max_handle() + 1,
                params@.len() <= max_position() + 1,
                self@.wf(),
                self@.cursor == old(self)@.cursor,
                self@.last == old(self)@.last,
                self@.fault == old(self)@.fault,
                self@.body.block_arena().len() == old(self)@.body.block_arena().len() + 1,
                forall|b: int|
                    0 <= b < old(self)@.body.block_arena().len() ==> #[trigger] self@.body.block_arena()[b]
                        == old(self)@.body.block_arena()[b],
                self@.body.block_arena()[block.0 as int].params@ == Seq::new(
                    k as nat,
                    |j: int| Value((old(self)@.body.value_arena().len() + j) as u32),
                ),
                self@.body.block_arena()[block.0 as int].insts@.len() == 0,
                self@.body.block_arena()[block.0 as int].term is None,
                self@.body.block_arena()[block.0 as int].kind == BlockKind::Normal,
                self@.body.value_arena() == old(self)@.body.value_arena() + Seq::new(
                    k as nat,
                    |j: int| ValueData { ty: params@[j], def: ValueDef::Param { block, index: j as u16 } },
                ),
                self@.body.inst_arena() == old(self)@.body.inst_arena(),
                self@.body.entry_block() == old(self)@.body.entry_block(),
                self@.body.name_text() == old(self)@.body.name_text(),
                self@.body.signature() == old(self)@.body.signature(),
            decreases params@.len() - k,
        {
            self.func.append_param(block, params[k]);
            k += 1;
            assert(self@.body.value_arena() =~= old(self)@.body.value_arena() + Seq::new(
                k as nat,
                |j: int| ValueData { ty: params@[j], def: ValueDef::Param { block, index: j as u16 } },
            ));
            assert(self@.body.block_arena()[block.0 as int].params@ =~= Seq::new(
                k as nat,
                |j: int| Value((old(self)@.body.value_arena().len() + j) as u32),
            ));
        }
        block
    }

    /// Mark what `block` is for.
    pub fn set_block_kind(&mut self, block: Block, kind: BlockKind) -> (r: &mut Self)
        requires
            old(self)@.wf(),
            (block.0 as int) < old(self)@.body.block_arena().len(),
        ensures
            (*r)@.wf(),
            (*r)@.body.block_arena() == old(self)@.body.block_arena().update(
                block.0 as int,
                BlockData { kind, ..old(self)@.body.block_arena()[block.0 as int] },
            ),
            (*r)@.body.inst_arena() == old(self)@.body.inst_arena(),
            (*r)@.body.value_arena() == old(self)@.body.value_arena(),
            (*r)@.body.entry_block() == old(self)@.body.entry_block(),
            (*r)@.body.name_text() == old(self)@.body.name_text(),
            (*r)@.body.signature() == old(self)@.body.signature(),
            (*r)@.cursor == old(self)@.cursor,
            (*r)@.last == old(self)@.last,
            (*r)@.fault == old(self)@.fault,
            *final(self) == *final(r),
    {
        self.func.set_block_kind(block, kind);
        self
    }

    /// Direct subsequent instructions into `block`.
    pub fn switch_to(&mut self, block: Block) -> (r: &mut Self)
        ensures
            (*r)@ == (BuilderModel { cursor: Some(block), last: None, ..old(self)@ }),
            *final(self) == *final(r),
    {
        self.current = Some(block);
        self.last = None;
        self
    }

    /// Attach a comment to the instruction just emitted; with none since the
    /// last `switch_to` or terminator, nothing happens.
    pub fn note(&mut self, text: &str) -> (r: &mut Self)
        requires
            old(self)@.wf(),
        ensures
            (*r)@.wf(),
            (*r)@.cursor == old(self)@.cursor,
            (*r)@.last == old(self)@.last,
            (*r)@.fault == old(self)@.fault,
            (*r)@.body.block_arena() == old(self)@.body.block_arena(),
            (*r)@.body.value_arena() == old(self)@.body.value_arena(),
            (*r)@.body.entry_block() == old(self)@.body.entry_block(),
            (*r)@.body.name_text() == old(self)@.body.name_text(),
            (*r)@.body.signature() == old(self)@.body.signature(),
            match old(self)@.last {
                None => (*r)@.body.inst_arena() == old(self)@.body.inst_arena(),
                Some(inst) => {
                    let before = old(self)@.body.inst_arena();
                    let after = (*r)@.body.inst_arena();
                    &&& after.len() == before.len()
                    &&& forall|i: int| 0 <= i < before.len() && i != inst.0 ==> #[trigger] after[i] == before[i]
                    &&& after[inst.0 as int].note matches Some(s) && s@ == text@
                    &&& after[inst.0 as int].op == before[inst.0 as int].op
                    &&& after[inst.0 as int].ty == before[inst.0 as int].ty
                    &&& after[inst.0 as int].repair == before[inst.0 as int].repair
                    &&& after[inst.0 as int].args == before[inst.0 as int].args
                    &&& after[inst.0 as int].results == before[inst.0 as int].results
                },
            },
            *final(self) == *final(r),
    {
        if let Some(inst) = self.last {
            self.func.set_note(inst, text);
        }
        self
    }

    /// Emit an instruction. One method per operation; see [`InsBuilder`].
    pub fn ins(&mut self) -> (r: InsBuilder<'_>)
        ensures
            *r.builder == *old(self),
            *final(self) == *final(r.builder),
    {
        InsBuilder { builder: self }
    }

    // --- terminators ---

    pub fn jump(&mut self, to: Block, args: &[Value])
        requires
            old(self)@.wf(),
            old(self)@.ready(),
        ensures
            final(self)@.wf(),
            ended(
                old(self)@,
                final(self)@,
                |t: Terminator| t matches Terminator::Jump(c) && c.block == to && c.args@ == args@,
            ),
    {
        let term = Terminator::Jump(BlockCall::new(to, args));
        self.terminate(term);
    }

    pub fn brif(&mut self, cond: Value, then: Block, then_args: &[Value], otherwise: Block, else_args: &[Value])
        requires
            old(self)@.wf(),
            old(self)@.ready(),
        ensures
            final(self)@.wf(),
            ended(
                old(self)@,
                final(self)@,
                |t: Terminator|
                    t matches Terminator::Brif { cond: c, then: tc, otherwise: oc } && c == cond && tc.block
                        == then && tc.args@ == then_args@ && oc.block == otherwise && oc.args@ == else_args@,
            ),
    {
        let term = Terminator::Brif {
            cond,
            then: BlockCall::new(then, then_args),
            otherwise: BlockCall::new(otherwise, else_args),
        };
        self.terminate(term);
    }

    /// Branch on `on` equalling one of the case values, in order, else to
    /// `default`. No edge passes arguments.
    pub fn switch(&mut self, on: Value, cases: &[(Immediate, Block)], default: Block)
        requires
            old(self)@.wf(),
            old(self)@.ready(),
        ensures
            final(self)@.wf(),
            ended(
                old(self)@,
                final(self)@,
                |t: Terminator|
                    t matches Terminator::Switch { on: o, cases: cs, default: d } && o == on && d.block == default
                        && d.args@.len() == 0 && cs@.len() == cases@.len() && forall|k: int|
                        0 <= k < cases@.len() ==> (#[trigger] cs@[k]).0 == cases@[k].0 && cs@[k].1.block
                            == cases@[k].1 && cs@[k].1.args@.len() == 0,
            ),
    {
        let mut calls: Vec<(Immediate, BlockCall)> = Vec::new();
        let mut k: usize = 0;
        while k < cases.len()
            invariant
                k <= cases@.len(),
                calls@.len() == k,
                forall|j: int|
                    0 <= j < k ==> (#[trigger] calls@[j]).0 == cases@[j].0 && calls@[j].1.block == cases@[j].1
                        && calls@[j].1.args@.len() == 0,
            decreases cases@.len() - k,
        {
            let (value, block) = cases[k];
            calls.push((value, BlockCall::new(block, &[])));
            k += 1;
        }
        let term = Terminator::Switch { on, cases: calls, default: BlockCall::new(default, &[]) };
        self.terminate(term);
    }

    pub fn ret(&mut self, values: &[Value])
        requires
            old(self)@.wf(),
            old(self)@.ready(),
        ensures
            final(self)@.wf(),
            ended(old(self)@, final(self)@, |t: Terminator| t matches Terminator::Return(vs) && vs@ == values@),
    {
        let term = Terminator::Return(values_to_vec(values));
        self.terminate(term);
    }

    pub fn stop(&mut self)
        requires
            old(self)@.wf(),
            old(self)@.ready(),
        ensures
            final(self)@.wf(),
            ended(old(self)@, final(self)@, |t: Terminator| t == Terminator::Stop),
    {
        self.terminate(Terminator::Stop);
    }

    pub fn return_data(&mut self, ptr: Value, len: Value)
        requires
            old(self)@.wf(),
            old(self)@.ready(),
        ensures
            final(self)@.wf(),
            ended(old(self)@, final(self)@, |t: Terminator| t == Terminator::ReturnData { ptr, len }),
    {
        self.terminate(Terminator::ReturnData { ptr, len });
    }

    pub fn revert(&mut self, ptr: Value, len: Value)
        requires
            old(self)@.wf(),
            old(self)@.ready(),
        ensures
            final(self)@.wf(),
            ended(old(self)@, final(self)@, |t: Terminator| t == Terminator::Revert { ptr, len }),
    {
        self.terminate(Terminator::Revert { ptr, len });
    }

    pub fn selfdestruct(&mut self, beneficiary: Value)
        requires
            old(self)@.wf(),
            old(self)@.ready(),
        ensures
            final(self)@.wf(),
            ended(old(self)@, final(self)@, |t: Terminator| t == Terminator::SelfDestruct { beneficiary }),
    {
        self.terminate(Terminator::SelfDestruct { beneficiary });
    }

    pub fn invalid(&mut self)
        requires
            old(self)@.wf(),
            old(self)@.ready(),
        ensures
            final(self)@.wf(),
            ended(old(self)@, final(self)@, |t: Terminator| t == Terminator::Invalid),
    {
        self.terminate(Terminator::Invalid);
    }

    pub fn unreachable(&mut self)
        requires
            old(self)@.wf(),
            old(self)@.ready(),
        ensures
            final(self)@.wf(),
            ended(old(self)@, final(self)@, |t: Terminator| t == Terminator::Unreachable),
    {
        self.terminate(Terminator::Unreachable);
    }

    // --- internals ---

    fn fail(&mut self, error: IrError)
        ensures
            final(self)@ == old(self)@.failing(error@),
    {
        if self.error.is_none() {
            self.error = Some(error);
        }
    }

    fn terminate(&mut self, term: Terminator)
        requires
            old(self)@.wf(),
            old(self)@.ready(),
        ensures
            final(self)@.wf(),
            ended(old(self)@, final(self)@, |t: Terminator| t == term),
    {
        if self.error.is_some() {
            return;
        }
        let block = match self.current {
            Some(b) => b,
            None => {
                self.fail(IrError::NoCurrentBlock);
                return;
            },
        };
        if self.func.terminator(block).is_some() {
            self.fail(IrError::AlreadyTerminated { block });
            return;
        }
        self.func.set_terminator(block, term);
        // A terminated block takes no more instructions: an explicit
        // `switch_to` has to come next.
        self.current = None;
        self.last = None;
    }

    /// Append an instruction, or record the first reason it could not be.
    fn emit(&mut self, op: Op, ty: Type, repair: Repair, args: &[Value], result_types: &[Type]) -> (r: Vec<Value>)
        requires
            old(self)@.wf(),
            old(self)@.ready(),
            old(self)@.room(result_types@.len() as int),
        ensures
            final(self)@.wf(),
            emitted(old(self)@, final(self)@, op, ty, repair, args@, result_types@, r@),
    {
        if self.error.is_some() {
            return placeholder(result_types.len());
        }
        let block = match self.current {
            Some(b) => b,
            None => {
                self.fail(IrError::NoCurrentBlock);
                return placeholder(result_types.len());
            },
        };
        if self.func.terminator(block).is_some() {
            self.fail(IrError::AlreadyTerminated { block });
            return placeholder(result_types.len());
        }
        let data = InstData { op, ty, repair, args: values_to_vec(args), results: Vec::new(), note: None };
        let inst = self.func.append_inst(block, data, result_types);
        self.last = Some(inst);
        values_to_vec(self.func.results(inst))
    }
}

/// One method per operation. Obtained from [`FunctionBuilder::ins`].
///
/// Every method fills in the [`Repair`] itself, from the operation and the
/// result type: a frontend never writes one, so the step that repairs a
/// result to its Rust width cannot be forgotten.
pub struct InsBuilder<'a> {
    pub builder: &'a mut FunctionBuilder,
}

impl<'a> InsBuilder<'a> {
    /// The builder's state when this emission starts.
    pub open spec fn start(&self) -> BuilderModel {
        (*self.builder)@
    }

    /// What an emission with `n` results needs of the builder.
    pub open spec fn can_emit(&self, n: int) -> bool {
        &&& self.start().wf()
        &&& self.start().ready()
        &&& self.start().room(n)
    }

    // --- constants ---

    /// A literal of type `ty`.
    pub fn iconst<T: ToImmediate>(self, ty: Type, value: T) -> (r: Value)
        requires
            self.can_emit(1),
        ensures
            (*final(self.builder))@.wf(),
            exists|k: Immediate|
                k@ == value.word() && emitted(
                    self.start(),
                    (*final(self.builder))@,
                    Op::Const(k),
                    ty,
                    Repair::NoRepair,
                    seq![],
                    seq![ty],
                    seq![r],
                ),
    {
        let k = value.to_immediate();
        let args: [Value; 0] = [];
        assert(args@ =~= Seq::<Value>::empty());
        self.unary_op(Op::Const(k), ty, &args)
    }

    // --- arithmetic ---

    pub fn add(self, ty: Type, a: Value, b: Value) -> (r: Value)
        requires
            self.can_emit(1),
        ensures
            (*final(self.builder))@.wf(),
            emitted(self.start(), (*final(self.builder))@, Op::Add, ty, default_repair_of(Op::Add, ty), seq![a, b], seq![ty], seq![r]),
    {
        self.unary_op(Op::Add, ty, &[a, b])
    }

    pub fn sub(self, ty: Type, a: Value, b: Value) -> (r: Value)
        requires
            self.can_emit(1),
        ensures
            (*final(self.builder))@.wf(),
            emitted(self.start(), (*final(self.builder))@, Op::Sub, ty, default_repair_of(Op::Sub, ty), seq![a, b], seq![ty], seq![r]),
    {
        self.unary_op(Op::Sub, ty, &[a, b])
    }

    pub fn mul(self, ty: Type, a: Value, b: Value) -> (r: Value)
        requires
            self.can_emit(1),
        ensures
            (*final(self.builder))@.wf(),
            emitted(self.start(), (*final(self.builder))@, Op::Mul, ty, default_repair_of(Op::Mul, ty), seq![a, b], seq![ty], seq![r]),
    {
        self.unary_op(Op::Mul, ty, &[a, b])
    }

    /// EVM semantics: dividing by zero yields zero. Rust's panic is a branch
    /// the caller emits.
    pub fn div(self, ty: Type, a: Value, b: Value) -> (r: Value)
        requires
            self.can_emit(1),
        ensures
            (*final(self.builder))@.wf(),
            emitted(self.start(), (*final(self.builder))@, Op::Div, ty, default_repair_of(Op::Div, ty), seq![a, b], seq![ty], seq![r]),
    {
        self.unary_op(Op::Div, ty, &[a, b])
    }

    pub fn rem(self, ty: Type, a: Value, b: Value) -> (r: Value)
        requires
            self.can_emit(1),
        ensures
            (*final(self.builder))@.wf(),
            emitted(self.start(), (*final(self.builder))@, Op::Rem, ty, default_repair_of(Op::Rem, ty), seq![a, b], seq![ty], seq![r]),
    {
        self.unary_op(Op::Rem, ty, &[a, b])
    }

    pub fn exp(self, ty: Type, base: Value, exponent: Value) -> (r: Value)
        requires
            self.can_emit(1),
        ensures
            (*final(self.builder))@.wf(),
            emitted(self.start(), (*final(self.builder))@, Op::Exp, ty, default_repair_of(Op::Exp, ty), seq![base, exponent], seq![ty], seq![r]),
    {
        self.unary_op(Op::Exp, ty, &[base, exponent])
    }

    // --- checked arithmetic: (result, overflow) ---

    pub fn add_overflow(self, ty: Type, a: Value, b: Value) -> (r: (Value, Value))
        requires
            self.can_emit(2),
        ensures
            (*final(self.builder))@.wf(),
            emitted(
                self.start(),
                (*final(self.builder))@,
                Op::AddOverflow,
                ty,
                default_repair_of(Op::AddOverflow, ty),
                seq![a, b],
                seq![ty, Type::Int(IntTy { bits: 1, signed: false })],
                seq![r.0, r.1],
            ),
    {
        self.checked(Op::AddOverflow, ty, a, b)
    }

    pub fn sub_overflow(self, ty: Type, a: Value, b: Value) -> (r: (Value, Value))
        requires
            self.can_emit(2),
        ensures
            (*final(self.builder))@.wf(),
            emitted(
                self.start(),
                (*final(self.builder))@,
                Op::SubOverflow,
                ty,
                default_repair_of(Op::SubOverflow, ty),
                seq![a, b],
                seq![ty, Type::Int(IntTy { bits: 1, signed: false })],
                seq![r.0, r.1],
            ),
    {
        self.checked(Op::SubOverflow, ty, a, b)
    }

    pub fn mul_overflow(self, ty: Type, a: Value, b: Value) -> (r: (Value, Value))
        requires
            self.can_emit(2),
        ensures
            (*final(self.builder))@.wf(),
            emitted(
                self.start(),
                (*final(self.builder))@,
                Op::MulOverflow,
                ty,
                default_repair_of(Op::MulOverflow, ty),
                seq![a, b],
                seq![ty, Type::Int(IntTy { bits: 1, signed: false })],
                seq![r.0, r.1],
            ),
    {
        self.checked(Op::MulOverflow, ty, a, b)
    }

    // --- bitwise ---

    pub fn and(self, ty: Type, a: Value, b: Value) -> (r: Value)
        requires
            self.can_emit(1),
        ensures
            (*final(self.builder))@.wf(),
            emitted(self.start(), (*final(self.builder))@, Op::And, ty, default_repair_of(Op::And, ty), seq![a, b], seq![ty], seq![r]),
    {
        self.unary_op(Op::And, ty, &[a, b])
    }

    pub fn or(self, ty: Type, a: Value, b: Value) -> (r: Value)
        requires
            self.can_emit(1),
        ensures
            (*final(self.builder))@.wf(),
            emitted(self.start(), (*final(self.builder))@, Op::Or, ty, default_repair_of(Op::Or, ty), seq![a, b], seq![ty], seq![r]),
    {
        self.unary_op(Op::Or, ty, &[a, b])
    }

    pub fn xor(self, ty: Type, a: Value, b: Value) -> (r: Value)
        requires
            self.can_emit(1),
        ensures
            (*final(self.builder))@.wf(),
            emitted(self.start(), (*final(self.builder))@, Op::Xor, ty, default_repair_of(Op::Xor, ty), seq![a, b], seq![ty], seq![r]),
    {
        self.unary_op(Op::Xor, ty, &[a, b])
    }

    pub fn not(self, ty: Type, value: Value) -> (r: Value)
        requires
            self.can_emit(1),
        ensures
            (*final(self.builder))@.wf(),
            emitted(self.start(), (*final(self.builder))@, Op::Not, ty, default_repair_of(Op::Not, ty), seq![value], seq![ty], seq![r]),
    {
        let args = [value];
        assert(args@ =~= seq![value]);
        self.unary_op(Op::Not, ty, &args)
    }

    /// `value` then `shift`: reading order, not the EVM's.
    pub fn shl(self, ty: Type, value: Value, shift: Value) -> (r: Value)
        requires
            self.can_emit(1),
        ensures
            (*final(self.builder))@.wf(),
            emitted(self.start(), (*final(self.builder))@, Op::Shl, ty, default_repair_of(Op::Shl, ty), seq![value, shift], seq![ty], seq![r]),
    {
        self.unary_op(Op::Shl, ty, &[value, shift])
    }

    pub fn shr(self, ty: Type, value: Value, shift: Value) -> (r: Value)
        requires
            self.can_emit(1),
        ensures
            (*final(self.builder))@.wf(),
            emitted(self.start(), (*final(self.builder))@, Op::Shr, ty, default_repair_of(Op::Shr, ty), seq![value, shift], seq![ty], seq![r]),
    {
        self.unary_op(Op::Shr, ty, &[value, shift])
    }

    pub fn sar(self, ty: Type, value: Value, shift: Value) -> (r: Value)
        requires
            self.can_emit(1),
        ensures
            (*final(self.builder))@.wf(),
            emitted(self.start(), (*final(self.builder))@, Op::Sar, ty, default_repair_of(Op::Sar, ty), seq![value, shift], seq![ty], seq![r]),
    {
        self.unary_op(Op::Sar, ty, &[value, shift])
    }

    // --- casts and comparison ---

    /// Truncate, extend, or reinterpret. The repair comes from
    /// [`Repair::for_convert`], so the direction cannot be got wrong.
    pub fn convert(self, to: Type, value: Value) -> (r: Value)
        requires
            self.can_emit(1),
            (value.0 as int) < self.start().body.value_arena().len(),
        ensures
            (*final(self.builder))@.wf(),
            emitted(
                self.start(),
                (*final(self.builder))@,
                Op::Convert,
                to,
                convert_repair(self.start().body.value_arena()[value.0 as int].ty, to),
                seq![value],
                seq![to],
                seq![r],
            ),
    {
        let from = self.builder.func.value_type(value);
        let repair = Repair::for_convert(from, to);
        let types = [to];
        assert(types@ =~= seq![to]);
        let args = [value];
        assert(args@ =~= seq![value]);
        let results = self.builder.emit(Op::Convert, to, repair, &args, &types);
        assert(results@.len() == 1);
        let r = results[0];
        assert(results@ =~= seq![r]);
        r
    }

    /// Signedness comes from the operands' type; the result is a `bool`.
    pub fn icmp(self, cmp: Cmp, a: Value, b: Value) -> (r: Value)
        requires
            self.can_emit(1),
        ensures
            (*final(self.builder))@.wf(),
            emitted(
                self.start(),
                (*final(self.builder))@,
                Op::Icmp(cmp),
                Type::Int(IntTy { bits: 1, signed: false }),
                Repair::NoRepair,
                seq![a, b],
                seq![Type::Int(IntTy { bits: 1, signed: false })],
                seq![r],
            ),
    {
        self.unary_op(Op::Icmp(cmp), Type::bool(), &[a, b])
    }

    pub fn select(self, ty: Type, cond: Value, then: Value, otherwise: Value) -> (r: Value)
        requires
            self.can_emit(1),
        ensures
            (*final(self.builder))@.wf(),
            emitted(
                self.start(),
                (*final(self.builder))@,
                Op::Select,
                ty,
                Repair::NoRepair,
                seq![cond, then, otherwise],
                seq![ty],
                seq![r],
            ),
    {
        self.unary_op(Op::Select, ty, &[cond, then, otherwise])
    }

    // --- memory ---

    pub fn alloca(self, bytes: u32) -> (r: Value)
        requires
            self.can_emit(1),
        ensures
            (*final(self.builder))@.wf(),
            emitted(
                self.start(),
                (*final(self.builder))@,
                Op::Alloca { bytes },
                Type::Ptr,
                Repair::NoRepair,
                seq![],
                seq![Type::Ptr],
                seq![r],
            ),
    {
        let args: [Value; 0] = [];
        assert(args@ =~= Seq::<Value>::empty());
        self.unary_op(Op::Alloca { bytes }, Type::Ptr, &args)
    }

    pub fn load(self, ty: Type, ptr: Value) -> (r: Value)
        requires
            self.can_emit(1),
        ensures
            (*final(self.builder))@.wf(),
            emitted(self.start(), (*final(self.builder))@, Op::Load, ty, default_repair_of(Op::Load, ty), seq![ptr], seq![ty], seq![r]),
    {
        let args = [ptr];
        assert(args@ =~= seq![ptr]);
        self.unary_op(Op::Load, ty, &args)
    }

    pub fn store(self, ptr: Value, value: Value)
        requires
            self.can_emit(0),
            (value.0 as int) < self.start().body.value_arena().len(),
        ensures
            (*final(self.builder))@.wf(),
            emitted(
                self.start(),
                (*final(self.builder))@,
                Op::Store,
                self.start().body.value_arena()[value.0 as int].ty,
                Repair::NoRepair,
                seq![ptr, value],
                seq![],
                seq![],
            ),
    {
        let ty = self.builder.func.value_type(value);
        let none: [Type; 0] = [];
        assert(none@ =~= Seq::<Type>::empty());
        let results = self.builder.emit(Op::Store, ty, Repair::NoRepair, &[ptr, value], &none);
        assert(results@ =~= Seq::<Value>::empty());
    }

    pub fn memcopy(self, dst: Value, src: Value, len: Value)
        requires
            self.can_emit(0),
        ensures
            (*final(self.builder))@.wf(),
            emitted(
                self.start(),
                (*final(self.builder))@,
                Op::MemCopy,
                Type::Ptr,
                Repair::NoRepair,
                seq![dst, src, len],
                seq![],
                seq![],
            ),
    {
        let none: [Type; 0] = [];
        assert(none@ =~= Seq::<Type>::empty());
        let results = self.builder.emit(Op::MemCopy, Type::Ptr, Repair::NoRepair, &[dst, src, len], &none);
        assert(results@ =~= Seq::<Value>::empty());
    }

    // --- storage ---

    pub fn sload(self, ty: Type, key: Value) -> (r: Value)
        requires
            self.can_emit(1),
        ensures
            (*final(self.builder))@.wf(),
            emitted(self.start(), (*final(self.builder))@, Op::SLoad, ty, default_repair_of(Op::SLoad, ty), seq![key], seq![ty], seq![r]),
    {
        let args = [key];
        assert(args@ =~= seq![key]);
        self.unary_op(Op::SLoad, ty, &args)
    }

    pub fn sstore(self, key: Value, value: Value)
        requires
            self.can_emit(0),
            (value.0 as int) < self.start().body.value_arena().len(),
        ensures
            (*final(self.builder))@.wf(),
            emitted(
                self.start(),
                (*final(self.builder))@,
                Op::SStore,
                self.start().body.value_arena()[value.0 as int].ty,
                Repair::NoRepair,
                seq![key, value],
                seq![],
                seq![],
            ),
    {
        let ty = self.builder.func.value_type(value);
        let none: [Type; 0] = [];
        assert(none@ =~= Seq::<Type>::empty());
        let results = self.builder.emit(Op::SStore, ty, Repair::NoRepair, &[key, value], &none);
        assert(results@ =~= Seq::<Value>::empty());
    }

    pub fn tload(self, ty: Type, key: Value) -> (r: Value)
        requires
            self.can_emit(1),
        ensures
            (*final(self.builder))@.wf(),
            emitted(self.start(), (*final(self.builder))@, Op::TLoad, ty, default_repair_of(Op::TLoad, ty), seq![key], seq![ty], seq![r]),
    {
        let args = [key];
        assert(args@ =~= seq![key]);
        self.unary_op(Op::TLoad, ty, &args)
    }

    pub fn tstore(self, key: Value, value: Value)
        requires
            self.can_emit(0),
            (value.0 as int) < self.start().body.value_arena().len(),
        ensures
            (*final(self.builder))@.wf(),
            emitted(
                self.start(),
                (*final(self.builder))@,
                Op::TStore,
                self.start().body.value_arena()[value.0 as int].ty,
                Repair::NoRepair,
                seq![key, value],
                seq![],
                seq![],
            ),
    {
        let ty = self.builder.func.value_type(value);
        let none: [Type; 0] = [];
        assert(none@ =~= Seq::<Type>::empty());
        let results = self.builder.emit(Op::TStore, ty, Repair::NoRepair, &[key, value], &none);
        assert(results@ =~= Seq::<Value>::empty());
    }

    // --- the escape hatch and calls ---

    /// Inline a raw EVM opcode, producing one result.
    ///
    /// Rejects the families EIR reserves to itself: `PUSH`/`DUP`/`SWAP`/`POP`
    /// (the stackifier owns the operand stack), `JUMP`/`JUMPI`/`JUMPDEST`/`PC`
    /// (EIR owns control flow), and the halting opcodes (those are
    /// [`Terminator`]s); and a mnemonic the table has never heard of. Fork
    /// gating is the assembler's job and happens at emission.
    pub fn opcode(self, mnemonic: &str, ty: Type, args: &[Value]) -> (r: Value)
        requires
            self.can_emit(1),
        ensures
            (*final(self.builder))@.wf(),
            raw_emitted(self.start(), (*final(self.builder))@, mnemonic@, ty, args@, seq![ty], seq![r]),
    {
        assert(Seq::new(1, |k: int| ty) =~= seq![ty]);
        match self.raw_opcode(mnemonic, ty, args, 1) {
            Some(results) => {
                assert(results@.len() == 1);
                let r = results[0];
                assert(results@ =~= seq![r]);
                r
            },
            None => {
                assert(placeholders(1) =~= seq![Value(0)]);
                Value::new(0)
            },
        }
    }

    /// A raw opcode with no result: `LOG1`, `MSTORE8`, and the like.
    pub fn opcode_void(self, mnemonic: &str, args: &[Value])
        requires
            self.can_emit(0),
        ensures
            (*final(self.builder))@.wf(),
            raw_emitted(
                self.start(),
                (*final(self.builder))@,
                mnemonic@,
                Type::Int(IntTy { bits: 256, signed: false }),
                args@,
                seq![],
                seq![],
            ),
    {
        let r = self.raw_opcode(mnemonic, Type::uint(256), args, 0);
        proof {
            assert(Seq::new(0, |k: int| Type::Int(IntTy { bits: 256, signed: false })) =~= Seq::<Type>::empty());
            assert(placeholders(0) =~= Seq::<Value>::empty());
            if let Some(v) = r {
                assert(v@ =~= Seq::<Value>::empty());
            }
        }
    }

    /// An internal call. `sig` is the callee's, so the builder does not need
    /// the module to know how many results to mint.
    pub fn call(self, callee: Func, sig: &Signature, args: &[Value]) -> (r: Vec<Value>)
        requires
            self.can_emit(sig.returns@.len() as int),
        ensures
            (*final(self.builder))@.wf(),
            emitted(
                self.start(),
                (*final(self.builder))@,
                Op::Call { callee },
                if sig.returns@.len() > 0 {
                    sig.returns@[0]
                } else {
                    Type::Int(IntTy { bits: 256, signed: false })
                },
                Repair::NoRepair,
                args@,
                sig.returns@,
                r@,
            ),
    {
        let ty = if sig.returns.len() > 0 {
            sig.returns[0]
        } else {
            Type::uint(256)
        };
        self.builder.emit(Op::Call { callee }, ty, Repair::NoRepair, args, sig.returns.as_slice())
    }

    // --- internals ---

    fn raw_opcode(self, mnemonic: &str, ty: Type, args: &[Value], results: usize) -> (r: Option<Vec<Value>>)
        requires
            self.can_emit(results as int),
        ensures
            (*final(self.builder))@.wf(),
            match r {
                Some(v) => raw_emitted(
                    self.start(),
                    (*final(self.builder))@,
                    mnemonic@,
                    ty,
                    args@,
                    Seq::new(results as nat, |k: int| ty),
                    v@,
                ),
                None => raw_emitted(
                    self.start(),
                    (*final(self.builder))@,
                    mnemonic@,
                    ty,
                    args@,
                    Seq::new(results as nat, |k: int| ty),
                    placeholders(results as nat),
                ),
            },
    {
        let spec = match by_mnemonic(mnemonic) {
            Some(spec) => spec,
            None => {
                self.builder.fail(IrError::UnknownMnemonic(mnemonic.to_owned()));
                return None;
            },
        };
        let reserved: Option<&'static str> = if op_form(spec) != OpForm::Simple || spec.category
            == OpCategory::StackManip {
            Some("the stackifier owns the operand stack")
        } else if spec.category == OpCategory::Control {
            Some("EIR owns control flow")
        } else if spec.terminating {
            Some("terminating opcodes are terminators")
        } else {
            None
        };
        if let Some(reason) = reserved {
            self.builder.fail(IrError::ReservedOpcode { mnemonic: spec.mnemonic, reason });
            return None;
        }
        let mut types: Vec<Type> = Vec::new();
        let mut k: usize = 0;
        while k < results
            invariant
                k <= results,
                types@ == Seq::new(k as nat, |j: int| ty),
            decreases results - k,
        {
            types.push(ty);
            k += 1;
            assert(types@ =~= Seq::new(k as nat, |j: int| ty));
        }
        Some(self.builder.emit(Op::Opcode(spec), ty, Repair::NoRepair, args, types.as_slice()))
    }

    /// Emit with the repair the operation implies for its result type.
    fn unary_op(self, op: Op, ty: Type, args: &[Value]) -> (r: Value)
        requires
            self.can_emit(1),
        ensures
            (*final(self.builder))@.wf(),
            emitted(self.start(), (*final(self.builder))@, op, ty, default_repair_of(op, ty), args@, seq![ty], seq![r]),
    {
        let repair = op.default_repair(ty);
        let types = [ty];
        assert(types@ =~= seq![ty]);
        let results = self.builder.emit(op, ty, repair, args, &types);
        assert(results@.len() == 1);
        let r = results[0];
        assert(results@ =~= seq![r]);
        r
    }
    fn checked(self, op: Op, ty: Type, a: Value, b: Value) -> (r: (Value, Value))
        requires
            self.can_emit(2),
        ensures
            (*final(self.builder))@.wf(),
            emitted(
                self.start(),
                (*final(self.builder))@,
                op,
                ty,
                default_repair_of(op, ty),
                seq![a, b],
                seq![ty, Type::Int(IntTy { bits: 1, signed: false })],
                seq![r.0, r.1],
            ),
    {
        let repair = op.default_repair(ty);
        let types = [ty, Type::bool()];
        assert(types@ =~= seq![ty, Type::Int(IntTy { bits: 1, signed: false })]);
        let results = self.builder.emit(op, ty, repair, &[a, b], &types);
        assert(results@.len() == 2);
        let r = (results[0], results[1]);
        assert(results@ =~= seq![r.0, r.1]);
        r
    }
}

} // verus!
