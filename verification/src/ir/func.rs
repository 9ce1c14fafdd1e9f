//! A function: three arenas and the blocks that index into them.
//!
//! Everything is a `Vec` keyed by an entity index, and the value arena is the
//! frame-slot map: a value's index is its slot. A function's entry block takes
//! one parameter per signature parameter, created first, so parameters are
//! always values `0..P-1` and a caller can write a callee's parameter slots
//! knowing nothing but its handle.
//!
//! Handles are `u32` and a value's position among its block's parameters or
//! its instruction's results is a `u16`, so the arenas have room for that
//! many entries and no more; the mutators ask for that room.

use vstd::prelude::*;

use super::entity::{Block, Inst, Value};
use super::inst::{InstData, Terminator};
use super::types::{Signature, Type};

verus! {

/// Where a value came from.
#[derive(Debug, Clone, Copy, PartialEq, Eq, Structural)]
pub enum ValueDef {
    Result { inst: Inst, index: u16 },
    Param { block: Block, index: u16 },
}

#[derive(Debug, Clone, Copy, PartialEq, Eq, Structural)]
pub struct ValueData {
    pub ty: Type,
    pub def: ValueDef,
}

/// What a block is for. Advisory: a cold `Panic` block exists to revert, and
/// reaching one is never work an optimizer may remove.
#[derive(Debug, Clone, Copy, PartialEq, Eq, Structural)]
pub enum BlockKind {
    Normal,
    /// A cold block that exists to revert.
    Panic,
}

impl Default for BlockKind {
    fn default() -> (r: BlockKind)
        ensures
            r == BlockKind::Normal,
    {
        BlockKind::Normal
    }
}

#[derive(Debug, Clone)]
pub struct BlockData {
    pub params: Vec<Value>,
    /// Straight-line body. Terminators are not in here.
    pub insts: Vec<Inst>,
    /// `None` until the block is finished.
    pub term: Option<Terminator>,
    pub kind: BlockKind,
}

/// The largest arena position a `u32` handle can name.
pub open spec fn max_handle() -> int {
    u32::MAX as int
}

/// The largest position among a block's parameters or an instruction's
/// results.
pub open spec fn max_position() -> int {
    u16::MAX as int
}

/// One function body. Construct through
/// [`FunctionBuilder`](super::builder::FunctionBuilder) rather than directly:
/// the arenas have to stay consistent with each other.
#[derive(Debug, Clone)]
pub struct Function {
    pub name: String,
    pub sig: Signature,
    entry: Block,
    insts: Vec<InstData>,
    values: Vec<ValueData>,
    blocks: Vec<BlockData>,
}

/// The arena entry a value handle points back to is the one that defines it.
pub open spec fn defines(values: Seq<ValueData>, v: Value, def: ValueDef) -> bool {
    &&& (v.0 as int) < values.len()
    &&& values[v.0 as int].def == def
}

impl Function {
    /// The function's name.
    pub closed spec fn name_text(&self) -> Seq<char> {
        self.name@
    }

    /// The function's signature.
    pub closed spec fn signature(&self) -> Signature {
        self.sig
    }

    /// The signature, for code outside this module.
    pub(crate) fn sig_ref(&self) -> (r: &Signature)
        ensures
            *r == self.signature(),
    {
        &self.sig
    }

    pub closed spec fn entry_block(&self) -> Block {
        self.entry
    }

    /// The instruction arena.
    pub closed spec fn inst_arena(&self) -> Seq<InstData> {
        self.insts@
    }

    /// The value arena.
    pub closed spec fn value_arena(&self) -> Seq<ValueData> {
        self.values@
    }

    /// The block arena.
    pub closed spec fn block_arena(&self) -> Seq<BlockData> {
        self.blocks@
    }

    /// The arenas agree with each other: block 0 is the entry; every block
    /// parameter and instruction result is a value defined right there; every
    /// instruction a block lists exists; and every value is defined by
    /// exactly the parameter or result slot that lists it.
    pub open spec fn consistent(&self) -> bool {
        let insts = self.inst_arena();
        let values = self.value_arena();
        let blocks = self.block_arena();
        &&& blocks.len() >= 1
        &&& self.entry_block() == Block(0)
        &&& blocks.len() <= max_handle() + 1
        &&& insts.len() <= max_handle() + 1
        &&& forall|b: int, k: int|
            0 <= b < blocks.len() && 0 <= k < blocks[b].params@.len() ==> defines(
                values,
                #[trigger] blocks[b].params@[k],
                ValueDef::Param { block: Block(b as u32), index: k as u16 },
            ) && k <= max_position()
        &&& forall|b: int, k: int|
            0 <= b < blocks.len() && 0 <= k < blocks[b].insts@.len() ==> (#[trigger] blocks[b].insts@[k]).0
                < insts.len()
        &&& forall|i: int, k: int|
            0 <= i < insts.len() && 0 <= k < insts[i].results@.len() ==> defines(
                values,
                #[trigger] insts[i].results@[k],
                ValueDef::Result { inst: Inst(i as u32), index: k as u16 },
            ) && k <= max_position()
        &&& forall|v: int|
            0 <= v < values.len() ==> match #[trigger] values[v].def {
                ValueDef::Param { block, index } => (block.0 as int) < blocks.len() && (index as int)
                    < blocks[block.0 as int].params@.len() && blocks[block.0 as int].params@[index as int].0
                    == v,
                ValueDef::Result { inst, index } => (inst.0 as int) < insts.len() && (index as int)
                    < insts[inst.0 as int].results@.len() && insts[inst.0 as int].results@[index as int].0
                    == v,
            }
    }

    /// A function with an entry block carrying one parameter per signature
    /// parameter; those are values `0..P-1`.
    pub fn new(name: &str, sig: Signature) -> (r: Function)
        requires
            sig.params@.len() <= max_position() + 1,
        ensures
            r.name_text() == name@,
            r.signature() == sig,
            r.consistent(),
            r.entry_block() == Block(0),
            r.inst_arena().len() == 0,
            r.block_arena().len() == 1,
            r.value_arena() == Seq::new(
                sig.params@.len(),
                |k: int| ValueData { ty: sig.params@[k], def: ValueDef::Param { block: Block(0), index: k as u16 } },
            ),
            r.block_arena()[0].params@ == Seq::new(sig.params@.len(), |k: int| Value(k as u32)),
            r.block_arena()[0].insts@.len() == 0,
            r.block_arena()[0].term is None,
            r.block_arena()[0].kind == BlockKind::Normal,
    {
        let mut func = Function {
            name: name.to_owned(),
            sig: Signature { params: Vec::new(), returns: Vec::new() },
            entry: Block(0),
            insts: Vec::new(),
            values: Vec::new(),
            blocks: Vec::new(),
        };
        proof {
            assert(func.value_arena() =~= Seq::empty());
        }
        let entry = func.create_block();
        let mut k: usize = 0;
        while k < sig.params.len()
            invariant
                k <= sig.params@.len() <= max_position() + 1,
                func.name_text() == name@,
                entry == Block(0),
                func.consistent(),
                func.entry_block() == Block(0),
                func.inst_arena().len() == 0,
                func.block_arena().len() == 1,
                func.value_arena() == Seq::new(
                    k as nat,
                    |j: int| ValueData { ty: sig.params@[j], def: ValueDef::Param { block: Block(0), index: j as u16 } },
                ),
                func.block_arena()[0].params@ == Seq::new(k as nat, |j: int| Value(j as u32)),
                func.block_arena()[0].insts@.len() == 0,
                func.block_arena()[0].term is None,
                func.block_arena()[0].kind == BlockKind::Normal,
            decreases sig.params@.len() - k,
        {
            func.append_param(entry, sig.params[k]);
            k += 1;
            assert(func.value_arena() =~= Seq::new(
                k as nat,
                |j: int| ValueData { ty: sig.params@[j], def: ValueDef::Param { block: Block(0), index: j as u16 } },
            ));
            assert(func.block_arena()[0].params@ =~= Seq::new(k as nat, |j: int| Value(j as u32)));
        }
        func.sig = sig;
        func
    }

    // --- construction ---

    /// A new, empty, unterminated block.
    pub fn create_block(&mut self) -> (r: Block)
        requires
            old(self).block_arena().len() <= max_handle(),
        ensures
            r == Block(old(self).block_arena().len() as u32),
            final(self).block_arena().len() == old(self).block_arena().len() + 1,
            forall|b: int|
                0 <= b < old(self).block_arena().len() ==> #[trigger] final(self).block_arena()[b]
                    == old(self).block_arena()[b],
            final(self).block_arena()[r.0 as int].params@.len() == 0,
            final(self).block_arena()[r.0 as int].insts@.len() == 0,
            final(self).block_arena()[r.0 as int].term is None,
            final(self).block_arena()[r.0 as int].kind == BlockKind::Normal,
            final(self).inst_arena() == old(self).inst_arena(),
            final(self).value_arena() == old(self).value_arena(),
            final(self).entry_block() == old(self).entry_block(),
            final(self).name_text() == old(self).name_text(),
            final(self).signature() == old(self).signature(),
            old(self).consistent() || old(self).block_arena().len() == 0 && old(self).entry_block()
                == Block(0) && old(self).value_arena().len() == 0 && old(self).inst_arena().len() == 0
                ==> final(self).consistent(),
    {
        let block = Block::new(self.blocks.len());
        self.blocks.push(
            BlockData { params: Vec::new(), insts: Vec::new(), term: None, kind: BlockKind::Normal },
        );
        block
    }

    /// Give `block` another parameter, of type `ty`.
    pub fn append_param(&mut self, block: Block, ty: Type) -> (r: Value)
        requires
            (block.0 as int) < old(self).block_arena().len(),
            old(self).block_arena()[block.0 as int].params@.len() <= max_position(),
            old(self).value_arena().len() <= max_handle(),
        ensures
            r == Value(old(self).value_arena().len() as u32),
            final(self).value_arena() == old(self).value_arena().push(
                ValueData {
                    ty,
                    def: ValueDef::Param {
                        block,
                        index: old(self).block_arena()[block.0 as int].params@.len() as u16,
                    },
                },
            ),
            final(self).block_arena().len() == old(self).block_arena().len(),
            forall|b: int|
                0 <= b < old(self).block_arena().len() && b != block.0 ==> #[trigger] final(self).block_arena()[b] == old(self).block_arena()[b],
            final(self).block_arena()[block.0 as int].params@ == old(self).block_arena()[block.0 as int].params@.push(r),
            final(self).block_arena()[block.0 as int].insts == old(self).block_arena()[block.0 as int].insts,
            final(self).block_arena()[block.0 as int].term == old(self).block_arena()[block.0 as int].term,
            final(self).block_arena()[block.0 as int].kind == old(self).block_arena()[block.0 as int].kind,
            final(self).inst_arena() == old(self).inst_arena(),
            final(self).entry_block() == old(self).entry_block(),
            final(self).name_text() == old(self).name_text(),
            final(self).signature() == old(self).signature(),
            old(self).consistent() ==> final(self).consistent(),
    {
        let index = self.blocks[block.index()].params.len() as u16;
        let value = self.push_value(ValueData { ty, def: ValueDef::Param { block, index } });
        self.blocks[block.index()].params.push(value);
        value
    }

    /// Append an instruction to `block`, minting one value per result type.
    pub fn append_inst(&mut self, block: Block, data: InstData, result_types: &[Type]) -> (r: Inst)
        requires
            (block.0 as int) < old(self).block_arena().len(),
            old(self).inst_arena().len() <= max_handle(),
            old(self).value_arena().len() + result_types@.len() <= max_handle() + 1,
            result_types@.len() <= max_position() + 1,
        ensures
            r == Inst(old(self).inst_arena().len() as u32),
            final(self).inst_arena().len() == old(self).inst_arena().len() + 1,
            forall|i: int|
                0 <= i < old(self).inst_arena().len() ==> #[trigger] final(self).inst_arena()[i] == old(self).inst_arena()[i],
            final(self).inst_arena()[r.0 as int].op == data.op,
            final(self).inst_arena()[r.0 as int].ty == data.ty,
            final(self).inst_arena()[r.0 as int].repair == data.repair,
            final(self).inst_arena()[r.0 as int].args == data.args,
            final(self).inst_arena()[r.0 as int].note == data.note,
            final(self).inst_arena()[r.0 as int].results@ == Seq::new(
                result_types@.len(),
                |j: int| Value((old(self).value_arena().len() + j) as u32),
            ),
            final(self).value_arena() == old(self).value_arena() + Seq::new(
                result_types@.len(),
                |j: int| ValueData { ty: result_types@[j], def: ValueDef::Result { inst: r, index: j as u16 } },
            ),
            final(self).block_arena().len() == old(self).block_arena().len(),
            forall|b: int|
                0 <= b < old(self).block_arena().len() && b != block.0 ==> #[trigger] final(self).block_arena()[b] == old(self).block_arena()[b],
            final(self).block_arena()[block.0 as int].insts@ == old(self).block_arena()[block.0 as int].insts@.push(r),
            final(self).block_arena()[block.0 as int].params == old(self).block_arena()[block.0 as int].params,
            final(self).block_arena()[block.0 as int].term == old(self).block_arena()[block.0 as int].term,
            final(self).block_arena()[block.0 as int].kind == old(self).block_arena()[block.0 as int].kind,
            final(self).entry_block() == old(self).entry_block(),
            final(self).name_text() == old(self).name_text(),
            final(self).signature() == old(self).signature(),
            old(self).consistent() ==> final(self).consistent(),
    {
        let inst = Inst::new(self.insts.len());
        let mut data = data;
        data.results = Vec::new();
        self.insts.push(data);
        let ghost values0 = self.values@;
        let mut k: usize = 0;
        while k < result_types.len()
            invariant
                k <= result_types@.len(),
                old(self).inst_arena().len() <= max_handle(),
                old(self).value_arena().len() + result_types@.len() <= max_handle() + 1,
                result_types@.len() <= max_position() + 1,
                self.inst_arena().len() == old(self).inst_arena().len() + 1,
                forall|i: int|
                    0 <= i < old(self).inst_arena().len() ==> #[trigger] self.inst_arena()[i] == old(self).inst_arena()[i],
                inst == Inst(old(self).inst_arena().len() as u32),
                self.inst_arena()[inst.0 as int].op == data.op,
                self.inst_arena()[inst.0 as int].ty == data.ty,
                self.inst_arena()[inst.0 as int].repair == data.repair,
                self.inst_arena()[inst.0 as int].args == data.args,
                self.inst_arena()[inst.0 as int].note == data.note,
                self.inst_arena()[inst.0 as int].results@ == Seq::new(
                    k as nat,
                    |j: int| Value((old(self).value_arena().len() + j) as u32),
                ),
                self.value_arena() == old(self).value_arena() + Seq::new(
                    k as nat,
                    |j: int| ValueData { ty: result_types@[j], def: ValueDef::Result { inst, index: j as u16 } },
                ),
                self.block_arena() == old(self).block_arena(),
                self.entry_block() == old(self).entry_block(),
                self.name_text() == old(self).name_text(),
                self.signature() == old(self).signature(),
            decreases result_types@.len() - k,
        {
            let value = self.push_value(
                ValueData { ty: result_types[k], def: ValueDef::Result { inst, index: k as u16 } },
            );
            let ghost before = self.inst_arena();
            self.insts[inst.index()].results.push(value);
            assert forall|i: int| 0 <= i < old(self).inst_arena().len() implies #[trigger] self.inst_arena()[i]
                == old(self).inst_arena()[i] by {
                assert(self.inst_arena()[i] == before[i]);
            }
            k += 1;
            assert(self.value_arena() =~= old(self).value_arena() + Seq::new(
                k as nat,
                |j: int| ValueData { ty: result_types@[j], def: ValueDef::Result { inst, index: j as u16 } },
            ));
            assert(self.inst_arena()[inst.0 as int].results@ =~= Seq::new(
                k as nat,
                |j: int| Value((old(self).value_arena().len() + j) as u32),
            ));
        }
        self.blocks[block.index()].insts.push(inst);
        proof {
            if old(self).consistent() {
                self.lemma_append_inst_consistent(old(self), block, inst, result_types@);
            }
        }
        inst
    }

    /// Give `block` its terminator.
    pub fn set_terminator(&mut self, block: Block, term: Terminator)
        requires
            (block.0 as int) < old(self).block_arena().len(),
        ensures
            final(self).block_arena() == old(self).block_arena().update(
                block.0 as int,
                BlockData { term: Some(term), ..old(self).block_arena()[block.0 as int] },
            ),
            final(self).inst_arena() == old(self).inst_arena(),
            final(self).value_arena() == old(self).value_arena(),
            final(self).entry_block() == old(self).entry_block(),
            final(self).name_text() == old(self).name_text(),
            final(self).signature() == old(self).signature(),
            old(self).consistent() ==> final(self).consistent(),
    {
        self.blocks[block.index()].term = Some(term);
        proof {
            if old(self).consistent() {
                self.lemma_block_fields_consistent(old(self), block);
            }
        }
    }

    /// Mark what `block` is for.
    pub fn set_block_kind(&mut self, block: Block, kind: BlockKind)
        requires
            (block.0 as int) < old(self).block_arena().len(),
        ensures
            final(self).block_arena() == old(self).block_arena().update(
                block.0 as int,
                BlockData { kind, ..old(self).block_arena()[block.0 as int] },
            ),
            final(self).inst_arena() == old(self).inst_arena(),
            final(self).value_arena() == old(self).value_arena(),
            final(self).entry_block() == old(self).entry_block(),
            final(self).name_text() == old(self).name_text(),
            final(self).signature() == old(self).signature(),
            old(self).consistent() ==> final(self).consistent(),
    {
        self.blocks[block.index()].kind = kind;
        proof {
            if old(self).consistent() {
                self.lemma_block_fields_consistent(old(self), block);
            }
        }
    }

    /// Attach a comment to `inst`.
    pub fn set_note(&mut self, inst: Inst, note: &str)
        requires
            (inst.0 as int) < old(self).inst_arena().len(),
        ensures
            final(self).inst_arena().len() == old(self).inst_arena().len(),
            forall|i: int|
                0 <= i < old(self).inst_arena().len() && i != inst.0 ==> #[trigger] final(self).inst_arena()[i] == old(self).inst_arena()[i],
            final(self).inst_arena()[inst.0 as int].note matches Some(s) && s@ == note@,
            final(self).inst_arena()[inst.0 as int].op == old(self).inst_arena()[inst.0 as int].op,
            final(self).inst_arena()[inst.0 as int].ty == old(self).inst_arena()[inst.0 as int].ty,
            final(self).inst_arena()[inst.0 as int].repair == old(self).inst_arena()[inst.0 as int].repair,
            final(self).inst_arena()[inst.0 as int].args == old(self).inst_arena()[inst.0 as int].args,
            final(self).inst_arena()[inst.0 as int].results == old(self).inst_arena()[inst.0 as int].results,
            final(self).block_arena() == old(self).block_arena(),
            final(self).value_arena() == old(self).value_arena(),
            final(self).entry_block() == old(self).entry_block(),
            final(self).name_text() == old(self).name_text(),
            final(self).signature() == old(self).signature(),
            old(self).consistent() ==> final(self).consistent(),
    {
        self.insts[inst.index()].note = Some(note.to_owned());
        proof {
            if old(self).consistent() {
                assert forall|i: int, k: int|
                    0 <= i < self.inst_arena().len() && 0 <= k < self.inst_arena()[i].results@.len()
                        implies defines(
                    self.value_arena(),
                    #[trigger] self.inst_arena()[i].results@[k],
                    ValueDef::Result { inst: Inst(i as u32), index: k as u16 },
                ) && k <= max_position() by {
                    assert(self.inst_arena()[i].results == old(self).inst_arena()[i].results);
                }
                assert forall|v: int| 0 <= v < self.value_arena().len() implies match #[trigger] self.value_arena()[v].def {
                    ValueDef::Param { block, index } => (block.0 as int) < self.block_arena().len()
                        && (index as int) < self.block_arena()[block.0 as int].params@.len()
                        && self.block_arena()[block.0 as int].params@[index as int].0 == v,
                    ValueDef::Result { inst, index } => (inst.0 as int) < self.inst_arena().len()
                        && (index as int) < self.inst_arena()[inst.0 as int].results@.len()
                        && self.inst_arena()[inst.0 as int].results@[index as int].0 == v,
                } by {
                    match self.value_arena()[v].def {
                        ValueDef::Result { inst: i2, index } => {
                            assert(self.inst_arena()[i2.0 as int].results == old(self).inst_arena()[i2.0 as int].results);
                        },
                        _ => {},
                    }
                }
            }
        }
    }

    fn push_value(&mut self, data: ValueData) -> (r: Value)
        requires
            old(self).value_arena().len() <= max_handle(),
        ensures
            r == Value(old(self).value_arena().len() as u32),
            final(self).value_arena() == old(self).value_arena().push(data),
            final(self).inst_arena() == old(self).inst_arena(),
            final(self).block_arena() == old(self).block_arena(),
            final(self).entry_block() == old(self).entry_block(),
            final(self).name_text() == old(self).name_text(),
            final(self).signature() == old(self).signature(),
    {
        let value = Value::new(self.values.len());
        self.values.push(data);
        value
    }

    // --- reading ---

    pub fn entry(&self) -> (r: Block)
        ensures
            r == self.entry_block(),
    {
        self.entry
    }

    pub fn inst(&self, inst: Inst) -> (r: &InstData)
        requires
            (inst.0 as int) < self.inst_arena().len(),
        ensures
            *r == self.inst_arena()[inst.0 as int],
    {
        &self.insts[inst.index()]
    }

    /// For an optimizer: the one mutation mask elision needs. Nothing here
    /// re-checks the arenas afterwards.
    pub fn inst_mut(&mut self, inst: Inst) -> (r: &mut InstData)
        requires
            (inst.0 as int) < old(self).inst_arena().len(),
        ensures
            *r == old(self).inst_arena()[inst.0 as int],
            final(self).inst_arena() == old(self).inst_arena().update(inst.0 as int, *final(r)),
            final(self).block_arena() == old(self).block_arena(),
            final(self).value_arena() == old(self).value_arena(),
            final(self).entry_block() == old(self).entry_block(),
            final(self).name_text() == old(self).name_text(),
            final(self).signature() == old(self).signature(),
    {
        &mut self.insts[inst.index()]
    }

    pub fn results(&self, inst: Inst) -> (r: &[Value])
        requires
            (inst.0 as int) < self.inst_arena().len(),
        ensures
            r@ == self.inst_arena()[inst.0 as int].results@,
    {
        self.insts[inst.index()].results.as_slice()
    }

    pub fn args(&self, inst: Inst) -> (r: &[Value])
        requires
            (inst.0 as int) < self.inst_arena().len(),
        ensures
            r@ == self.inst_arena()[inst.0 as int].args@,
    {
        self.insts[inst.index()].args.as_slice()
    }

    pub fn value(&self, value: Value) -> (r: ValueData)
        requires
            (value.0 as int) < self.value_arena().len(),
        ensures
            r == self.value_arena()[value.0 as int],
    {
        self.values[value.index()]
    }

    pub fn value_type(&self, value: Value) -> (r: Type)
        requires
            (value.0 as int) < self.value_arena().len(),
        ensures
            r == self.value_arena()[value.0 as int].ty,
    {
        self.values[value.index()].ty
    }

    pub fn value_def(&self, value: Value) -> (r: ValueDef)
        requires
            (value.0 as int) < self.value_arena().len(),
        ensures
            r == self.value_arena()[value.0 as int].def,
    {
        self.values[value.index()].def
    }

    pub fn block(&self, block: Block) -> (r: &BlockData)
        requires
            (block.0 as int) < self.block_arena().len(),
        ensures
            *r == self.block_arena()[block.0 as int],
    {
        &self.blocks[block.index()]
    }

    pub fn block_params(&self, block: Block) -> (r: &[Value])
        requires
            (block.0 as int) < self.block_arena().len(),
        ensures
            r@ == self.block_arena()[block.0 as int].params@,
    {
        self.blocks[block.index()].params.as_slice()
    }

    pub fn terminator(&self, block: Block) -> (r: Option<&Terminator>)
        requires
            (block.0 as int) < self.block_arena().len(),
        ensures
            match r {
                Some(t) => self.block_arena()[block.0 as int].term == Some(*t),
                None => self.block_arena()[block.0 as int].term is None,
            },
    {
        match &self.blocks[block.index()].term {
            Some(t) => Some(t),
            None => None,
        }
    }

    pub fn num_values(&self) -> (r: usize)
        ensures
            r == self.value_arena().len(),
    {
        self.values.len()
    }

    pub fn num_blocks(&self) -> (r: usize)
        ensures
            r == self.block_arena().len(),
    {
        self.blocks.len()
    }

    pub fn num_insts(&self) -> (r: usize)
        ensures
            r == self.inst_arena().len(),
    {
        self.insts.len()
    }

    /// Every block, in index order. The entry block is first.
    pub fn blocks(&self) -> (r: Vec<Block>)
        requires
            self.block_arena().len() <= max_handle() + 1,
        ensures
            r@ == Seq::new(self.block_arena().len(), |b: int| Block(b as u32)),
    {
        let mut out: Vec<Block> = Vec::new();
        let mut b: usize = 0;
        while b < self.blocks.len()
            invariant
                b <= self.block_arena().len() <= max_handle() + 1,
                out@ == Seq::new(b as nat, |j: int| Block(j as u32)),
            decreases self.block_arena().len() - b,
        {
            out.push(Block::new(b));
            b += 1;
            assert(out@ =~= Seq::new(b as nat, |j: int| Block(j as u32)));
        }
        out
    }

    /// Whether `value` exists in this function's arena.
    pub fn has_value(&self, value: Value) -> (r: bool)
        ensures
            r == ((value.0 as int) < self.value_arena().len()),
    {
        value.index() < self.values.len()
    }

    pub fn has_block(&self, block: Block) -> (r: bool)
        ensures
            r == ((block.0 as int) < self.block_arena().len()),
    {
        block.index() < self.blocks.len()
    }

    // --- proofs ---

    /// Changing a block's terminator or kind leaves the arenas consistent.
    proof fn lemma_block_fields_consistent(&self, before: &Function, block: Block)
        requires
            before.consistent(),
            (block.0 as int) < before.block_arena().len(),
            self.block_arena().len() == before.block_arena().len(),
            forall|b: int|
                0 <= b < before.block_arena().len() && b != block.0 ==> #[trigger] self.block_arena()[b]
                    == before.block_arena()[b],
            self.block_arena()[block.0 as int].params == before.block_arena()[block.0 as int].params,
            self.block_arena()[block.0 as int].insts == before.block_arena()[block.0 as int].insts,
            self.inst_arena() == before.inst_arena(),
            self.value_arena() == before.value_arena(),
            self.entry_block() == before.entry_block(),
        ensures
            self.consistent(),
    {
        assert forall|b: int| 0 <= b < self.block_arena().len() implies #[trigger] self.block_arena()[b].params
            == before.block_arena()[b].params && self.block_arena()[b].insts == before.block_arena()[b].insts by {
        }
    }

    /// Appending an instruction, with fresh result values, to an existing
    /// block leaves the arenas consistent.
    proof fn lemma_append_inst_consistent(&self, before: &Function, block: Block, inst: Inst, types: Seq<Type>)
        requires
            before.consistent(),
            (block.0 as int) < before.block_arena().len(),
            inst == Inst(before.inst_arena().len() as u32),
            before.inst_arena().len() <= max_handle(),
            before.value_arena().len() + types.len() <= max_handle() + 1,
            types.len() <= max_position() + 1,
            self.inst_arena().len() == before.inst_arena().len() + 1,
            forall|i: int|
                0 <= i < before.inst_arena().len() ==> #[trigger] self.inst_arena()[i]
                    == before.inst_arena()[i],
            self.inst_arena()[inst.0 as int].results@ == Seq::new(
                types.len(),
                |j: int| Value((before.value_arena().len() + j) as u32),
            ),
            self.value_arena() == before.value_arena() + Seq::new(
                types.len(),
                |j: int| ValueData { ty: types[j], def: ValueDef::Result { inst, index: j as u16 } },
            ),
            self.block_arena().len() == before.block_arena().len(),
            forall|b: int|
                0 <= b < before.block_arena().len() && b != block.0 ==> #[trigger] self.block_arena()[b]
                    == before.block_arena()[b],
            self.block_arena()[block.0 as int].insts@ == before.block_arena()[block.0 as int].insts@.push(inst),
            self.block_arena()[block.0 as int].params == before.block_arena()[block.0 as int].params,
            self.entry_block() == before.entry_block(),
        ensures
            self.consistent(),
    {
        let insts = self.inst_arena();
        let values = self.value_arena();
        let blocks = self.block_arena();
        let n = before.inst_arena().len() as int;
        let nv = before.value_arena().len() as int;
        assert forall|b: int, k: int|
            0 <= b < blocks.len() && 0 <= k < blocks[b].params@.len() implies defines(
            values,
            #[trigger] blocks[b].params@[k],
            ValueDef::Param { block: Block(b as u32), index: k as u16 },
        ) && k <= max_position() by {
            assert(blocks[b].params == before.block_arena()[b].params);
            assert(defines(before.value_arena(), before.block_arena()[b].params@[k], ValueDef::Param { block: Block(b as u32), index: k as u16 }));
        }
        assert forall|b: int, k: int|
            0 <= b < blocks.len() && 0 <= k < blocks[b].insts@.len() implies (#[trigger] blocks[b].insts@[k]).0
            < insts.len() by {
            if b != block.0 || k < before.block_arena()[b].insts@.len() {
                assert(blocks[b].insts@[k] == before.block_arena()[b].insts@[k]);
            }
        }
        assert forall|i: int, k: int|
            0 <= i < insts.len() && 0 <= k < insts[i].results@.len() implies defines(
            values,
            #[trigger] insts[i].results@[k],
            ValueDef::Result { inst: Inst(i as u32), index: k as u16 },
        ) && k <= max_position() by {
            if i < n {
                assert(insts[i] == before.inst_arena()[i]);
                assert(defines(before.value_arena(), before.inst_arena()[i].results@[k], ValueDef::Result { inst: Inst(i as u32), index: k as u16 }));
            } else {
                assert(insts[i].results@[k] == Value((nv + k) as u32));
                assert(values[nv + k].def == ValueDef::Result { inst, index: k as u16 });
            }
        }
        assert forall|v: int| 0 <= v < values.len() implies match #[trigger] values[v].def {
            ValueDef::Param { block, index } => (block.0 as int) < blocks.len() && (index as int)
                < blocks[block.0 as int].params@.len() && blocks[block.0 as int].params@[index as int].0 == v,
            ValueDef::Result { inst, index } => (inst.0 as int) < insts.len() && (index as int)
                < insts[inst.0 as int].results@.len() && insts[inst.0 as int].results@[index as int].0 == v,
        } by {
            if v < nv {
                assert(values[v] == before.value_arena()[v]);
                match values[v].def {
                    ValueDef::Param { block: b2, index } => {
                        assert(blocks[b2.0 as int].params == before.block_arena()[b2.0 as int].params);
                    },
                    ValueDef::Result { inst: i2, index } => {
                        assert(insts[i2.0 as int] == before.inst_arena()[i2.0 as int]);
                    },
                }
            } else {
                assert(values[v].def == ValueDef::Result { inst, index: (v - nv) as u16 });
            }
        }
    }
}

} // verus!
