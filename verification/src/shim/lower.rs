//! Lowering a MIR body onto the [`Emitter`].
//!
//! The EVM is a 256-bit stack machine and MIR works on typed places and
//! operands. The mapping:
//!
//! | MIR                | EVM                                   |
//! |--------------------|---------------------------------------|
//! | local              | a memory slot at a fixed offset       |
//! | `Copy` / `Move`    | `PUSH` the slot's offset, `MLOAD`     |
//! | constant           | `PUSH` the value                      |
//! | `BinOp::Add`, ...  | `ADD`, ...                            |
//! | evm-sys intrinsic  | its opcode                            |
//! | `Return`           | `STOP`                                |
//!
//! The MIR here is what the lowering reads of rustc's, as plain values: a
//! local is its index, a block its index, a constant its value, and a call
//! the intrinsic opcode it was recognised as, if any.

use vstd::prelude::*;

use super::abi::{EvmLayout, WORD_BYTES};
use vstd::arithmetic::power2::pow2;

use super::emit::{binary_result, jump_stub, opcode_byte, push_encoding, word_of, Emitter, EmitterModel, Opcode, U256};
use crate::assembler::u128_word;
use crate::ir::repr::{bit_and, bit_or, bit_xor, word_modulus};

verus! {

/// A constant operand.
#[derive(Clone, Copy, Debug)]
pub enum Constant {
    /// A scalar that fits in 128 bits, zero-extended to a word.
    Scalar(u128),
    /// Any other constant: not lowered yet.
    Other,
}

/// A MIR operand: a local read, or a constant.
#[derive(Clone, Copy, Debug)]
pub enum Operand {
    Copy(usize),
    Move(usize),
    Constant(Constant),
}

/// A binary operation; `Other` stands for those not lowered yet.
#[derive(Clone, Copy, Debug, PartialEq, Eq, Structural)]
pub enum BinOp {
    Add,
    Sub,
    Mul,
    Div,
    Rem,
    BitAnd,
    BitOr,
    BitXor,
    Shl,
    Shr,
    Eq,
    Lt,
    Gt,
    Other,
}

/// A unary operation; `Other` stands for those not lowered yet.
#[derive(Clone, Copy, Debug, PartialEq, Eq, Structural)]
pub enum UnOp {
    Not,
    Neg,
    Other,
}

/// The right-hand side of an assignment.
#[derive(Clone, Copy, Debug)]
pub enum Rvalue {
    Use(Operand),
    BinaryOp(BinOp, Operand, Operand),
    UnaryOp(UnOp, Operand),
    /// Any other rvalue: not lowered yet.
    Other,
}

/// A MIR statement.
#[derive(Clone, Copy, Debug)]
pub enum Statement {
    /// `local = rvalue`.
    Assign { local: usize, rvalue: Rvalue },
    StorageLive(usize),
    StorageDead(usize),
    /// Anything else that generates no code.
    Nop,
}

/// How a MIR block ends.
#[derive(Clone, Debug)]
pub enum Terminator {
    Return,
    Unreachable,
    Goto(u32),
    /// Jump to the block of the first value `discr` equals, else `otherwise`.
    SwitchInt { discr: Operand, cases: Vec<(u128, u32)>, otherwise: u32 },
    /// A call. `intrinsic` is the opcode the callee was recognised as; the
    /// result is stored into `destination` unless the callee returns `()`.
    Call { intrinsic: Option<Opcode>, args: Vec<Operand>, returns_unit: bool, destination: usize, target: Option<u32> },
    /// Any other terminator: not lowered yet.
    Other,
}

/// One MIR basic block.
#[derive(Clone, Debug)]
pub struct BasicBlockData {
    pub statements: Vec<Statement>,
    pub terminator: Option<Terminator>,
}

/// One MIR body: how many locals it has, and its blocks in index order.
#[derive(Clone, Debug)]
pub struct Body {
    pub local_count: usize,
    pub blocks: Vec<BasicBlockData>,
}

// --- what lowering accepts ---

/// `local` has a slot whose offset fits a `u32`.
pub open spec fn slot_ok(layout: Seq<u32>, local: usize) -> bool {
    &&& local < layout.len()
    &&& layout[local as int] * WORD_BYTES <= u32::MAX
}

pub open spec fn operand_ok(o: Operand, layout: Seq<u32>) -> bool {
    match o {
        Operand::Copy(l) | Operand::Move(l) => slot_ok(layout, l),
        Operand::Constant(c) => c is Scalar,
    }
}

pub open spec fn rvalue_ok(r: Rvalue, layout: Seq<u32>) -> bool {
    match r {
        Rvalue::Use(o) => operand_ok(o, layout),
        Rvalue::BinaryOp(op, a, b) => op != BinOp::Other && operand_ok(a, layout) && operand_ok(b, layout),
        Rvalue::UnaryOp(op, o) => op != UnOp::Other && operand_ok(o, layout),
        Rvalue::Other => false,
    }
}

pub open spec fn statement_ok(s: Statement, layout: Seq<u32>) -> bool {
    match s {
        Statement::Assign { local, rvalue } => slot_ok(layout, local) && rvalue_ok(rvalue, layout),
        _ => true,
    }
}

pub open spec fn terminator_ok(t: Terminator, layout: Seq<u32>) -> bool {
    match t {
        Terminator::SwitchInt { discr, .. } => operand_ok(discr, layout),
        Terminator::Call { intrinsic, args, returns_unit, destination, .. } => {
            &&& intrinsic is Some
            &&& forall|i: int| 0 <= i < args@.len() ==> operand_ok(#[trigger] args@[i], layout)
            &&& !returns_unit ==> slot_ok(layout, destination)
        },
        Terminator::Other => false,
        _ => true,
    }
}

pub open spec fn block_ok(b: BasicBlockData, layout: Seq<u32>) -> bool {
    &&& forall|i: int| 0 <= i < b.statements@.len() ==> statement_ok(#[trigger] b.statements@[i], layout)
    &&& (b.terminator matches Some(t) ==> terminator_ok(t, layout))
}

pub open spec fn body_ok(body: Body) -> bool {
    let layout = Seq::new(body.local_count as u32 as nat, |n: int| n as u32);
    forall|i: int| 0 <= i < body.blocks@.len() ==> block_ok(#[trigger] body.blocks@[i], layout)
}

// --- what lowering emits ---

/// The word holding the byte offset of `local`'s slot.
pub open spec fn slot_word(layout: Seq<u32>, local: usize) -> Seq<u8> {
    u128_word((layout[local as int] * WORD_BYTES) as u128)
}

/// An operand pushed: a local loaded from its slot, or a constant.
pub open spec fn operand_code(m: EmitterModel, o: Operand, layout: Seq<u32>) -> EmitterModel {
    match o {
        Operand::Copy(l) | Operand::Move(l) => m.push(slot_word(layout, l)).op(Opcode::MLOAD),
        Operand::Constant(c) => match c {
            Constant::Scalar(v) => m.push(u128_word(v)),
            Constant::Other => m,
        },
    }
}

/// The opcode a binary operation lowers to.
pub open spec fn binop_opcode(op: BinOp) -> Opcode {
    match op {
        BinOp::Add => Opcode::ADD,
        BinOp::Sub => Opcode::SUB,
        BinOp::Mul => Opcode::MUL,
        BinOp::Div => Opcode::DIV,
        BinOp::Rem => Opcode::MOD,
        BinOp::BitAnd => Opcode::AND,
        BinOp::BitOr => Opcode::OR,
        BinOp::BitXor => Opcode::XOR,
        BinOp::Shl => Opcode::SHL,
        BinOp::Shr => Opcode::SHR,
        BinOp::Eq => Opcode::EQ,
        BinOp::Lt => Opcode::LT,
        _ => Opcode::GT,
    }
}

/// A binary operation on two unsigned 256-bit words, wrapping at 2^256 as
/// the EVM does: what `lhs op rhs` is on the machine the code runs on.
pub open spec fn word_binary(op: BinOp, lhs: nat, rhs: nat) -> int {
    match op {
        BinOp::Add => (lhs + rhs) as int % word_modulus(),
        BinOp::Sub => (lhs - rhs) % word_modulus(),
        BinOp::Mul => (lhs * rhs) as int % word_modulus(),
        BinOp::Div => (lhs / rhs) as int,
        BinOp::Rem => (lhs % rhs) as int,
        BinOp::BitAnd => bit_and(lhs, rhs) as int,
        BinOp::BitOr => bit_or(lhs, rhs) as int,
        BinOp::BitXor => bit_xor(lhs, rhs) as int,
        BinOp::Shl => (lhs * pow2(rhs)) as int % word_modulus(),
        BinOp::Shr => (lhs / pow2(rhs)) as int,
        BinOp::Eq => if lhs == rhs { 1 } else { 0 },
        BinOp::Lt => if lhs < rhs { 1 } else { 0 },
        BinOp::Gt => if lhs > rhs { 1 } else { 0 },
        BinOp::Other => 0,
    }
}

/// Each binary operation lowers to the opcode that computes it. With the left
/// operand on top of the stack and the right one under it, as [`rvalue_code`]
/// leaves them, the opcode gives `lhs op rhs` on 256-bit words, for every
/// pair of words (a divisor not zero). A shift's opcode takes the shift
/// amount from the top of the stack, so for the two shifts it shifts in the
/// operation's direction with the operands the other way round.
pub proof fn lemma_binops_compute_their_operation(op: BinOp, lhs: nat, rhs: nat)
    requires
        op != BinOp::Other,
        lhs < word_modulus(),
        rhs < word_modulus(),
        op == BinOp::Div || op == BinOp::Rem ==> rhs != 0,
    ensures
        op != BinOp::Shl && op != BinOp::Shr ==> binary_result(opcode_byte(binop_opcode(op)), lhs, rhs)
            == word_binary(op, lhs, rhs),
        op == BinOp::Shl || op == BinOp::Shr ==> binary_result(opcode_byte(binop_opcode(op)), rhs, lhs)
            == word_binary(op, lhs, rhs),
{
}

/// No two binary operations lower to the same opcode.
pub proof fn lemma_binops_lower_to_distinct_opcodes(p: BinOp, q: BinOp)
    requires
        p != BinOp::Other,
        q != BinOp::Other,
        p != q,
    ensures
        opcode_byte(binop_opcode(p)) != opcode_byte(binop_opcode(q)),
{
}

/// An rvalue computed onto the stack. A binary operation pushes its right
/// operand first, so the left one is on top. The EVM has no negation: with
/// the operand `x` on the stack, zero is pushed on top of it and `SUB`
/// computes `0 - x`.
pub open spec fn rvalue_code(m: EmitterModel, r: Rvalue, layout: Seq<u32>) -> EmitterModel {
    match r {
        Rvalue::Use(o) => operand_code(m, o, layout),
        Rvalue::BinaryOp(op, a, b) => operand_code(operand_code(m, b, layout), a, layout).op(binop_opcode(op)),
        Rvalue::UnaryOp(op, o) => match op {
            UnOp::Not => operand_code(m, o, layout).op(Opcode::NOT),
            _ => operand_code(m, o, layout).push(u128_word(0)).op(Opcode::SUB),
        },
        Rvalue::Other => m,
    }
}

/// `local = rvalue`: the value computed, then stored into the local's slot.
pub open spec fn assign_code(m: EmitterModel, local: usize, r: Rvalue, layout: Seq<u32>) -> EmitterModel {
    rvalue_code(m, r, layout).push(slot_word(layout, local)).op(Opcode::MSTORE)
}

/// The first `n` statements of `stmts`, in order.
pub open spec fn statements_code(m: EmitterModel, stmts: Seq<Statement>, layout: Seq<u32>, n: int) -> EmitterModel
    decreases n,
{
    if n <= 0 {
        m
    } else {
        let before = statements_code(m, stmts, layout, n - 1);
        match stmts[n - 1] {
            Statement::Assign { local, rvalue } => assign_code(before, local, rvalue, layout),
            _ => before,
        }
    }
}

/// The first `n` cases of a switch: for each, compare a copy of the
/// discriminant with the case value and jump if equal.
pub open spec fn cases_code(m: EmitterModel, cases: Seq<(u128, u32)>, n: int) -> EmitterModel
    decreases n,
{
    if n <= 0 {
        m
    } else {
        cases_code(m, cases, n - 1).op(Opcode::DUP1).push(u128_word(cases[n - 1].0)).op(Opcode::EQ).jump_to(
            cases[n - 1].1,
            Opcode::JUMPI,
        )
    }
}

/// The bytes that compare a copy of the discriminant with `value`: `DUP1`,
/// the value pushed, `EQ`.
pub open spec fn case_compare(value: u128) -> Seq<u8> {
    seq![0x80u8] + push_encoding(u128_word(value)) + seq![0x14u8]
}

/// A switch's cases are tested in order, each against its own value and with
/// its own target: the `k`-th compare-and-jump group compares the
/// discriminant with `cases[k]`'s value and its `JUMPI` goes to `cases[k]`'s
/// block, the groups follow one another with nothing between them, and
/// nothing emitted before is changed.
pub proof fn lemma_switch_tests_each_case_in_order(m: EmitterModel, cases: Seq<(u128, u32)>, n: int)
    requires
        0 <= n <= cases.len(),
        cases_code(m, cases, n).code.len() <= usize::MAX,
    ensures
        ({
            let r = cases_code(m, cases, n);
            let base = m.patches.len() as int;
            &&& r.marks == m.marks
            &&& r.patches.len() == base + n
            &&& r.patches.subrange(0, base) == m.patches
            &&& m.code.len() <= r.code.len()
            &&& r.code.subrange(0, m.code.len() as int) == m.code
            &&& forall|k: int|
                0 <= k < n ==> {
                    let at = (#[trigger] r.patches[base + k]).0 as int;
                    let g = case_compare(cases[k].0);
                    &&& r.patches[base + k].1 == cases[k].1
                    &&& g.len() <= at && at + 4 <= r.code.len()
                    &&& r.code.subrange(at - g.len(), at + 4) == g + seq![0x61u8, 0u8, 0u8, 0x57u8]
                    &&& at - g.len() == if k == 0 {
                        m.code.len() as int
                    } else {
                        r.patches[base + k - 1].0 + 4
                    }
                }
            &&& r.code.len() == if n == 0 {
                m.code.len() as int
            } else {
                r.patches[base + n - 1].0 + 4
            }
        }),
    decreases n,
{
    if n > 0 {
        let p = cases_code(m, cases, n - 1);
        let r = cases_code(m, cases, n);
        let base = m.patches.len() as int;
        let g = case_compare(cases[n - 1].0);
        let stub = seq![0x61u8, 0u8, 0u8, 0x57u8];
        assert(r.code =~= p.code + g + stub);
        lemma_switch_tests_each_case_in_order(m, cases, n - 1);
        let at: int = p.code.len() as int + g.len() as int;
        assert(r.patches =~= p.patches.push((at as usize, cases[n - 1].1)));
        assert(r.code.subrange(at - g.len(), at + 4) =~= g + stub);
        assert(r.code.subrange(0, m.code.len() as int) =~= p.code.subrange(0, m.code.len() as int));
        assert(r.patches.subrange(0, base) =~= p.patches.subrange(0, base));
        assert forall|k: int| 0 <= k < n - 1 implies {
            let at = (#[trigger] r.patches[base + k]).0 as int;
            let g = case_compare(cases[k].0);
            r.code.subrange(at - g.len(), at + 4) == p.code.subrange(at - g.len(), at + 4)
        } by {
            let at = r.patches[base + k].0 as int;
            let g = case_compare(cases[k].0);
            assert(r.patches[base + k] == p.patches[base + k]);
            assert(r.code.subrange(at - g.len(), at + 4) =~= p.code.subrange(at - g.len(), at + 4));
        }
    }
}

/// The last `n` arguments pushed, last first, so that the first argument ends
/// up on top.
pub open spec fn args_code(m: EmitterModel, args: Seq<Operand>, layout: Seq<u32>, n: int) -> EmitterModel
    decreases n,
{
    if n <= 0 {
        m
    } else {
        operand_code(args_code(m, args, layout, n - 1), args[args.len() - n], layout)
    }
}

pub open spec fn terminator_code(m: EmitterModel, t: Terminator, layout: Seq<u32>) -> EmitterModel {
    match t {
        Terminator::Return => m.op(Opcode::STOP),
        Terminator::Unreachable => m.op(Opcode::INVALID),
        Terminator::Goto(target) => m.jump_to(target, Opcode::JUMP),
        Terminator::SwitchInt { discr, cases, otherwise } => cases_code(
            operand_code(m, discr, layout),
            cases@,
            cases@.len() as int,
        ).op(Opcode::POP).jump_to(otherwise, Opcode::JUMP),
        Terminator::Call { intrinsic, args, returns_unit, destination, target } => {
            let called = args_code(m, args@, layout, args@.len() as int).op(intrinsic.unwrap());
            let stored = if returns_unit {
                called
            } else {
                called.push(slot_word(layout, destination)).op(Opcode::MSTORE)
            };
            match target {
                Some(next) => stored.jump_to(next, Opcode::JUMP),
                None => stored,
            }
        },
        Terminator::Other => m,
    }
}

pub open spec fn block_code(m: EmitterModel, b: BasicBlockData, layout: Seq<u32>) -> EmitterModel {
    let after = statements_code(m, b.statements@, layout, b.statements@.len() as int);
    match b.terminator {
        Some(t) => terminator_code(after, t, layout),
        None => after,
    }
}

/// The first `n` blocks, in index order.
pub open spec fn blocks_code(m: EmitterModel, blocks: Seq<BasicBlockData>, layout: Seq<u32>, n: int) -> EmitterModel
    decreases n,
{
    if n <= 0 {
        m
    } else {
        block_code(blocks_code(m, blocks, layout, n - 1), blocks[n - 1], layout)
    }
}

/// Each local lives in its own slot: reading it pushes the slot's byte
/// offset, 32 times its slot number, and loads with `MLOAD` (0x51); assigning
/// to it computes the value, pushes the same offset and stores with `MSTORE`
/// (0x52).
pub proof fn lemma_locals_live_in_their_slots(m: EmitterModel, local: usize, r: Rvalue, layout: Seq<u32>)
    requires
        local < layout.len(),
    ensures
        ({
            let offset = u128_word((32 * layout[local as int]) as u128);
            &&& operand_code(m, Operand::Copy(local), layout).code == m.code + push_encoding(offset) + seq![0x51u8]
            &&& operand_code(m, Operand::Move(local), layout).code == m.code + push_encoding(offset) + seq![0x51u8]
            &&& assign_code(m, local, r, layout).code == rvalue_code(m, r, layout).code + push_encoding(offset)
                + seq![0x52u8]
        }),
{
    let offset = u128_word((32 * layout[local as int]) as u128);
    assert(operand_code(m, Operand::Copy(local), layout).code =~= m.code + push_encoding(offset) + seq![0x51u8]);
    assert(operand_code(m, Operand::Move(local), layout).code =~= m.code + push_encoding(offset) + seq![0x51u8]);
    assert(assign_code(m, local, r, layout).code =~= rvalue_code(m, r, layout).code + push_encoding(offset) + seq![
        0x52u8,
    ]);
}

/// A call to an intrinsic pushes its arguments, then executes the intrinsic's
/// opcode; unless the callee returns `()` its result is stored with `MSTORE`
/// into the destination local's slot; then, if the call returns to a block,
/// a `JUMP` to that block follows, its target the last one recorded.
pub proof fn lemma_calls_store_their_result_then_continue(
    m: EmitterModel,
    intrinsic: Opcode,
    args: Vec<Operand>,
    returns_unit: bool,
    destination: usize,
    target: Option<u32>,
    layout: Seq<u32>,
)
    requires
        destination < layout.len(),
        terminator_code(
            m,
            Terminator::Call { intrinsic: Some(intrinsic), args, returns_unit, destination, target },
            layout,
        ).code.len() <= usize::MAX,
    ensures
        ({
            let r = terminator_code(
                m,
                Terminator::Call { intrinsic: Some(intrinsic), args, returns_unit, destination, target },
                layout,
            );
            let pushed = args_code(m, args@, layout, args@.len() as int);
            let stored = if returns_unit {
                Seq::<u8>::empty()
            } else {
                push_encoding(u128_word((32 * layout[destination as int]) as u128)) + seq![0x52u8]
            };
            &&& r.code == match target {
                Some(_) => pushed.code + seq![opcode_byte(intrinsic)] + stored + seq![0x61u8, 0u8, 0u8, 0x56u8],
                None => pushed.code + seq![opcode_byte(intrinsic)] + stored,
            }
            &&& target matches Some(next) ==> r.patches.len() >= 1 && r.patches.last() == (
                (r.code.len() - 4) as usize,
                next,
            )
            &&& target is None ==> r.patches == pushed.patches
        }),
{
    let t = Terminator::Call { intrinsic: Some(intrinsic), args, returns_unit, destination, target };
    let r = terminator_code(m, t, layout);
    let pushed = args_code(m, args@, layout, args@.len() as int);
    let stored = if returns_unit {
        Seq::<u8>::empty()
    } else {
        push_encoding(u128_word((32 * layout[destination as int]) as u128)) + seq![0x52u8]
    };
    match target {
        Some(_) => {
            assert(r.code =~= pushed.code + seq![opcode_byte(intrinsic)] + stored + seq![0x61u8, 0u8, 0u8, 0x56u8]);
        },
        None => {
            assert(r.code =~= pushed.code + seq![opcode_byte(intrinsic)] + stored);
        },
    }
}

// --- what a block's code depends on ---

/// Loading an operand appends the same bytes whatever was emitted before.
proof fn lemma_operand_code_appends(m: EmitterModel, o: Operand, layout: Seq<u32>)
    ensures
        operand_code(m, o, layout).code == m.code + operand_code(EmitterModel::empty(), o, layout).code,
{
    let e = EmitterModel::empty();
    match o {
        Operand::Copy(l) | Operand::Move(l) => {
            let pe = push_encoding(slot_word(layout, l));
            assert(operand_code(m, o, layout).code =~= (m.code + pe).push(0x51u8));
            assert(operand_code(e, o, layout).code =~= (e.code + pe).push(0x51u8));
            assert((m.code + pe).push(0x51u8) =~= m.code + (e.code + pe).push(0x51u8));
        },
        Operand::Constant(c) => match c {
            Constant::Scalar(v) => {
                assert(e.code + push_encoding(u128_word(v)) =~= push_encoding(u128_word(v)));
            },
            Constant::Other => {
                assert(m.code =~= m.code + e.code);
            },
        },
    }
}

proof fn lemma_rvalue_code_appends(m: EmitterModel, r: Rvalue, layout: Seq<u32>)
    ensures
        rvalue_code(m, r, layout).code == m.code + rvalue_code(EmitterModel::empty(), r, layout).code,
{
    let e = EmitterModel::empty();
    match r {
        Rvalue::Use(o) => {
            lemma_operand_code_appends(m, o, layout);
        },
        Rvalue::BinaryOp(op, a, b) => {
            let mb = operand_code(m, b, layout);
            let eb = operand_code(e, b, layout);
            lemma_operand_code_appends(m, b, layout);
            lemma_operand_code_appends(mb, a, layout);
            lemma_operand_code_appends(eb, a, layout);
            let sa = operand_code(e, a, layout).code;
            let x = opcode_byte(binop_opcode(op));
            assert((mb.code + sa).push(x) =~= m.code + (eb.code + sa).push(x));
        },
        Rvalue::UnaryOp(op, o) => {
            let mo = operand_code(m, o, layout);
            let eo = operand_code(e, o, layout);
            lemma_operand_code_appends(m, o, layout);
            let z = push_encoding(u128_word(0));
            assert(mo.code.push(0x19u8) =~= m.code + eo.code.push(0x19u8));
            assert((mo.code + z).push(0x03u8) =~= m.code + (eo.code + z).push(0x03u8));
        },
        Rvalue::Other => {
            assert(m.code =~= m.code + e.code);
        },
    }
}

proof fn lemma_assign_code_appends(m: EmitterModel, local: usize, r: Rvalue, layout: Seq<u32>)
    ensures
        assign_code(m, local, r, layout).code == m.code + assign_code(EmitterModel::empty(), local, r, layout).code,
{
    let e = EmitterModel::empty();
    lemma_rvalue_code_appends(m, r, layout);
    let sr = rvalue_code(e, r, layout).code;
    let ps = push_encoding(slot_word(layout, local));
    assert((m.code + sr + ps).push(0x52u8) =~= m.code + (sr + ps).push(0x52u8));
    assert(rvalue_code(e, r, layout).code =~= e.code + sr);
}

proof fn lemma_statements_code_appends(m: EmitterModel, stmts: Seq<Statement>, layout: Seq<u32>, n: int)
    ensures
        statements_code(m, stmts, layout, n).code == m.code + statements_code(
            EmitterModel::empty(),
            stmts,
            layout,
            n,
        ).code,
    decreases n,
{
    let e = EmitterModel::empty();
    if n <= 0 {
        assert(m.code =~= m.code + e.code);
    } else {
        lemma_statements_code_appends(m, stmts, layout, n - 1);
        let pm = statements_code(m, stmts, layout, n - 1);
        let pe = statements_code(e, stmts, layout, n - 1);
        match stmts[n - 1] {
            Statement::Assign { local, rvalue } => {
                lemma_assign_code_appends(pm, local, rvalue, layout);
                lemma_assign_code_appends(pe, local, rvalue, layout);
                let sa = assign_code(e, local, rvalue, layout).code;
                assert(pm.code + sa =~= m.code + (pe.code + sa));
            },
            _ => {},
        }
    }
}

proof fn lemma_cases_code_appends(m: EmitterModel, cases: Seq<(u128, u32)>, n: int)
    ensures
        cases_code(m, cases, n).code == m.code + cases_code(EmitterModel::empty(), cases, n).code,
    decreases n,
{
    let e = EmitterModel::empty();
    if n <= 0 {
        assert(m.code =~= m.code + e.code);
    } else {
        lemma_cases_code_appends(m, cases, n - 1);
        let pm = cases_code(m, cases, n - 1).code;
        let pe = cases_code(e, cases, n - 1).code;
        let g = case_compare(cases[n - 1].0) + jump_stub(Opcode::JUMPI);
        assert(cases_code(m, cases, n).code =~= pm + g);
        assert(cases_code(e, cases, n).code =~= pe + g);
        assert(pm + g =~= m.code + (pe + g));
    }
}

proof fn lemma_args_code_appends(m: EmitterModel, args: Seq<Operand>, layout: Seq<u32>, n: int)
    ensures
        args_code(m, args, layout, n).code == m.code + args_code(EmitterModel::empty(), args, layout, n).code,
    decreases n,
{
    let e = EmitterModel::empty();
    if n <= 0 {
        assert(m.code =~= m.code + e.code);
    } else {
        lemma_args_code_appends(m, args, layout, n - 1);
        let pm = args_code(m, args, layout, n - 1);
        let pe = args_code(e, args, layout, n - 1);
        let o = args[args.len() - n];
        lemma_operand_code_appends(pm, o, layout);
        lemma_operand_code_appends(pe, o, layout);
        let so = operand_code(e, o, layout).code;
        assert(pm.code + so =~= m.code + (pe.code + so));
    }
}

proof fn lemma_terminator_code_appends(m: EmitterModel, t: Terminator, layout: Seq<u32>)
    ensures
        terminator_code(m, t, layout).code == m.code + terminator_code(EmitterModel::empty(), t, layout).code,
{
    let e = EmitterModel::empty();
    match t {
        Terminator::Return => {
            assert(m.code.push(0x00u8) =~= m.code + e.code.push(0x00u8));
        },
        Terminator::Unreachable => {
            assert(m.code.push(0xfeu8) =~= m.code + e.code.push(0xfeu8));
        },
        Terminator::Goto(target) => {
            assert(m.code + jump_stub(Opcode::JUMP) =~= m.code + (e.code + jump_stub(Opcode::JUMP)));
        },
        Terminator::SwitchInt { discr, cases, otherwise } => {
            let dm = operand_code(m, discr, layout);
            let de = operand_code(e, discr, layout);
            lemma_operand_code_appends(m, discr, layout);
            lemma_cases_code_appends(dm, cases@, cases@.len() as int);
            lemma_cases_code_appends(de, cases@, cases@.len() as int);
            let sc = cases_code(e, cases@, cases@.len() as int).code;
            let tail = seq![0x50u8] + jump_stub(Opcode::JUMP);
            assert(terminator_code(m, t, layout).code =~= dm.code + sc + tail);
            assert(terminator_code(e, t, layout).code =~= de.code + sc + tail);
            assert(dm.code + sc + tail =~= m.code + (de.code + sc + tail));
        },
        Terminator::Call { intrinsic, args, returns_unit, destination, target } => {
            let am = args_code(m, args@, layout, args@.len() as int);
            let ae = args_code(e, args@, layout, args@.len() as int);
            lemma_args_code_appends(m, args@, layout, args@.len() as int);
            let rest = seq![opcode_byte(intrinsic.unwrap())] + (if returns_unit {
                Seq::<u8>::empty()
            } else {
                push_encoding(slot_word(layout, destination)) + seq![0x52u8]
            }) + (match target {
                Some(next) => jump_stub(Opcode::JUMP),
                None => Seq::<u8>::empty(),
            });
            assert(terminator_code(m, t, layout).code =~= am.code + rest);
            assert(terminator_code(e, t, layout).code =~= ae.code + rest);
            assert(am.code + rest =~= m.code + (ae.code + rest));
        },
        Terminator::Other => {
            assert(m.code =~= m.code + e.code);
        },
    }
}

proof fn lemma_block_code_appends(m: EmitterModel, b: BasicBlockData, layout: Seq<u32>)
    ensures
        block_code(m, b, layout).code == m.code + block_code(EmitterModel::empty(), b, layout).code,
{
    let e = EmitterModel::empty();
    let n = b.statements@.len() as int;
    lemma_statements_code_appends(m, b.statements@, layout, n);
    let sm = statements_code(m, b.statements@, layout, n);
    let se = statements_code(e, b.statements@, layout, n);
    match b.terminator {
        Some(t) => {
            lemma_terminator_code_appends(sm, t, layout);
            lemma_terminator_code_appends(se, t, layout);
            let st = terminator_code(e, t, layout).code;
            assert(sm.code + st =~= m.code + (se.code + st));
        },
        None => {},
    }
}

/// A body's blocks are emitted in index order, each exactly as it would be
/// emitted alone: the code of the first `n` blocks is the code of the first
/// `n - 1` followed by that of block `n - 1`, so what came before is kept, and
/// block 0's code comes first, right where the body's code begins.
pub proof fn lemma_blocks_are_emitted_in_order(m: EmitterModel, blocks: Seq<BasicBlockData>, layout: Seq<u32>, n: int)
    requires
        1 <= n <= blocks.len(),
    ensures
        blocks_code(m, blocks, layout, n).code == blocks_code(m, blocks, layout, n - 1).code + block_code(
            EmitterModel::empty(),
            blocks[n - 1],
            layout,
        ).code,
        ({
            let first = block_code(EmitterModel::empty(), blocks[0], layout).code;
            let all = blocks_code(m, blocks, layout, n).code;
            &&& m.code.len() + first.len() <= all.len()
            &&& all.subrange(m.code.len() as int, (m.code.len() + first.len()) as int) == first
        }),
    decreases n,
{
    lemma_block_code_appends(blocks_code(m, blocks, layout, n - 1), blocks[n - 1], layout);
    let first = block_code(EmitterModel::empty(), blocks[0], layout).code;
    let all = blocks_code(m, blocks, layout, n).code;
    if n == 1 {
        assert(all.subrange(m.code.len() as int, (m.code.len() + first.len()) as int) =~= first);
    } else {
        lemma_blocks_are_emitted_in_order(m, blocks, layout, n - 1);
        let prev = blocks_code(m, blocks, layout, n - 1).code;
        assert(all.subrange(m.code.len() as int, (m.code.len() + first.len()) as int) =~= prev.subrange(
            m.code.len() as int,
            (m.code.len() + first.len()) as int,
        ));
    }
}

/// Negation and complement lower to code that computes them: after the
/// operand's code, `Neg` pushes the word zero and ends with the opcode that,
/// with zero on top and `x` under it, gives `0 - x` modulo 2^256 for every
/// word `x`; `Not` ends with `NOT` (0x19), which flips all 256 bits.
pub proof fn lemma_unops_compute_their_operation(m: EmitterModel, o: Operand, layout: Seq<u32>, x: nat)
    requires
        x < word_modulus(),
    ensures
        ({
            let code = rvalue_code(m, Rvalue::UnaryOp(UnOp::Neg, o), layout).code;
            &&& code.len() >= 1
            &&& code == (operand_code(m, o, layout).code + push_encoding(u128_word(0))).push(code.last())
            &&& binary_result(code.last(), 0, x) == (0 - x) % word_modulus()
        }),
        rvalue_code(m, Rvalue::UnaryOp(UnOp::Not, o), layout).code == operand_code(m, o, layout).code.push(
            0x19u8,
        ),
{
}

/// A call's arguments are pushed last first, each as it would be alone, so
/// that the first argument ends up on top: the last argument's code comes
/// right after what was emitted before, and the first argument's code comes
/// last.
pub proof fn lemma_call_arguments_are_pushed_last_first(m: EmitterModel, args: Seq<Operand>, layout: Seq<u32>, n: int)
    requires
        1 <= n <= args.len(),
    ensures
        args_code(m, args, layout, n).code == args_code(m, args, layout, n - 1).code + operand_code(
            EmitterModel::empty(),
            args[args.len() - n],
            layout,
        ).code,
        ({
            let last = operand_code(EmitterModel::empty(), args[args.len() - 1], layout).code;
            let all = args_code(m, args, layout, n).code;
            &&& m.code.len() + last.len() <= all.len()
            &&& all.subrange(m.code.len() as int, (m.code.len() + last.len()) as int) == last
        }),
        n == args.len() ==> args_code(m, args, layout, n).code == args_code(m, args, layout, n - 1).code
            + operand_code(EmitterModel::empty(), args[0], layout).code,
    decreases n,
{
    lemma_operand_code_appends(args_code(m, args, layout, n - 1), args[args.len() - n], layout);
    let last = operand_code(EmitterModel::empty(), args[args.len() - 1], layout).code;
    let all = args_code(m, args, layout, n).code;
    if n == 1 {
        assert(all.subrange(m.code.len() as int, (m.code.len() + last.len()) as int) =~= last);
    } else {
        lemma_call_arguments_are_pushed_last_first(m, args, layout, n - 1);
        let prev = args_code(m, args, layout, n - 1).code;
        assert(all.subrange(m.code.len() as int, (m.code.len() + last.len()) as int) =~= prev.subrange(
            m.code.len() as int,
            (m.code.len() + last.len()) as int,
        ));
    }
}

/// When no case matches, a switch drops the discriminant and jumps to its
/// `otherwise` block: its code ends with `POP` and a `JUMP` whose pending
/// target, the last one recorded, is `otherwise`.
pub proof fn lemma_switch_falls_through_to_otherwise(
    m: EmitterModel,
    discr: Operand,
    cases: Vec<(u128, u32)>,
    otherwise: u32,
    layout: Seq<u32>,
)
    requires
        terminator_code(m, Terminator::SwitchInt { discr, cases, otherwise }, layout).code.len() <= usize::MAX,
    ensures
        ({
            let r = terminator_code(m, Terminator::SwitchInt { discr, cases, otherwise }, layout);
            &&& r.code.len() >= 5
            &&& r.code.subrange(r.code.len() - 5, r.code.len() as int) == seq![0x50u8, 0x61u8, 0u8, 0u8, 0x56u8]
            &&& r.patches.len() >= 1
            &&& r.patches.last() == ((r.code.len() - 4) as usize, otherwise)
        }),
{
    let r = terminator_code(m, Terminator::SwitchInt { discr, cases, otherwise }, layout);
    let c = cases_code(operand_code(m, discr, layout), cases@, cases@.len() as int);
    assert(r.code =~= c.code + seq![0x50u8, 0x61u8, 0u8, 0u8, 0x56u8]);
    assert(r.code.subrange(r.code.len() - 5, r.code.len() as int) =~= seq![0x50u8, 0x61u8, 0u8, 0u8, 0x56u8]);
}

// --- lowering ---

/// The word holding the offset of `local`'s slot.
fn slot_value(layout: &EvmLayout, local: usize) -> (r: U256)
    requires
        slot_ok(layout@, local),
    ensures
        r@ == slot_word(layout@, local),
{
    let slot = layout.slot_of(local);
    word_of(slot as u128)
}

pub fn lower_operand(operand: &Operand, layout: &EvmLayout, emitter: &mut Emitter)
    requires
        old(emitter)@.wf(),
        operand_ok(*operand, layout@),
    ensures
        final(emitter)@ == operand_code(old(emitter)@, *operand, layout@),
        final(emitter)@.wf(),
{
    match operand {
        Operand::Copy(local) | Operand::Move(local) => {
            emitter.push_u256(slot_value(layout, *local));
            emitter.op(Opcode::MLOAD);
        },
        Operand::Constant(constant) => {
            lower_constant(constant, emitter);
        },
    }
}

/// A scalar constant, zero-extended from 128 bits to a word.
pub fn lower_constant(constant: &Constant, emitter: &mut Emitter)
    requires
        old(emitter)@.wf(),
        *constant is Scalar,
    ensures
        final(emitter)@ == old(emitter)@.push(u128_word(constant->Scalar_0)),
        final(emitter)@.wf(),
{
    match constant {
        Constant::Scalar(v) => emitter.push_u256(word_of(*v)),
        Constant::Other => {},
    }
}

fn binop_code(op: BinOp) -> (r: Opcode)
    requires
        op != BinOp::Other,
    ensures
        r == binop_opcode(op),
{
    match op {
        BinOp::Add => Opcode::ADD,
        BinOp::Sub => Opcode::SUB,
        BinOp::Mul => Opcode::MUL,
        BinOp::Div => Opcode::DIV,
        BinOp::Rem => Opcode::MOD,
        BinOp::BitAnd => Opcode::AND,
        BinOp::BitOr => Opcode::OR,
        BinOp::BitXor => Opcode::XOR,
        BinOp::Shl => Opcode::SHL,
        BinOp::Shr => Opcode::SHR,
        BinOp::Eq => Opcode::EQ,
        BinOp::Lt => Opcode::LT,
        _ => Opcode::GT,
    }
}

/// `local = rvalue`: compute the value onto the stack, then store it into
/// the local's slot.
pub fn lower_assign(local: usize, rvalue: &Rvalue, layout: &EvmLayout, emitter: &mut Emitter)
    requires
        old(emitter)@.wf(),
        slot_ok(layout@, local),
        rvalue_ok(*rvalue, layout@),
    ensures
        final(emitter)@ == assign_code(old(emitter)@, local, *rvalue, layout@),
        final(emitter)@.wf(),
{
    match rvalue {
        Rvalue::Use(operand) => {
            lower_operand(operand, layout, emitter);
        },
        Rvalue::BinaryOp(op, lhs, rhs) => {
            lower_operand(rhs, layout, emitter);
            lower_operand(lhs, layout, emitter);
            emitter.op(binop_code(*op));
        },
        Rvalue::UnaryOp(op, operand) => {
            lower_operand(operand, layout, emitter);
            match op {
                UnOp::Not => emitter.op(Opcode::NOT),
                _ => {
                    // The EVM has no negation: with the stack [x, 0], SUB
                    // computes 0 - x.
                    emitter.push_u256(word_of(0));
                    emitter.op(Opcode::SUB);
                },
            }
        },
        Rvalue::Other => {},
    }
    emitter.push_u256(slot_value(layout, local));
    emitter.op(Opcode::MSTORE);
}

/// A chain of `EQ`/`JUMPI` pairs, one per case, then the default jump.
pub fn lower_switch(
    discr: &Operand,
    cases: &[(u128, u32)],
    otherwise: u32,
    layout: &EvmLayout,
    emitter: &mut Emitter,
)
    requires
        old(emitter)@.wf(),
        operand_ok(*discr, layout@),
    ensures
        final(emitter)@ == cases_code(operand_code(old(emitter)@, *discr, layout@), cases@, cases@.len() as int).op(
            Opcode::POP,
        ).jump_to(otherwise, Opcode::JUMP),
        final(emitter)@.wf(),
{
    lower_operand(discr, layout, emitter);
    let ghost start = emitter@;
    let mut k: usize = 0;
    while k < cases.len()
        invariant
            k <= cases@.len(),
            emitter@.wf(),
            emitter@ == cases_code(start, cases@, k as int),
        decreases cases@.len() - k,
    {
        let (value, target) = cases[k];
        // The stack holds the discriminant.
        emitter.op(Opcode::DUP1);
        emitter.push_u256(word_of(value));
        emitter.op(Opcode::EQ);
        emitter.jumpi(target);
        k += 1;
    }
    // Discard the discriminant and fall through to the default.
    emitter.op(Opcode::POP);
    emitter.jump(otherwise);
}

/// A call to a recognised intrinsic: its arguments pushed last first, its
/// opcode, its result stored unless it returns `()`, then a jump on.
pub fn lower_call(
    intrinsic: Option<Opcode>,
    args: &[Operand],
    returns_unit: bool,
    destination: usize,
    target: Option<u32>,
    layout: &EvmLayout,
    emitter: &mut Emitter,
)
    requires
        old(emitter)@.wf(),
        intrinsic is Some,
        forall|i: int| 0 <= i < args@.len() ==> operand_ok(#[trigger] args@[i], layout@),
        !returns_unit ==> slot_ok(layout@, destination),
    ensures
        final(emitter)@ == ({
            let called = args_code(old(emitter)@, args@, layout@, args@.len() as int).op(intrinsic.unwrap());
            let stored = if returns_unit {
                called
            } else {
                called.push(slot_word(layout@, destination)).op(Opcode::MSTORE)
            };
            match target {
                Some(next) => stored.jump_to(next, Opcode::JUMP),
                None => stored,
            }
        }),
        final(emitter)@.wf(),
{
    let opcode = match intrinsic {
        Some(o) => o,
        None => Opcode::INVALID,
    };
    let ghost start = emitter@;
    let mut n: usize = 0;
    while n < args.len()
        invariant
            n <= args@.len(),
            emitter@.wf(),
            emitter@ == args_code(start, args@, layout@, n as int),
            forall|i: int| 0 <= i < args@.len() ==> operand_ok(#[trigger] args@[i], layout@),
        decreases args@.len() - n,
    {
        lower_operand(&args[args.len() - 1 - n], layout, emitter);
        n += 1;
    }
    emitter.op(opcode);
    if !returns_unit {
        emitter.push_u256(slot_value(layout, destination));
        emitter.op(Opcode::MSTORE);
    }
    if let Some(next) = target {
        emitter.jump(next);
    }
}

pub fn lower_terminator(terminator: &Terminator, layout: &EvmLayout, emitter: &mut Emitter)
    requires
        old(emitter)@.wf(),
        terminator_ok(*terminator, layout@),
    ensures
        final(emitter)@ == terminator_code(old(emitter)@, *terminator, layout@),
        final(emitter)@.wf(),
{
    match terminator {
        Terminator::Return => {
            // The return-value convention belongs to a wrapper; the body stops.
            emitter.op(Opcode::STOP);
        },
        Terminator::Unreachable => emitter.op(Opcode::INVALID),
        Terminator::Goto(target) => emitter.jump(*target),
        Terminator::SwitchInt { discr, cases, otherwise } => {
            lower_switch(discr, cases.as_slice(), *otherwise, layout, emitter);
        },
        Terminator::Call { intrinsic, args, returns_unit, destination, target } => {
            lower_call(*intrinsic, args.as_slice(), *returns_unit, *destination, *target, layout, emitter);
        },
        Terminator::Other => {},
    }
}

/// A block's statements in order, then its terminator. Storage markers and
/// other statements that generate no code are skipped: memory is laid out
/// statically.
pub fn lower_basic_block(bb: &BasicBlockData, layout: &EvmLayout, emitter: &mut Emitter)
    requires
        old(emitter)@.wf(),
        block_ok(*bb, layout@),
    ensures
        final(emitter)@ == block_code(old(emitter)@, *bb, layout@),
        final(emitter)@.wf(),
{
    let ghost start = emitter@;
    let mut i: usize = 0;
    while i < bb.statements.len()
        invariant
            i <= bb.statements@.len(),
            emitter@.wf(),
            emitter@ == statements_code(start, bb.statements@, layout@, i as int),
            block_ok(*bb, layout@),
        decreases bb.statements@.len() - i,
    {
        match &bb.statements[i] {
            Statement::Assign { local, rvalue } => {
                lower_assign(*local, rvalue, layout, emitter);
            },
            _ => {},
        }
        i += 1;
    }
    if let Some(terminator) = &bb.terminator {
        lower_terminator(terminator, layout, emitter);
    }
}

/// Every block of `body`, in index order.
pub fn lower_body(body: &Body, layout: &EvmLayout, emitter: &mut Emitter)
    requires
        old(emitter)@.wf(),
        forall|i: int| 0 <= i < body.blocks@.len() ==> block_ok(#[trigger] body.blocks@[i], layout@),
    ensures
        final(emitter)@ == blocks_code(old(emitter)@, body.blocks@, layout@, body.blocks@.len() as int),
        final(emitter)@.wf(),
{
    let ghost start = emitter@;
    let mut i: usize = 0;
    while i < body.blocks.len()
        invariant
            i <= body.blocks@.len(),
            emitter@.wf(),
            emitter@ == blocks_code(start, body.blocks@, layout@, i as int),
            forall|j: int| 0 <= j < body.blocks@.len() ==> block_ok(#[trigger] body.blocks@[j], layout@),
        decreases body.blocks@.len() - i,
    {
        lower_basic_block(&body.blocks[i], layout, emitter);
        i += 1;
    }
}

/// Lower one function body: each local gets a slot, and the blocks are
/// emitted in order into a fresh emitter.
pub fn codegen_fn(body: &Body) -> (r: Emitter)
    requires
        body_ok(*body),
    ensures
        r@ == blocks_code(
            EmitterModel { code: Seq::empty(), marks: Map::empty(), patches: Seq::empty() },
            body.blocks@,
            Seq::new(body.local_count as u32 as nat, |n: int| n as u32),
            body.blocks@.len() as int,
        ),
        r@.wf(),
{
    let layout = EvmLayout::for_body(body.local_count);
    let mut emitter = Emitter::new();
    lower_body(body, &layout, &mut emitter);
    emitter
}

} // verus!
