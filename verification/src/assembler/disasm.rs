//! The assembler run backwards: bytecode in, instructions out.
//!
//! Decoding has to start at offset zero and walk forwards, because a `PUSH`'s
//! immediate is indistinguishable from code by inspection — the same byte
//! means `JUMPDEST` in one position and `0x5b` of data in another. That is
//! also why [`jumpdests`] exists: scanning for `0x5b` finds targets the EVM
//! will reject.
//!
//! Output is not guaranteed to reassemble to the same bytes: [`Asm::push`]
//! narrows an immediate, so a `PUSH2 0x0001`, as a label reference is
//! emitted, comes back as `PUSH1 0x01`. Code the assembler built with `op`,
//! `push`, `dup` and `swap` alone does reassemble to itself
//! ([`lemma_plain_code_reassembles`]).
//!
//! [`Asm::push`]: crate::assembler::Asm::push

use vstd::prelude::*;

use super::{push_with, word_width, AsmModel, Label};
use crate::isa::table::spec_by_byte;
use crate::isa::Fork;
use crate::isa::{by_byte, form_of_byte, op_form, spec_by_mnemonic, OpForm, OpSpec};
use crate::text::{decimal, hex_padded, push_decimal, push_hex_padded};

verus! {

/// What a byte with no entry in the table is called. Not a real mnemonic:
/// the EVM simply aborts on an opcode it does not recognise. (`0xfe` is the
/// designated invalid opcode and is in the table.)
pub const UNKNOWN: &'static str = "INVALID";

/// Immediate bytes the opcode `b` carries: `n` for `PUSH{n}`, else zero.
pub open spec fn immediate_len(b: u8) -> nat {
    match form_of_byte(b) {
        OpForm::Push(n) => n as nat,
        _ => 0,
    }
}

/// The immediate bytes actually present for an instruction at `pc`.
pub open spec fn present_len(code: Seq<u8>, pc: int) -> int {
    let wanted = immediate_len(code[pc]) as int;
    let left = code.len() - pc - 1;
    if wanted <= left {
        wanted
    } else {
        left
    }
}

/// Where the instruction after the one at `pc` starts.
pub open spec fn next_pc(code: Seq<u8>, pc: int) -> int {
    pc + 1 + present_len(code, pc)
}

/// The offsets at which instructions start, decoding from `pc`.
pub open spec fn starts_from(code: Seq<u8>, pc: int) -> Seq<int>
    decreases code.len() - pc,
{
    if pc < 0 || pc >= code.len() {
        seq![]
    } else {
        seq![pc] + starts_from(code, next_pc(code, pc))
    }
}

/// The starts, decoding from `pc`, of the instructions that are `JUMPDEST`s.
pub open spec fn jumpdests_from(code: Seq<u8>, pc: int) -> Seq<int>
    decreases code.len() - pc,
{
    if pc < 0 || pc >= code.len() {
        seq![]
    } else if code[pc] == 0x5b {
        seq![pc] + jumpdests_from(code, next_pc(code, pc))
    } else {
        jumpdests_from(code, next_pc(code, pc))
    }
}

/// Two hex digits per byte.
pub open spec fn bytes_hex(b: Seq<u8>) -> Seq<char>
    decreases b.len(),
{
    if b.len() == 0 {
        seq![]
    } else {
        bytes_hex(b.drop_last()) + hex_padded(b.last() as nat, 2)
    }
}

/// How an instruction reads in a listing: offset, mnemonic, then the byte
/// itself for an opcode the table lacks, or the immediate and a note when it
/// was cut short.
pub open spec fn instruction_text(
    pc: nat,
    opcode: u8,
    spec: Option<OpSpec>,
    immediate: Seq<u8>,
    truncated: bool,
    wanted: nat,
) -> Seq<char> {
    let head = hex_padded(pc, 4) + "  "@ + match spec {
        Some(s) => s.mnemonic@,
        None => UNKNOWN@,
    };
    if spec is None {
        head + " 0x"@ + hex_padded(opcode as nat, 2)
    } else {
        head + (if immediate.len() > 0 {
            " 0x"@ + bytes_hex(immediate)
        } else {
            seq![]
        }) + (if truncated {
            " (truncated, "@ + decimal((wanted - immediate.len()) as nat) + " byte(s) missing)"@
        } else {
            seq![]
        })
    }
}

/// The listing of `code` from `pc` on: each instruction's text and a newline.
pub open spec fn listing_from(code: Seq<u8>, pc: int) -> Seq<char>
    decreases code.len() - pc,
{
    if pc < 0 || pc >= code.len() {
        seq![]
    } else {
        instruction_text(
            pc as nat,
            code[pc],
            spec_by_byte(code[pc]),
            code.subrange(pc + 1, next_pc(code, pc)),
            present_len(code, pc) < immediate_len(code[pc]),
            immediate_len(code[pc]),
        ) + "\n"@ + listing_from(code, next_pc(code, pc))
    }
}

/// One decoded instruction.
#[derive(Debug, Clone, PartialEq, Eq)]
pub struct Instruction<'a> {
    /// Offset of the opcode byte.
    pub pc: usize,
    pub opcode: u8,
    /// `None` for a byte the table has no entry for.
    pub spec: Option<OpSpec>,
    /// A `PUSH`'s immediate, borrowed from the code. Empty for everything
    /// else, including `PUSH0`.
    pub immediate: &'a [u8],
    /// Set when the code ended mid-immediate: `immediate` holds the bytes that
    /// were actually there, fewer than the opcode called for.
    pub truncated: bool,
}

impl<'a> Instruction<'a> {
    /// Immediate width the opcode carries, as a spec value.
    pub open spec fn wanted(&self) -> nat {
        match self.spec {
            Some(s) => immediate_len(s.byte),
            None => 0,
        }
    }

    /// How this instruction reads in a listing.
    pub open spec fn text(&self) -> Seq<char> {
        instruction_text(
            self.pc as nat,
            self.opcode,
            self.spec,
            self.immediate@,
            self.truncated,
            self.wanted(),
        )
    }

    /// The instruction as a listing line, without the newline:
    /// `0004  PUSH4 0xaa (truncated, 3 byte(s) missing)`.
    pub fn to_string(&self) -> (r: String)
        requires
            self.truncated ==> self.immediate@.len() <= self.wanted(),
        ensures
            r@ == self.text(),
    {
        let mut s = String::new();
        push_hex_padded(&mut s, self.pc as u64, 4);
        s.append("  ");
        s.append(self.mnemonic());
        if self.spec.is_none() {
            s.append(" 0x");
            push_hex_padded(&mut s, self.opcode as u64, 2);
            return s;
        }
        let ghost head = s@;
        if self.immediate.len() > 0 {
            s.append(" 0x");
            let ghost mid = s@;
            let mut i: usize = 0;
            while i < self.immediate.len()
                invariant
                    i <= self.immediate@.len(),
                    s@ == mid + bytes_hex(self.immediate@.subrange(0, i as int)),
                decreases self.immediate@.len() - i,
            {
                push_hex_padded(&mut s, self.immediate[i] as u64, 2);
                i += 1;
                assert(self.immediate@.subrange(0, i as int).drop_last() =~= self.immediate@.subrange(0, i - 1));
            }
            assert(self.immediate@.subrange(0, i as int) =~= self.immediate@);
        }
        let ghost body = s@;
        if self.truncated {
            s.append(" (truncated, ");
            push_decimal(&mut s, self.missing() as u64);
            s.append(" byte(s) missing)");
        }
        assert(s@ =~= self.text());
        s
    }

    /// The mnemonic, or [`UNKNOWN`] for a byte not in the table.
    pub fn mnemonic(&self) -> (r: &'static str)
        ensures
            r == match self.spec {
                Some(s) => s.mnemonic,
                None => UNKNOWN,
            },
    {
        match self.spec {
            Some(spec) => spec.mnemonic,
            None => UNKNOWN,
        }
    }

    /// Bytes this instruction occupies: the opcode plus whatever immediate
    /// was present.
    pub fn size(&self) -> (r: usize)
        requires
            self.immediate@.len() < usize::MAX,
        ensures
            r == 1 + self.immediate@.len(),
    {
        1 + self.immediate.len()
    }

    /// Immediate bytes the opcode called for but the code did not have.
    pub fn missing(&self) -> (r: usize)
        requires
            self.immediate@.len() <= self.wanted(),
        ensures
            r == self.wanted() - self.immediate@.len(),
    {
        self.immediate_width() - self.immediate.len()
    }

    /// Immediate width this opcode carries: `n` for `PUSH{n}`, zero otherwise.
    pub fn immediate_width(&self) -> (r: usize)
        ensures
            r == self.wanted(),
    {
        match self.spec {
            Some(spec) => match op_form(spec) {
                OpForm::Push(n) => n as usize,
                _ => 0,
            },
            None => 0,
        }
    }
}

/// Decodes instructions from offset zero, one [`next`](Instructions::next)
/// at a time. See [`disassemble`].
pub struct Instructions<'a> {
    code: &'a [u8],
    pc: usize,
}

impl<'a> Instructions<'a> {
    /// The code being decoded.
    pub closed spec fn code(&self) -> Seq<u8> {
        self.code@
    }

    /// Where the next instruction starts.
    pub closed spec fn position(&self) -> int {
        self.pc as int
    }

    /// The next instruction, or `None` once the code is exhausted.
    ///
    /// Never fails: a byte outside the table decodes with no `spec`, and a
    /// `PUSH` running past the end decodes `truncated`.
    pub fn next(&mut self) -> (r: Option<Instruction<'a>>)
        ensures
            final(self).code() == old(self).code(),
            ({
                let code = old(self).code();
                let pc = old(self).position();
                if pc >= code.len() {
                    r is None && final(self).position() == pc
                } else {
                    &&& r matches Some(ins) && {
                        &&& ins.pc == pc
                        &&& ins.opcode == code[pc]
                        &&& ins.spec == spec_by_byte(code[pc])
                        &&& ins.immediate@ == code.subrange(pc + 1, next_pc(code, pc))
                        &&& ins.truncated == (present_len(code, pc) < immediate_len(code[pc]))
                    }
                    &&& final(self).position() == next_pc(code, pc)
                }
            }),
    {
        if self.pc >= self.code.len() {
            return None;
        }
        let pc = self.pc;
        let opcode = self.code[pc];
        let spec = by_byte(opcode);
        let wanted: usize = match spec {
            Some(s) => match op_form(s) {
                OpForm::Push(n) => n as usize,
                _ => 0,
            },
            None => 0,
        };
        proof {
            if spec_by_byte(opcode) is Some {
                crate::isa::table::lemma_assigned_bytes_are_listed(opcode);
            }
        }
        let from = pc + 1;
        let left = self.code.len() - from;
        let taken = if wanted <= left {
            wanted
        } else {
            left
        };
        self.pc = from + taken;
        Some(
            Instruction {
                pc,
                opcode,
                spec,
                immediate: vstd::slice::slice_subrange(self.code, from, from + taken),
                truncated: taken < wanted,
            },
        )
    }
}

/// `code` rendered one instruction per line. See [`listing`].
pub struct Listing<'a> {
    code: &'a [u8],
}

impl<'a> Listing<'a> {
    /// The code this lists.
    pub closed spec fn code(&self) -> Seq<u8> {
        self.code@
    }

    /// One line per decoded instruction, each ending in a newline.
    pub fn to_string(&self) -> (r: String)
        ensures
            r@ == listing_from(self.code(), 0),
    {
        let mut s = String::new();
        let mut it = disassemble(self.code);
        loop
            invariant
                it.code() == self.code@,
                0 <= it.position(),
                listing_from(self.code@, 0) == s@ + listing_from(self.code@, it.position()),
            ensures
                s@ == listing_from(self.code@, 0),
            decreases self.code@.len() - it.position(),
        {
            let ghost before = s@;
            match it.next() {
                Some(instruction) => {
                    proof {
                        if instruction.truncated {
                            assert(instruction.spec is Some);
                        }
                    }
                    let line = instruction.to_string();
                    s.append(line.as_str());
                    s.append("\n");
                },
                None => {
                    break;
                },
            }
        }
        s
    }
}

/// Render `code` as a listing, one instruction per line.
pub fn listing<'a>(code: &'a [u8]) -> (r: Listing<'a>)
    ensures
        r.code() == code@,
{
    Listing { code }
}

/// Decode `code` from offset zero.
pub fn disassemble<'a>(code: &'a [u8]) -> (r: Instructions<'a>)
    ensures
        r.code() == code@,
        r.position() == 0,
{
    Instructions { code, pc: 0 }
}

/// `ins` is the instruction that starts at `ins.pc` in `code`: its opcode
/// byte, its table entry, its immediate as far as the code goes, and whether
/// the code cut that immediate short.
pub open spec fn decodes<'a>(code: Seq<u8>, ins: Instruction<'a>) -> bool {
    let pc = ins.pc as int;
    &&& 0 <= pc < code.len()
    &&& ins.opcode == code[pc]
    &&& ins.spec == spec_by_byte(code[pc])
    &&& ins.immediate@ == code.subrange(pc + 1, next_pc(code, pc))
    &&& ins.truncated == (present_len(code, pc) < immediate_len(code[pc]))
}

/// Offsets of the instructions in `out`.
pub open spec fn pcs_of<'a>(out: Seq<Instruction<'a>>) -> Seq<int> {
    Seq::new(out.len(), |k: int| out[k].pc as int)
}

/// Every instruction of `code`, in order.
pub fn instructions<'a>(code: &'a [u8]) -> (r: Vec<Instruction<'a>>)
    ensures
        pcs_of(r@) == starts_from(code@, 0),
        forall|k: int| 0 <= k < r@.len() ==> decodes(code@, #[trigger] r@[k]),
{
    let mut it = disassemble(code);
    let mut out: Vec<Instruction<'a>> = Vec::new();
    loop
        invariant
            it.code() == code@,
            0 <= it.position(),
            starts_from(code@, 0) == pcs_of(out@) + starts_from(code@, it.position()),
            forall|k: int| 0 <= k < out@.len() ==> decodes(code@, #[trigger] out@[k]),
        ensures
            pcs_of(out@) == starts_from(code@, 0),
            forall|k: int| 0 <= k < out@.len() ==> decodes(code@, #[trigger] out@[k]),
        decreases code@.len() - it.position(),
    {
        let ghost before = it.position();
        let ghost old_out = out@;
        match it.next() {
            Some(ins) => {
                out.push(ins);
                assert(pcs_of(out@) =~= pcs_of(old_out).push(before));
                assert(starts_from(code@, before) == seq![before] + starts_from(code@, it.position()));
                assert(pcs_of(old_out) + starts_from(code@, before) =~= pcs_of(out@) + starts_from(
                    code@,
                    it.position(),
                ));
            },
            None => {
                assert(pcs_of(out@) + starts_from(code@, it.position()) =~= pcs_of(out@));
                break;
            },
        }
    }
    out
}

/// Offsets in `code` that are legal `JUMP`/`JUMPI` targets: the `JUMPDEST`
/// instructions found decoding from the start. A `0x5b` byte inside a `PUSH`
/// immediate is data and is not reported.
pub fn jumpdests(code: &[u8]) -> (r: Vec<usize>)
    ensures
        r@.map_values(|x: usize| x as int) == jumpdests_from(code@, 0),
{
    let mut it = disassemble(code);
    let mut out: Vec<usize> = Vec::new();
    loop
        invariant
            it.code() == code@,
            0 <= it.position(),
            jumpdests_from(code@, 0) == out@.map_values(|x: usize| x as int) + jumpdests_from(
                code@,
                it.position(),
            ),
        ensures
            out@.map_values(|x: usize| x as int) == jumpdests_from(code@, 0),
        decreases code@.len() - it.position(),
    {
        let ghost before = it.position();
        let ghost old_out = out@;
        match it.next() {
            Some(ins) => {
                if ins.opcode == 0x5b {
                    out.push(ins.pc);
                    assert(out@.map_values(|x: usize| x as int) =~= old_out.map_values(
                        |x: usize| x as int,
                    ).push(before));
                    assert(old_out.map_values(|x: usize| x as int) + jumpdests_from(code@, before)
                        =~= out@.map_values(|x: usize| x as int) + jumpdests_from(
                        code@,
                        it.position(),
                    ));
                }
            },
            None => {
                assert(out@.map_values(|x: usize| x as int) + jumpdests_from(code@, it.position())
                    =~= out@.map_values(|x: usize| x as int));
                break;
            },
        }
    }
    out
}

/// Every offset [`jumpdests`] reports is an instruction start holding
/// `0x5b`, and every instruction start holding `0x5b` is reported.
pub proof fn lemma_jumpdests_are_the_jumpdest_instructions(code: Seq<u8>, pc: int)
    requires
        0 <= pc,
    ensures
        forall|x: int|
            #![trigger jumpdests_from(code, pc).contains(x)]
            #![trigger starts_from(code, pc).contains(x)]
            jumpdests_from(code, pc).contains(x) <==> (starts_from(code, pc).contains(x) && 0 <= x
                < code.len() && code[x] == 0x5b),
    decreases code.len() - pc,
{
    lemma_starts_after(code, pc);
    if pc < code.len() {
        let n = next_pc(code, pc);
        lemma_jumpdests_are_the_jumpdest_instructions(code, n);
        lemma_starts_after(code, n);
        let j = jumpdests_from(code, pc);
        let s = starts_from(code, pc);
        let jn = jumpdests_from(code, n);
        let sn = starts_from(code, n);
        assert(s == seq![pc] + sn);
        assert forall|x: int| #[trigger] j.contains(x) implies (s.contains(x) && 0 <= x < code.len()
            && code[x] == 0x5b) by {
            let i = choose|i: int| 0 <= i < j.len() && j[i] == x;
            if code[pc] == 0x5b && i == 0 {
                assert(s[0] == x);
            } else {
                let k = if code[pc] == 0x5b {
                    i - 1
                } else {
                    i
                };
                assert(jn[k] == x);
                assert(jn.contains(x));
                assert(sn.contains(x));
                let m = choose|m: int| 0 <= m < sn.len() && sn[m] == x;
                assert(s[m + 1] == x);
            }
        }
        assert forall|x: int|
            #[trigger] s.contains(x) && 0 <= x < code.len() && code[x] == 0x5b implies j.contains(x) by {
            let i = choose|i: int| 0 <= i < s.len() && s[i] == x;
            if i == 0 {
                assert(j[0] == x);
            } else {
                assert(sn[i - 1] == x);
                assert(sn.contains(x));
                assert(jn.contains(x));
                let k = choose|k: int| 0 <= k < jn.len() && jn[k] == x;
                if code[pc] == 0x5b {
                    assert(j[k + 1] == x);
                } else {
                    assert(j[k] == x);
                }
            }
        }
    }
}

/// Instruction starts decoded from `pc` lie at or after `pc`.
/// Decoding from `pc` tiles the rest of the code: the first instruction starts
/// at `pc`, each next one where the one before it ends, the last ends exactly
/// at the end of the code, and only the last can have its immediate cut
/// short.
proof fn lemma_starts_tile(code: Seq<u8>, pc: int)
    requires
        0 <= pc <= code.len(),
    ensures
        ({
            let s = starts_from(code, pc);
            &&& (s.len() == 0) == (pc == code.len())
            &&& s.len() > 0 ==> s[0] == pc
            &&& forall|i: int| 0 <= i < s.len() - 1 ==> #[trigger] s[i + 1] == next_pc(code, s[i])
            &&& s.len() > 0 ==> next_pc(code, s[s.len() - 1]) == code.len()
            &&& forall|i: int|
                0 <= i < s.len() - 1 ==> present_len(code, #[trigger] s[i]) == immediate_len(code[s[i]])
        }),
    decreases code.len() - pc,
{
    if pc < code.len() {
        let n = next_pc(code, pc);
        assert(pc < n <= code.len());
        lemma_starts_tile(code, n);
        let s = starts_from(code, pc);
        let sn = starts_from(code, n);
        assert(s == seq![pc] + sn);
        assert forall|i: int| 0 <= i < s.len() - 1 implies #[trigger] s[i + 1] == next_pc(code, s[i]) by {
            assert(s[i + 1] == sn[i]);
            if i > 0 {
                let j = i - 1;
                assert(s[i] == sn[j]);
                assert(0 <= j < sn.len() - 1);
                assert(sn[j + 1] == next_pc(code, sn[j]));
            } else {
                assert(sn.len() > 0);
                assert(sn[0] == n);
            }
        }
        assert forall|i: int| 0 <= i < s.len() - 1 implies present_len(code, #[trigger] s[i])
            == immediate_len(code[s[i]]) by {
            if i > 0 {
                assert(s[i] == sn[i - 1]);
            } else {
                // Another instruction follows, so this one did not run off the end.
                assert(n < code.len());
            }
        }
        if sn.len() > 0 {
            assert(s[s.len() - 1] == sn[sn.len() - 1]);
        }
    }
}

/// Decoding covers the code exactly: empty code decodes to nothing; otherwise
/// the first instruction is at offset zero, each instruction starts where the
/// one before it ends, so their sizes add up to the code's length, and only
/// the last instruction can be truncated.
pub proof fn lemma_decoding_covers_the_code(code: Seq<u8>)
    ensures
        ({
            let s = starts_from(code, 0);
            &&& (s.len() == 0) == (code.len() == 0)
            &&& s.len() > 0 ==> s[0] == 0
            &&& forall|i: int| 0 <= i < s.len() - 1 ==> #[trigger] s[i + 1] == next_pc(code, s[i])
            &&& s.len() > 0 ==> next_pc(code, s[s.len() - 1]) == code.len()
            &&& forall|i: int|
                0 <= i < s.len() - 1 ==> present_len(code, #[trigger] s[i]) == immediate_len(code[s[i]])
        }),
{
    lemma_starts_tile(code, 0);
}

proof fn lemma_starts_after(code: Seq<u8>, pc: int)
    ensures
        forall|x: int| #[trigger] starts_from(code, pc).contains(x) ==> pc <= x < code.len(),
    decreases code.len() - pc,
{
    if 0 <= pc < code.len() {
        let n = next_pc(code, pc);
        lemma_starts_after(code, n);
        let s = starts_from(code, pc);
        let sn = starts_from(code, n);
        assert(s == seq![pc] + sn);
        assert forall|x: int| #[trigger] s.contains(x) implies pc <= x < code.len() by {
            let i = choose|i: int| 0 <= i < s.len() && s[i] == x;
            if i > 0 {
                assert(sn[i - 1] == x);
                assert(sn.contains(x));
            }
        }
    }
}

// --- decoding what the assembler emits --------------------------------------

/// Every instruction decoded from `pc` on carries its whole immediate.
pub open spec fn complete_from(code: Seq<u8>, pc: int) -> bool
    decreases code.len() - pc,
{
    if pc < 0 || pc >= code.len() {
        true
    } else {
        present_len(code, pc) == immediate_len(code[pc]) && complete_from(code, next_pc(code, pc))
    }
}

/// One assembler call of the kinds that emit plain code: `op`, `push`, `dup`
/// and `swap`.
pub enum AsmStep {
    Op(Seq<char>),
    Push(Seq<u8>),
    Dup(u8),
    Swap(u8),
}

pub open spec fn apply_step(m: AsmModel, step: AsmStep) -> AsmModel {
    match step {
        AsmStep::Op(name) => m.op(name),
        AsmStep::Push(word) => m.push(word),
        AsmStep::Dup(n) => m.dup(n),
        AsmStep::Swap(n) => m.swap(n),
    }
}

/// The calls of `steps`, in order.
pub open spec fn apply_steps(m: AsmModel, steps: Seq<AsmStep>) -> AsmModel
    decreases steps.len(),
{
    if steps.len() == 0 {
        m
    } else {
        apply_step(apply_steps(m, steps.drop_last()), steps.last())
    }
}

/// An assembler for `fork` with nothing emitted, as [`Asm::new`] makes one.
pub open spec fn fresh_asm(fork: Fork) -> AsmModel {
    AsmModel { fork, code: Seq::empty(), labels: Map::empty(), pending: Seq::empty(), next_label: 0, error: None }
}

/// `bytes` left-padded with zeros to a 32-byte word.
pub open spec fn pad_word(bytes: Seq<u8>) -> Seq<u8> {
    Seq::new((32 - bytes.len()) as nat, |i: int| 0u8) + bytes
}

/// The call that re-emits the instruction decoded at `pc`: `op` of its
/// mnemonic, `push` of its immediate as a word, or `dup`/`swap` of its depth.
pub open spec fn step_for(code: Seq<u8>, pc: int) -> AsmStep {
    match form_of_byte(code[pc]) {
        OpForm::Simple => AsmStep::Op(spec_by_byte(code[pc])->0.mnemonic@),
        OpForm::Push(_) => AsmStep::Push(pad_word(code.subrange(pc + 1, next_pc(code, pc)))),
        OpForm::Dup(n) => AsmStep::Dup(n),
        OpForm::Swap(n) => AsmStep::Swap(n),
    }
}

/// The calls that re-emit each instruction decoded from `pc` on.
pub open spec fn steps_from(code: Seq<u8>, pc: int) -> Seq<AsmStep>
    decreases code.len() - pc,
{
    if pc < 0 || pc >= code.len() {
        seq![]
    } else {
        seq![step_for(code, pc)] + steps_from(code, next_pc(code, pc))
    }
}

/// Appending code after complete instructions leaves their decoding alone:
/// decoding `code + more` from `pc` re-emits what decoding `code` did, then
/// what decoding from the join does.
proof fn lemma_steps_append(code: Seq<u8>, more: Seq<u8>, pc: int)
    requires
        0 <= pc <= code.len(),
        complete_from(code, pc),
    ensures
        steps_from(code + more, pc) == steps_from(code, pc) + steps_from(code + more, code.len() as int),
        complete_from(code + more, pc) == complete_from(code + more, code.len() as int),
    decreases code.len() - pc,
{
    let c = code + more;
    if pc < code.len() {
        assert(c[pc] == code[pc]);
        let n = next_pc(code, pc);
        assert(next_pc(c, pc) == n);
        assert(n <= code.len());
        assert(c.subrange(pc + 1, n) =~= code.subrange(pc + 1, n));
        assert(step_for(c, pc) == step_for(code, pc));
        lemma_steps_append(code, more, n);
        assert(steps_from(code, pc) == seq![step_for(code, pc)] + steps_from(code, n));
        assert(steps_from(c, pc) == seq![step_for(c, pc)] + steps_from(c, n));
        assert(steps_from(c, pc) =~= steps_from(code, pc) + steps_from(c, code.len() as int));
    } else {
        assert(steps_from(code, pc) =~= seq![]);
        assert(steps_from(c, pc) =~= steps_from(code, pc) + steps_from(c, code.len() as int));
    }
}

/// One successful plain call emits exactly one complete instruction, and
/// decoding it gives back the call itself.
proof fn lemma_step_reemits(m0: AsmModel, step: AsmStep)
    requires
        m0.error is None,
        apply_step(m0, step).error is None,
        step matches AsmStep::Push(w) ==> w.len() == 32,
    ensures
        ({
            let c = apply_step(m0, step).code;
            let p = m0.code.len() as int;
            &&& p < c.len()
            &&& c.subrange(0, p) == m0.code
            &&& present_len(c, p) == immediate_len(c[p])
            &&& next_pc(c, p) == c.len()
            &&& step_for(c, p) == step
        }),
{
    let m = apply_step(m0, step);
    let c = m.code;
    let p = m0.code.len() as int;
    match step {
        AsmStep::Op(name) => {
            let s = spec_by_mnemonic(name)->0;
            crate::isa::lemma_found_mnemonic_is_listed(name, 0);
            let k = choose|k: int| 0 <= k < crate::isa::table::OPCODE_COUNT && s == crate::isa::table::spec_opcode(k) && s.mnemonic@ == name;
            crate::isa::lemma_lookups_round_trip(k, name);
            assert(c == m0.code.push(s.byte));
            assert(c.subrange(0, p) =~= m0.code);
        },
        AsmStep::Push(w) => {
            super::lemma_first_nonzero_bounds(w, 0);
            let wd = word_width(w);
            if wd == 0 && m0.fork.rank() < Fork::Shanghai.rank() {
                assert(c == m0.code + push_with(seq![0u8]));
                assert(c.subrange(p + 1, next_pc(c, p)) =~= seq![0u8]);
                assert(pad_word(seq![0u8]) =~= w);
            } else if wd == 0 {
                assert(c == m0.code.push(0x5f));
                assert(c.subrange(p + 1, next_pc(c, p)) =~= Seq::<u8>::empty());
                assert(pad_word(Seq::<u8>::empty()) =~= w);
            } else {
                let bytes = w.subrange(32 - wd, 32);
                assert(c == m0.code + push_with(bytes));
                assert(c.subrange(p + 1, next_pc(c, p)) =~= bytes);
                assert(pad_word(bytes) =~= w);
            }
            assert(c.subrange(0, p) =~= m0.code);
        },
        AsmStep::Dup(n) => {
            assert(c == m0.code.push((0x7f + n) as u8));
            assert(c.subrange(0, p) =~= m0.code);
        },
        AsmStep::Swap(n) => {
            assert(c == m0.code.push((0x8f + n) as u8));
            assert(c.subrange(0, p) =~= m0.code);
        },
    }
}

/// Code built with `op`, `push`, `dup` and `swap` reassembles to itself:
/// decoding it and re-emitting each instruction (`op` of its mnemonic,
/// `push` of its immediate as a word, `dup` or `swap` of its depth) into a
/// fresh assembler for the same fork gives back the same assembler state, so
/// the same bytes, and every instruction decodes whole.
pub proof fn lemma_plain_code_reassembles(fork: Fork, steps: Seq<AsmStep>)
    requires
        apply_steps(fresh_asm(fork), steps).error is None,
        forall|i: int| 0 <= i < steps.len() ==> (#[trigger] steps[i] matches AsmStep::Push(w) ==> w.len() == 32),
    ensures
        apply_steps(fresh_asm(fork), steps_from(apply_steps(fresh_asm(fork), steps).code, 0)) == apply_steps(
            fresh_asm(fork),
            steps,
        ),
        complete_from(apply_steps(fresh_asm(fork), steps).code, 0),
    decreases steps.len(),
{
    let f = fresh_asm(fork);
    let m = apply_steps(f, steps);
    if steps.len() == 0 {
        assert(steps_from(m.code, 0) =~= Seq::<AsmStep>::empty());
    } else {
        let prev = steps.drop_last();
        let step = steps.last();
        let m0 = apply_steps(f, prev);
        if m0.error is Some {
            match step {
                AsmStep::Op(name) => super::lemma_first_error_is_kept(m0, name, Seq::empty(), 0, Label(0)),
                AsmStep::Push(w) => super::lemma_first_error_is_kept(m0, Seq::empty(), w, 0, Label(0)),
                AsmStep::Dup(n) => super::lemma_first_error_is_kept(m0, Seq::empty(), Seq::empty(), n, Label(0)),
                AsmStep::Swap(n) => super::lemma_first_error_is_kept(m0, Seq::empty(), Seq::empty(), n, Label(0)),
            }
        }
        assert forall|i: int| 0 <= i < prev.len() implies (#[trigger] prev[i] matches AsmStep::Push(w) ==> w.len()
            == 32) by {
            assert(prev[i] == steps[i]);
        }
        assert(steps[steps.len() - 1] == step);
        lemma_plain_code_reassembles(fork, prev);
        lemma_step_reemits(m0, step);
        let c0 = m0.code;
        let c = m.code;
        let p = c0.len() as int;
        assert(c =~= c0 + c.subrange(p, c.len() as int));
        lemma_steps_append(c0, c.subrange(p, c.len() as int), 0);
        assert(steps_from(c, c.len() as int) =~= Seq::<AsmStep>::empty());
        assert(steps_from(c, p) == seq![step_for(c, p)] + steps_from(c, next_pc(c, p)));
        assert(steps_from(c, p) =~= seq![step]);
        assert(complete_from(c, c.len() as int));
        assert(complete_from(c, p));
        let re = steps_from(c0, 0);
        assert(steps_from(c, 0) =~= re.push(step));
        assert(steps_from(c, 0).drop_last() =~= re);
    }
}

} // verus!
