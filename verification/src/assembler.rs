//! The assembler: a sequence of opcodes in, EVM bytecode out.
//!
//! Everything it knows about the instruction set comes from [`crate::isa`] —
//! byte values, stack arity, and the fork each opcode landed in. A mnemonic
//! the table has will assemble; a typo will not.

use vstd::arithmetic::power2::{lemma_pow2_adds, lemma_pow2_pos, lemma_pow2_strictly_increases, pow2};
use vstd::bits::lemma_u128_shr_is_div;
use vstd::prelude::*;
use std::collections::HashMap;

use crate::isa::table::spec_by_byte;
use crate::text::{decimal, push_decimal, push_hex_padded};
use disasm::bytes_hex;
use crate::isa::{by_byte, by_mnemonic, form_of_byte, op_form, spec_by_mnemonic, Fork, OpForm};

pub mod disasm;

verus! {

broadcast use vstd::std_specs::hash::group_hash_axioms;

/// EIP-170's deployed-bytecode limit. Informational: [`Asm::finish`] does not
/// enforce it; callers producing runtime code check [`Asm::is_deployable`].
pub const MAX_CONTRACT_SIZE: usize = 24576;

/// Every label reference is a `PUSH2`, so this is the highest byte offset a
/// jump can name.
pub const MAX_LABEL_OFFSET: usize = 65535;

/// A jump target. Created by [`Asm::label`], placed by [`Asm::bind`], and
/// referenced by [`Asm::push_label`] — any number of times, before or after
/// it is bound.
#[derive(Debug, Clone, Copy, PartialEq, Eq, Hash, PartialOrd, Ord)]
pub struct Label(u32);

impl View for Label {
    type V = u32;

    closed spec fn view(&self) -> u32 {
        self.0
    }
}

/// A 32-byte big-endian word. [`Asm::push`] narrows it to the shortest `PUSH`
/// that holds it; the IR uses it as its 256-bit literal.
#[derive(Debug, Clone, Copy, PartialEq, Eq, PartialOrd, Ord, Hash)]
pub struct Immediate([u8; 32]);

impl View for Immediate {
    type V = Seq<u8>;

    closed spec fn view(&self) -> Seq<u8> {
        self.0@
    }
}

/// The position of the first nonzero byte of `s` at or after `i`, or
/// `s.len()` when there is none.
pub open spec fn first_nonzero_from(s: Seq<u8>, i: int) -> int
    decreases s.len() - i,
{
    if i < 0 || i >= s.len() {
        s.len() as int
    } else if s[i] != 0 {
        i
    } else {
        first_nonzero_from(s, i + 1)
    }
}

/// Significant bytes of a 32-byte word: zero for zero.
pub open spec fn word_width(s: Seq<u8>) -> nat {
    (32 - first_nonzero_from(s, 0)) as nat
}

/// Bits needed for one byte: zero for zero, eight when the top bit is set.
pub open spec fn byte_bit_len(b: u8) -> nat {
    if b >= 128 {
        8
    } else if b >= 64 {
        7
    } else if b >= 32 {
        6
    } else if b >= 16 {
        5
    } else if b >= 8 {
        4
    } else if b >= 4 {
        3
    } else if b >= 2 {
        2
    } else if b >= 1 {
        1
    } else {
        0
    }
}

/// Significant bits of a 32-byte word read as an unsigned big-endian number.
pub open spec fn word_bit_width(s: Seq<u8>) -> nat {
    let w = word_width(s);
    if w == 0 {
        0
    } else {
        ((w - 1) * 8 + byte_bit_len(s[32 - w])) as nat
    }
}

pub(crate) proof fn lemma_first_nonzero_bounds(s: Seq<u8>, i: int)
    requires
        0 <= i <= s.len(),
    ensures
        i <= first_nonzero_from(s, i) <= s.len(),
        first_nonzero_from(s, i) < s.len() ==> s[first_nonzero_from(s, i)] != 0,
        forall|j: int| i <= j < first_nonzero_from(s, i) ==> s[j] == 0,
    decreases s.len() - i,
{
    if i < s.len() && s[i] == 0 {
        lemma_first_nonzero_bounds(s, i + 1);
    }
}

fn byte_bits(b: u8) -> (r: u16)
    ensures
        r == byte_bit_len(b),
{
    if b >= 128 {
        8
    } else if b >= 64 {
        7
    } else if b >= 32 {
        6
    } else if b >= 16 {
        5
    } else if b >= 8 {
        4
    } else if b >= 4 {
        3
    } else if b >= 2 {
        2
    } else if b >= 1 {
        1
    } else {
        0
    }
}

/// The 32-byte big-endian word holding `v`.
pub open spec fn u128_word(v: u128) -> Seq<u8> {
    seq![
        0u8, 0u8, 0u8, 0u8, 0u8, 0u8, 0u8, 0u8, 0u8, 0u8, 0u8, 0u8, 0u8, 0u8, 0u8, 0u8,
        (v >> 120u128) as u8, (v >> 112u128) as u8, (v >> 104u128) as u8, (v >> 96u128) as u8,
        (v >> 88u128) as u8, (v >> 80u128) as u8, (v >> 72u128) as u8, (v >> 64u128) as u8,
        (v >> 56u128) as u8, (v >> 48u128) as u8, (v >> 40u128) as u8, (v >> 32u128) as u8,
        (v >> 24u128) as u8, (v >> 16u128) as u8, (v >> 8u128) as u8, v as u8,
    ]
}

/// Shifting right by `c` and keeping the low byte takes the base-256 digit
/// worth `2^c`.
proof fn lemma_shifted_byte(v: u128, c: u128)
    requires
        c < 128,
    ensures
        ((v >> c) as u8) as nat == (v as nat / pow2(c as nat)) % 256,
{
    lemma_u128_shr_is_div(v, c);
    let x = v >> c;
    assert((x as u8) as u128 == x % 256) by (bit_vector);
}

/// `u128_word(v)` is `v` as 32 big-endian bytes: byte `k` is the base-256
/// digit of `v` worth `2^(8 (31 - k))`, so the top 16 bytes are zero.
pub proof fn lemma_u128_word_is_big_endian(v: u128, k: int)
    requires
        0 <= k < 32,
    ensures
        u128_word(v).len() == 32,
        u128_word(v)[k] as nat == (v as nat / pow2((8 * (31 - k)) as nat)) % 256,
{
    let w = u128_word(v);
    if k < 16 {
        let s = (8 * (31 - k)) as nat;
        lemma_u128_shr_is_div(v, 127);
        assert(v >> 127u128 <= 1) by (bit_vector);
        lemma_pow2_adds(1, 127);
        lemma_pow2_pos(127);
        vstd::arithmetic::power2::lemma2_to64();
        assert(v < pow2(128)) by (nonlinear_arith)
            requires
                v as nat / pow2(127) <= 1,
                pow2(128) == 2 * pow2(127),
                pow2(127) > 0,
        {
        }
        if s > 128 {
            lemma_pow2_strictly_increases(128, s);
        }
        lemma_pow2_pos(s);
        assert(v as nat / pow2(s) == 0) by (nonlinear_arith)
            requires
                v < pow2(s),
                pow2(s) > 0,
        {
        }
    } else if k == 16 {
        lemma_shifted_byte(v, 120);
    } else if k == 17 {
        lemma_shifted_byte(v, 112);
    } else if k == 18 {
        lemma_shifted_byte(v, 104);
    } else if k == 19 {
        lemma_shifted_byte(v, 96);
    } else if k == 20 {
        lemma_shifted_byte(v, 88);
    } else if k == 21 {
        lemma_shifted_byte(v, 80);
    } else if k == 22 {
        lemma_shifted_byte(v, 72);
    } else if k == 23 {
        lemma_shifted_byte(v, 64);
    } else if k == 24 {
        lemma_shifted_byte(v, 56);
    } else if k == 25 {
        lemma_shifted_byte(v, 48);
    } else if k == 26 {
        lemma_shifted_byte(v, 40);
    } else if k == 27 {
        lemma_shifted_byte(v, 32);
    } else if k == 28 {
        lemma_shifted_byte(v, 24);
    } else if k == 29 {
        lemma_shifted_byte(v, 16);
    } else if k == 30 {
        lemma_shifted_byte(v, 8);
    } else {
        lemma_shifted_byte(v, 0);
        assert(v >> 0u128 == v) by (bit_vector);
    }
}

impl Immediate {
    /// The word holding `v`, zero-extended to 32 bytes.
    pub fn from_u128(v: u128) -> (r: Immediate)
        ensures
            r@ == u128_word(v),
    {
        let w: [u8; 32] = [
            0u8, 0u8, 0u8, 0u8, 0u8, 0u8, 0u8, 0u8, 0u8, 0u8, 0u8, 0u8, 0u8, 0u8, 0u8, 0u8,
            (v >> 120u128) as u8, (v >> 112u128) as u8, (v >> 104u128) as u8, (v >> 96u128) as u8,
            (v >> 88u128) as u8, (v >> 80u128) as u8, (v >> 72u128) as u8, (v >> 64u128) as u8,
            (v >> 56u128) as u8, (v >> 48u128) as u8, (v >> 40u128) as u8, (v >> 32u128) as u8,
            (v >> 24u128) as u8, (v >> 16u128) as u8, (v >> 8u128) as u8, v as u8,
        ];
        let r = Immediate(w);
        assert(r@ =~= u128_word(v));
        r
    }

    /// The word with these big-endian bytes.
    pub fn from_be_bytes(w: [u8; 32]) -> (r: Immediate)
        ensures
            r@ == w@,
    {
        Immediate(w)
    }

    /// Significant bytes — the width the value actually needs. Zero for zero.
    pub fn width(&self) -> (r: usize)
        ensures
            r == word_width(self@),
            r <= 32,
    {
        let mut i: usize = 0;
        proof {
            lemma_first_nonzero_bounds(self@, 0);
        }
        while i < 32
            invariant
                i <= 32,
                self@.len() == 32,
                first_nonzero_from(self@, 0) == first_nonzero_from(self@, i as int),
            decreases 32 - i,
        {
            if self.0[i] != 0 {
                return 32 - i;
            }
            i += 1;
        }
        0
    }

    /// Significant bits — the narrowest unsigned type this value fits in.
    pub fn bit_width(&self) -> (r: u16)
        ensures
            r == word_bit_width(self@),
    {
        let w = self.width();
        if w == 0 {
            return 0;
        }
        proof {
            lemma_first_nonzero_bounds(self@, 0);
        }
        let first = 32 - w;
        (w as u16 - 1) * 8 + byte_bits(self.0[first])
    }

    /// The big-endian bytes.
    pub fn to_be_bytes(&self) -> (r: [u8; 32])
        ensures
            r@ == self@,
    {
        self.0
    }

    /// The value in lower-case hex after `0x`: the significant bytes only,
    /// two digits each, so `0x2a` rather than thirty-one zero bytes first.
    /// Zero reads as `0x0`.
    pub open spec fn hex_text(&self) -> Seq<char> {
        let w = word_width(self@);
        if w == 0 {
            "0x0"@
        } else {
            "0x"@ + bytes_hex(self@.subrange(32 - w, 32))
        }
    }

    /// The value in lower-case hex, as [`hex_text`](Self::hex_text) says.
    pub fn to_lower_hex(&self) -> (r: String)
        ensures
            r@ == self.hex_text(),
    {
        let width = self.width();
        let mut s = String::new();
        if width == 0 {
            s.append("0x0");
            return s;
        }
        s.append("0x");
        let ghost head = s@;
        let start = 32 - width;
        let mut i = start;
        while i < 32
            invariant
                start <= i <= 32,
                start == 32 - word_width(self@),
                self@.len() == 32,
                head == "0x"@,
                s@ == head + bytes_hex(self@.subrange(start as int, i as int)),
            decreases 32 - i,
        {
            push_hex_padded(&mut s, self.0[i] as u64, 2);
            i += 1;
            assert(self@.subrange(start as int, i as int).drop_last() =~= self@.subrange(start as int, i - 1));
        }
        s
    }

    /// A word is 32 bytes.
    pub proof fn lemma_word_len(&self)
        ensures
            self@.len() == 32,
    {
    }

    pub fn is_zero(&self) -> (r: bool)
        ensures
            r == (word_width(self@) == 0),
    {
        self.width() == 0
    }
}

/// A value that can stand as a 32-byte word: the integer types and `bool`
/// zero-extended, a byte array as it is.
pub trait ToImmediate: Sized {
    /// The big-endian word this value becomes.
    spec fn word(&self) -> Seq<u8>;

    fn to_immediate(self) -> (r: Immediate)
        ensures
            r@ == self.word(),
            self.word().len() == 32,
    ;
}

impl ToImmediate for Immediate {
    open spec fn word(&self) -> Seq<u8> {
        self@
    }

    fn to_immediate(self) -> (r: Immediate) {
        self
    }
}

impl ToImmediate for [u8; 32] {
    open spec fn word(&self) -> Seq<u8> {
        self@
    }

    fn to_immediate(self) -> (r: Immediate) {
        Immediate(self)
    }
}

impl ToImmediate for bool {
    open spec fn word(&self) -> Seq<u8> {
        u128_word(if *self { 1 } else { 0 })
    }

    fn to_immediate(self) -> (r: Immediate) {
        Immediate::from_u128(if self { 1 } else { 0 })
    }
}

impl ToImmediate for u8 {
    open spec fn word(&self) -> Seq<u8> {
        u128_word(*self as u128)
    }

    fn to_immediate(self) -> (r: Immediate) {
        Immediate::from_u128(self as u128)
    }
}

impl ToImmediate for u16 {
    open spec fn word(&self) -> Seq<u8> {
        u128_word(*self as u128)
    }

    fn to_immediate(self) -> (r: Immediate) {
        Immediate::from_u128(self as u128)
    }
}

impl ToImmediate for u32 {
    open spec fn word(&self) -> Seq<u8> {
        u128_word(*self as u128)
    }

    fn to_immediate(self) -> (r: Immediate) {
        Immediate::from_u128(self as u128)
    }
}

impl ToImmediate for u64 {
    open spec fn word(&self) -> Seq<u8> {
        u128_word(*self as u128)
    }

    fn to_immediate(self) -> (r: Immediate) {
        Immediate::from_u128(self as u128)
    }
}

impl ToImmediate for u128 {
    open spec fn word(&self) -> Seq<u8> {
        u128_word(*self)
    }

    fn to_immediate(self) -> (r: Immediate) {
        Immediate::from_u128(self)
    }
}


/// What can go wrong assembling.
#[derive(Debug, Clone, PartialEq, Eq)]
pub enum AsmError {
    /// No such mnemonic in the table.
    UnknownMnemonic(String),
    /// The opcode exists but postdates the target fork.
    OpcodeTooNew { mnemonic: &'static str, min_fork: Fork, target: Fork },
    /// `PUSH`/`DUP`/`SWAP` reached through [`Asm::op`] rather than their
    /// helpers: emitting a `PUSH1` byte without its immediate silently
    /// corrupts everything after it.
    UseHelperInstead { mnemonic: &'static str, helper: &'static str },
    /// `DUP`/`SWAP` depth outside `1..=16`.
    BadStackDepth { helper: &'static str, n: u8 },
    /// A label was referenced but never bound.
    UnboundLabel(Label),
    /// A label was bound twice.
    LabelAlreadyBound(Label),
    /// Code grew past what a `PUSH2` label reference can address.
    CodeTooLargeToAddress { len: usize },
}

/// [`AsmError`] as contracts see it: strings by their text.
pub enum AsmFault {
    UnknownMnemonic(Seq<char>),
    OpcodeTooNew { mnemonic: &'static str, min_fork: Fork, target: Fork },
    UseHelperInstead { mnemonic: &'static str, helper: Seq<char> },
    BadStackDepth { helper: Seq<char>, n: u8 },
    UnboundLabel(Label),
    LabelAlreadyBound(Label),
    CodeTooLargeToAddress { len: usize },
}

impl View for AsmError {
    type V = AsmFault;

    open spec fn view(&self) -> AsmFault {
        match self {
            AsmError::UnknownMnemonic(m) => AsmFault::UnknownMnemonic(m@),
            AsmError::OpcodeTooNew { mnemonic, min_fork, target } => AsmFault::OpcodeTooNew {
                mnemonic: *mnemonic,
                min_fork: *min_fork,
                target: *target,
            },
            AsmError::UseHelperInstead { mnemonic, helper } => AsmFault::UseHelperInstead {
                mnemonic: *mnemonic,
                helper: helper@,
            },
            AsmError::BadStackDepth { helper, n } => AsmFault::BadStackDepth {
                helper: helper@,
                n: *n,
            },
            AsmError::UnboundLabel(l) => AsmFault::UnboundLabel(*l),
            AsmError::LabelAlreadyBound(l) => AsmFault::LabelAlreadyBound(*l),
            AsmError::CodeTooLargeToAddress { len } => AsmFault::CodeTooLargeToAddress { len: *len },
        }
    }
}

impl AsmError {
    /// How the error reads.
    pub open spec fn text(&self) -> Seq<char> {
        match self {
            AsmError::UnknownMnemonic(m) => "unknown opcode `"@ + m@ + "`"@,
            AsmError::OpcodeTooNew { mnemonic, min_fork, target } => "`"@ + mnemonic@ + "` requires "@
                + min_fork.name_text() + " but the target fork is "@ + target.name_text(),
            AsmError::UseHelperInstead { mnemonic, helper } => "use `"@ + helper@ + "` to emit `"@ + mnemonic@
                + "` \u{2014} it carries an operand"@,
            AsmError::BadStackDepth { helper, n } => "`"@ + helper@ + "("@ + decimal(*n as nat)
                + ")` is out of range; depth must be 1..=16"@,
            AsmError::UnboundLabel(l) => "label Label("@ + decimal(l@ as nat) + ") was referenced but never bound"@,
            AsmError::LabelAlreadyBound(l) => "label Label("@ + decimal(l@ as nat) + ") was bound twice"@,
            AsmError::CodeTooLargeToAddress { len } => "code is "@ + decimal(*len as nat)
                + " bytes; a PUSH2 label reference cannot address past "@ + decimal(MAX_LABEL_OFFSET as nat),
        }
    }

    pub fn to_string(&self) -> (r: String)
        ensures
            r@ == self.text(),
    {
        let mut s = String::new();
        match self {
            AsmError::UnknownMnemonic(m) => {
                s.append("unknown opcode `");
                s.append(m.as_str());
                s.append("`");
            },
            AsmError::OpcodeTooNew { mnemonic, min_fork, target } => {
                s.append("`");
                s.append(mnemonic);
                s.append("` requires ");
                s.append(min_fork.name());
                s.append(" but the target fork is ");
                s.append(target.name());
            },
            AsmError::UseHelperInstead { mnemonic, helper } => {
                s.append("use `");
                s.append(helper);
                s.append("` to emit `");
                s.append(mnemonic);
                s.append("` \u{2014} it carries an operand");
            },
            AsmError::BadStackDepth { helper, n } => {
                s.append("`");
                s.append(helper);
                s.append("(");
                push_decimal(&mut s, *n as u64);
                s.append(")` is out of range; depth must be 1..=16");
            },
            AsmError::UnboundLabel(l) => {
                s.append("label Label(");
                push_decimal(&mut s, l.0 as u64);
                s.append(") was referenced but never bound");
            },
            AsmError::LabelAlreadyBound(l) => {
                s.append("label Label(");
                push_decimal(&mut s, l.0 as u64);
                s.append(") was bound twice");
            },
            AsmError::CodeTooLargeToAddress { len } => {
                s.append("code is ");
                push_decimal(&mut s, *len as u64);
                s.append(" bytes; a PUSH2 label reference cannot address past ");
                push_decimal(&mut s, MAX_LABEL_OFFSET as u64);
            },
        }
        s
    }
}

/// The abstract state of an [`Asm`].
pub struct AsmModel {
    pub fork: Fork,
    /// Bytes emitted so far, label references still holding `00 00`.
    pub code: Seq<u8>,
    /// Bound labels, by label number, to the offset of their `JUMPDEST`.
    pub labels: Map<u32, usize>,
    /// Label references awaiting patch: the label and the offset of the two
    /// immediate bytes (not of the `PUSH2`).
    pub pending: Seq<(Label, usize)>,
    pub next_label: u32,
    /// The first error, if any. Sticky.
    pub error: Option<AsmFault>,
}

/// The `PUSH` that carries `bytes` as its immediate.
pub open spec fn push_with(bytes: Seq<u8>) -> Seq<u8> {
    seq![(0x5f + bytes.len()) as u8] + bytes
}

/// Number of the first pending reference, at or after `k`, whose label is
/// not bound.
pub open spec fn first_unbound(pending: Seq<(Label, usize)>, labels: Map<u32, usize>, k: int) -> Option<
    int,
>
    decreases pending.len() - k,
{
    if k < 0 || k >= pending.len() {
        None
    } else if !labels.contains_key(pending[k].0@) {
        Some(k)
    } else {
        first_unbound(pending, labels, k + 1)
    }
}

/// `code` with the first `k` pending references overwritten by the
/// big-endian address of their label.
pub open spec fn patched(code: Seq<u8>, pending: Seq<(Label, usize)>, labels: Map<u32, usize>, k: int) -> Seq<
    u8,
>
    decreases k,
{
    if k <= 0 {
        code
    } else {
        let prev = patched(code, pending, labels, k - 1);
        let at = pending[k - 1].1 as int;
        let target = labels[pending[k - 1].0@];
        prev.update(at, (target / 256) as u8).update(at + 1, (target % 256) as u8)
    }
}

impl AsmModel {
    /// Record `e` unless an error is already recorded.
    pub open spec fn fail(self, e: AsmFault) -> AsmModel {
        if self.error is Some {
            self
        } else {
            AsmModel { error: Some(e), ..self }
        }
    }

    /// One opcode byte, after checking it exists on the target fork.
    pub open spec fn emit(self, byte: u8, mnemonic: &'static str, min_fork: Fork) -> AsmModel {
        if min_fork.rank() > self.fork.rank() {
            self.fail(AsmFault::OpcodeTooNew { mnemonic, min_fork, target: self.fork })
        } else {
            AsmModel { code: self.code.push(byte), ..self }
        }
    }

    pub open spec fn op(self, name: Seq<char>) -> AsmModel {
        if self.error is Some {
            self
        } else {
            match spec_by_mnemonic(name) {
                None => self.fail(AsmFault::UnknownMnemonic(name)),
                Some(s) => match form_of_byte(s.byte) {
                    OpForm::Simple => self.emit(s.byte, s.mnemonic, s.min_fork),
                    OpForm::Push(_) => self.fail(
                        AsmFault::UseHelperInstead { mnemonic: s.mnemonic, helper: "push"@ },
                    ),
                    OpForm::Dup(_) => self.fail(
                        AsmFault::UseHelperInstead { mnemonic: s.mnemonic, helper: "dup"@ },
                    ),
                    OpForm::Swap(_) => self.fail(
                        AsmFault::UseHelperInstead { mnemonic: s.mnemonic, helper: "swap"@ },
                    ),
                },
            }
        }
    }

    /// `PUSH{n}` and its immediate; every `PUSH1`-`PUSH32` is a Frontier opcode.
    pub open spec fn push_bytes(self, bytes: Seq<u8>) -> AsmModel {
        AsmModel { code: self.code + push_with(bytes), ..self }
    }

    pub open spec fn push(self, word: Seq<u8>) -> AsmModel {
        let w = word_width(word);
        if self.error is Some {
            self
        } else if w == 0 && self.fork.rank() < Fork::Shanghai.rank() {
            self.push_bytes(seq![0u8])
        } else if w == 0 {
            AsmModel { code: self.code.push(0x5f), ..self }
        } else {
            self.push_bytes(word.subrange(32 - w, 32))
        }
    }

    pub open spec fn dup(self, n: u8) -> AsmModel {
        if self.error is Some {
            self
        } else if !(1 <= n <= 16) {
            self.fail(AsmFault::BadStackDepth { helper: "dup"@, n })
        } else {
            AsmModel { code: self.code.push((0x7f + n) as u8), ..self }
        }
    }

    pub open spec fn swap(self, n: u8) -> AsmModel {
        if self.error is Some {
            self
        } else if !(1 <= n <= 16) {
            self.fail(AsmFault::BadStackDepth { helper: "swap"@, n })
        } else {
            AsmModel { code: self.code.push((0x8f + n) as u8), ..self }
        }
    }

    pub open spec fn bind(self, label: Label) -> AsmModel {
        if self.error is Some {
            self
        } else if self.labels.contains_key(label@) {
            self.fail(AsmFault::LabelAlreadyBound(label))
        } else {
            AsmModel {
                labels: self.labels.insert(label@, self.code.len() as usize),
                code: self.code.push(0x5b),
                ..self
            }
        }
    }

    pub open spec fn push_label(self, label: Label) -> AsmModel {
        if self.error is Some {
            self
        } else {
            AsmModel {
                code: self.code + seq![0x61u8, 0u8, 0u8],
                pending: self.pending.push((label, (self.code.len() + 1) as usize)),
                ..self
            }
        }
    }

    /// What [`Asm::finish`] hands back: the first error, or the code with
    /// every label reference patched.
    pub open spec fn finish(self) -> Result<Seq<u8>, AsmFault> {
        if self.error is Some {
            Err(self.error->0)
        } else if self.code.len() > MAX_LABEL_OFFSET && self.pending.len() > 0 {
            Err(AsmFault::CodeTooLargeToAddress { len: self.code.len() as usize })
        } else {
            match first_unbound(self.pending, self.labels, 0) {
                Some(k) => Err(AsmFault::UnboundLabel(self.pending[k].0)),
                None => Ok(patched(self.code, self.pending, self.labels, self.pending.len() as int)),
            }
        }
    }

    /// The state every [`Asm`] stays in: a bound label's offset holds a
    /// `JUMPDEST`, and each pending reference is the zeroed immediate of a
    /// `PUSH2`, in ascending, non-overlapping order.
    pub open spec fn wf(self) -> bool {
        &&& forall|id: u32| #[trigger]
            self.labels.contains_key(id) ==> self.labels[id] < self.code.len() && self.code[self.labels[id] as int] == 0x5b
        &&& forall|k: int|
            0 <= k < self.pending.len() ==> {
                let at = #[trigger] self.pending[k].1 as int;
                &&& 1 <= at
                &&& at + 1 < self.code.len()
                &&& self.code[at - 1] == 0x61
                &&& self.code[at] == 0
                &&& self.code[at + 1] == 0
            }
        &&& forall|j: int, k: int|
            0 <= j < k < self.pending.len() ==> #[trigger] self.pending[j].1 + 2 < #[trigger] self.pending[k].1
    }
}

/// A constant is pushed with the narrowest `PUSH` that holds it: the opcode
/// is `PUSH<n>` for the `n` immediate bytes that follow; every byte of the
/// word left out is zero; and a nonzero word keeps its low bytes from its
/// first nonzero one on. Zero is `PUSH0` from Shanghai on and `PUSH1 0x00`
/// before.
pub proof fn lemma_push_is_narrowest(m: AsmModel, word: Seq<u8>)
    requires
        m.error is None,
        word.len() == 32,
    ensures
        ({
            let code = m.push(word).code;
            let base = m.code.len() as int;
            let imm = code.subrange(base + 1, code.len() as int);
            &&& base < code.len() <= base + 33
            &&& code.subrange(0, base) == m.code
            &&& code[base] == 0x5f + imm.len()
            &&& (exists|j: int| 0 <= j < 32 && word[j] != 0) ==> {
                &&& imm == word.subrange(32 - imm.len(), 32)
                &&& imm[0] != 0
                &&& forall|j: int| 0 <= j < 32 - imm.len() ==> word[j] == 0
            }
            &&& (forall|j: int| 0 <= j < 32 ==> word[j] == 0) ==> if Fork::Shanghai.rank() <= m.fork.rank() {
                imm.len() == 0
            } else {
                imm == seq![0u8]
            }
        }),
{
    lemma_first_nonzero_bounds(word, 0);
    let f = first_nonzero_from(word, 0);
    let code = m.push(word).code;
    let base = m.code.len() as int;
    let imm = code.subrange(base + 1, code.len() as int);
    if f < 32 {
        assert(code =~= m.code + push_with(word.subrange(f, 32)));
        assert(imm =~= word.subrange(f, 32));
    } else if Fork::Shanghai.rank() <= m.fork.rank() {
        assert(code =~= m.code.push(0x5f));
        assert(imm =~= Seq::<u8>::empty());
        assert forall|j: int| 0 <= j < 32 implies word[j] == 0 by {}
    } else {
        assert(code =~= m.code + push_with(seq![0u8]));
        assert(imm =~= seq![0u8]);
    }
    assert(code.subrange(0, base) =~= m.code);
}

/// Errors are sticky: once an assembly has failed, every later operation
/// leaves it as it is, nothing more is emitted, and what [`Asm::finish`]
/// reports is the first error.
pub proof fn lemma_first_error_is_kept(m: AsmModel, name: Seq<char>, word: Seq<u8>, n: u8, label: Label)
    requires
        m.error is Some,
    ensures
        m.op(name) == m,
        m.push(word) == m,
        m.dup(n) == m,
        m.swap(n) == m,
        m.bind(label) == m,
        m.push_label(label) == m,
        m.finish() == Err::<Seq<u8>, AsmFault>(m.error->0),
{
}

/// Appending bytes keeps an assembler well formed.
proof fn lemma_wf_append(m: AsmModel, extra: Seq<u8>)
    requires
        m.wf(),
    ensures
        (AsmModel { code: m.code + extra, ..m }).wf(),
{
    let n = AsmModel { code: m.code + extra, ..m };
    assert forall|id: u32| #[trigger] n.labels.contains_key(id) implies n.labels[id] < n.code.len()
        && n.code[n.labels[id] as int] == 0x5b by {
        assert(m.code[m.labels[id] as int] == 0x5b);
    }
    assert forall|k: int| 0 <= k < n.pending.len() implies {
        let at = #[trigger] n.pending[k].1 as int;
        &&& 1 <= at
        &&& at + 1 < n.code.len()
        &&& n.code[at - 1] == 0x61
        &&& n.code[at] == 0
        &&& n.code[at + 1] == 0
    } by {
        let at = m.pending[k].1 as int;
        assert(m.code[at - 1] == 0x61 && m.code[at] == 0 && m.code[at + 1] == 0);
    }
}

proof fn lemma_patched_len(code: Seq<u8>, pending: Seq<(Label, usize)>, labels: Map<u32, usize>, k: int)
    requires
        forall|j: int| 0 <= j < pending.len() ==> #[trigger] pending[j].1 + 1 < code.len(),
        k <= pending.len(),
    ensures
        patched(code, pending, labels, k).len() == code.len(),
    decreases k,
{
    if k > 0 {
        lemma_patched_len(code, pending, labels, k - 1);
    }
}

/// An assembler's result as contracts see it.
pub open spec fn finish_view(r: Result<Vec<u8>, AsmError>) -> Result<Seq<u8>, AsmFault> {
    match r {
        Ok(b) => Ok(b@),
        Err(e) => Err(e@),
    }
}

/// Every pending reference at or after `k` names a bound label when
/// [`first_unbound`] finds none.
proof fn lemma_no_unbound(pending: Seq<(Label, usize)>, labels: Map<u32, usize>, k: int)
    requires
        0 <= k,
        first_unbound(pending, labels, k) is None,
    ensures
        forall|j: int| k <= j < pending.len() ==> labels.contains_key(#[trigger] pending[j].0@),
    decreases pending.len() - k,
{
    if k < pending.len() {
        lemma_no_unbound(pending, labels, k + 1);
    }
}

/// Patching the first `k` references writes each one's label address into
/// its immediate and touches nothing else: later immediates are still zero,
/// and every bound label still holds its `JUMPDEST`.
proof fn lemma_patched(m: AsmModel, k: int)
    requires
        m.wf(),
        0 <= k <= m.pending.len(),
        m.code.len() <= MAX_LABEL_OFFSET,
        forall|j: int| 0 <= j < m.pending.len() ==> m.labels.contains_key(#[trigger] m.pending[j].0@),
    ensures
        ({
            let b = patched(m.code, m.pending, m.labels, k);
            &&& b.len() == m.code.len()
            &&& forall|j: int|
                0 <= j < k ==> {
                    let at = #[trigger] m.pending[j].1 as int;
                    b[at] * 256 + b[at + 1] == m.labels[m.pending[j].0@]
                }
            &&& forall|j: int|
                k <= j < m.pending.len() ==> {
                    let at = #[trigger] m.pending[j].1 as int;
                    b[at] == 0 && b[at + 1] == 0
                }
            &&& forall|id: u32| #[trigger]
                m.labels.contains_key(id) ==> b[m.labels[id] as int] == 0x5b
        }),
    decreases k,
{
    if k > 0 {
        lemma_patched(m, k - 1);
        let prev = patched(m.code, m.pending, m.labels, k - 1);
        let b = patched(m.code, m.pending, m.labels, k);
        let at = m.pending[k - 1].1 as int;
        let target = m.labels[m.pending[k - 1].0@];
        assert(target < m.code.len());
        assert(b == prev.update(at, (target / 256) as u8).update(at + 1, (target % 256) as u8));
        assert forall|j: int| 0 <= j < k implies {
            let at = #[trigger] m.pending[j].1 as int;
            b[at] * 256 + b[at + 1] == m.labels[m.pending[j].0@]
        } by {
            if j < k - 1 {
                assert(m.pending[j].1 + 2 < m.pending[k - 1].1);
            }
        }
        assert forall|j: int| k <= j < m.pending.len() implies {
            let at = #[trigger] m.pending[j].1 as int;
            b[at] == 0 && b[at + 1] == 0
        } by {
            assert(m.pending[k - 1].1 + 2 < m.pending[j].1);
        }
        assert forall|id: u32| #[trigger] m.labels.contains_key(id) implies b[m.labels[id] as int] == 0x5b by {
            assert(prev[at] == 0 && prev[at + 1] == 0);
            assert(prev[m.labels[id] as int] == 0x5b);
        }
    }
}

/// What [`Asm::finish`] hands back resolves every label reference: the
/// `PUSH2` immediate holds the big-endian address of its label, and that
/// address holds a `JUMPDEST`. Nothing else about the code changes length.
pub proof fn lemma_finished_jumps_land_on_jumpdests(m: AsmModel)
    requires
        m.wf(),
        m.finish() is Ok,
    ensures
        ({
            let b = m.finish()->Ok_0;
            &&& b.len() == m.code.len()
            &&& forall|k: int|
                0 <= k < m.pending.len() ==> {
                    let at = #[trigger] m.pending[k].1 as int;
                    let target = m.labels[m.pending[k].0@] as int;
                    &&& m.labels.contains_key(m.pending[k].0@)
                    &&& b[at] * 256 + b[at + 1] == target
                    &&& b[target] == 0x5b
                }
        }),
{
    lemma_no_unbound(m.pending, m.labels, 0);
    if m.pending.len() > 0 {
        lemma_patched(m, m.pending.len() as int);
        let b = m.finish()->Ok_0;
        assert forall|k: int| 0 <= k < m.pending.len() implies {
            let at = #[trigger] m.pending[k].1 as int;
            let target = m.labels[m.pending[k].0@] as int;
            &&& m.labels.contains_key(m.pending[k].0@)
            &&& b[at] * 256 + b[at + 1] == target
            &&& b[target] == 0x5b
        } by {
            let id = m.pending[k].0@;
            assert(m.labels.contains_key(id));
        }
    }
}

/// A label reference awaiting patch: `at` is the offset of the two immediate
/// bytes, not of the `PUSH2` itself.
struct Fixup {
    label: Label,
    at: usize,
}

/// Assembles bytecode for one target fork.
///
/// Errors are sticky: the first failure is recorded, later emits become
/// no-ops, and [`finish`](Self::finish) returns it.
pub struct Asm {
    fork: Fork,
    code: Vec<u8>,
    labels: HashMap<u32, usize>,
    fixups: Vec<Fixup>,
    next_label: u32,
    error: Option<AsmError>,
}

impl View for Asm {
    type V = AsmModel;

    closed spec fn view(&self) -> AsmModel {
        AsmModel {
            fork: self.fork,
            code: self.code@,
            labels: self.labels@,
            pending: self.fixups@.map_values(|f: Fixup| (f.label, f.at)),
            next_label: self.next_label,
            error: match self.error {
                Some(e) => Some(e@),
                None => None,
            },
        }
    }
}


impl Asm {
    pub fn new(fork: Fork) -> (r: Asm)
        ensures
            r@ == (AsmModel {
                fork,
                code: Seq::empty(),
                labels: Map::empty(),
                pending: Seq::empty(),
                next_label: 0,
                error: None,
            }),
            r@.wf(),
    {
        let r = Asm {
            fork,
            code: Vec::new(),
            labels: HashMap::new(),
            fixups: Vec::new(),
            next_label: 0,
            error: None,
        };
        assert(r@.pending =~= Seq::empty());
        r
    }

    /// Current byte offset — the address the next emitted opcode will sit at.
    pub fn offset(&self) -> (r: usize)
        ensures
            r == self@.code.len(),
    {
        self.code.len()
    }

    /// Whether the output is within EIP-170's deployed-code limit. Only
    /// meaningful for runtime bytecode.
    pub fn is_deployable(&self) -> (r: bool)
        ensures
            r == (self@.code.len() <= MAX_CONTRACT_SIZE),
    {
        self.code.len() <= MAX_CONTRACT_SIZE
    }

    /// Emit an operand-free opcode by mnemonic.
    ///
    /// `PUSH`/`DUP`/`SWAP` are rejected here: they carry an operand, so they
    /// go through [`push`](Self::push), [`dup`](Self::dup) and
    /// [`swap`](Self::swap).
    pub fn op(&mut self, mnemonic: &str) -> (r: &mut Self)
        requires
            old(self)@.wf(),
        ensures
            (*r)@ == old(self)@.op(mnemonic@),
            (*r)@.wf(),
            *final(self) == *final(r),
    {
        if self.error.is_some() {
            return self;
        }
        let spec = match by_mnemonic(mnemonic) {
            Some(spec) => spec,
            None => {
                return self.fail(AsmError::UnknownMnemonic(mnemonic.to_owned()));
            },
        };
        let helper: Option<&'static str> = match op_form(spec) {
            OpForm::Simple => None,
            OpForm::Push(_) => Some("push"),
            OpForm::Dup(_) => Some("dup"),
            OpForm::Swap(_) => Some("swap"),
        };
        if let Some(helper) = helper {
            return self.fail(AsmError::UseHelperInstead { mnemonic: spec.mnemonic, helper });
        }
        self.emit_byte(spec.byte, spec.mnemonic, spec.min_fork)
    }

    /// Push a constant, using the narrowest `PUSH` that holds it.
    ///
    /// Zero is `PUSH0` from Shanghai on, and `PUSH1 0x00` before it — one byte
    /// more, but `PUSH0` does not exist on those forks.
    pub fn push<T: ToImmediate>(&mut self, value: T) -> (r: &mut Self)
        requires
            old(self)@.wf(),
        ensures
            value.word().len() == 32,
            (*r)@ == old(self)@.push(value.word()),
            (*r)@.wf(),
            *final(self) == *final(r),
    {
        let imm = value.to_immediate();
        if self.error.is_some() {
            return self;
        }
        let width = imm.width();
        if width == 0 && !Fork::Shanghai.not_later_than(self.fork) {
            let zero: [u8; 1] = [0u8];
            let zero = vstd::array::array_as_slice(&zero);
            assert(zero@ =~= seq![0u8]);
            return self.push_bytes(zero);
        }
        if width == 0 {
            return self.emit_byte(0x5f, "PUSH0", Fork::Shanghai);
        }
        let bytes = imm.to_be_bytes();
        let tail = vstd::slice::slice_subrange(vstd::array::array_as_slice(&bytes), 32 - width, 32);
        self.push_bytes(tail)
    }

    /// `DUP{n}` — copy the `n`-th stack item to the top. `n` is 1..=16.
    pub fn dup(&mut self, n: u8) -> (r: &mut Self)
        requires
            old(self)@.wf(),
        ensures
            (*r)@ == old(self)@.dup(n),
            (*r)@.wf(),
            *final(self) == *final(r),
    {
        if self.error.is_some() {
            return self;
        }
        if !(1 <= n && n <= 16) {
            return self.fail(AsmError::BadStackDepth { helper: "dup", n });
        }
        self.emit_family_byte(0x7f + n)
    }

    /// `SWAP{n}` — exchange the top with the `(n+1)`-th stack item. `n` is
    /// 1..=16.
    pub fn swap(&mut self, n: u8) -> (r: &mut Self)
        requires
            old(self)@.wf(),
        ensures
            (*r)@ == old(self)@.swap(n),
            (*r)@.wf(),
            *final(self) == *final(r),
    {
        if self.error.is_some() {
            return self;
        }
        if !(1 <= n && n <= 16) {
            return self.fail(AsmError::BadStackDepth { helper: "swap", n });
        }
        self.emit_family_byte(0x8f + n)
    }

    /// Reserve a jump target. Emits nothing; [`bind`](Self::bind) places it.
    pub fn label(&mut self) -> (l: Label)
        requires
            old(self)@.next_label < u32::MAX,
        ensures
            l@ == old(self)@.next_label,
            final(self)@ == (AsmModel { next_label: (old(self)@.next_label + 1) as u32, ..old(self)@ }),
    {
        let l = Label(self.next_label);
        self.next_label = self.next_label + 1;
        l
    }

    /// Place `label` here, emitting the `JUMPDEST` it names — so a bound label
    /// cannot fail to be a legal jump target.
    pub fn bind(&mut self, label: Label) -> (r: &mut Self)
        requires
            old(self)@.wf(),
        ensures
            (*r)@ == old(self)@.bind(label),
            (*r)@.wf(),
            *final(self) == *final(r),
    {
        if self.error.is_some() {
            return self;
        }
        if self.labels.contains_key(&label.0) {
            return self.fail(AsmError::LabelAlreadyBound(label));
        }
        let here = self.code.len();
        self.emit_byte(0x5b, "JUMPDEST", Fork::Frontier);
        self.labels.insert(label.0, here);
        self
    }

    /// Push a label's address for a following `JUMP`/`JUMPI`. Always a
    /// `PUSH2`, whose immediate [`finish`](Self::finish) patches.
    pub fn push_label(&mut self, label: Label) -> (r: &mut Self)
        requires
            old(self)@.wf(),
        ensures
            (*r)@ == old(self)@.push_label(label),
            (*r)@.wf(),
            *final(self) == *final(r),
    {
        if self.error.is_some() {
            return self;
        }
        let ghost before = self@;
        self.code.push(0x61);
        let at = self.code.len();
        self.fixups.push(Fixup { label, at });
        self.code.push(0);
        self.code.push(0);
        proof {
            let after = before.push_label(label);
            assert(self@.code =~= after.code);
            assert(self@.pending =~= after.pending);
            lemma_wf_append(before, seq![0x61u8, 0u8, 0u8]);
            let mid = AsmModel { code: before.code + seq![0x61u8, 0u8, 0u8], ..before };
            assert forall|k: int| 0 <= k < after.pending.len() implies {
                let at = #[trigger] after.pending[k].1 as int;
                &&& 1 <= at
                &&& at + 1 < after.code.len()
                &&& after.code[at - 1] == 0x61
                &&& after.code[at] == 0
                &&& after.code[at + 1] == 0
            } by {
                if k < before.pending.len() {
                    assert(after.pending[k] == mid.pending[k]);
                }
            }
            assert forall|j: int, k: int|
                0 <= j < k < after.pending.len() implies #[trigger] after.pending[j].1 + 2
                < #[trigger] after.pending[k].1 by {
                if k < before.pending.len() {
                    assert(after.pending[k] == before.pending[k]);
                    assert(after.pending[j] == before.pending[j]);
                } else {
                    let atj = before.pending[j].1 as int;
                    assert(before.code[atj + 1] == 0);
                }
            }
            assert(after.wf());
        }
        self
    }

    /// Resolve label references and return the bytecode.
    #[verifier::spinoff_prover]
    pub fn finish(self) -> (r: Result<Vec<u8>, AsmError>)
        requires
            self@.wf(),
        ensures
            finish_view(r) == self@.finish(),
            r matches Ok(b) ==> b@.len() == self@.code.len() && forall|k: int|
                0 <= k < self@.pending.len() ==> {
                    let at = #[trigger] self@.pending[k].1 as int;
                    let target = self@.labels[self@.pending[k].0@] as int;
                    b@[at] * 256 + b@[at + 1] == target && b@[target] == 0x5b
                },
    {
        let ghost m = self@;
        let mut this = self;
        if let Some(e) = this.error {
            return Err(e);
        }
        if this.code.len() > MAX_LABEL_OFFSET && this.fixups.len() > 0 {
            return Err(AsmError::CodeTooLargeToAddress { len: this.code.len() });
        }
        let mut k: usize = 0;
        while k < this.fixups.len()
            invariant
                m == (AsmModel { code: m.code, ..this@ }),
                m == self@,
                m.wf(),
                m.error is None,
                m.code.len() <= MAX_LABEL_OFFSET || m.pending.len() == 0,
                k <= m.pending.len(),
                this.code@ == patched(m.code, m.pending, m.labels, k as int),
                first_unbound(m.pending, m.labels, 0) == first_unbound(m.pending, m.labels, k as int),
            decreases m.pending.len() - k,
        {
            let label = this.fixups[k].label;
            let at = this.fixups[k].at;
            assert(m.pending[k as int] == (label, at));
            let target = match this.labels.get(&label.0) {
                Some(t) => *t,
                None => {
                    assert(first_unbound(m.pending, m.labels, k as int) == Some(k as int));
                    assert(AsmError::UnboundLabel(label)@ == AsmFault::UnboundLabel(m.pending[k as int].0));
                    return Err(AsmError::UnboundLabel(label));
                },
            };
            proof {
                lemma_patched_len(m.code, m.pending, m.labels, k as int);
                assert(m.pending[k as int].1 + 1 < m.code.len());
                assert(m.code[target as int] == 0x5b);
                assert(first_unbound(m.pending, m.labels, k as int) == first_unbound(m.pending, m.labels, k + 1));
            }
            this.code.set(at, (target / 256) as u8);
            this.code.set(at + 1, (target % 256) as u8);
            k += 1;
        }
        proof {
            assert(first_unbound(m.pending, m.labels, k as int) is None);
            assert(m.finish() == Ok::<Seq<u8>, AsmFault>(this.code@));
            lemma_finished_jumps_land_on_jumpdests(m);
        }
        Ok(this.code)
    }

    // --- internals ---

    /// Emit one opcode byte after checking it exists on the target fork.
    fn emit_byte(&mut self, byte: u8, mnemonic: &'static str, min_fork: Fork) -> (r: &mut Self)
        requires
            old(self)@.wf(),
            old(self)@.error is None,
        ensures
            (*r)@ == old(self)@.emit(byte, mnemonic, min_fork),
            (*r)@.wf(),
            *final(self) == *final(r),
    {
        if !min_fork.not_later_than(self.fork) {
            return self.fail(AsmError::OpcodeTooNew { mnemonic, min_fork, target: self.fork });
        }
        self.code.push(byte);
        self
    }

    /// Emit a `DUP`/`SWAP` byte, taking its mnemonic and fork from the table.
    fn emit_family_byte(&mut self, byte: u8) -> (r: &mut Self)
        requires
            old(self)@.wf(),
            old(self)@.error is None,
            0x80 <= byte <= 0x9f,
        ensures
            (*r)@ == (AsmModel { code: old(self)@.code.push(byte), ..old(self)@ }),
            (*r)@.wf(),
            *final(self) == *final(r),
    {
        let spec = by_byte(byte).unwrap();
        self.emit_byte(spec.byte, spec.mnemonic, spec.min_fork)
    }

    /// Emit `PUSH{n}` plus `bytes` as its immediate.
    fn push_bytes(&mut self, bytes: &[u8]) -> (r: &mut Self)
        requires
            old(self)@.wf(),
            old(self)@.error is None,
            1 <= bytes@.len() <= 32,
        ensures
            (*r)@ == old(self)@.push_bytes(bytes@),
            (*r)@.wf(),
            *final(self) == *final(r),
    {
        let byte = 0x5f + bytes.len() as u8;
        let spec = by_byte(byte).unwrap();
        self.emit_byte(spec.byte, spec.mnemonic, spec.min_fork);
        let ghost start = old(self)@.code.push(byte);
        let mut i: usize = 0;
        while i < bytes.len()
            invariant
                i <= bytes@.len(),
                self@ == (AsmModel { code: start + bytes@.subrange(0, i as int), ..old(self)@ }),
                self@.wf(),
            decreases bytes.len() - i,
        {
            proof {
                lemma_wf_append(self@, seq![bytes@[i as int]]);
                assert(self@.code + seq![bytes@[i as int]] =~= self@.code.push(bytes@[i as int]));
            }
            self.code.push(bytes[i]);
            i += 1;
            assert(start + bytes@.subrange(0, i as int) =~= (start + bytes@.subrange(0, i - 1)).push(bytes@[i - 1]));
        }
        assert(start + bytes@.subrange(0, i as int) =~= old(self)@.code + push_with(bytes@));
        self
    }

    fn fail(&mut self, e: AsmError) -> (r: &mut Self)
        requires
            old(self)@.wf(),
        ensures
            (*r)@ == old(self)@.fail(e@),
            (*r)@.wf(),
            *final(self) == *final(r),
    {
        if self.error.is_none() {
            self.error = Some(e);
        }
        self
    }
}

} // verus!
