//! What an operation can observe or disturb.
//!
//! Optimizer passes need to know which operations may be reordered past
//! which. The unit an optimizer reasons about is an EIR instruction, not an
//! EVM opcode, so the answer lives here; [`Effects::of_opcode`] derives it
//! for raw opcodes from the table rather than restating anything.
//!
//! The rule this is for: an instruction may be removed only if its results
//! are unused **and** its effects are pure. Terminators are never removed.

use vstd::prelude::*;

use crate::isa::table::{lemma_assigned_bytes_are_listed, spec_by_byte};
use crate::isa::{OpCategory, OpSpec};

verus! {

/// A set of effects: a bitset over nine flags.
#[derive(Debug, Clone, Copy, PartialEq, Eq, Structural, Default, Hash)]
pub struct Effects(u16);

impl View for Effects {
    type V = u16;

    closed spec fn view(&self) -> u16 {
        self.0
    }
}

/// The effects of a raw opcode, as bits. Mostly a function of the category,
/// except where the byte is more honest than the category: the `*COPY`
/// family writes memory though it is `Context`, `KECCAK256` and `MSIZE` read
/// it, and the four storage opcodes each have one effect of their own.
pub open spec fn opcode_effect_bits(spec: OpSpec) -> u16 {
    if spec.byte == 0x20 || spec.byte == 0x51 || spec.byte == 0x59 {
        1
    } else if spec.byte == 0x52 || spec.byte == 0x53 {
        2
    } else if spec.byte == 0x5e {
        3
    } else if spec.byte == 0x37 || spec.byte == 0x39 || spec.byte == 0x3c || spec.byte == 0x3e {
        0x42
    } else if spec.byte == 0x54 {
        4
    } else if spec.byte == 0x55 {
        8
    } else if spec.byte == 0x5c {
        0x10
    } else if spec.byte == 0x5d {
        0x20
    } else {
        match spec.category {
            OpCategory::Arithmetic | OpCategory::Comparison | OpCategory::Bitwise => 0,
            OpCategory::StackManip => 0,
            OpCategory::Context | OpCategory::Block => 0x40,
            OpCategory::Memory => 3,
            OpCategory::Storage => 12,
            OpCategory::Log => 0x81,
            OpCategory::Call => 0x103,
            OpCategory::Control | OpCategory::Terminating => 0x1ff,
        }
    }
}

/// Effects form a set algebra over their bits: a union holds each side; a set
/// holds `c` exactly when adding `c` changes nothing; every set holds itself
/// and the empty set; a set held by two sets is held by their common part;
/// and intersecting is symmetric, the empty set intersecting nothing.
pub proof fn lemma_effect_set_algebra(a: u16, b: u16, c: u16)
    by (bit_vector)
    ensures
        (a | b) & a == a,
        (a | b) & b == b,
        ((a | b) & c == c) == (((a | b) | c) == (a | b)),
        a & a == a,
        a & 0 == 0,
        (a & c == c && b & c == c) ==> (a & b) & c == c,
        0 & a == 0,
        (a & b != 0) == (b & a != 0),
{
}

/// The categories whose opcodes depend on nothing but their operands.
pub open spec fn pure_category(c: OpCategory) -> bool {
    c == OpCategory::Arithmetic || c == OpCategory::Comparison || c == OpCategory::Bitwise || c
        == OpCategory::StackManip
}

/// No opcode in the table comes back accidentally pure: an opcode's effects
/// are empty exactly when its category is arithmetic, comparison, bitwise or
/// stack manipulation. The bytes whose effects override their category all
/// belong to impure categories.
pub proof fn lemma_no_table_opcode_is_accidentally_pure(b: u8)
    requires
        spec_by_byte(b) is Some,
    ensures
        (opcode_effect_bits(spec_by_byte(b)->0) == 0) == pure_category(spec_by_byte(b)->0.category),
{
    lemma_assigned_bytes_are_listed(b);
    let s = spec_by_byte(b)->0;
    if b == 0x20 || b == 0x51 || b == 0x59 || b == 0x52 || b == 0x53 || b == 0x5e || b == 0x37 || b == 0x39
        || b == 0x3c || b == 0x3e || b == 0x54 || b == 0x55 || b == 0x5c || b == 0x5d {
        assert(!pure_category(s.category));
    }
}

impl Effects {
    /// Depends on nothing but its operands, and disturbs nothing.
    pub fn pure_() -> (r: Effects)
        ensures
            r@ == 0,
    {
        Effects(0)
    }

    pub fn reads_memory() -> (r: Effects)
        ensures
            r@ == 1,
    {
        Effects(1)
    }

    pub fn writes_memory() -> (r: Effects)
        ensures
            r@ == 2,
    {
        Effects(2)
    }

    pub fn reads_storage() -> (r: Effects)
        ensures
            r@ == 4,
    {
        Effects(4)
    }

    pub fn writes_storage() -> (r: Effects)
        ensures
            r@ == 8,
    {
        Effects(8)
    }

    pub fn reads_transient() -> (r: Effects)
        ensures
            r@ == 0x10,
    {
        Effects(0x10)
    }

    pub fn writes_transient() -> (r: Effects)
        ensures
            r@ == 0x20,
    {
        Effects(0x20)
    }

    /// Reads the execution environment — `TIMESTAMP`, `CALLER`, `GAS`,
    /// `BALANCE`. No side effect, but neither foldable nor CSE-able across
    /// anything external.
    pub fn reads_context() -> (r: Effects)
        ensures
            r@ == 0x40,
    {
        Effects(0x40)
    }

    /// Emits a log: observable off-chain, so never removable.
    pub fn logs() -> (r: Effects)
        ensures
            r@ == 0x80,
    {
        Effects(0x80)
    }

    /// Hands control to code we know nothing about — a barrier to
    /// everything.
    pub fn external() -> (r: Effects)
        ensures
            r@ == 0x100,
    {
        Effects(0x100)
    }

    /// Every effect: the conservative answer, and the fallback for anything
    /// unclassified.
    pub fn all() -> (r: Effects)
        ensures
            r@ == 0x1ff,
    {
        Effects(0x1ff)
    }

    pub fn union(self, other: Effects) -> (r: Effects)
        ensures
            r@ == self@ | other@,
    {
        Effects(self.0 | other.0)
    }

    /// Whether `self` has every effect in `other`.
    pub fn contains(self, other: Effects) -> (r: bool)
        ensures
            r == (self@ & other@ == other@),
    {
        self.0 & other.0 == other.0
    }

    /// Whether any effect in `other` is present.
    pub fn intersects(self, other: Effects) -> (r: bool)
        ensures
            r == (self@ & other@ != 0),
    {
        self.0 & other.0 != 0
    }

    pub fn is_pure(self) -> (r: bool)
        ensures
            r == (self@ == 0),
    {
        self.0 == 0
    }

    /// Whether removing this is allowed once its results are unused.
    pub fn is_removable(self) -> (r: bool)
        ensures
            r == (self@ == 0),
    {
        self.is_pure()
    }

    /// The effects of a raw EVM opcode, for the `Op::Opcode` escape hatch.
    pub fn of_opcode(spec: OpSpec) -> (r: Effects)
        ensures
            r@ == opcode_effect_bits(spec),
    {
        proof {
            assert(1u16 | 2u16 == 3u16) by (bit_vector);
            assert(0x40u16 | 2u16 == 0x42u16) by (bit_vector);
            assert(4u16 | 8u16 == 12u16) by (bit_vector);
            assert(0x80u16 | 1u16 == 0x81u16) by (bit_vector);
            assert(0x101u16 | 2u16 == 0x103u16) by (bit_vector);
            assert(0x100u16 | 1u16 == 0x101u16) by (bit_vector);
        }
        let b = spec.byte;
        if b == 0x20 || b == 0x51 || b == 0x59 {
            Effects::reads_memory()
        } else if b == 0x52 || b == 0x53 {
            Effects::writes_memory()
        } else if b == 0x5e {
            Effects::reads_memory().union(Effects::writes_memory())
        } else if b == 0x37 || b == 0x39 || b == 0x3c || b == 0x3e {
            Effects::reads_context().union(Effects::writes_memory())
        } else if b == 0x54 {
            Effects::reads_storage()
        } else if b == 0x55 {
            Effects::writes_storage()
        } else if b == 0x5c {
            Effects::reads_transient()
        } else if b == 0x5d {
            Effects::writes_transient()
        } else {
            match spec.category {
                OpCategory::Arithmetic | OpCategory::Comparison | OpCategory::Bitwise => Effects::pure_(),
                OpCategory::StackManip => Effects::pure_(),
                OpCategory::Context | OpCategory::Block => Effects::reads_context(),
                OpCategory::Memory => Effects::reads_memory().union(Effects::writes_memory()),
                OpCategory::Storage => Effects::reads_storage().union(Effects::writes_storage()),
                OpCategory::Log => Effects::logs().union(Effects::reads_memory()),
                OpCategory::Call => Effects::external().union(Effects::reads_memory()).union(
                    Effects::writes_memory(),
                ),
                OpCategory::Control | OpCategory::Terminating => Effects::all(),
            }
        }
    }

    /// How a set reads in a dump: `pure`, or its flags joined by `|` in
    /// declaration order.
    pub open spec fn text(self) -> Seq<char> {
        if self@ == 0 {
            "pure"@
        } else {
            effect_names_upto(self@, 9)
        }
    }

    pub fn to_string(&self) -> (r: String)
        ensures
            r@ == self.text(),
    {
        let mut s = String::new();
        if self.0 == 0 {
            s.append("pure");
            return s;
        }
        let mut first = true;
        let mut k: u16 = 0;
        while k < 9
            invariant
                k <= 9,
                self@ != 0,
                s@ == effect_names_upto(self@, k as int),
                first == (s@.len() == 0),
            decreases 9 - k,
        {
            proof {
                lemma_flag_names_nonempty(k as int);
            }
            if self.0 & (1u16 << k) != 0 {
                if !first {
                    s.append("|");
                }
                s.append(flag_name(k));
                first = false;
            }
            k += 1;
        }
        s
    }
}

/// The dump name of flag number `k`.
pub open spec fn spec_flag_name(k: int) -> &'static str {
    if k == 0 {
        "rmem"
    } else if k == 1 {
        "wmem"
    } else if k == 2 {
        "rsto"
    } else if k == 3 {
        "wsto"
    } else if k == 4 {
        "rtra"
    } else if k == 5 {
        "wtra"
    } else if k == 6 {
        "rctx"
    } else if k == 7 {
        "log"
    } else {
        "extern"
    }
}

fn flag_name(k: u16) -> (r: &'static str)
    ensures
        r == spec_flag_name(k as int),
{
    if k == 0 {
        "rmem"
    } else if k == 1 {
        "wmem"
    } else if k == 2 {
        "rsto"
    } else if k == 3 {
        "wsto"
    } else if k == 4 {
        "rtra"
    } else if k == 5 {
        "wtra"
    } else if k == 6 {
        "rctx"
    } else if k == 7 {
        "log"
    } else {
        "extern"
    }
}

/// Names of the flags of `bits` numbered below `k`, joined by `|`.
pub open spec fn effect_names_upto(bits: u16, k: int) -> Seq<char>
    decreases k,
{
    if k <= 0 {
        seq![]
    } else {
        let prev = effect_names_upto(bits, k - 1);
        if bits & (1u16 << ((k - 1) as u16)) != 0 {
            if prev.len() == 0 {
                spec_flag_name(k - 1)@
            } else {
                prev + "|"@ + spec_flag_name(k - 1)@
            }
        } else {
            prev
        }
    }
}

proof fn lemma_flag_names_nonempty(k: int)
    ensures
        spec_flag_name(k)@.len() > 0,
{
    reveal_strlit("rmem");
    reveal_strlit("wmem");
    reveal_strlit("rsto");
    reveal_strlit("wsto");
    reveal_strlit("rtra");
    reveal_strlit("wtra");
    reveal_strlit("rctx");
    reveal_strlit("log");
    reveal_strlit("extern");
}

} // verus!
