//! The EVM instruction set as data: byte, arity, gas rule, category and the
//! fork each opcode arrived in, plus the lookups everything else goes
//! through.
//!
//! Nothing outside this module restates an opcode byte, an arity or a fork
//! gate; the assembler, the disassembler and the IR all read this table.

use vstd::prelude::*;

pub mod names;
pub mod table;

use table::{spec_by_byte, spec_opcode, table_byte, table_entry, OPCODE_COUNT};

verus! {

/// Coarse classification of an opcode's role, following the Yellow Paper's
/// groupings (environmental information, block information, system
/// operations, ...).
#[derive(Debug, Clone, Copy, PartialEq, Eq, Structural, Hash)]
pub enum OpCategory {
    Arithmetic,
    Comparison,
    Bitwise,
    Storage,
    Memory,
    Context,
    Block,
    Control,
    StackManip,
    Call,
    Log,
    Terminating,
}

/// Ethereum hardforks, in chronological order.
///
/// Declaration order is the chronological order, and the derived ordering
/// follows it; [`Fork::ordinal`] states that order as a number, which is
/// what gating compares: an opcode is available when its `min_fork` is not
/// later than the target.
#[derive(Debug, Clone, Copy, PartialEq, Eq, Structural, PartialOrd, Ord, Hash)]
pub enum Fork {
    Frontier,
    Homestead,
    Byzantium,
    Constantinople,
    Istanbul,
    Berlin,
    London,
    Shanghai,
    Cancun,
    Prague,
}

impl Fork {
    /// Position in chronological order, `Frontier` being 0.
    pub open spec fn rank(self) -> nat {
        match self {
            Fork::Frontier => 0,
            Fork::Homestead => 1,
            Fork::Byzantium => 2,
            Fork::Constantinople => 3,
            Fork::Istanbul => 4,
            Fork::Berlin => 5,
            Fork::London => 6,
            Fork::Shanghai => 7,
            Fork::Cancun => 8,
            Fork::Prague => 9,
        }
    }

    /// The chronological position, as a number to compare.
    pub fn ordinal(self) -> (r: u8)
        ensures
            r == self.rank(),
    {
        match self {
            Fork::Frontier => 0,
            Fork::Homestead => 1,
            Fork::Byzantium => 2,
            Fork::Constantinople => 3,
            Fork::Istanbul => 4,
            Fork::Berlin => 5,
            Fork::London => 6,
            Fork::Shanghai => 7,
            Fork::Cancun => 8,
            Fork::Prague => 9,
        }
    }

    /// The fork's name, as its `Debug` form prints it.
    pub open spec fn name_text(self) -> Seq<char> {
        match self {
            Fork::Frontier => "Frontier"@,
            Fork::Homestead => "Homestead"@,
            Fork::Byzantium => "Byzantium"@,
            Fork::Constantinople => "Constantinople"@,
            Fork::Istanbul => "Istanbul"@,
            Fork::Berlin => "Berlin"@,
            Fork::London => "London"@,
            Fork::Shanghai => "Shanghai"@,
            Fork::Cancun => "Cancun"@,
            Fork::Prague => "Prague"@,
        }
    }

    pub fn name(self) -> (r: &'static str)
        ensures
            r@ == self.name_text(),
    {
        match self {
            Fork::Frontier => "Frontier",
            Fork::Homestead => "Homestead",
            Fork::Byzantium => "Byzantium",
            Fork::Constantinople => "Constantinople",
            Fork::Istanbul => "Istanbul",
            Fork::Berlin => "Berlin",
            Fork::London => "London",
            Fork::Shanghai => "Shanghai",
            Fork::Cancun => "Cancun",
            Fork::Prague => "Prague",
        }
    }

    /// Whether `self` is `other` or came before it.
    pub fn not_later_than(self, other: Fork) -> (r: bool)
        ensures
            r == (self.rank() <= other.rank()),
    {
        self.ordinal() <= other.ordinal()
    }
}

/// Fork gating follows the chronology: each fork ranks strictly after the one
/// before it, so no two forks share a rank, and `not_later_than` holds
/// exactly when the first fork came no later than the second.
pub proof fn lemma_forks_are_chronological(a: Fork, b: Fork)
    ensures
        Fork::Frontier.rank() < Fork::Homestead.rank(),
        Fork::Homestead.rank() < Fork::Byzantium.rank(),
        Fork::Byzantium.rank() < Fork::Constantinople.rank(),
        Fork::Constantinople.rank() < Fork::Istanbul.rank(),
        Fork::Istanbul.rank() < Fork::Berlin.rank(),
        Fork::Berlin.rank() < Fork::London.rank(),
        Fork::London.rank() < Fork::Shanghai.rank(),
        Fork::Shanghai.rank() < Fork::Cancun.rank(),
        Fork::Cancun.rank() < Fork::Prague.rank(),
        a.rank() == b.rank() ==> a == b,
{
}

/// The shape of the gas rule that applies to an opcode — which rule, and its
/// fixed parameters, not a final cost.
#[derive(Debug, Clone, Copy, PartialEq, Eq, Structural, Hash)]
pub enum GasClass {
    /// The zero-gas tier (`STOP`, `RETURN`, `REVERT`).
    Zero,
    /// A constant cost.
    Fixed(u16),
    /// EIP-2929 accessed-set cost: expensive on first touch, cheap after.
    ColdWarm { cold: u16, warm: u16 },
    /// Linear in the number of 32-byte words touched (the per-word rate).
    PerWord(u16),
    /// `EXP`'s dynamic component: gas per significant byte of the exponent.
    PerByteOfExponent(u16),
    /// State write with EIP-2200/3529 state-dependent cost and refunds.
    StorageWrite,
    /// Pure memory-expansion cost.
    MemoryExpansion,
    /// A multi-component formula not decomposed here (the `CALL` family,
    /// `CREATE`/`CREATE2`, `SELFDESTRUCT`, `LOG0`-`LOG4`).
    Complex,
    /// Consumes all remaining gas (`INVALID`).
    All,
}

/// A complete description of one EVM opcode. Every operand it pops counts
/// in `stack_in`, memory offsets and lengths included.
#[derive(Debug, Clone, Copy, PartialEq, Eq)]
pub struct OpSpec {
    pub mnemonic: &'static str,
    pub byte: u8,
    pub stack_in: u8,
    pub stack_out: u8,
    pub terminating: bool,
    pub gas: GasClass,
    pub category: OpCategory,
    pub min_fork: Fork,
}

impl OpSpec {
    /// Foldable: deterministic given its stack inputs alone, no side effects.
    pub fn is_pure(&self) -> (r: bool)
        ensures
            r == (self.category is Arithmetic || self.category is Comparison
                || self.category is Bitwise),
    {
        match self.category {
            OpCategory::Arithmetic | OpCategory::Comparison | OpCategory::Bitwise => true,
            _ => false,
        }
    }

    /// `SLOAD`/`TLOAD`: the storage opcodes that produce a stack output.
    pub fn reads_state(&self) -> (r: bool)
        ensures
            r == (self.category is Storage && self.stack_out != 0),
    {
        match self.category {
            OpCategory::Storage => self.stack_out != 0,
            _ => false,
        }
    }

    /// `SSTORE`/`TSTORE`: the storage opcodes that produce no stack output.
    pub fn writes_state(&self) -> (r: bool)
        ensures
            r == (self.category is Storage && self.stack_out == 0),
    {
        match self.category {
            OpCategory::Storage => self.stack_out == 0,
            _ => false,
        }
    }

    /// The name the tests of this table use for [`reads_state`](Self::reads_state).
    pub fn reads_storage(&self) -> (r: bool)
        ensures
            r == (self.category is Storage && self.stack_out != 0),
    {
        self.reads_state()
    }

    /// The name the tests of this table use for [`writes_state`](Self::writes_state).
    pub fn writes_storage(&self) -> (r: bool)
        ensures
            r == (self.category is Storage && self.stack_out == 0),
    {
        self.writes_state()
    }

    /// `PUSH`/`DUP`/`SWAP`/`POP`: pure stack-shape manipulation.
    pub fn is_stack_manip(&self) -> (r: bool)
        ensures
            r == self.category is StackManip,
    {
        match self.category {
            OpCategory::StackManip => true,
            _ => false,
        }
    }
}

/// `PUSH1`-`PUSH32`, `DUP1`-`DUP16` and `SWAP1`-`SWAP16` are three families
/// with an immediate or depth parameter rather than 64 unrelated opcodes.
#[derive(Debug, Clone, Copy, PartialEq, Eq, Structural)]
pub enum OpForm {
    Simple,
    /// Immediate width in bytes, `0..=32` (`Push(0)` is `PUSH0`).
    Push(u8),
    /// Stack depth, `1..=16`.
    Dup(u8),
    /// Stack depth, `1..=16`.
    Swap(u8),
}

/// The structural family of the opcode with byte `b`.
pub open spec fn form_of_byte(b: u8) -> OpForm {
    if b == 0x5f {
        OpForm::Push(0)
    } else if 0x60 <= b <= 0x7f {
        OpForm::Push((b - 0x5f) as u8)
    } else if 0x80 <= b <= 0x8f {
        OpForm::Dup((b - 0x7f) as u8)
    } else if 0x90 <= b <= 0x9f {
        OpForm::Swap((b - 0x8f) as u8)
    } else {
        OpForm::Simple
    }
}

/// Recovers the structural family of an opcode from its byte value.
pub fn op_form(spec: OpSpec) -> (r: OpForm)
    ensures
        r == form_of_byte(spec.byte),
{
    match spec.byte {
        0x5f => OpForm::Push(0),
        b if 0x60 <= b && b <= 0x7f => OpForm::Push(b - 0x5f),
        b if 0x80 <= b && b <= 0x8f => OpForm::Dup(b - 0x7f),
        b if 0x90 <= b && b <= 0x9f => OpForm::Swap(b - 0x8f),
        _ => OpForm::Simple,
    }
}

/// The entry with byte `b`, if the table assigns one.
pub fn by_byte(b: u8) -> (r: Option<OpSpec>)
    ensures
        r == spec_by_byte(b),
{
    table_entry(b)
}

/// The first entry at or after listing position `i` whose mnemonic reads
/// `name`.
pub open spec fn find_mnemonic_from(name: Seq<char>, i: int) -> Option<OpSpec>
    decreases OPCODE_COUNT - i,
{
    if i < 0 || i >= OPCODE_COUNT {
        None
    } else if spec_opcode(i).mnemonic@ == name {
        Some(spec_opcode(i))
    } else {
        find_mnemonic_from(name, i + 1)
    }
}

/// The entry whose mnemonic reads `name`, first in listing order.
pub open spec fn spec_by_mnemonic(name: Seq<char>) -> Option<OpSpec> {
    find_mnemonic_from(name, 0)
}

/// A result of [`find_mnemonic_from`] is a listed entry with that name.
pub proof fn lemma_found_mnemonic_is_listed(name: Seq<char>, i: int)
    requires
        0 <= i,
    ensures
        find_mnemonic_from(name, i) matches Some(s) ==> exists|k: int|
            i <= k < OPCODE_COUNT && s == spec_opcode(k) && s.mnemonic@ == name,
    decreases OPCODE_COUNT - i,
{
    if i < OPCODE_COUNT {
        lemma_found_mnemonic_is_listed(name, i + 1);
    }
}

/// Scanning from `i`, the entry named like entry `k` is entry `k` itself.
proof fn lemma_scan_finds_entry(k: int, i: int)
    requires
        0 <= i <= k < OPCODE_COUNT,
    ensures
        find_mnemonic_from(spec_opcode(k).mnemonic@, i) == Some(spec_opcode(k)),
    decreases k - i,
{
    if i < k {
        if spec_opcode(i).mnemonic@ == spec_opcode(k).mnemonic@ {
            names::lemma_mnemonics_are_unique(i, k);
        }
        lemma_scan_finds_entry(k, i + 1);
    }
}

/// Scanning from `i` finds nothing exactly when no entry from `i` on has the
/// name.
proof fn lemma_scan_misses(name: Seq<char>, i: int)
    requires
        0 <= i,
    ensures
        find_mnemonic_from(name, i) is None <==> forall|k: int|
            i <= k < OPCODE_COUNT ==> (#[trigger] spec_opcode(k)).mnemonic@ != name,
    decreases OPCODE_COUNT - i,
{
    if i < OPCODE_COUNT {
        lemma_scan_misses(name, i + 1);
        if find_mnemonic_from(name, i) is None {
            assert forall|k: int| i <= k < OPCODE_COUNT implies (#[trigger] spec_opcode(k)).mnemonic@ != name by {
                if k > i {
                    assert(find_mnemonic_from(name, i + 1) is None);
                }
            }
        }
    }
}

/// The two lookups agree with the table and with each other: every entry is
/// found by its byte and by its mnemonic, a name is found exactly when some
/// entry has it, and what is found has that name. Mnemonics being unique
/// ([`names::lemma_mnemonics_are_unique`]), the entry found is the one.
pub proof fn lemma_lookups_round_trip(k: int, name: Seq<char>)
    requires
        0 <= k < OPCODE_COUNT,
    ensures
        spec_by_byte(spec_opcode(k).byte) == Some(spec_opcode(k)),
        spec_by_mnemonic(spec_opcode(k).mnemonic@) == Some(spec_opcode(k)),
        spec_by_mnemonic(name) is None <==> forall|j: int|
            0 <= j < OPCODE_COUNT ==> (#[trigger] spec_opcode(j)).mnemonic@ != name,
        spec_by_mnemonic(name) matches Some(s) ==> exists|j: int|
            0 <= j < OPCODE_COUNT && s == spec_opcode(j) && s.mnemonic@ == name,
{
    table::lemma_listed_entries_exist(k);
    lemma_scan_finds_entry(k, 0);
    lemma_scan_misses(name, 0);
    lemma_found_mnemonic_is_listed(name, 0);
}

/// The `i`-th entry in listing order.
pub fn opcode_at(i: usize) -> (r: OpSpec)
    requires
        i < OPCODE_COUNT,
    ensures
        r == spec_opcode(i as int),
{
    proof {
        table::lemma_listed_entries_exist(i as int);
    }
    let b = table_byte(i);
    table_entry(b).unwrap()
}

/// Every opcode, in ascending byte order.
pub fn opcodes() -> (r: Vec<OpSpec>)
    ensures
        r@.len() == OPCODE_COUNT,
        forall|i: int| 0 <= i < OPCODE_COUNT ==> r@[i] == spec_opcode(i),
{
    let mut out: Vec<OpSpec> = Vec::new();
    let mut i: usize = 0;
    while i < OPCODE_COUNT
        invariant
            i <= OPCODE_COUNT,
            out@.len() == i,
            forall|k: int| 0 <= k < i ==> out@[k] == spec_opcode(k),
        decreases OPCODE_COUNT - i,
    {
        out.push(opcode_at(i));
        i += 1;
    }
    out
}

/// Whether two strings read the same.
fn str_eq(a: &str, b: &str) -> (r: bool)
    ensures
        r == (a@ == b@),
{
    let n = a.unicode_len();
    if n != b.unicode_len() {
        return false;
    }
    let mut i: usize = 0;
    while i < n
        invariant
            n == a@.len(),
            n == b@.len(),
            i <= n,
            forall|j: int| 0 <= j < i ==> a@[j] == b@[j],
        decreases n - i,
    {
        if a.get_char(i) != b.get_char(i) {
            return false;
        }
        i += 1;
    }
    assert(a@ =~= b@);
    true
}

/// The entry whose mnemonic is `name`. A linear scan over the table.
pub fn by_mnemonic(name: &str) -> (r: Option<OpSpec>)
    ensures
        r == spec_by_mnemonic(name@),
{
    let mut i: usize = 0;
    while i < OPCODE_COUNT
        invariant
            i <= OPCODE_COUNT,
            find_mnemonic_from(name@, 0) == find_mnemonic_from(name@, i as int),
        decreases OPCODE_COUNT - i,
    {
        let spec = opcode_at(i);
        if str_eq(spec.mnemonic, name) {
            return Some(spec);
        }
        i += 1;
    }
    None
}

} // verus!
