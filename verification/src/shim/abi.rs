//! Type and layout mapping between Rust and the EVM's 256-bit word model.
//!
//! The EVM has one primitive type, a 256-bit unsigned word; booleans,
//! addresses, signed integers and the rest are conventions on top of it.
//!
//! Each MIR local is assigned a slot: a 32-byte-aligned region of EVM memory.
//! Slot `n` starts at byte offset `n * 32`:
//!
//! ```text
//! offset 0x00..0x20   local _0  (return place)
//! offset 0x20..0x40   local _1
//! offset 0x40..0x60   local _2
//! ...
//! ```
//!
//! Larger types (structs, arrays) will need multi-slot layouts; that is not
//! yet implemented.

use vstd::prelude::*;

verus! {

/// The number of bytes in one EVM word / stack slot.
pub const WORD_BYTES: u32 = 32;

/// Memory layout for all locals in one MIR function body. Each local gets
/// exactly one 32-byte slot, enough for a scalar.
pub struct EvmLayout {
    /// Slot index for each MIR local: `slots[local] = slot`.
    slots: Vec<u32>,
}

impl View for EvmLayout {
    type V = Seq<u32>;

    /// The slot of each local, by local index.
    closed spec fn view(&self) -> Seq<u32> {
        self.slots@
    }
}

impl EvmLayout {
    /// The layout for a body with `local_count` locals: local `n` in slot `n`.
    /// The count is taken as a `u32`, as MIR local indices are.
    pub fn for_body(local_count: usize) -> (r: EvmLayout)
        ensures
            r@ == Seq::new(local_count as u32 as nat, |n: int| n as u32),
    {
        let count = local_count as u32;
        let mut slots: Vec<u32> = Vec::new();
        let mut n: u32 = 0;
        while n < count
            invariant
                n <= count,
                slots@ == Seq::new(n as nat, |j: int| j as u32),
            decreases count - n,
        {
            slots.push(n);
            n += 1;
            assert(slots@ =~= Seq::new(n as nat, |j: int| j as u32));
        }
        EvmLayout { slots }
    }

    /// The byte offset of `local`'s slot in EVM memory.
    pub fn slot_of(&self, local: usize) -> (r: u32)
        requires
            local < self@.len(),
            self@[local as int] * WORD_BYTES <= u32::MAX,
        ensures
            r == self@[local as int] * WORD_BYTES,
    {
        self.slots[local] * WORD_BYTES
    }

    /// Total memory the locals need, in bytes.
    pub fn total_bytes(&self) -> (r: u32)
        requires
            (self@.len() as u32) * WORD_BYTES <= u32::MAX,
        ensures
            r == (self@.len() as u32) * WORD_BYTES,
    {
        (self.slots.len() as u32) * WORD_BYTES
    }
}

/// The slots of a body's layout tile memory from offset zero: local `n`'s
/// slot starts at `32 * n`, the slots of two locals do not overlap, and every
/// slot lies inside the layout's total.
pub proof fn lemma_slots_tile_memory(layout: EvmLayout, local_count: usize, a: int, b: int)
    requires
        layout@ == Seq::new(local_count as u32 as nat, |n: int| n as u32),
        0 <= a < layout@.len(),
        0 <= b < layout@.len(),
    ensures
        layout@[a] * WORD_BYTES == 32 * a,
        a != b ==> layout@[a] * WORD_BYTES + WORD_BYTES <= layout@[b] * WORD_BYTES || layout@[b] * WORD_BYTES
            + WORD_BYTES <= layout@[a] * WORD_BYTES,
        layout@[a] * WORD_BYTES + WORD_BYTES <= layout@.len() * WORD_BYTES,
{
}

/// What a Rust type is, as far as its EVM representation depends on it.
#[derive(Clone, Copy, Debug, PartialEq, Eq, Structural)]
pub enum RustTyKind {
    Bool,
    Char,
    Int,
    Uint,
    Float,
    RawPtr,
    Ref,
    FnPtr,
    /// A tuple with this many fields; none is `()`.
    Tuple { fields: usize },
    Never,
    FnDef,
    Adt,
    Array,
    Slice,
    /// Anything else: no mapping exists yet.
    Unsupported,
}

/// The EVM representation of a Rust type.
#[derive(Clone, Copy, Debug, PartialEq, Eq, Structural)]
pub enum EvmTy {
    /// A single 256-bit stack word: bool, every integer up to 256 bits, raw
    /// pointers and function pointers.
    Word,
    /// A multi-word value stored in memory.
    Memory { size_bytes: u64 },
    /// The never type: no runtime representation.
    Diverging,
    /// Unit `()`: no stack slots consumed or produced.
    Unit,
}

/// The representation each kind of Rust type maps to.
pub open spec fn evm_ty_of(kind: RustTyKind) -> EvmTy {
    match kind {
        RustTyKind::Bool | RustTyKind::Char | RustTyKind::Int | RustTyKind::Uint | RustTyKind::Float
        | RustTyKind::RawPtr | RustTyKind::Ref | RustTyKind::FnPtr => EvmTy::Word,
        RustTyKind::Tuple { fields } => if fields == 0 {
            EvmTy::Unit
        } else {
            EvmTy::Memory { size_bytes: 32 }
        },
        RustTyKind::Never => EvmTy::Diverging,
        RustTyKind::FnDef => EvmTy::Unit,
        _ => EvmTy::Memory { size_bytes: 32 },
    }
}

/// Exactly the scalar types are one stack word; the types with no runtime
/// value (`()`, a function item, `!`) take no stack slot, and only `!`
/// diverges; every aggregate is held in memory.
pub proof fn lemma_rust_types_map_by_kind(kind: RustTyKind)
    requires
        kind != RustTyKind::Unsupported,
    ensures
        (evm_ty_of(kind) == EvmTy::Word) == (kind is Bool || kind is Char || kind is Int || kind is Uint
            || kind is Float || kind is RawPtr || kind is Ref || kind is FnPtr),
        (evm_ty_of(kind) is Unit || evm_ty_of(kind) is Diverging) == (kind == RustTyKind::Tuple { fields: 0 }
            || kind is FnDef || kind is Never),
        evm_ty_of(kind) is Diverging == kind is Never,
        (kind is Adt || kind is Array || kind is Slice || (kind is Tuple && kind != RustTyKind::Tuple {
            fields: 0,
        })) ==> evm_ty_of(kind) is Memory,
{
}

impl EvmTy {
    /// Map a Rust type to its EVM representation. Scalars are one word, the
    /// zero-sized types are unit, `!` diverges, and aggregates are stored in
    /// memory (one slot, until their real size is computed). There is no
    /// mapping for any other type.
    pub fn from_rust_ty(kind: RustTyKind) -> (r: EvmTy)
        requires
            kind != RustTyKind::Unsupported,
        ensures
            r == evm_ty_of(kind),
    {
        match kind {
            RustTyKind::Bool | RustTyKind::Char | RustTyKind::Int | RustTyKind::Uint | RustTyKind::Float
            | RustTyKind::RawPtr | RustTyKind::Ref | RustTyKind::FnPtr => EvmTy::Word,
            RustTyKind::Tuple { fields } if fields == 0 => EvmTy::Unit,
            RustTyKind::Never => EvmTy::Diverging,
            RustTyKind::FnDef => EvmTy::Unit,
            _ => EvmTy::Memory { size_bytes: 32 },
        }
    }

    /// Whether this type produces a value on the EVM stack.
    pub fn is_stack_value(&self) -> (r: bool)
        ensures
            r == (*self == EvmTy::Word),
    {
        match self {
            EvmTy::Word => true,
            _ => false,
        }
    }
}

} // verus!
