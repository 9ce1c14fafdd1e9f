//! Value types, function signatures, and the width repair that keeps them
//! honest.
//!
//! # The representation invariant
//!
//! Every EVM stack slot is 256 bits, but Rust's integers are not. This IR
//! reconciles the two with one rule:
//!
//! > A well-formed value of type `u<w>` has bits `w..256` **zero**. A value of
//! > type `i<w>` has bits `w..256` **equal to bit `w-1`** — it is sign-extended
//! > across the whole word.
//!
//! Every instruction carries the [`Repair`] that restores the invariant for
//! its result, filled in by the builder from the operation and the result
//! type, so there is no way to spell an unrepaired narrow value. The
//! invariant pays for itself: signed comparison needs no preparation,
//! widening casts emit nothing, and `NOT` on a signed value needs no mask.
//! [`crate::ir::repr`] states the invariant over 256-bit words and proves
//! that [`Repair::for_convert`] keeps it.

use vstd::prelude::*;

use crate::text::{decimal, push_decimal};

verus! {

/// Width of an EVM stack slot. A type this wide needs no repair.
pub const WORD_BITS: u16 = 256;

/// An integer type: a width and a signedness. Signedness lives on the type,
/// not on the operation.
#[derive(Debug, Clone, Copy, PartialEq, Eq, Structural, PartialOrd, Ord, Hash)]
pub struct IntTy {
    /// `1..=256`. Checked by `verify`, not by construction.
    pub bits: u16,
    pub signed: bool,
}

/// The type of a value. No aggregates: those are a [`Ptr`](Type::Ptr) and an
/// `Alloca`.
#[derive(Debug, Clone, Copy, PartialEq, Eq, Structural, PartialOrd, Ord, Hash)]
pub enum Type {
    Int(IntTy),
    /// A byte offset into EVM memory. Behaves exactly as a `u32`, but is a
    /// distinct type so arithmetic on an address can be told apart.
    Ptr,
}

impl Type {
    /// The integer type this behaves as. [`Ptr`](Type::Ptr) is a `u32`.
    pub open spec fn int_of(self) -> IntTy {
        match self {
            Type::Int(it) => it,
            Type::Ptr => IntTy { bits: 32, signed: false },
        }
    }

    pub fn uint(bits: u16) -> (r: Type)
        ensures
            r == Type::Int(IntTy { bits, signed: false }),
    {
        Type::Int(IntTy { bits, signed: false })
    }

    pub fn sint(bits: u16) -> (r: Type)
        ensures
            r == Type::Int(IntTy { bits, signed: true }),
    {
        Type::Int(IntTy { bits, signed: true })
    }

    /// The one-bit unsigned type comparisons produce.
    pub fn bool() -> (r: Type)
        ensures
            r == Type::Int(IntTy { bits: 1, signed: false }),
    {
        Type::uint(1)
    }

    /// The integer type this behaves as. [`Ptr`](Type::Ptr) is a `u32`.
    pub fn as_int(self) -> (r: IntTy)
        ensures
            r == self.int_of(),
    {
        match self {
            Type::Int(it) => it,
            Type::Ptr => IntTy { bits: 32, signed: false },
        }
    }

    pub fn bits(self) -> (r: u16)
        ensures
            r == self.int_of().bits,
    {
        self.as_int().bits
    }

    pub fn is_signed(self) -> (r: bool)
        ensures
            r == self.int_of().signed,
    {
        self.as_int().signed
    }

    /// Whether the width is one the EVM can hold.
    pub fn is_well_formed(self) -> (r: bool)
        ensures
            r == (1 <= self.int_of().bits <= WORD_BITS),
    {
        let bits = self.bits();
        bits >= 1 && bits <= WORD_BITS
    }

    /// How the type reads in a dump: `u64`, `i8`, `ptr`.
    pub open spec fn text(self) -> Seq<char> {
        match self {
            Type::Ptr => "ptr"@,
            Type::Int(it) => (if it.signed {
                "i"@
            } else {
                "u"@
            }) + decimal(it.bits as nat),
        }
    }

    pub fn to_string(&self) -> (r: String)
        ensures
            r@ == self.text(),
    {
        let mut s = String::new();
        match self {
            Type::Ptr => s.append("ptr"),
            Type::Int(it) => {
                if it.signed {
                    s.append("i");
                } else {
                    s.append("u");
                }
                push_decimal(&mut s, it.bits as u64);
            },
        }
        s
    }
}

/// How the raw 256-bit result of an operation is brought back into its result
/// type's range, restoring the representation invariant.
#[derive(Debug, Clone, Copy, PartialEq, Eq, Structural, Hash)]
pub enum Repair {
    /// Nothing to do: a 256-bit result, a comparison, a widening convert — or
    /// a mask an optimizer has proved redundant.
    NoRepair,
    /// Clear bits `bits..256`.
    Mask { bits: u16 },
    /// Replicate bit `bits-1` across `bits..256`.
    Sext { bits: u16 },
}

/// A mask, normalised: repairing to the full word width is a no-op.
pub open spec fn spec_mask(bits: u16) -> Repair {
    if bits >= WORD_BITS {
        Repair::NoRepair
    } else {
        Repair::Mask { bits }
    }
}

/// A sign-extension, normalised the same way as [`spec_mask`].
pub open spec fn spec_sext(bits: u16) -> Repair {
    if bits >= WORD_BITS {
        Repair::NoRepair
    } else {
        Repair::Sext { bits }
    }
}

/// The repair that turns a well-formed value of `from` into a well-formed
/// value of `to`.
pub open spec fn convert_repair(from: Type, to: Type) -> Repair {
    let (from, to) = (from.int_of(), to.int_of());
    if to.signed {
        let already = if from.signed {
            from.bits <= to.bits
        } else {
            from.bits < to.bits
        };
        if already {
            Repair::NoRepair
        } else {
            spec_sext(to.bits)
        }
    } else {
        if !from.signed && from.bits <= to.bits {
            Repair::NoRepair
        } else {
            spec_mask(to.bits)
        }
    }
}

impl Repair {
    /// A mask, normalised: repairing to the full word width is a no-op, and
    /// emitting `AND 0xff..ff` for it would be three wasted bytes.
    pub fn mask(bits: u16) -> (r: Repair)
        ensures
            r == spec_mask(bits),
    {
        if bits >= WORD_BITS {
            Repair::NoRepair
        } else {
            Repair::Mask { bits }
        }
    }

    /// A sign-extension, normalised the same way as [`mask`](Repair::mask).
    pub fn sext(bits: u16) -> (r: Repair)
        ensures
            r == spec_sext(bits),
    {
        if bits >= WORD_BITS {
            Repair::NoRepair
        } else {
            Repair::Sext { bits }
        }
    }

    /// The repair that turns a well-formed value of `from` into a well-formed
    /// value of `to`: one total function covering truncation, zero-extension,
    /// sign-extension and signedness reinterpretation.
    ///
    /// A signed destination must be sign-extended from its width; a signed
    /// source of no greater width already is, and so is an unsigned source
    /// that is strictly narrower (at equal width its top bit is a value bit,
    /// `u8 -> i8` on `0xff`). An unsigned destination must be zero above its
    /// width, which only an unsigned source of no greater width already is.
    pub fn for_convert(from: Type, to: Type) -> (r: Repair)
        ensures
            r == convert_repair(from, to),
    {
        let (from, to) = (from.as_int(), to.as_int());
        if to.signed {
            let already = if from.signed {
                from.bits <= to.bits
            } else {
                from.bits < to.bits
            };
            if already {
                Repair::NoRepair
            } else {
                Repair::sext(to.bits)
            }
        } else {
            if !from.signed && from.bits <= to.bits {
                Repair::NoRepair
            } else {
                Repair::mask(to.bits)
            }
        }
    }

    /// How the repair reads in a dump: `norepair`, `mask8`, `sext32`.
    pub open spec fn text(self) -> Seq<char> {
        match self {
            Repair::NoRepair => "norepair"@,
            Repair::Mask { bits } => "mask"@ + decimal(bits as nat),
            Repair::Sext { bits } => "sext"@ + decimal(bits as nat),
        }
    }

    pub fn to_string(&self) -> (r: String)
        ensures
            r@ == self.text(),
    {
        let mut s = String::new();
        match self {
            Repair::NoRepair => s.append("norepair"),
            Repair::Mask { bits } => {
                s.append("mask");
                push_decimal(&mut s, *bits as u64);
            },
            Repair::Sext { bits } => {
                s.append("sext");
                push_decimal(&mut s, *bits as u64);
            },
        }
        s
    }
}

/// A function's parameter and return types.
#[derive(Debug, Clone, PartialEq, Eq)]
pub struct Signature {
    pub params: Vec<Type>,
    pub returns: Vec<Type>,
}

/// A copy of `items` as a vector.
pub fn types_to_vec(items: &[Type]) -> (r: Vec<Type>)
    ensures
        r@ == items@,
{
    let mut out: Vec<Type> = Vec::new();
    let mut i: usize = 0;
    while i < items.len()
        invariant
            i <= items@.len(),
            out@ == items@.subrange(0, i as int),
        decreases items@.len() - i,
    {
        out.push(items[i]);
        i += 1;
        assert(out@ =~= items@.subrange(0, i as int));
    }
    assert(items@.subrange(0, i as int) =~= items@);
    out
}

/// Whether two type lists are the same, element by element.
pub fn types_eq(a: &[Type], b: &[Type]) -> (r: bool)
    ensures
        r == (a@ == b@),
{
    if a.len() != b.len() {
        return false;
    }
    let mut i: usize = 0;
    while i < a.len()
        invariant
            a@.len() == b@.len(),
            i <= a@.len(),
            forall|j: int| 0 <= j < i ==> a@[j] == b@[j],
        decreases a@.len() - i,
    {
        if a[i] != b[i] {
            return false;
        }
        i += 1;
    }
    assert(a@ =~= b@);
    true
}

/// `types` joined by `", "`.
pub open spec fn type_list_text(types: Seq<Type>) -> Seq<char>
    decreases types.len(),
{
    if types.len() == 0 {
        seq![]
    } else if types.len() == 1 {
        types[0].text()
    } else {
        type_list_text(types.drop_last()) + ", "@ + types.last().text()
    }
}

fn push_type_list(s: &mut String, types: &[Type])
    ensures
        final(s)@ == old(s)@ + type_list_text(types@),
{
    let ghost start = s@;
    let mut i: usize = 0;
    while i < types.len()
        invariant
            i <= types@.len(),
            s@ == start + type_list_text(types@.subrange(0, i as int)),
        decreases types@.len() - i,
    {
        if i > 0 {
            s.append(", ");
        }
        let t = types[i].to_string();
        s.append(t.as_str());
        i += 1;
        assert(types@.subrange(0, i as int).drop_last() =~= types@.subrange(0, i - 1));
    }
    assert(types@.subrange(0, i as int) =~= types@);
}

impl Signature {
    pub fn new(params: &[Type], rets: &[Type]) -> (r: Signature)
        ensures
            r.params@ == params@,
            r.returns@ == rets@,
    {
        Signature { params: types_to_vec(params), returns: types_to_vec(rets) }
    }

    /// How the signature reads in a dump: `(u64, u64) -> u64`, with the
    /// arrow only when something is returned and parentheses around more
    /// than one return.
    pub open spec fn text(&self) -> Seq<char> {
        let params = "("@ + type_list_text(self.params@) + ")"@;
        let rets = self.returns@;
        if rets.len() == 0 {
            params
        } else if rets.len() == 1 {
            params + " -> "@ + rets[0].text()
        } else {
            params + " -> ("@ + type_list_text(rets) + ")"@
        }
    }

    pub fn to_string(&self) -> (r: String)
        ensures
            r@ == self.text(),
    {
        let mut s = String::new();
        s.append("(");
        push_type_list(&mut s, self.params.as_slice());
        s.append(")");
        if self.returns.len() == 1 {
            s.append(" -> ");
            let t = self.returns[0].to_string();
            s.append(t.as_str());
        } else if self.returns.len() > 1 {
            s.append(" -> (");
            push_type_list(&mut s, self.returns.as_slice());
            s.append(")");
        }
        s
    }
}

} // verus!
