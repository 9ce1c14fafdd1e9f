//! The word contracts compute with.
//!
//! One 256-bit EVM stack slot. The backend treats a value of this type as a
//! single slot; the 32 bytes inside are only how it is stored in memory when
//! spilled: big-endian, as the EVM stores words.

use vstd::prelude::*;

use crate::assembler::u128_word;

verus! {

#[derive(Clone, Copy, PartialEq, Eq)]
pub struct U256([u8; 32]);

impl View for U256 {
    type V = Seq<u8>;

    /// The 32 big-endian bytes.
    closed spec fn view(&self) -> Seq<u8> {
        self.0@
    }
}

/// The eight bytes of `x`, big-endian, are the low eight bytes of its word,
/// and the bytes above them are zero.
proof fn lemma_u64_bytes(x: u64)
    by (bit_vector)
    ensures
        ((x as u128) >> 120u128) as u8 == 0u8,
        ((x as u128) >> 112u128) as u8 == 0u8,
        ((x as u128) >> 104u128) as u8 == 0u8,
        ((x as u128) >> 96u128) as u8 == 0u8,
        ((x as u128) >> 88u128) as u8 == 0u8,
        ((x as u128) >> 80u128) as u8 == 0u8,
        ((x as u128) >> 72u128) as u8 == 0u8,
        ((x as u128) >> 64u128) as u8 == 0u8,
        ((x as u128) >> 56u128) as u8 == (x >> 56u64) as u8,
        ((x as u128) >> 48u128) as u8 == (x >> 48u64) as u8,
        ((x as u128) >> 40u128) as u8 == (x >> 40u64) as u8,
        ((x as u128) >> 32u128) as u8 == (x >> 32u64) as u8,
        ((x as u128) >> 24u128) as u8 == (x >> 24u64) as u8,
        ((x as u128) >> 16u128) as u8 == (x >> 16u64) as u8,
        ((x as u128) >> 8u128) as u8 == (x >> 8u64) as u8,
        (x as u128) as u8 == x as u8,
{
}

impl U256 {
    /// The zero word.
    pub fn zero() -> (r: U256)
        ensures
            r@ == Seq::new(32, |i: int| 0u8),
    {
        let r = U256([0u8; 32]);
        assert(r@ =~= Seq::new(32, |i: int| 0u8));
        r
    }

    /// The word holding `x`: its eight big-endian bytes at the low end.
    pub fn from_u64(x: u64) -> (r: U256)
        ensures
            r@ == u128_word(x as u128),
    {
        let b: [u8; 32] = [
            0u8, 0u8, 0u8, 0u8, 0u8, 0u8, 0u8, 0u8, 0u8, 0u8, 0u8, 0u8, 0u8, 0u8, 0u8, 0u8,
            0u8, 0u8, 0u8, 0u8, 0u8, 0u8, 0u8, 0u8,
            (x >> 56u64) as u8, (x >> 48u64) as u8, (x >> 40u64) as u8, (x >> 32u64) as u8,
            (x >> 24u64) as u8, (x >> 16u64) as u8, (x >> 8u64) as u8, x as u8,
        ];
        proof {
            lemma_u64_bytes(x);
        }
        let r = U256(b);
        assert(r@ =~= u128_word(x as u128));
        r
    }

    /// The big-endian bytes.
    pub fn to_be_bytes(self) -> (r: [u8; 32])
        ensures
            r@ == self@,
    {
        self.0
    }

    /// The word with these big-endian bytes.
    pub fn from_be_bytes(b: [u8; 32]) -> (r: U256)
        ensures
            r@ == b@,
    {
        U256(b)
    }
}

} // verus!
