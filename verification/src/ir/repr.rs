//! What a value's 256-bit word means, and why the repairs are right.
//!
//! A value of an integer type lives in a full EVM word. Its representation
//! invariant: an unsigned value is below `2^bits`; a signed value is
//! sign-extended from bit `bits - 1`, so it reads as the same integer whether
//! taken at its own width or at the word's. A raw EVM result may break the
//! invariant, and its [`Repair`] restores it.

use vstd::arithmetic::power2::{lemma_pow2_adds, lemma_pow2_pos, lemma_pow2_strictly_increases, pow2};
use vstd::prelude::*;

use vstd::arithmetic::div_mod::{
    lemma_add_mod_noop, lemma_mod_mod, lemma_mod_multiples_vanish, lemma_mul_mod_noop, lemma_small_mod, lemma_sub_mod_noop,
};

use super::inst::{default_repair_of, Op};
use super::types::{convert_repair, spec_mask, spec_sext, IntTy, Repair, Type};

verus! {

/// `2^256`: the number of distinct words.
pub open spec fn word_modulus() -> int {
    pow2(256) as int
}

/// `2^bits` for an integer type.
pub open spec fn span(t: IntTy) -> int {
    pow2(t.bits as nat) as int
}

/// `2^(bits - 1)`: where a signed type's negative half begins.
pub open spec fn half(t: IntTy) -> int {
    pow2((t.bits - 1) as nat) as int
}

/// `w` is a word that well-formed values of `t` may hold.
pub open spec fn holds(t: IntTy, w: int) -> bool {
    &&& 0 <= w < word_modulus()
    &&& if t.signed {
        w < half(t) || word_modulus() - half(t) <= w
    } else {
        w < span(t)
    }
}

/// The integer a well-formed word of `t` stands for.
pub open spec fn value_in(t: IntTy, w: int) -> int {
    if t.signed && w >= pow2(255) {
        w - word_modulus()
    } else {
        w
    }
}

/// Rust's `as` from any integer to `t`: keep the low `bits`, then read them
/// as `t` does.
pub open spec fn cast(v: int, t: IntTy) -> int {
    let m = v % span(t);
    if t.signed && m >= half(t) {
        m - span(t)
    } else {
        m
    }
}

/// What a repair does to a raw word: nothing, clear the bits from `bits` up,
/// or copy bit `bits - 1` into them.
pub open spec fn apply_repair(r: Repair, w: int) -> int {
    match r {
        Repair::NoRepair => w,
        Repair::Mask { bits } => w % (pow2(bits as nat) as int),
        Repair::Sext { bits } => {
            let m = w % (pow2(bits as nat) as int);
            if m >= pow2((bits - 1) as nat) {
                m + word_modulus() - pow2(bits as nat)
            } else {
                m
            }
        },
    }
}

/// Powers of two grow with their exponent.
proof fn lemma_pow2_le(a: nat, b: nat)
    requires
        a <= b,
    ensures
        pow2(a) <= pow2(b),
{
    if a < b {
        lemma_pow2_strictly_increases(a, b);
    }
}

/// The facts about the widths of `t` that the repairs rest on.
proof fn lemma_widths(t: IntTy)
    requires
        1 <= t.bits <= 256,
    ensures
        span(t) == 2 * half(t),
        0 < half(t) <= pow2(255),
        span(t) <= word_modulus(),
        word_modulus() == 2 * pow2(255),
        word_modulus() == span(t) * (pow2((256 - t.bits) as nat) as int),
{
    let b = t.bits as nat;
    lemma_pow2_adds(1, (b - 1) as nat);
    assert(pow2(1) == 2) by {
        vstd::arithmetic::power2::lemma2_to64();
    }
    lemma_pow2_pos((b - 1) as nat);
    lemma_pow2_le((b - 1) as nat, 255);
    lemma_pow2_le(b, 256);
    lemma_pow2_adds(1, 255);
    lemma_pow2_adds(b, (256 - b) as nat);
}

/// A value's word and the integer it stands for agree below `2^bits`, for any
/// width up to the word's.
proof fn lemma_value_mod(f: IntTy, t: IntTy, w: int)
    requires
        1 <= f.bits <= 256,
        1 <= t.bits <= 256,
        0 <= w < word_modulus(),
    ensures
        value_in(f, w) % span(t) == w % span(t),
{
    lemma_widths(t);
    if value_in(f, w) != w {
        let k = pow2((256 - t.bits) as nat) as int;
        lemma_pow2_pos(t.bits as nat);
        assert(value_in(f, w) == span(t) * (-k) + w) by (nonlinear_arith)
            requires
                value_in(f, w) == w - word_modulus(),
                word_modulus() == span(t) * k,
        ;
        lemma_mod_multiples_vanish(-k, w, span(t));
    }
}

/// Converting a well-formed value of `from` with the repair
/// [`Repair::for_convert`] picks leaves a well-formed value of `to`, and it
/// stands for exactly what Rust's `from as to` gives: the repair covers
/// truncation, zero- and sign-extension and signedness reinterpretation, for
/// every pair of widths from 1 to 256.
pub proof fn lemma_convert_repair_is_rust_cast(from: Type, to: Type, w: int)
    requires
        1 <= from.int_of().bits <= 256,
        1 <= to.int_of().bits <= 256,
        holds(from.int_of(), w),
    ensures
        holds(to.int_of(), apply_repair(convert_repair(from, to), w)),
        value_in(to.int_of(), apply_repair(convert_repair(from, to), w)) == cast(
            value_in(from.int_of(), w),
            to.int_of(),
        ),
{
    let f = from.int_of();
    let t = to.int_of();
    let s = span(t);
    let h = half(t);
    let wm = word_modulus();
    let v = value_in(f, w);
    lemma_widths(f);
    lemma_widths(t);
    lemma_value_mod(f, t, w);
    lemma_pow2_pos(t.bits as nat);
    assert(v % s == w % s);
    let r = apply_repair(convert_repair(from, to), w);
    if !t.signed {
        if !f.signed && f.bits <= t.bits {
            lemma_pow2_le(f.bits as nat, t.bits as nat);
            lemma_small_mod(w as nat, s as nat);
        } else if t.bits >= 256 {
            assert(s == wm);
            lemma_small_mod(w as nat, s as nat);
        } else {
            assert(r == w % s);
        }
    } else {
        let already = if f.signed {
            f.bits <= t.bits
        } else {
            f.bits < t.bits
        };
        if already {
            assert(r == w);
            if f.signed {
                lemma_pow2_le((f.bits - 1) as nat, (t.bits - 1) as nat);
                if w < half(f) {
                    lemma_small_mod(w as nat, s as nat);
                } else {
                    assert(v == w - wm);
                    assert(-h <= v < 0);
                    assert((v + s) % s == v % s) by {
                        lemma_mod_multiples_vanish(1, v, s);
                    }
                    lemma_small_mod((v + s) as nat, s as nat);
                }
            } else {
                lemma_pow2_le(f.bits as nat, (t.bits - 1) as nat);
                lemma_small_mod(w as nat, s as nat);
            }
        } else if t.bits >= 256 {
            assert(s == wm && h == pow2(255));
            lemma_small_mod(w as nat, s as nat);
        } else {
            let m = w % s;
            assert(0 <= m < s);
        }
    }
}

/// The repair an arithmetic result gets, a mask for an unsigned type and a
/// sign-extension for a signed one, turns any raw word into a well-formed
/// value of the type, standing for the raw word's integer wrapped to the
/// type's width as Rust's wrapping arithmetic wraps it.
pub proof fn lemma_width_repair_wraps(t: IntTy, w: int)
    requires
        1 <= t.bits <= 256,
        0 <= w < word_modulus(),
    ensures
        holds(t, apply_repair(if t.signed { spec_sext(t.bits) } else { spec_mask(t.bits) }, w)),
        value_in(t, apply_repair(if t.signed { spec_sext(t.bits) } else { spec_mask(t.bits) }, w)) == cast(w, t),
{
    let s = span(t);
    let wm = word_modulus();
    lemma_widths(t);
    lemma_pow2_pos(t.bits as nat);
    if t.bits >= 256 {
        assert(s == wm && half(t) == pow2(255));
        lemma_small_mod(w as nat, s as nat);
    } else {
        let m = w % s;
        assert(0 <= m < s);
    }
}

/// The repair the builder records for a wrapping operation turns the raw EVM
/// result into Rust's: for `Add`, `Sub` and `Mul` on well-formed words of an
/// integer type `t`, the 256-bit result with
/// [`Op::default_repair`](super::inst::Op::default_repair)'s repair applied
/// is a well-formed word of `t` that stands for the operation's wrapping
/// result on the values the operands stand for.
pub proof fn lemma_wrapping_ops_repair_to_rust_results(op: Op, t: IntTy, a: int, b: int)
    requires
        op is Add || op is Sub || op is Mul,
        1 <= t.bits <= 256,
        holds(t, a),
        holds(t, b),
    ensures
        ({
            let raw = if op is Add {
                (a + b) % word_modulus()
            } else if op is Sub {
                (a - b) % word_modulus()
            } else {
                (a * b) % word_modulus()
            };
            let x = value_in(t, a);
            let y = value_in(t, b);
            let exact = if op is Add {
                x + y
            } else if op is Sub {
                x - y
            } else {
                x * y
            };
            let r = apply_repair(default_repair_of(op, Type::Int(t)), raw);
            &&& holds(t, r)
            &&& value_in(t, r) == cast(exact, t)
        }),
{
    let s = span(t);
    let wm = word_modulus();
    lemma_widths(t);
    lemma_pow2_pos(t.bits as nat);
    lemma_pow2_pos((256 - t.bits) as nat);
    let k = pow2((256 - t.bits) as nat) as int;
    let x = value_in(t, a);
    let y = value_in(t, b);
    let n = if op is Add {
        a + b
    } else if op is Sub {
        a - b
    } else {
        a * b
    };
    let exact = if op is Add {
        x + y
    } else if op is Sub {
        x - y
    } else {
        x * y
    };
    let raw = n % wm;
    lemma_width_repair_wraps(t, raw);
    assert(default_repair_of(op, Type::Int(t)) == if t.signed {
        spec_sext(t.bits)
    } else {
        spec_mask(t.bits)
    });
    lemma_mod_mod(n, s, k);
    lemma_value_mod(t, t, a);
    lemma_value_mod(t, t, b);
    if op is Add {
        lemma_add_mod_noop(a, b, s);
        lemma_add_mod_noop(x, y, s);
    } else if op is Sub {
        lemma_sub_mod_noop(a, b, s);
        lemma_sub_mod_noop(x, y, s);
    } else {
        lemma_mul_mod_noop(a, b, s);
        lemma_mul_mod_noop(x, y, s);
    }
    assert(raw % s == exact % s);
}

/// A well-formed word of `t` stands for what Rust's `as` makes of the word.
proof fn lemma_held_word_is_its_cast(t: IntTy, w: int)
    requires
        1 <= t.bits <= 256,
        holds(t, w),
    ensures
        value_in(t, w) == cast(w, t),
{
    lemma_convert_repair_is_rust_cast(Type::Int(t), Type::Int(t), w);
    lemma_value_mod(t, t, w);
}

/// The repairs the builder records for `Not` and `Shl` turn their raw EVM
/// results into Rust's: on a well-formed word of an integer type `t`, `NOT`
/// with its repair stands for `!x`, which is `-1 - x`, and `SHL` by any
/// amount with its repair stands for `x << shift` wrapped to `t`. Both
/// results are well-formed words of `t`.
pub proof fn lemma_not_and_shl_repair_to_rust_results(t: IntTy, a: int, shift: nat)
    requires
        1 <= t.bits <= 256,
        holds(t, a),
    ensures
        ({
            let r = apply_repair(default_repair_of(Op::Not, Type::Int(t)), evm_not(a));
            &&& holds(t, r)
            &&& value_in(t, r) == cast(-1 - value_in(t, a), t)
        }),
        ({
            let raw = (a * pow2(shift)) % word_modulus();
            let r = apply_repair(default_repair_of(Op::Shl, Type::Int(t)), raw);
            &&& holds(t, r)
            &&& value_in(t, r) == cast(value_in(t, a) * pow2(shift), t)
        }),
{
    let s = span(t);
    let wm = word_modulus();
    lemma_widths(t);
    lemma_pow2_pos(t.bits as nat);
    lemma_pow2_pos((256 - t.bits) as nat);
    let k = pow2((256 - t.bits) as nat) as int;
    let x = value_in(t, a);
    lemma_value_mod(t, t, a);
    // NOT
    let raw = evm_not(a);
    lemma_mod_multiples_vanish(k, -1 - a, s);
    assert(raw == s * k + (-1 - a));
    lemma_sub_mod_noop(-1, a, s);
    lemma_sub_mod_noop(-1, x, s);
    assert(raw % s == (-1 - x) % s);
    if t.signed {
        assert(default_repair_of(Op::Not, Type::Int(t)) == Repair::NoRepair);
        lemma_unrepaired_results_stay_in_range(t, a, a, 0);
        lemma_held_word_is_its_cast(t, raw);
    } else {
        assert(default_repair_of(Op::Not, Type::Int(t)) == spec_mask(t.bits));
        lemma_width_repair_wraps(t, raw);
    }
    // SHL
    let p = pow2(shift) as int;
    let n = a * p;
    let raw2 = n % wm;
    assert(default_repair_of(Op::Shl, Type::Int(t)) == if t.signed {
        spec_sext(t.bits)
    } else {
        spec_mask(t.bits)
    });
    lemma_width_repair_wraps(t, raw2);
    lemma_mod_mod(n, s, k);
    lemma_mul_mod_noop(a, p, s);
    lemma_mul_mod_noop(x, p, s);
    assert(raw2 % s == (x * p) % s);
}

/// EVM `DIV`: zero for a zero divisor.
pub open spec fn evm_div(a: int, b: int) -> int {
    if b == 0 {
        0
    } else {
        a / b
    }
}

/// EVM `MOD`: zero for a zero divisor.
pub open spec fn evm_mod(a: int, b: int) -> int {
    if b == 0 {
        0
    } else {
        a % b
    }
}

/// EVM `SHR`: zero once the shift reaches the word's width.
pub open spec fn evm_shr(value: int, shift: int) -> int {
    if shift >= 256 {
        0
    } else {
        value / (pow2(shift as nat) as int)
    }
}

/// EVM `NOT`: every one of the 256 bits flipped.
pub open spec fn evm_not(w: int) -> int {
    word_modulus() - 1 - w
}

/// The results [`Op::default_repair`](super::inst::Op::default_repair)
/// leaves unrepaired really are in range: unsigned division, remainder and
/// logical right shift of well-formed operands stay below `2^bits`, `NOT`
/// of a sign-extended word stays sign-extended, and a comparison's zero or
/// one is a well-formed `bool`.
pub proof fn lemma_unrepaired_results_stay_in_range(t: IntTy, a: int, b: int, shift: int)
    requires
        1 <= t.bits <= 256,
        holds(t, a),
        holds(t, b),
        0 <= shift,
    ensures
        !t.signed ==> holds(t, evm_div(a, b)),
        !t.signed ==> holds(t, evm_mod(a, b)),
        !t.signed ==> holds(t, evm_shr(a, shift)),
        t.signed ==> holds(t, evm_not(a)),
        holds(IntTy { bits: 1, signed: false }, 0),
        holds(IntTy { bits: 1, signed: false }, 1),
{
    lemma_widths(t);
    assert(pow2(1) == 2 && pow2(0) == 1) by {
        vstd::arithmetic::power2::lemma2_to64();
    }
    lemma_pow2_le(1, 256);
    if !t.signed {
        if b != 0 {
            assert(0 <= a / b <= a) by (nonlinear_arith)
                requires
                    0 <= a,
                    0 < b,
            ;
            assert(0 <= a % b < b) by (nonlinear_arith)
                requires
                    0 <= a,
                    0 < b,
            ;
        }
        if shift < 256 {
            let d = pow2(shift as nat) as int;
            lemma_pow2_pos(shift as nat);
            assert(0 <= a / d <= a) by (nonlinear_arith)
                requires
                    0 <= a,
                    0 < d,
            ;
        }
    }
}

/// Bitwise `AND` of two naturals, bit by bit from the low end.
pub open spec fn bit_and(a: nat, b: nat) -> nat
    decreases a,
{
    if a == 0 || b == 0 {
        0
    } else {
        2 * bit_and(a / 2, b / 2) + (if a % 2 == 1 && b % 2 == 1 { 1nat } else { 0nat })
    }
}

/// Bitwise `OR` of two naturals.
pub open spec fn bit_or(a: nat, b: nat) -> nat
    decreases a,
{
    if a == 0 {
        b
    } else if b == 0 {
        a
    } else {
        2 * bit_or(a / 2, b / 2) + (if a % 2 == 1 || b % 2 == 1 { 1nat } else { 0nat })
    }
}

/// Bitwise `XOR` of two naturals.
pub open spec fn bit_xor(a: nat, b: nat) -> nat
    decreases a,
{
    if a == 0 {
        b
    } else if b == 0 {
        a
    } else {
        2 * bit_xor(a / 2, b / 2) + (if a % 2 != b % 2 { 1nat } else { 0nat })
    }
}

/// EVM's three bitwise combinations, by number: 0 for `AND`, 1 for `OR`,
/// anything else for `XOR`.
pub open spec fn bitwise(which: int, a: nat, b: nat) -> nat {
    if which == 0 {
        bit_and(a, b)
    } else if which == 1 {
        bit_or(a, b)
    } else {
        bit_xor(a, b)
    }
}

/// `n` one bits.
pub open spec fn ones(n: nat) -> nat {
    (pow2(n) - 1) as nat
}

proof fn lemma_half_below(a: nat, k: nat)
    requires
        k >= 1,
        a < pow2(k),
    ensures
        a / 2 < pow2((k - 1) as nat),
{
    lemma_pow2_adds(1, (k - 1) as nat);
    vstd::arithmetic::power2::lemma2_to64();
    let h = pow2((k - 1) as nat);
    assert(a / 2 < h) by (nonlinear_arith)
        requires
            a < 2 * h,
    ;
}

/// Combining two values below `2^k` bit by bit stays below `2^k`.
proof fn lemma_bitwise_below(which: int, a: nat, b: nat, k: nat)
    requires
        a < pow2(k),
        b < pow2(k),
    ensures
        bitwise(which, a, b) < pow2(k),
    decreases k,
{
    vstd::arithmetic::power2::lemma2_to64();
    if k == 0 {
        assert(a == 0 && b == 0);
    } else if a == 0 || b == 0 {
    } else {
        lemma_half_below(a, k);
        lemma_half_below(b, k);
        lemma_bitwise_below(which, a / 2, b / 2, (k - 1) as nat);
        lemma_pow2_adds(1, (k - 1) as nat);
    }
}

/// Combining bit by bit commutes with dropping the low bit.
proof fn lemma_bitwise_halves(which: int, a: nat, b: nat)
    ensures
        bitwise(which, a, b) / 2 == bitwise(which, a / 2, b / 2),
{
    if a == 0 || b == 0 {
        assert(a / 2 == 0 || b / 2 == 0);
        if which == 0 {
            assert(bit_and(a / 2, b / 2) == 0);
        } else if a == 0 {
            assert(a / 2 == 0);
        } else {
            assert(b / 2 == 0);
        }
    }
}

/// Combining bit by bit commutes with dropping the low `k` bits.
proof fn lemma_bitwise_shifts(which: int, a: nat, b: nat, k: nat)
    ensures
        bitwise(which, a, b) / pow2(k) == bitwise(which, a / pow2(k), b / pow2(k)),
    decreases k,
{
    vstd::arithmetic::power2::lemma2_to64();
    if k == 0 {
        assert(a / 1 == a && b / 1 == b && bitwise(which, a, b) / 1 == bitwise(which, a, b));
    } else {
        let p = pow2((k - 1) as nat);
        lemma_pow2_pos((k - 1) as nat);
        lemma_pow2_adds((k - 1) as nat, 1);
        assert(pow2(k) == p * 2);
        lemma_bitwise_shifts(which, a, b, (k - 1) as nat);
        lemma_bitwise_halves(which, a / p, b / p);
        vstd::arithmetic::div_mod::lemma_div_denominator(a as int, p as int, 2);
        vstd::arithmetic::div_mod::lemma_div_denominator(b as int, p as int, 2);
        vstd::arithmetic::div_mod::lemma_div_denominator(bitwise(which, a, b) as int, p as int, 2);
        assert(a / pow2(k) == (a / p) / 2);
        assert(b / pow2(k) == (b / p) / 2);
        assert(bitwise(which, a, b) / pow2(k) == (bitwise(which, a, b) / p) / 2);
    }
}

/// Combining all-zero or all-one runs of `n` bits gives one of the two.
proof fn lemma_bitwise_runs(which: int, x: nat, y: nat, n: nat)
    requires
        x == 0 || x == ones(n),
        y == 0 || y == ones(n),
    ensures
        bitwise(which, x, y) == 0 || bitwise(which, x, y) == ones(n),
    decreases n,
{
    vstd::arithmetic::power2::lemma2_to64();
    if n == 0 {
        assert(ones(n) == 0);
    } else if x == 0 || y == 0 {
        if which == 1 || (which != 0 && which != 1) {
            assert(bitwise(which, x, y) == x || bitwise(which, x, y) == y);
        }
    } else {
        lemma_pow2_adds(1, (n - 1) as nat);
        lemma_pow2_pos((n - 1) as nat);
        let m = ones((n - 1) as nat);
        assert(x == 2 * m + 1 && y == 2 * m + 1);
        assert(x / 2 == m && x % 2 == 1);
        lemma_bitwise_runs(which, m, m, (n - 1) as nat);
        if which == 0 {
            lemma_and_self(m);
            assert(bit_and(x, y) == 2 * m + 1);
        } else if which == 1 {
            lemma_or_self(m);
            assert(bit_or(x, y) == 2 * m + 1);
        } else {
            lemma_xor_self(m);
            assert(bit_xor(x, y) == 0);
        }
    }
}

proof fn lemma_and_self(x: nat)
    ensures
        bit_and(x, x) == x,
    decreases x,
{
    if x != 0 {
        lemma_and_self(x / 2);
    }
}

proof fn lemma_or_self(x: nat)
    ensures
        bit_or(x, x) == x,
    decreases x,
{
    if x != 0 {
        lemma_or_self(x / 2);
    }
}

proof fn lemma_xor_self(x: nat)
    ensures
        bit_xor(x, x) == 0,
    decreases x,
{
    if x != 0 {
        lemma_xor_self(x / 2);
    }
}

/// `AND`, `OR` and `XOR` of well-formed operands are well-formed: above the
/// width, unsigned operands are all zero and signed ones all copies of their
/// sign bit, so the result's high bits agree with its own top bit either way.
/// That is why their default repair is none.
pub proof fn lemma_bitwise_stays_in_range(which: int, t: IntTy, a: nat, b: nat)
    requires
        1 <= t.bits <= 256,
        holds(t, a as int),
        holds(t, b as int),
    ensures
        holds(t, bitwise(which, a, b) as int),
{
    lemma_widths(t);
    lemma_bitwise_below(which, a, b, 256);
    if !t.signed {
        lemma_bitwise_below(which, a, b, t.bits as nat);
    } else {
        let hb = (t.bits - 1) as nat;
        let h = pow2(hb);
        let n = (257 - t.bits) as nat;
        lemma_pow2_pos(hb);
        lemma_pow2_adds(hb, n);
        assert(hb + n == 256);
        let wm = word_modulus();
        assert(wm == h * pow2(n));
        lemma_pow2_pos(n);
        assert forall|x: nat| #[trigger] holds(t, x as int) implies x / h == 0 || x / h == ones(n) by {
            if x < h {
                assert(x / h == 0) by (nonlinear_arith)
                    requires
                        x < h,
                        0 < h,
                ;
            } else {
                assert(x / h == pow2(n) - 1) by (nonlinear_arith)
                    requires
                        wm - h <= x < wm,
                        wm == h * pow2(n),
                        0 < h,
                ;
            }
        }
        lemma_bitwise_shifts(which, a, b, hb);
        lemma_bitwise_runs(which, a / h, b / h, n);
        let r = bitwise(which, a, b);
        assert(r / h == 0 || r / h == ones(n));
        if r / h == 0 {
            assert(r < h) by (nonlinear_arith)
                requires
                    r / h == 0,
                    0 < h,
            ;
        } else {
            assert(r >= wm - h) by (nonlinear_arith)
                requires
                    r / h == pow2(n) - 1,
                    0 < h,
                    wm == h * pow2(n),
            ;
        }
    }
}

} // verus!
