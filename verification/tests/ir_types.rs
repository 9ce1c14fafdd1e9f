//! Repair is where correctness lives, so it gets a table: given a
//! well-formed value of `from`, what has to happen for it to be a
//! well-formed value of `to`.

use rustevm::ir::{Repair, Signature, Type};

// --- widening: the cases that should cost nothing -------------------------

#[test]
fn widening_to_the_same_signedness_needs_no_repair() {
    assert_eq!(Repair::for_convert(Type::uint(8), Type::uint(32)), Repair::NoRepair);
    assert_eq!(Repair::for_convert(Type::sint(8), Type::sint(64)), Repair::NoRepair);
    assert_eq!(Repair::for_convert(Type::uint(32), Type::uint(256)), Repair::NoRepair);
}

#[test]
fn widening_an_unsigned_value_into_a_signed_one_needs_no_repair() {
    // `u8` guarantees bits 8..256 are zero, so bit 31 — the sign bit of the
    // `i32` — is one of the zeros it already promised.
    assert_eq!(Repair::for_convert(Type::uint(8), Type::sint(32)), Repair::NoRepair);
}

#[test]
fn a_conversion_to_the_same_type_is_free() {
    assert_eq!(Repair::for_convert(Type::uint(64), Type::uint(64)), Repair::NoRepair);
    assert_eq!(Repair::for_convert(Type::Ptr, Type::Ptr), Repair::NoRepair);
}

#[test]
fn a_pointer_converts_as_the_u32_it_is() {
    assert_eq!(Repair::for_convert(Type::Ptr, Type::uint(32)), Repair::NoRepair);
    assert_eq!(Repair::for_convert(Type::uint(32), Type::Ptr), Repair::NoRepair);
    assert_eq!(Repair::for_convert(Type::uint(64), Type::Ptr), Repair::Mask { bits: 32 });
}

// --- widening: the case that does not come free ---------------------------

#[test]
fn widening_a_signed_value_into_an_unsigned_one_masks_off_the_sign() {
    // -1 as `i8` is a full word of ones. As a `u32` it must be 0x0000_ffff_ffff
    // truncated to 32 bits, so the sign bits above 32 have to go.
    assert_eq!(Repair::for_convert(Type::sint(8), Type::uint(32)), Repair::Mask { bits: 32 });
    assert_eq!(Repair::for_convert(Type::sint(32), Type::uint(64)), Repair::Mask { bits: 64 });
}

// --- same width, different signedness -------------------------------------

#[test]
fn reinterpreting_an_unsigned_value_as_signed_sign_extends() {
    // `u8` 0xff and `i8` -1 are the same eight bits and different words.
    assert_eq!(Repair::for_convert(Type::uint(8), Type::sint(8)), Repair::Sext { bits: 8 });
    assert_eq!(Repair::for_convert(Type::uint(64), Type::sint(64)), Repair::Sext { bits: 64 });
}

#[test]
fn reinterpreting_a_signed_value_as_unsigned_masks() {
    assert_eq!(Repair::for_convert(Type::sint(8), Type::uint(8)), Repair::Mask { bits: 8 });
    assert_eq!(Repair::for_convert(Type::sint(64), Type::uint(64)), Repair::Mask { bits: 64 });
}

// --- narrowing ------------------------------------------------------------

#[test]
fn narrowing_takes_its_repair_from_the_destination_alone() {
    assert_eq!(Repair::for_convert(Type::uint(64), Type::uint(32)), Repair::Mask { bits: 32 });
    assert_eq!(Repair::for_convert(Type::sint(64), Type::uint(32)), Repair::Mask { bits: 32 });
    assert_eq!(Repair::for_convert(Type::uint(64), Type::sint(32)), Repair::Sext { bits: 32 });
    assert_eq!(Repair::for_convert(Type::sint(64), Type::sint(32)), Repair::Sext { bits: 32 });
}

// --- the full-word normalisation ------------------------------------------

#[test]
fn a_repair_to_the_full_word_width_is_no_repair_at_all() {
    // `AND 0xff..ff` is 33 bytes of PUSH32 to accomplish nothing. Normalising
    // here means no lowering path has to notice.
    assert_eq!(Repair::mask(256), Repair::NoRepair);
    assert_eq!(Repair::sext(256), Repair::NoRepair);
    assert_eq!(Repair::for_convert(Type::sint(256), Type::uint(256)), Repair::NoRepair);
    assert_eq!(Repair::for_convert(Type::uint(256), Type::sint(256)), Repair::NoRepair);
}

#[test]
fn narrowing_from_the_full_word_still_repairs() {
    assert_eq!(Repair::for_convert(Type::uint(256), Type::uint(64)), Repair::Mask { bits: 64 });
    assert_eq!(Repair::for_convert(Type::uint(256), Type::sint(64)), Repair::Sext { bits: 64 });
}

// --- types ----------------------------------------------------------------

#[test]
fn a_pointer_reports_itself_as_a_thirty_two_bit_unsigned() {
    assert_eq!(Type::Ptr.bits(), 32);
    assert!(!Type::Ptr.is_signed());
    assert_eq!(Type::Ptr.as_int(), Type::uint(32).as_int());
}

#[test]
fn a_pointer_is_still_a_distinct_type_from_u32() {
    // They behave identically and compare unequal on purpose: `verify` uses
    // the distinction to catch arithmetic that treats an address as a number.
    assert_ne!(Type::Ptr, Type::uint(32));
}

#[test]
fn a_width_outside_one_to_two_hundred_and_fifty_six_is_not_well_formed() {
    assert!(Type::uint(8).is_well_formed());
    assert!(Type::bool().is_well_formed());
    assert!(Type::uint(256).is_well_formed());
    assert!(!Type::uint(0).is_well_formed());
    assert!(!Type::uint(257).is_well_formed());
}

#[test]
fn types_render_as_they_do_in_a_dump() {
    assert_eq!(Type::uint(64).to_string(), "u64");
    assert_eq!(Type::sint(8).to_string(), "i8");
    assert_eq!(Type::bool().to_string(), "u1");
    assert_eq!(Type::Ptr.to_string(), "ptr");
}

#[test]
fn a_signature_renders_its_returns_only_when_it_has_them() {
    assert_eq!(Signature::new(&[], &[]).to_string(), "()");
    assert_eq!(Signature::new(&[Type::uint(64)], &[]).to_string(), "(u64)");
    assert_eq!(
        Signature::new(&[Type::uint(64), Type::uint(64)], &[Type::uint(64)]).to_string(),
        "(u64, u64) -> u64"
    );
    assert_eq!(Signature::new(&[], &[Type::uint(8), Type::bool()]).to_string(), "() -> (u8, u1)");
}

// --- further cases ----------------------------------------------------------

#[test]
fn masks_and_sign_extensions_below_the_word_are_kept() {
    assert_eq!(Repair::mask(8), Repair::Mask { bits: 8 });
    assert_eq!(Repair::sext(255), Repair::Sext { bits: 255 });
    assert_eq!(Repair::mask(300), Repair::NoRepair);
}

#[test]
fn repairs_render_as_they_do_in_a_dump() {
    assert_eq!(Repair::NoRepair.to_string(), "norepair");
    assert_eq!(Repair::Mask { bits: 8 }.to_string(), "mask8");
    assert_eq!(Repair::Sext { bits: 64 }.to_string(), "sext64");
}

#[test]
fn widening_an_unsigned_value_into_a_signed_one_of_the_same_width_is_not_free() {
    // At equal width the top bit is a value bit: `u32` 0x8000_0000 is not
    // an `i32` until it is sign-extended.
    assert_eq!(Repair::for_convert(Type::uint(32), Type::sint(32)), Repair::Sext { bits: 32 });
    assert_eq!(Repair::for_convert(Type::uint(31), Type::sint(32)), Repair::NoRepair);
}

#[test]
fn integer_types_report_their_width_and_signedness() {
    assert_eq!(Type::sint(16).bits(), 16);
    assert!(Type::sint(16).is_signed());
    assert!(!Type::bool().is_signed());
    assert_eq!(Type::bool().bits(), 1);
    assert_eq!(Type::sint(128).to_string(), "i128");
}
