//! The cases worth pinning are the ones where the table's category is not
//! the whole story: those are where a plausible-looking classification
//! silently licenses an illegal reordering.

use rustevm::ir::Effects;
use rustevm::isa::{by_mnemonic, opcodes, OpCategory};

fn effects_of(mnemonic: &str) -> Effects {
    Effects::of_opcode(by_mnemonic(mnemonic).expect("mnemonic is in the table"))
}

// --- where the category is not enough --------------------------------------

#[test]
fn the_copy_family_writes_memory_despite_being_categorised_as_context() {
    // These are `OpCategory::Context` because of where their source comes
    // from. Believing that would let an optimizer hoist an MLOAD across one.
    for mnemonic in ["CALLDATACOPY", "CODECOPY", "EXTCODECOPY", "RETURNDATACOPY"] {
        let effects = effects_of(mnemonic);
        assert!(
            effects.contains(Effects::writes_memory()),
            "{mnemonic} writes memory, whatever its category says"
        );
        assert!(!effects.is_pure(), "{mnemonic} is not pure");
    }
}

#[test]
fn keccak256_reads_memory_rather_than_being_arithmetic() {
    let effects = effects_of("KECCAK256");
    assert!(effects.contains(Effects::reads_memory()));
    assert!(
        !effects.contains(Effects::writes_memory()),
        "it hashes a range, it does not write one"
    );
}

#[test]
fn a_log_reads_the_memory_its_payload_comes_from() {
    for mnemonic in ["LOG0", "LOG1", "LOG2", "LOG3", "LOG4"] {
        let effects = effects_of(mnemonic);
        assert!(effects.contains(Effects::logs()), "{mnemonic}");
        assert!(
            effects.contains(Effects::reads_memory()),
            "{mnemonic} takes its data from memory"
        );
    }
}

#[test]
fn the_four_storage_opcodes_share_a_category_and_no_effects() {
    assert_eq!(effects_of("SLOAD"), Effects::reads_storage());
    assert_eq!(effects_of("SSTORE"), Effects::writes_storage());
    assert_eq!(effects_of("TLOAD"), Effects::reads_transient());
    assert_eq!(effects_of("TSTORE"), Effects::writes_transient());
}

// --- the ordinary cases ----------------------------------------------------

#[test]
fn arithmetic_and_bitwise_opcodes_are_pure() {
    for mnemonic in [
        "ADD", "MUL", "SDIV", "LT", "SLT", "EQ", "ISZERO", "AND", "XOR", "NOT", "SHL",
    ] {
        assert!(effects_of(mnemonic).is_pure(), "{mnemonic} should be pure");
    }
}

#[test]
fn reading_the_environment_is_not_pure_even_though_it_changes_nothing() {
    // GAS differs on every execution and BALANCE can move under a re-entrant
    // call, so neither is foldable or CSE-able across an external call.
    for mnemonic in ["TIMESTAMP", "CALLER", "GAS", "BALANCE", "NUMBER"] {
        let effects = effects_of(mnemonic);
        assert!(!effects.is_pure(), "{mnemonic} should not be pure");
        assert!(effects.contains(Effects::reads_context()), "{mnemonic}");
    }
}

#[test]
fn an_external_call_is_a_barrier_to_everything() {
    for mnemonic in ["CALL", "DELEGATECALL", "STATICCALL", "CREATE", "CREATE2"] {
        let effects = effects_of(mnemonic);
        assert!(effects.contains(Effects::external()), "{mnemonic}");
        assert!(
            effects.contains(Effects::reads_memory()),
            "{mnemonic} passes its arguments in memory"
        );
        assert!(
            effects.contains(Effects::writes_memory()),
            "{mnemonic} writes returndata back"
        );
    }
}

#[test]
fn mload_reads_and_mstore_writes() {
    assert_eq!(effects_of("MLOAD"), Effects::reads_memory());
    assert_eq!(effects_of("MSTORE"), Effects::writes_memory());
    assert_eq!(effects_of("MSTORE8"), Effects::writes_memory());
    assert!(effects_of("MCOPY").contains(Effects::reads_memory()));
    assert!(effects_of("MCOPY").contains(Effects::writes_memory()));
}

// --- the safety net --------------------------------------------------------

#[test]
fn an_opcode_this_module_has_not_classified_is_conservatively_impure() {
    // JUMP is `Control`: EIR owns control flow, so it never reaches
    // `Op::Opcode`. The point is the fallback — a table entry nobody has
    // thought about must never come back pure.
    assert_eq!(effects_of("JUMP"), Effects::all());
    assert_eq!(effects_of("STOP"), Effects::all());
    assert!(!Effects::all().is_removable());
}

#[test]
fn no_opcode_in_the_table_panics_or_comes_back_accidentally_pure() {
    for spec in opcodes() {
        let effects = Effects::of_opcode(spec);
        let expected_pure = matches!(
            spec.category,
            OpCategory::Arithmetic | OpCategory::Comparison | OpCategory::Bitwise | OpCategory::StackManip
        );
        assert_eq!(
            effects.is_pure(),
            expected_pure,
            "{} is classified pure = {}, expected {expected_pure}",
            spec.mnemonic,
            effects.is_pure()
        );
    }
}

// --- set algebra -----------------------------------------------------------

#[test]
fn contains_asks_for_every_effect_and_intersects_for_any() {
    let both = Effects::reads_memory().union(Effects::writes_storage());

    assert!(both.contains(Effects::reads_memory()));
    assert!(both.contains(both));
    assert!(!both.contains(Effects::reads_memory().union(Effects::logs())));
    assert!(both.intersects(Effects::reads_memory().union(Effects::logs())));
    assert!(!both.intersects(Effects::logs()));
}

#[test]
fn only_a_pure_instruction_is_removable() {
    assert!(Effects::pure_().is_removable());
    assert!(!Effects::reads_context().is_removable());
    assert!(!Effects::logs().is_removable());
}

#[test]
fn effects_render_as_a_readable_list() {
    assert_eq!(Effects::pure_().to_string(), "pure");
    assert_eq!(Effects::reads_memory().to_string(), "rmem");
    assert_eq!(
        Effects::reads_memory().union(Effects::writes_memory()).to_string(),
        "rmem|wmem"
    );
}

// --- further cases -------------------------------------------------------------

#[test]
fn every_flag_has_its_own_name() {
    assert_eq!(Effects::all().to_string(), "rmem|wmem|rsto|wsto|rtra|wtra|rctx|log|extern");
    assert_eq!(Effects::logs().union(Effects::external()).to_string(), "log|extern");
}

#[test]
fn the_union_holds_both_sides_and_nothing_else() {
    let a = Effects::reads_storage();
    let b = Effects::writes_transient();
    let both = a.union(b);
    assert!(both.contains(a) && both.contains(b));
    assert!(!both.contains(Effects::reads_memory()));
    assert!(Effects::pure_().union(a) == a);
    assert!(!Effects::pure_().intersects(Effects::all()));
}
