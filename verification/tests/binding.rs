use rustevm::binding::{check_binding, BindingError};

#[test]
fn a_binding_matching_the_table_is_accepted() {
    // RETURN pops offset and length and never returns.
    assert_eq!(check_binding("RETURN", 2, 0).unwrap().byte, 0xf3);
    // PC pushes the program counter.
    assert_eq!(check_binding("PC", 0, 1).unwrap().byte, 0x58);
    // JUMPI pops the counter and the condition.
    assert_eq!(check_binding("JUMPI", 2, 0).unwrap().byte, 0x57);
}

#[test]
fn an_unknown_mnemonic_is_rejected() {
    assert_eq!(check_binding("FROB", 0, 0), Err(BindingError::UnknownOpcode("FROB".to_string())));
}

#[test]
fn a_signature_of_the_wrong_arity_is_rejected() {
    assert_eq!(
        check_binding("ADD", 1, 1),
        Err(BindingError::ArityMismatch { mnemonic: "ADD", stack_in: 2, stack_out: 1, params: 1, results: 1 })
    );
    assert_eq!(
        check_binding("POP", 1, 1),
        Err(BindingError::ArityMismatch { mnemonic: "POP", stack_in: 1, stack_out: 0, params: 1, results: 1 })
    );
}
