use rustevm::assembler::disasm::instructions;
use rustevm::shim::abi::{EvmLayout, EvmTy, RustTyKind, WORD_BYTES};
use rustevm::shim::backend::EvmCodegenBackend;
use rustevm::shim::emit::{Emitter, Opcode, U256};
use rustevm::shim::lower::{
    codegen_fn, lower_assign, lower_basic_block, lower_call, lower_operand, lower_switch, lower_terminator,
    BasicBlockData, BinOp, Body, Constant, Operand, Rvalue, Statement, Terminator, UnOp,
};

// --- layout -------------------------------------------------------------------

#[test]
fn local_n_lives_at_thirty_two_times_n() {
    let layout = EvmLayout::for_body(3);
    assert_eq!(layout.slot_of(0), 0);
    assert_eq!(layout.slot_of(1), 0x20);
    assert_eq!(layout.slot_of(2), 0x40);
    assert_eq!(layout.total_bytes(), 3 * WORD_BYTES);
    assert_eq!(EvmLayout::for_body(0).total_bytes(), 0);
}

#[test]
fn scalars_are_one_word_and_aggregates_live_in_memory() {
    for kind in [RustTyKind::Bool, RustTyKind::Int, RustTyKind::Uint, RustTyKind::Ref, RustTyKind::FnPtr] {
        assert_eq!(EvmTy::from_rust_ty(kind), EvmTy::Word);
        assert!(EvmTy::from_rust_ty(kind).is_stack_value());
    }
    assert_eq!(EvmTy::from_rust_ty(RustTyKind::Tuple { fields: 0 }), EvmTy::Unit);
    assert_eq!(EvmTy::from_rust_ty(RustTyKind::Tuple { fields: 2 }), EvmTy::Memory { size_bytes: 32 });
    assert_eq!(EvmTy::from_rust_ty(RustTyKind::Adt), EvmTy::Memory { size_bytes: 32 });
    assert_eq!(EvmTy::from_rust_ty(RustTyKind::Never), EvmTy::Diverging);
    assert_eq!(EvmTy::from_rust_ty(RustTyKind::FnDef), EvmTy::Unit);
    assert!(!EvmTy::Unit.is_stack_value());
    assert!(!EvmTy::Memory { size_bytes: 64 }.is_stack_value());
}

// --- emitter ------------------------------------------------------------------

#[test]
fn opcodes_encode_as_their_bytes() {
    assert_eq!(Opcode::STOP.byte(), 0x00);
    assert_eq!(Opcode::MSTORE.byte(), 0x52);
    assert_eq!(Opcode::PUSH32.byte(), 0x7f);
    assert_eq!(Opcode::SWAP16.byte(), 0x9f);
    assert_eq!(Opcode::SELFDESTRUCT.byte(), 0xff);
}

#[test]
fn a_push_is_as_narrow_as_its_value() {
    let mut e = Emitter::new();
    e.push_u256(U256::from(0u8));
    e.push_u256(U256::from(0x2au8));
    e.push_u256(U256::from(0x0100u64));
    e.push_u256(U256::from(u128::MAX));
    let code = e.finish();
    assert_eq!(&code[..6], &[0x5f, 0x60, 0x2a, 0x61, 0x01, 0x00]);
    assert_eq!(code[6], 0x6f, "PUSH16 for a full u128");
    assert_eq!(code.len(), 6 + 17);
    assert_eq!(U256::default(), U256::from(0u64));
}

#[test]
fn jumps_are_patched_to_their_block_offsets() {
    let mut e = Emitter::new();
    e.jump(1);
    e.mark_bb(0);
    e.op(Opcode::STOP);
    e.mark_bb(1);
    e.jumpi(0);
    let code = e.finish();
    assert_eq!(code, vec![0x61, 0x00, 0x06, 0x56, 0x5b, 0x00, 0x5b, 0x61, 0x00, 0x04, 0x57]);
}

// --- lowering -----------------------------------------------------------------

#[test]
fn an_operand_is_loaded_from_its_slot() {
    let layout = EvmLayout::for_body(4);
    let mut e = Emitter::new();
    lower_operand(&Operand::Copy(3), &layout, &mut e);
    lower_operand(&Operand::Constant(Constant::Scalar(7)), &layout, &mut e);
    assert_eq!(e.finish(), vec![0x60, 0x60, 0x51, 0x60, 0x07]);
}

#[test]
fn a_binary_assignment_pushes_the_right_operand_first_then_stores() {
    let layout = EvmLayout::for_body(3);
    let mut e = Emitter::new();
    lower_assign(0, &Rvalue::BinaryOp(BinOp::Sub, Operand::Move(1), Operand::Copy(2)), &layout, &mut e);
    // PUSH1 0x40 MLOAD, PUSH1 0x20 MLOAD, SUB, PUSH0 MSTORE
    assert_eq!(e.finish(), vec![0x60, 0x40, 0x51, 0x60, 0x20, 0x51, 0x03, 0x5f, 0x52]);
}

#[test]
fn negation_is_zero_minus_the_operand() {
    let layout = EvmLayout::for_body(2);
    let mut e = Emitter::new();
    lower_assign(0, &Rvalue::UnaryOp(UnOp::Neg, Operand::Copy(1)), &layout, &mut e);
    assert_eq!(
        e.finish(),
        vec![0x60, 0x20, 0x51, 0x5f, 0x03, 0x5f, 0x52]
    );
    let mut e = Emitter::new();
    lower_assign(1, &Rvalue::UnaryOp(UnOp::Not, Operand::Constant(Constant::Scalar(0))), &layout, &mut e);
    assert_eq!(e.finish(), vec![0x5f, 0x19, 0x60, 0x20, 0x52]);
}

#[test]
fn a_switch_is_a_chain_of_compare_and_jump() {
    let layout = EvmLayout::for_body(1);
    let mut e = Emitter::new();
    e.mark_bb(1);
    e.mark_bb(2);
    lower_switch(&Operand::Copy(0), &[(5, 1)], 2, &layout, &mut e);
    let code = e.finish();
    assert_eq!(
        code,
        vec![0x5b, 0x5b, 0x5f, 0x51, 0x80, 0x60, 0x05, 0x14, 0x61, 0x00, 0x00, 0x57, 0x50, 0x61, 0x00, 0x01, 0x56]
    );
}

#[test]
fn an_intrinsic_call_pushes_its_arguments_last_first() {
    let layout = EvmLayout::for_body(2);
    let mut e = Emitter::new();
    e.mark_bb(9);
    lower_call(
        Some(Opcode::ADD),
        &[Operand::Constant(Constant::Scalar(1)), Operand::Constant(Constant::Scalar(2))],
        false,
        1,
        Some(9),
        &layout,
        &mut e,
    );
    assert_eq!(
        e.finish(),
        vec![0x5b, 0x60, 0x02, 0x60, 0x01, 0x01, 0x60, 0x20, 0x52, 0x61, 0x00, 0x00, 0x56]
    );
    let mut e = Emitter::new();
    lower_call(Some(Opcode::CALLER), &[], true, 0, None, &layout, &mut e);
    assert_eq!(e.finish(), vec![0x33]);
}

#[test]
fn terminators_lower_to_their_halts_and_jumps() {
    let layout = EvmLayout::for_body(1);
    let mut e = Emitter::new();
    lower_terminator(&Terminator::Return, &layout, &mut e);
    lower_terminator(&Terminator::Unreachable, &layout, &mut e);
    e.mark_bb(0);
    lower_terminator(&Terminator::Goto(0), &layout, &mut e);
    assert_eq!(e.finish(), vec![0x00, 0xfe, 0x5b, 0x61, 0x00, 0x02, 0x56]);
}

#[test]
fn a_block_lowers_its_statements_then_its_terminator() {
    let layout = EvmLayout::for_body(2);
    let block = BasicBlockData {
        statements: vec![
            Statement::StorageLive(1),
            Statement::Assign { local: 1, rvalue: Rvalue::Use(Operand::Constant(Constant::Scalar(3))) },
            Statement::StorageDead(1),
            Statement::Nop,
        ],
        terminator: Some(Terminator::Return),
    };
    let mut e = Emitter::new();
    lower_basic_block(&block, &layout, &mut e);
    assert_eq!(e.finish(), vec![0x60, 0x03, 0x60, 0x20, 0x52, 0x00]);
}

#[test]
fn a_body_lowers_block_after_block() {
    let body = Body {
        local_count: 2,
        blocks: vec![
            BasicBlockData {
                statements: vec![Statement::Assign {
                    local: 0,
                    rvalue: Rvalue::BinaryOp(BinOp::Add, Operand::Copy(1), Operand::Constant(Constant::Scalar(1))),
                }],
                terminator: Some(Terminator::Return),
            },
            BasicBlockData { statements: vec![], terminator: None },
        ],
    };
    let code = codegen_fn(&body).finish();
    assert_eq!(code, vec![0x60, 0x01, 0x60, 0x20, 0x51, 0x01, 0x5f, 0x52, 0x00]);
}

#[test]
fn the_backend_is_a_unit_value() {
    assert_eq!(EvmCodegenBackend::new(), EvmCodegenBackend);
}

#[test]
fn lowered_code_disassembles_to_the_expected_instructions() {
    let body = Body {
        local_count: 3,
        blocks: vec![BasicBlockData {
            statements: vec![Statement::Assign {
                local: 2,
                rvalue: Rvalue::BinaryOp(BinOp::Lt, Operand::Copy(0), Operand::Copy(1)),
            }],
            terminator: Some(Terminator::Unreachable),
        }],
    };
    let code = codegen_fn(&body).finish();
    let names: Vec<_> = instructions(&code).iter().map(|i| i.mnemonic()).collect();
    assert_eq!(names, ["PUSH1", "MLOAD", "PUSH0", "MLOAD", "LT", "PUSH1", "MSTORE", "INVALID"]);
}
