//! Building by hand. Nothing here executes; these check that the builder
//! produces the structure it claims to and refuses what it says it refuses.

use rustevm::assembler::ToImmediate;
use rustevm::ir::{BlockKind, Cmp, FunctionBuilder, IrError, Module, Repair, Signature, Type, ValueDef};
use rustevm::isa::Fork;

fn sig(params: &[Type], returns: &[Type]) -> Signature {
    Signature::new(params, returns)
}

// --- a worked example -----------------------------------------------------

#[test]
fn a_checked_addition_with_a_panic_branch_builds() {
    // `fn add(a: u64, b: u64) -> u64 { a + b }` with overflow checks on.
    let mut f = FunctionBuilder::new("add", sig(&[Type::uint(64), Type::uint(64)], &[Type::uint(64)]));
    let (a, b) = (f.param(0), f.param(1));
    let ok = f.create_block();
    let panic = f.create_block();
    f.set_block_kind(panic, BlockKind::Panic);

    let (sum, overflowed) = f.ins().add_overflow(Type::uint(64), a, b);
    f.note("_3 = CheckedAdd(_1, _2)");
    f.brif(overflowed, panic, &[], ok, &[]);

    f.switch_to(ok);
    f.ret(&[sum]);

    f.switch_to(panic);
    let zero = f.ins().iconst(Type::Ptr, 0u8);
    f.revert(zero, zero);

    let func = f.finish().expect("builds");
    assert_eq!(func.num_blocks(), 3);
    assert_eq!(func.value_type(sum), Type::uint(64));
    assert_eq!(func.value_type(overflowed), Type::bool());
    assert_eq!(func.block(panic).kind, BlockKind::Panic);
}

#[test]
fn a_loop_carries_its_counter_in_a_block_parameter() {
    // The shape a phi node would otherwise take: the merge point declares what
    // it needs, and every predecessor supplies it on the edge.
    let mut f = FunctionBuilder::new("sum_to", sig(&[Type::uint(64)], &[Type::uint(64)]));
    let limit = f.param(0);

    let head = f.create_block_with(&[Type::uint(64), Type::uint(64)]); // (i, acc)
    let body = f.create_block();
    let done = f.create_block();

    let zero = f.ins().iconst(Type::uint(64), 0u8);
    f.jump(head, &[zero, zero]);

    f.switch_to(head);
    let (i, acc) = (f.block_param(head, 0), f.block_param(head, 1));
    let more = f.ins().icmp(Cmp::Lt, i, limit);
    f.brif(more, body, &[], done, &[]);

    f.switch_to(body);
    let one = f.ins().iconst(Type::uint(64), 1u8);
    let next_i = f.ins().add(Type::uint(64), i, one);
    let next_acc = f.ins().add(Type::uint(64), acc, i);
    f.jump(head, &[next_i, next_acc]);

    f.switch_to(done);
    f.ret(&[acc]);

    let func = f.finish().expect("builds");
    assert_eq!(func.block_params(head).len(), 2);
    assert_eq!(func.value_type(i), Type::uint(64));
}

// --- repairs are filled in for you ----------------------------------------

#[test]
fn the_builder_fills_in_the_repair_so_a_frontend_cannot_forget_it() {
    let mut f = FunctionBuilder::new("f", sig(&[Type::uint(8), Type::uint(8)], &[Type::uint(8)]));
    let (a, b) = (f.param(0), f.param(1));

    let sum = f.ins().add(Type::uint(8), a, b);
    f.ret(&[sum]);
    let func = f.finish().unwrap();

    let def = func.value_def(sum);
    let ValueDef::Result { inst, .. } = def else {
        panic!("a sum is an instruction result");
    };
    assert_eq!(func.inst(inst).repair, Repair::Mask { bits: 8 }, "u8 addition masks");
}

#[test]
fn a_convert_takes_its_repair_from_both_types() {
    let mut f = FunctionBuilder::new("f", sig(&[Type::uint(8)], &[Type::sint(8)]));
    let a = f.param(0);

    let widened = f.ins().convert(Type::uint(32), a);
    let reinterpreted = f.ins().convert(Type::sint(8), a);
    f.ret(&[reinterpreted]);
    let func = f.finish().unwrap();

    let repair_of = |value| {
        let ValueDef::Result { inst, .. } = func.value_def(value) else {
            panic!("not an instruction result");
        };
        func.inst(inst).repair
    };

    assert_eq!(repair_of(widened), Repair::NoRepair, "u8 -> u32 costs nothing");
    assert_eq!(
        repair_of(reinterpreted),
        Repair::Sext { bits: 8 },
        "u8 -> i8 sign-extends"
    );
}

// --- what the raw opcode hatch refuses ------------------------------------

#[test]
fn stack_manipulating_opcodes_are_rejected_by_the_raw_opcode_node() {
    for mnemonic in ["PUSH1", "DUP1", "SWAP1", "POP"] {
        let mut f = FunctionBuilder::new("f", sig(&[], &[]));
        f.ins().opcode(mnemonic, Type::uint(256), &[]);
        f.stop();

        let error = f.finish().expect_err("the stackifier owns the stack");
        assert!(
            matches!(error, IrError::ReservedOpcode { .. }),
            "{mnemonic} gave {error:?}"
        );
    }
}

#[test]
fn control_flow_opcodes_are_rejected_by_the_raw_opcode_node() {
    for mnemonic in ["JUMP", "JUMPI", "JUMPDEST", "PC"] {
        let mut f = FunctionBuilder::new("f", sig(&[], &[]));
        f.ins().opcode_void(mnemonic, &[]);
        f.stop();

        assert!(
            matches!(f.finish(), Err(IrError::ReservedOpcode { .. })),
            "{mnemonic} should be rejected — EIR owns control flow"
        );
    }
}

#[test]
fn terminating_opcodes_are_rejected_because_they_are_terminators() {
    for mnemonic in ["STOP", "RETURN", "REVERT", "SELFDESTRUCT", "INVALID"] {
        let mut f = FunctionBuilder::new("f", sig(&[], &[]));
        f.ins().opcode_void(mnemonic, &[]);
        f.stop();

        assert!(
            matches!(f.finish(), Err(IrError::ReservedOpcode { .. })),
            "{mnemonic} should be a Terminator, not an Op"
        );
    }
}

#[test]
fn an_unknown_mnemonic_is_reported_at_finish() {
    let mut f = FunctionBuilder::new("f", sig(&[], &[]));
    f.ins().opcode("FROBNICATE", Type::uint(256), &[]);
    f.stop();

    assert_eq!(
        f.finish().expect_err("FROBNICATE is not an opcode"),
        IrError::UnknownMnemonic("FROBNICATE".to_string())
    );
}

#[test]
fn an_ordinary_opcode_goes_through_the_hatch_untouched() {
    let mut f = FunctionBuilder::new("f", sig(&[], &[Type::uint(256)]));
    let caller = f.ins().opcode("CALLER", Type::uint(256), &[]);
    f.ret(&[caller]);

    let func = f.finish().expect("CALLER is not reserved");
    let ValueDef::Result { inst, .. } = func.value_def(caller) else {
        panic!("not a result");
    };
    assert_eq!(func.inst(inst).op.name(), "CALLER");
}

// --- sticky errors, as in Asm ---------------------------------------------

#[test]
fn the_first_builder_error_is_the_one_reported() {
    let mut f = FunctionBuilder::new("f", sig(&[], &[]));
    f.ins().opcode_void("FROBNICATE", &[]);
    f.ins().opcode_void("JUMP", &[]);
    f.stop();

    assert_eq!(
        f.finish().expect_err("both calls failed"),
        IrError::UnknownMnemonic("FROBNICATE".to_string()),
        "the later reserved-opcode error must not displace it"
    );
}

#[test]
fn tests_nothing_is_emitted_after_an_error() {
    let mut f = FunctionBuilder::new("f", sig(&[], &[]));
    f.ins().opcode_void("FROBNICATE", &[]);
    let before = f.func().num_insts();
    f.ins().iconst(Type::uint(64), 1u8);

    assert_eq!(f.func().num_insts(), before, "later emits are no-ops");
}

#[test]
fn an_instruction_after_a_terminator_is_an_error() {
    // Not merely unreachable — it would silently vanish, and a frontend that
    // does it has lost track of where it is.
    let mut f = FunctionBuilder::new("f", sig(&[], &[]));
    f.stop();
    f.ins().iconst(Type::uint(64), 1u8);

    assert!(matches!(f.finish(), Err(IrError::NoCurrentBlock)));
}

#[test]
fn terminating_a_block_twice_is_an_error() {
    let mut f = FunctionBuilder::new("f", sig(&[], &[]));
    let second = f.create_block();
    f.stop();
    f.switch_to(second);
    f.stop();
    f.switch_to(second);
    f.stop();

    assert!(matches!(f.finish(), Err(IrError::AlreadyTerminated { .. })));
}

// --- module ----------------------------------------------------------------

#[test]
fn a_function_can_be_called_before_it_is_defined() {
    // Mutual recursion needs this, and so does the stackifier's first pass.
    let mut m = Module::new(Fork::Cancun);
    let callee_sig = sig(&[Type::uint(64)], &[Type::uint(64)]);
    let callee = m.declare("callee", callee_sig.clone());

    let mut f = FunctionBuilder::new("caller", sig(&[], &[Type::uint(64)]));
    let arg = f.ins().iconst(Type::uint(64), 7u8);
    let result = f.ins().call(callee, &callee_sig, &[arg])[0];
    f.ret(&[result]);
    let caller = m.declare("caller", sig(&[], &[Type::uint(64)]));
    m.define(caller, f.finish().unwrap()).unwrap();

    // The callee still has no body; the call site already exists.
    assert!(m.get(callee).is_none());

    let mut g = FunctionBuilder::new("callee", callee_sig.clone());
    let x = g.param(0);
    g.ret(&[x]);
    m.define(callee, g.finish().unwrap()).unwrap();
    m.set_entry(caller);

    assert!(m.verify().is_ok());
    assert_eq!(m.get(callee).unwrap().sig, callee_sig);
}

#[test]
fn a_call_mints_one_value_per_return_in_the_callees_signature() {
    let two_returns = sig(&[], &[Type::uint(64), Type::bool()]);
    let mut m = Module::new(Fork::Cancun);
    let callee = m.declare("two", two_returns.clone());

    let mut f = FunctionBuilder::new("f", sig(&[], &[]));
    let results = f.ins().call(callee, &two_returns, &[]);
    f.stop();
    let func = f.finish().unwrap();

    assert_eq!(results.len(), 2);
    assert_eq!(func.value_type(results[0]), Type::uint(64));
    assert_eq!(func.value_type(results[1]), Type::bool());
}

// --- further cases ------------------------------------------------------------

#[test]
fn a_failed_builder_hands_back_placeholders() {
    let mut f = FunctionBuilder::new("f", sig(&[], &[]));
    f.ins().opcode_void("FROBNICATE", &[]);
    let (sum, flag) = f.ins().add_overflow(Type::uint(8), rustevm::ir::Value::new(0), rustevm::ir::Value::new(0));
    assert_eq!(sum.index(), 0);
    assert_eq!(flag.index(), 0);
    assert_eq!(f.func().num_values(), 0);
}

#[test]
fn a_note_attaches_to_the_instruction_just_emitted_only() {
    let mut f = FunctionBuilder::new("f", sig(&[Type::uint(64)], &[]));
    let a = f.param(0);
    let doubled = f.ins().add(Type::uint(64), a, a);
    f.note("_2 = Add(_1, _1)");
    f.stop();
    f.note("dropped: nothing to attach to after a terminator");
    let func = f.finish().unwrap();
    let ValueDef::Result { inst, .. } = func.value_def(doubled) else {
        panic!("a sum is an instruction result");
    };
    assert_eq!(func.inst(inst).note.as_deref(), Some("_2 = Add(_1, _1)"));
}

#[test]
fn memory_and_storage_nodes_take_their_type_from_the_stored_value() {
    let mut f = FunctionBuilder::new("f", sig(&[Type::uint(8)], &[]));
    let v = f.param(0);
    let ptr = f.ins().alloca(32);
    f.ins().store(ptr, v);
    let loaded = f.ins().load(Type::uint(8), ptr);
    let key = f.ins().iconst(Type::uint(256), 1u8);
    f.ins().sstore(key, loaded);
    let back = f.ins().sload(Type::uint(8), key);
    f.ins().tstore(key, back);
    let t = f.ins().tload(Type::uint(256), key);
    f.ins().memcopy(ptr, ptr, t);
    f.stop();
    let func = f.finish().unwrap();
    assert_eq!(func.num_insts(), 9);
    assert_eq!(func.value_type(ptr), Type::Ptr);
    assert_eq!(func.inst(rustevm::ir::Inst::new(1)).ty, Type::uint(8));
    assert_eq!(func.inst(rustevm::ir::Inst::new(1)).repair, Repair::NoRepair);
    assert_eq!(func.inst(rustevm::ir::Inst::new(2)).repair, Repair::Mask { bits: 8 });
}

#[test]
fn a_switch_ends_the_block_with_its_cases_in_order() {
    let mut f = FunctionBuilder::new("f", sig(&[Type::uint(8)], &[]));
    let on = f.param(0);
    let a = f.create_block();
    let b = f.create_block();
    let other = f.create_block();
    let entry = f.entry();
    f.switch(on, &[(1u8.to_immediate(), a), (2u8.to_immediate(), b)], other);
    let func = f.finish().unwrap();
    let targets: Vec<_> = func.terminator(entry).unwrap().block_calls().iter().map(|c| c.block).collect();
    assert_eq!(targets, [a, b, other]);
}

#[test]
fn builder_errors_render_as_sentences() {
    assert_eq!(IrError::UnknownMnemonic("FROBNICATE".to_string()).to_string(), "unknown opcode `FROBNICATE`");
    assert_eq!(
        IrError::ReservedOpcode { mnemonic: "JUMP", reason: "EIR owns control flow" }.to_string(),
        "`JUMP` cannot be emitted as a raw opcode: EIR owns control flow"
    );
    assert_eq!(
        IrError::AlreadyTerminated { block: rustevm::ir::Block::new(2) }.to_string(),
        "block2 already ends in a terminator"
    );
    assert_eq!(
        IrError::NoCurrentBlock.to_string(),
        "no block is being built \u{2014} the last one was terminated; `switch_to` another"
    );
}

#[test]
fn the_reserved_opcode_error_gives_its_reason() {
    let mut f = FunctionBuilder::new("f", sig(&[], &[]));
    f.ins().opcode_void("POP", &[]);
    assert_eq!(
        f.finish().unwrap_err(),
        IrError::ReservedOpcode { mnemonic: "POP", reason: "the stackifier owns the operand stack" }
    );
    let mut f = FunctionBuilder::new("f", sig(&[], &[]));
    f.ins().opcode_void("RETURN", &[]);
    assert_eq!(
        f.finish().unwrap_err(),
        IrError::ReservedOpcode { mnemonic: "RETURN", reason: "terminating opcodes are terminators" }
    );
}
