//! Declaration-versus-definition bookkeeping. The mistakes here are the ones
//! that would otherwise surface as a caller writing arguments into the wrong
//! frame slots.

use rustevm::ir::{Func, Function, FunctionBuilder, IrError, Module, Signature, Type};
use rustevm::isa::Fork;

fn trivial(name: &str, sig: Signature) -> Function {
    let mut f = FunctionBuilder::new(name, sig);
    f.stop();
    f.finish().expect("builds")
}

#[test]
fn a_declaration_reserves_a_handle_a_name_and_a_signature() {
    let mut m = Module::new(Fork::Cancun);
    let sig = Signature::new(&[Type::uint(64)], &[Type::uint(64)]);
    let func = m.declare("double", sig.clone());

    assert_eq!(m.name(func), "double");
    assert_eq!(m.signature(func), &sig);
    assert!(m.get(func).is_none(), "declared, not defined");
    assert_eq!(m.len(), 1);
}

#[test]
fn defining_a_body_whose_signature_disagrees_is_rejected() {
    let mut m = Module::new(Fork::Cancun);
    let func = m.declare("f", Signature::new(&[Type::uint(64)], &[Type::uint(64)]));

    let body = trivial("f", Signature::new(&[Type::uint(8)], &[Type::uint(8)]));

    assert!(matches!(m.define(func, body), Err(IrError::SignatureMismatch { .. })));
}

#[test]
fn defining_a_function_twice_is_rejected() {
    let mut m = Module::new(Fork::Cancun);
    let sig = Signature::new(&[], &[]);
    let func = m.declare("f", sig.clone());

    m.define(func, trivial("f", sig.clone())).unwrap();

    assert!(matches!(
        m.define(func, trivial("f", sig)),
        Err(IrError::AlreadyDefined { .. })
    ));
}

#[test]
fn a_module_with_a_declared_but_undefined_function_does_not_verify() {
    let mut m = Module::new(Fork::Cancun);
    let sig = Signature::new(&[], &[]);
    let defined = m.declare("defined", sig.clone());
    m.declare("missing", sig.clone());
    m.define(defined, trivial("defined", sig)).unwrap();
    m.set_entry(defined);

    assert!(matches!(m.verify(), Err(IrError::Undefined { .. })));
}

#[test]
fn a_module_with_no_entry_does_not_verify() {
    let mut m = Module::new(Fork::Cancun);
    let sig = Signature::new(&[], &[]);
    let func = m.declare("f", sig.clone());
    m.define(func, trivial("f", sig)).unwrap();

    assert_eq!(m.verify(), Err(IrError::NoEntry));
}

#[test]
fn a_complete_module_verifies() {
    let mut m = Module::new(Fork::Cancun);
    let sig = Signature::new(&[], &[]);
    let func = m.declare("main", sig.clone());
    m.define(func, trivial("main", sig)).unwrap();
    m.set_entry(func);

    assert_eq!(m.verify(), Ok(()));
    assert_eq!(m.entry(), Some(func));
}

#[test]
fn functions_are_listed_in_declaration_order() {
    // The stackifier emits bodies in this order, so it is part of the layout,
    // not an implementation detail.
    let mut m = Module::new(Fork::Cancun);
    let sig = Signature::new(&[], &[]);
    let first = m.declare("first", sig.clone());
    let second = m.declare("second", sig);

    assert_eq!(m.funcs(), [first, second]);
    assert!(m.has_func(second));
    assert!(!m.has_func(Func::new(2)));
}

// --- further cases ----------------------------------------------------------

#[test]
fn a_body_can_be_edited_in_place_once_defined() {
    let mut m = Module::new(Fork::Cancun);
    let sig = Signature::new(&[], &[]);
    let func = m.declare("f", sig.clone());
    assert!(m.get_mut(func).is_none());
    m.define(func, trivial("f", sig)).unwrap();
    let body = m.get_mut(func).expect("defined");
    let extra = body.create_block();
    assert_eq!(m.get(func).unwrap().num_blocks(), 2);
    assert_eq!(extra.index(), 1);
}

#[test]
fn the_undefined_function_reported_is_the_first_one_declared() {
    let mut m = Module::new(Fork::Cancun);
    let sig = Signature::new(&[], &[]);
    let a = m.declare("a", sig.clone());
    let b = m.declare("b", sig.clone());
    m.declare("c", sig.clone());
    m.define(a, trivial("a", sig)).unwrap();
    assert_eq!(m.verify(), Err(IrError::Undefined { func: b, name: "b".to_string() }));
}

#[test]
fn an_empty_module_is_empty() {
    let m = Module::new(Fork::London);
    assert!(m.is_empty());
    assert_eq!(m.len(), 0);
    assert_eq!(m.entry(), None);
    assert_eq!(m.fork, Fork::London);
}

#[test]
fn module_errors_render_as_sentences() {
    let f = Func::new(1);
    assert_eq!(
        IrError::SignatureMismatch { func: f, name: "g".to_string() }.to_string(),
        "the body given for `g` (@f1) does not match its declared signature"
    );
    assert_eq!(IrError::AlreadyDefined { func: f, name: "g".to_string() }.to_string(), "`g` (@f1) is already defined");
    assert_eq!(
        IrError::Undefined { func: f, name: "g".to_string() }.to_string(),
        "`g` (@f1) was declared but never defined"
    );
    assert_eq!(IrError::NoEntry.to_string(), "the module has no entry function");
}
