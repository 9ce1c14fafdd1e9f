use rustevm::driver::{EvmCodegenBackend, OngoingCodegen};

#[test]
fn each_codegen_unit_becomes_an_empty_module_of_its_name() {
    let names = vec!["a.cgu0".to_string(), "a.cgu1".to_string()];
    let ongoing = OngoingCodegen::for_units(&names);
    assert_eq!(ongoing.modules.len(), 2);
    assert_eq!(ongoing.modules[0].name, "a.cgu0");
    assert_eq!(ongoing.modules[1].name, "a.cgu1");
    assert!(ongoing.modules.iter().all(|m| m.bytecode.is_empty()));
    assert!(OngoingCodegen::for_units(&[]).modules.is_empty());
}

#[test]
fn the_backend_names_itself_and_defaults_its_cpu() {
    let backend = EvmCodegenBackend::new();
    assert_eq!(backend.name(), "evm");
    assert_eq!(backend.target_cpu(None), "generic");
    assert_eq!(backend.target_cpu(Some("cancun".to_string())), "cancun");
}
