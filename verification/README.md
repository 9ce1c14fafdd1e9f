# rustevm

The verified core of a Rust-to-EVM compiler backend, written in Verus.

- `isa`: the EVM instruction table, as data, with lookup by byte and by
  mnemonic and the PUSH/DUP/SWAP families.
- `assembler`: the bytecode assembler (narrowest `PUSH`, fork gating, labels
  patched as `PUSH2` references) and, in `assembler::disasm`, the
  disassembler and listing.
- `ir`: EIR, the typed SSA IR with block parameters: handles, types and the
  repairs that keep a value in its type's range, instructions and
  terminators, effects, function arenas, modules, and the hand-written
  construction surface in `ir::builder`. `ir::repr` states what a value's
  word means and proves the conversion repairs against Rust's `as`.
- `word`: the 256-bit word type contracts compute with.
- `shim`: the compiler shim's local layout, its bytecode emitter with
  patched forward jumps, and the lowering of a MIR body onto it.
- `driver`: the backend's plan of one bytecode module per codegen unit.
- `binding`: the check a raw opcode binding is held to: a known mnemonic
  and the table's stack arity.
- `text`: decimal and hex rendering shared by the dumps.

`app/` is the glue to rustc's `CodegenBackend` trait, which needs the
compiler's own crates.
