//! The instruction set itself: one entry per assigned opcode byte.
//!
//! The table is keyed by byte. Listing order — what [`opcodes`] returns — is
//! ascending byte order, so the position of an entry and its byte determine
//! each other (see [`byte_at`] and [`position_of`]).
//!
//! `PUSH1`-`PUSH32`, `DUP1`-`DUP16` and `SWAP1`-`SWAP16` are written as three
//! families whose arity is computed from the byte, because that is what they
//! are; every other opcode is its own row.

use vstd::prelude::*;

use super::{Fork, GasClass, OpCategory, OpSpec};

verus! {

/// How many opcodes the table defines.
pub const OPCODE_COUNT: usize = 149;

/// One row of the table.
pub open spec fn entry(
    mnemonic: &'static str,
    byte: u8,
    stack_in: u8,
    stack_out: u8,
    terminating: bool,
    gas: GasClass,
    category: OpCategory,
    min_fork: Fork,
) -> OpSpec {
    OpSpec { mnemonic, byte, stack_in, stack_out, terminating, gas, category, min_fork }
}

fn make_entry(
    mnemonic: &'static str,
    byte: u8,
    stack_in: u8,
    stack_out: u8,
    terminating: bool,
    gas: GasClass,
    category: OpCategory,
    min_fork: Fork,
) -> (r: OpSpec)
    ensures
        r == entry(mnemonic, byte, stack_in, stack_out, terminating, gas, category, min_fork),
{
    OpSpec { mnemonic, byte, stack_in, stack_out, terminating, gas, category, min_fork }
}

/// `PUSH1`..`PUSH32` by byte.
pub open spec fn push_name(b: u8) -> &'static str {
    match b {
        0x60 => "PUSH1",
        0x61 => "PUSH2",
        0x62 => "PUSH3",
        0x63 => "PUSH4",
        0x64 => "PUSH5",
        0x65 => "PUSH6",
        0x66 => "PUSH7",
        0x67 => "PUSH8",
        0x68 => "PUSH9",
        0x69 => "PUSH10",
        0x6a => "PUSH11",
        0x6b => "PUSH12",
        0x6c => "PUSH13",
        0x6d => "PUSH14",
        0x6e => "PUSH15",
        0x6f => "PUSH16",
        0x70 => "PUSH17",
        0x71 => "PUSH18",
        0x72 => "PUSH19",
        0x73 => "PUSH20",
        0x74 => "PUSH21",
        0x75 => "PUSH22",
        0x76 => "PUSH23",
        0x77 => "PUSH24",
        0x78 => "PUSH25",
        0x79 => "PUSH26",
        0x7a => "PUSH27",
        0x7b => "PUSH28",
        0x7c => "PUSH29",
        0x7d => "PUSH30",
        0x7e => "PUSH31",
        0x7f => "PUSH32",
        _ => "",
    }
}

/// `DUP1`..`DUP16` by byte.
pub open spec fn dup_name(b: u8) -> &'static str {
    match b {
        0x80 => "DUP1",
        0x81 => "DUP2",
        0x82 => "DUP3",
        0x83 => "DUP4",
        0x84 => "DUP5",
        0x85 => "DUP6",
        0x86 => "DUP7",
        0x87 => "DUP8",
        0x88 => "DUP9",
        0x89 => "DUP10",
        0x8a => "DUP11",
        0x8b => "DUP12",
        0x8c => "DUP13",
        0x8d => "DUP14",
        0x8e => "DUP15",
        0x8f => "DUP16",
        _ => "",
    }
}

/// `SWAP1`..`SWAP16` by byte.
pub open spec fn swap_name(b: u8) -> &'static str {
    match b {
        0x90 => "SWAP1",
        0x91 => "SWAP2",
        0x92 => "SWAP3",
        0x93 => "SWAP4",
        0x94 => "SWAP5",
        0x95 => "SWAP6",
        0x96 => "SWAP7",
        0x97 => "SWAP8",
        0x98 => "SWAP9",
        0x99 => "SWAP10",
        0x9a => "SWAP11",
        0x9b => "SWAP12",
        0x9c => "SWAP13",
        0x9d => "SWAP14",
        0x9e => "SWAP15",
        0x9f => "SWAP16",
        _ => "",
    }
}

fn push_mnemonic(b: u8) -> (r: &'static str)
    ensures
        r == push_name(b),
{
    match b {
        0x60 => "PUSH1",
        0x61 => "PUSH2",
        0x62 => "PUSH3",
        0x63 => "PUSH4",
        0x64 => "PUSH5",
        0x65 => "PUSH6",
        0x66 => "PUSH7",
        0x67 => "PUSH8",
        0x68 => "PUSH9",
        0x69 => "PUSH10",
        0x6a => "PUSH11",
        0x6b => "PUSH12",
        0x6c => "PUSH13",
        0x6d => "PUSH14",
        0x6e => "PUSH15",
        0x6f => "PUSH16",
        0x70 => "PUSH17",
        0x71 => "PUSH18",
        0x72 => "PUSH19",
        0x73 => "PUSH20",
        0x74 => "PUSH21",
        0x75 => "PUSH22",
        0x76 => "PUSH23",
        0x77 => "PUSH24",
        0x78 => "PUSH25",
        0x79 => "PUSH26",
        0x7a => "PUSH27",
        0x7b => "PUSH28",
        0x7c => "PUSH29",
        0x7d => "PUSH30",
        0x7e => "PUSH31",
        0x7f => "PUSH32",
        _ => "",
    }
}

fn dup_mnemonic(b: u8) -> (r: &'static str)
    ensures
        r == dup_name(b),
{
    match b {
        0x80 => "DUP1",
        0x81 => "DUP2",
        0x82 => "DUP3",
        0x83 => "DUP4",
        0x84 => "DUP5",
        0x85 => "DUP6",
        0x86 => "DUP7",
        0x87 => "DUP8",
        0x88 => "DUP9",
        0x89 => "DUP10",
        0x8a => "DUP11",
        0x8b => "DUP12",
        0x8c => "DUP13",
        0x8d => "DUP14",
        0x8e => "DUP15",
        0x8f => "DUP16",
        _ => "",
    }
}

fn swap_mnemonic(b: u8) -> (r: &'static str)
    ensures
        r == swap_name(b),
{
    match b {
        0x90 => "SWAP1",
        0x91 => "SWAP2",
        0x92 => "SWAP3",
        0x93 => "SWAP4",
        0x94 => "SWAP5",
        0x95 => "SWAP6",
        0x96 => "SWAP7",
        0x97 => "SWAP8",
        0x98 => "SWAP9",
        0x99 => "SWAP10",
        0x9a => "SWAP11",
        0x9b => "SWAP12",
        0x9c => "SWAP13",
        0x9d => "SWAP14",
        0x9e => "SWAP15",
        0x9f => "SWAP16",
        _ => "",
    }
}

/// The table: the specification of the opcode with byte `b`, if one is
/// assigned.
pub open spec fn spec_by_byte(b: u8) -> Option<OpSpec> {
    match b {
        0x00 => Some(entry("STOP", 0x00, 0, 0, true, GasClass::Zero, OpCategory::Terminating, Fork::Frontier)),
        0x01 => Some(entry("ADD", 0x01, 2, 1, false, GasClass::Fixed(3), OpCategory::Arithmetic, Fork::Frontier)),
        0x02 => Some(entry("MUL", 0x02, 2, 1, false, GasClass::Fixed(5), OpCategory::Arithmetic, Fork::Frontier)),
        0x03 => Some(entry("SUB", 0x03, 2, 1, false, GasClass::Fixed(3), OpCategory::Arithmetic, Fork::Frontier)),
        0x04 => Some(entry("DIV", 0x04, 2, 1, false, GasClass::Fixed(5), OpCategory::Arithmetic, Fork::Frontier)),
        0x05 => Some(entry("SDIV", 0x05, 2, 1, false, GasClass::Fixed(5), OpCategory::Arithmetic, Fork::Frontier)),
        0x06 => Some(entry("MOD", 0x06, 2, 1, false, GasClass::Fixed(5), OpCategory::Arithmetic, Fork::Frontier)),
        0x07 => Some(entry("SMOD", 0x07, 2, 1, false, GasClass::Fixed(5), OpCategory::Arithmetic, Fork::Frontier)),
        0x08 => Some(entry("ADDMOD", 0x08, 3, 1, false, GasClass::Fixed(8), OpCategory::Arithmetic, Fork::Frontier)),
        0x09 => Some(entry("MULMOD", 0x09, 3, 1, false, GasClass::Fixed(8), OpCategory::Arithmetic, Fork::Frontier)),
        0x0a => Some(entry("EXP", 0x0a, 2, 1, false, GasClass::PerByteOfExponent(50), OpCategory::Arithmetic, Fork::Frontier)),
        0x0b => Some(entry("SIGNEXTEND", 0x0b, 2, 1, false, GasClass::Fixed(5), OpCategory::Arithmetic, Fork::Frontier)),
        0x10 => Some(entry("LT", 0x10, 2, 1, false, GasClass::Fixed(3), OpCategory::Comparison, Fork::Frontier)),
        0x11 => Some(entry("GT", 0x11, 2, 1, false, GasClass::Fixed(3), OpCategory::Comparison, Fork::Frontier)),
        0x12 => Some(entry("SLT", 0x12, 2, 1, false, GasClass::Fixed(3), OpCategory::Comparison, Fork::Frontier)),
        0x13 => Some(entry("SGT", 0x13, 2, 1, false, GasClass::Fixed(3), OpCategory::Comparison, Fork::Frontier)),
        0x14 => Some(entry("EQ", 0x14, 2, 1, false, GasClass::Fixed(3), OpCategory::Comparison, Fork::Frontier)),
        0x15 => Some(entry("ISZERO", 0x15, 1, 1, false, GasClass::Fixed(3), OpCategory::Comparison, Fork::Frontier)),
        0x16 => Some(entry("AND", 0x16, 2, 1, false, GasClass::Fixed(3), OpCategory::Bitwise, Fork::Frontier)),
        0x17 => Some(entry("OR", 0x17, 2, 1, false, GasClass::Fixed(3), OpCategory::Bitwise, Fork::Frontier)),
        0x18 => Some(entry("XOR", 0x18, 2, 1, false, GasClass::Fixed(3), OpCategory::Bitwise, Fork::Frontier)),
        0x19 => Some(entry("NOT", 0x19, 1, 1, false, GasClass::Fixed(3), OpCategory::Bitwise, Fork::Frontier)),
        0x1a => Some(entry("BYTE", 0x1a, 2, 1, false, GasClass::Fixed(3), OpCategory::Bitwise, Fork::Frontier)),
        0x1b => Some(entry("SHL", 0x1b, 2, 1, false, GasClass::Fixed(3), OpCategory::Bitwise, Fork::Constantinople)),
        0x1c => Some(entry("SHR", 0x1c, 2, 1, false, GasClass::Fixed(3), OpCategory::Bitwise, Fork::Constantinople)),
        0x1d => Some(entry("SAR", 0x1d, 2, 1, false, GasClass::Fixed(3), OpCategory::Bitwise, Fork::Constantinople)),
        0x20 => Some(entry("KECCAK256", 0x20, 2, 1, false, GasClass::PerWord(6), OpCategory::Memory, Fork::Frontier)),
        0x30 => Some(entry("ADDRESS", 0x30, 0, 1, false, GasClass::Fixed(2), OpCategory::Context, Fork::Frontier)),
        0x31 => Some(entry("BALANCE", 0x31, 1, 1, false, GasClass::ColdWarm { cold: 2600, warm: 100 }, OpCategory::Context, Fork::Frontier)),
        0x32 => Some(entry("ORIGIN", 0x32, 0, 1, false, GasClass::Fixed(2), OpCategory::Context, Fork::Frontier)),
        0x33 => Some(entry("CALLER", 0x33, 0, 1, false, GasClass::Fixed(2), OpCategory::Context, Fork::Frontier)),
        0x34 => Some(entry("CALLVALUE", 0x34, 0, 1, false, GasClass::Fixed(2), OpCategory::Context, Fork::Frontier)),
        0x35 => Some(entry("CALLDATALOAD", 0x35, 1, 1, false, GasClass::Fixed(3), OpCategory::Context, Fork::Frontier)),
        0x36 => Some(entry("CALLDATASIZE", 0x36, 0, 1, false, GasClass::Fixed(2), OpCategory::Context, Fork::Frontier)),
        0x37 => Some(entry("CALLDATACOPY", 0x37, 3, 0, false, GasClass::PerWord(3), OpCategory::Context, Fork::Frontier)),
        0x38 => Some(entry("CODESIZE", 0x38, 0, 1, false, GasClass::Fixed(2), OpCategory::Context, Fork::Frontier)),
        0x39 => Some(entry("CODECOPY", 0x39, 3, 0, false, GasClass::PerWord(3), OpCategory::Context, Fork::Frontier)),
        0x3a => Some(entry("GASPRICE", 0x3a, 0, 1, false, GasClass::Fixed(2), OpCategory::Context, Fork::Frontier)),
        0x3b => Some(entry("EXTCODESIZE", 0x3b, 1, 1, false, GasClass::ColdWarm { cold: 2600, warm: 100 }, OpCategory::Context, Fork::Frontier)),
        0x3c => Some(entry("EXTCODECOPY", 0x3c, 4, 0, false, GasClass::Complex, OpCategory::Context, Fork::Frontier)),
        0x3d => Some(entry("RETURNDATASIZE", 0x3d, 0, 1, false, GasClass::Fixed(2), OpCategory::Context, Fork::Byzantium)),
        0x3e => Some(entry("RETURNDATACOPY", 0x3e, 3, 0, false, GasClass::PerWord(3), OpCategory::Context, Fork::Byzantium)),
        0x3f => Some(entry("EXTCODEHASH", 0x3f, 1, 1, false, GasClass::ColdWarm { cold: 2600, warm: 100 }, OpCategory::Context, Fork::Constantinople)),
        0x40 => Some(entry("BLOCKHASH", 0x40, 1, 1, false, GasClass::Fixed(20), OpCategory::Block, Fork::Frontier)),
        0x41 => Some(entry("COINBASE", 0x41, 0, 1, false, GasClass::Fixed(2), OpCategory::Block, Fork::Frontier)),
        0x42 => Some(entry("TIMESTAMP", 0x42, 0, 1, false, GasClass::Fixed(2), OpCategory::Block, Fork::Frontier)),
        0x43 => Some(entry("NUMBER", 0x43, 0, 1, false, GasClass::Fixed(2), OpCategory::Block, Fork::Frontier)),
        0x44 => Some(entry("PREVRANDAO", 0x44, 0, 1, false, GasClass::Fixed(2), OpCategory::Block, Fork::Frontier)),
        0x45 => Some(entry("GASLIMIT", 0x45, 0, 1, false, GasClass::Fixed(2), OpCategory::Block, Fork::Frontier)),
        0x46 => Some(entry("CHAINID", 0x46, 0, 1, false, GasClass::Fixed(2), OpCategory::Block, Fork::Istanbul)),
        0x47 => Some(entry("SELFBALANCE", 0x47, 0, 1, false, GasClass::Fixed(5), OpCategory::Context, Fork::Istanbul)),
        0x48 => Some(entry("BASEFEE", 0x48, 0, 1, false, GasClass::Fixed(2), OpCategory::Block, Fork::London)),
        0x49 => Some(entry("BLOBHASH", 0x49, 1, 1, false, GasClass::Fixed(3), OpCategory::Block, Fork::Cancun)),
        0x4a => Some(entry("BLOBBASEFEE", 0x4a, 0, 1, false, GasClass::Fixed(2), OpCategory::Block, Fork::Cancun)),
        0x50 => Some(entry("POP", 0x50, 1, 0, false, GasClass::Fixed(2), OpCategory::StackManip, Fork::Frontier)),
        0x51 => Some(entry("MLOAD", 0x51, 1, 1, false, GasClass::Fixed(3), OpCategory::Memory, Fork::Frontier)),
        0x52 => Some(entry("MSTORE", 0x52, 2, 0, false, GasClass::Fixed(3), OpCategory::Memory, Fork::Frontier)),
        0x53 => Some(entry("MSTORE8", 0x53, 2, 0, false, GasClass::Fixed(3), OpCategory::Memory, Fork::Frontier)),
        0x54 => Some(entry("SLOAD", 0x54, 1, 1, false, GasClass::ColdWarm { cold: 2100, warm: 100 }, OpCategory::Storage, Fork::Frontier)),
        0x55 => Some(entry("SSTORE", 0x55, 2, 0, false, GasClass::StorageWrite, OpCategory::Storage, Fork::Frontier)),
        0x56 => Some(entry("JUMP", 0x56, 1, 0, false, GasClass::Fixed(8), OpCategory::Control, Fork::Frontier)),
        0x57 => Some(entry("JUMPI", 0x57, 2, 0, false, GasClass::Fixed(10), OpCategory::Control, Fork::Frontier)),
        0x58 => Some(entry("PC", 0x58, 0, 1, false, GasClass::Fixed(2), OpCategory::Control, Fork::Frontier)),
        0x59 => Some(entry("MSIZE", 0x59, 0, 1, false, GasClass::Fixed(2), OpCategory::Memory, Fork::Frontier)),
        0x5a => Some(entry("GAS", 0x5a, 0, 1, false, GasClass::Fixed(2), OpCategory::Context, Fork::Frontier)),
        0x5b => Some(entry("JUMPDEST", 0x5b, 0, 0, false, GasClass::Fixed(1), OpCategory::Control, Fork::Frontier)),
        0x5c => Some(entry("TLOAD", 0x5c, 1, 1, false, GasClass::Fixed(100), OpCategory::Storage, Fork::Cancun)),
        0x5d => Some(entry("TSTORE", 0x5d, 2, 0, false, GasClass::Fixed(100), OpCategory::Storage, Fork::Cancun)),
        0x5e => Some(entry("MCOPY", 0x5e, 3, 0, false, GasClass::PerWord(3), OpCategory::Memory, Fork::Cancun)),
        0x5f => Some(entry("PUSH0", 0x5f, 0, 1, false, GasClass::Fixed(2), OpCategory::StackManip, Fork::Shanghai)),
        0xa0 => Some(entry("LOG0", 0xa0, 2, 0, false, GasClass::Complex, OpCategory::Log, Fork::Frontier)),
        0xa1 => Some(entry("LOG1", 0xa1, 3, 0, false, GasClass::Complex, OpCategory::Log, Fork::Frontier)),
        0xa2 => Some(entry("LOG2", 0xa2, 4, 0, false, GasClass::Complex, OpCategory::Log, Fork::Frontier)),
        0xa3 => Some(entry("LOG3", 0xa3, 5, 0, false, GasClass::Complex, OpCategory::Log, Fork::Frontier)),
        0xa4 => Some(entry("LOG4", 0xa4, 6, 0, false, GasClass::Complex, OpCategory::Log, Fork::Frontier)),
        0xf0 => Some(entry("CREATE", 0xf0, 3, 1, false, GasClass::Complex, OpCategory::Call, Fork::Frontier)),
        0xf1 => Some(entry("CALL", 0xf1, 7, 1, false, GasClass::Complex, OpCategory::Call, Fork::Frontier)),
        0xf2 => Some(entry("CALLCODE", 0xf2, 7, 1, false, GasClass::Complex, OpCategory::Call, Fork::Frontier)),
        0xf3 => Some(entry("RETURN", 0xf3, 2, 0, true, GasClass::Zero, OpCategory::Terminating, Fork::Frontier)),
        0xf4 => Some(entry("DELEGATECALL", 0xf4, 6, 1, false, GasClass::Complex, OpCategory::Call, Fork::Homestead)),
        0xf5 => Some(entry("CREATE2", 0xf5, 4, 1, false, GasClass::Complex, OpCategory::Call, Fork::Constantinople)),
        0xfa => Some(entry("STATICCALL", 0xfa, 6, 1, false, GasClass::Complex, OpCategory::Call, Fork::Byzantium)),
        0xfd => Some(entry("REVERT", 0xfd, 2, 0, true, GasClass::Zero, OpCategory::Terminating, Fork::Byzantium)),
        0xfe => Some(entry("INVALID", 0xfe, 0, 0, true, GasClass::All, OpCategory::Terminating, Fork::Frontier)),
        0xff => Some(entry("SELFDESTRUCT", 0xff, 1, 0, true, GasClass::Complex, OpCategory::Terminating, Fork::Frontier)),
        x if 0x60 <= x && x <= 0x7f => Some(
            entry(
                push_name(b),
                b,
                0,
                1,
                false,
                GasClass::Fixed(3),
                OpCategory::StackManip,
                Fork::Frontier,
            ),
        ),
        x if 0x80 <= x && x <= 0x8f => Some(
            entry(
                dup_name(b),
                b,
                (b - 0x7f) as u8,
                (b - 0x7e) as u8,
                false,
                GasClass::Fixed(3),
                OpCategory::StackManip,
                Fork::Frontier,
            ),
        ),
        x if 0x90 <= x && x <= 0x9f => Some(
            entry(
                swap_name(b),
                b,
                (b - 0x8e) as u8,
                (b - 0x8e) as u8,
                false,
                GasClass::Fixed(3),
                OpCategory::StackManip,
                Fork::Frontier,
            ),
        ),
        _ => None,
    }
}

/// The table entry for byte `b`, computed.
pub fn table_entry(b: u8) -> (r: Option<OpSpec>)
    ensures
        r == spec_by_byte(b),
{
    match b {
        0x00 => Some(make_entry("STOP", 0x00, 0, 0, true, GasClass::Zero, OpCategory::Terminating, Fork::Frontier)),
        0x01 => Some(make_entry("ADD", 0x01, 2, 1, false, GasClass::Fixed(3), OpCategory::Arithmetic, Fork::Frontier)),
        0x02 => Some(make_entry("MUL", 0x02, 2, 1, false, GasClass::Fixed(5), OpCategory::Arithmetic, Fork::Frontier)),
        0x03 => Some(make_entry("SUB", 0x03, 2, 1, false, GasClass::Fixed(3), OpCategory::Arithmetic, Fork::Frontier)),
        0x04 => Some(make_entry("DIV", 0x04, 2, 1, false, GasClass::Fixed(5), OpCategory::Arithmetic, Fork::Frontier)),
        0x05 => Some(make_entry("SDIV", 0x05, 2, 1, false, GasClass::Fixed(5), OpCategory::Arithmetic, Fork::Frontier)),
        0x06 => Some(make_entry("MOD", 0x06, 2, 1, false, GasClass::Fixed(5), OpCategory::Arithmetic, Fork::Frontier)),
        0x07 => Some(make_entry("SMOD", 0x07, 2, 1, false, GasClass::Fixed(5), OpCategory::Arithmetic, Fork::Frontier)),
        0x08 => Some(make_entry("ADDMOD", 0x08, 3, 1, false, GasClass::Fixed(8), OpCategory::Arithmetic, Fork::Frontier)),
        0x09 => Some(make_entry("MULMOD", 0x09, 3, 1, false, GasClass::Fixed(8), OpCategory::Arithmetic, Fork::Frontier)),
        0x0a => Some(make_entry("EXP", 0x0a, 2, 1, false, GasClass::PerByteOfExponent(50), OpCategory::Arithmetic, Fork::Frontier)),
        0x0b => Some(make_entry("SIGNEXTEND", 0x0b, 2, 1, false, GasClass::Fixed(5), OpCategory::Arithmetic, Fork::Frontier)),
        0x10 => Some(make_entry("LT", 0x10, 2, 1, false, GasClass::Fixed(3), OpCategory::Comparison, Fork::Frontier)),
        0x11 => Some(make_entry("GT", 0x11, 2, 1, false, GasClass::Fixed(3), OpCategory::Comparison, Fork::Frontier)),
        0x12 => Some(make_entry("SLT", 0x12, 2, 1, false, GasClass::Fixed(3), OpCategory::Comparison, Fork::Frontier)),
        0x13 => Some(make_entry("SGT", 0x13, 2, 1, false, GasClass::Fixed(3), OpCategory::Comparison, Fork::Frontier)),
        0x14 => Some(make_entry("EQ", 0x14, 2, 1, false, GasClass::Fixed(3), OpCategory::Comparison, Fork::Frontier)),
        0x15 => Some(make_entry("ISZERO", 0x15, 1, 1, false, GasClass::Fixed(3), OpCategory::Comparison, Fork::Frontier)),
        0x16 => Some(make_entry("AND", 0x16, 2, 1, false, GasClass::Fixed(3), OpCategory::Bitwise, Fork::Frontier)),
        0x17 => Some(make_entry("OR", 0x17, 2, 1, false, GasClass::Fixed(3), OpCategory::Bitwise, Fork::Frontier)),
        0x18 => Some(make_entry("XOR", 0x18, 2, 1, false, GasClass::Fixed(3), OpCategory::Bitwise, Fork::Frontier)),
        0x19 => Some(make_entry("NOT", 0x19, 1, 1, false, GasClass::Fixed(3), OpCategory::Bitwise, Fork::Frontier)),
        0x1a => Some(make_entry("BYTE", 0x1a, 2, 1, false, GasClass::Fixed(3), OpCategory::Bitwise, Fork::Frontier)),
        0x1b => Some(make_entry("SHL", 0x1b, 2, 1, false, GasClass::Fixed(3), OpCategory::Bitwise, Fork::Constantinople)),
        0x1c => Some(make_entry("SHR", 0x1c, 2, 1, false, GasClass::Fixed(3), OpCategory::Bitwise, Fork::Constantinople)),
        0x1d => Some(make_entry("SAR", 0x1d, 2, 1, false, GasClass::Fixed(3), OpCategory::Bitwise, Fork::Constantinople)),
        0x20 => Some(make_entry("KECCAK256", 0x20, 2, 1, false, GasClass::PerWord(6), OpCategory::Memory, Fork::Frontier)),
        0x30 => Some(make_entry("ADDRESS", 0x30, 0, 1, false, GasClass::Fixed(2), OpCategory::Context, Fork::Frontier)),
        0x31 => Some(make_entry("BALANCE", 0x31, 1, 1, false, GasClass::ColdWarm { cold: 2600, warm: 100 }, OpCategory::Context, Fork::Frontier)),
        0x32 => Some(make_entry("ORIGIN", 0x32, 0, 1, false, GasClass::Fixed(2), OpCategory::Context, Fork::Frontier)),
        0x33 => Some(make_entry("CALLER", 0x33, 0, 1, false, GasClass::Fixed(2), OpCategory::Context, Fork::Frontier)),
        0x34 => Some(make_entry("CALLVALUE", 0x34, 0, 1, false, GasClass::Fixed(2), OpCategory::Context, Fork::Frontier)),
        0x35 => Some(make_entry("CALLDATALOAD", 0x35, 1, 1, false, GasClass::Fixed(3), OpCategory::Context, Fork::Frontier)),
        0x36 => Some(make_entry("CALLDATASIZE", 0x36, 0, 1, false, GasClass::Fixed(2), OpCategory::Context, Fork::Frontier)),
        0x37 => Some(make_entry("CALLDATACOPY", 0x37, 3, 0, false, GasClass::PerWord(3), OpCategory::Context, Fork::Frontier)),
        0x38 => Some(make_entry("CODESIZE", 0x38, 0, 1, false, GasClass::Fixed(2), OpCategory::Context, Fork::Frontier)),
        0x39 => Some(make_entry("CODECOPY", 0x39, 3, 0, false, GasClass::PerWord(3), OpCategory::Context, Fork::Frontier)),
        0x3a => Some(make_entry("GASPRICE", 0x3a, 0, 1, false, GasClass::Fixed(2), OpCategory::Context, Fork::Frontier)),
        0x3b => Some(make_entry("EXTCODESIZE", 0x3b, 1, 1, false, GasClass::ColdWarm { cold: 2600, warm: 100 }, OpCategory::Context, Fork::Frontier)),
        0x3c => Some(make_entry("EXTCODECOPY", 0x3c, 4, 0, false, GasClass::Complex, OpCategory::Context, Fork::Frontier)),
        0x3d => Some(make_entry("RETURNDATASIZE", 0x3d, 0, 1, false, GasClass::Fixed(2), OpCategory::Context, Fork::Byzantium)),
        0x3e => Some(make_entry("RETURNDATACOPY", 0x3e, 3, 0, false, GasClass::PerWord(3), OpCategory::Context, Fork::Byzantium)),
        0x3f => Some(make_entry("EXTCODEHASH", 0x3f, 1, 1, false, GasClass::ColdWarm { cold: 2600, warm: 100 }, OpCategory::Context, Fork::Constantinople)),
        0x40 => Some(make_entry("BLOCKHASH", 0x40, 1, 1, false, GasClass::Fixed(20), OpCategory::Block, Fork::Frontier)),
        0x41 => Some(make_entry("COINBASE", 0x41, 0, 1, false, GasClass::Fixed(2), OpCategory::Block, Fork::Frontier)),
        0x42 => Some(make_entry("TIMESTAMP", 0x42, 0, 1, false, GasClass::Fixed(2), OpCategory::Block, Fork::Frontier)),
        0x43 => Some(make_entry("NUMBER", 0x43, 0, 1, false, GasClass::Fixed(2), OpCategory::Block, Fork::Frontier)),
        0x44 => Some(make_entry("PREVRANDAO", 0x44, 0, 1, false, GasClass::Fixed(2), OpCategory::Block, Fork::Frontier)),
        0x45 => Some(make_entry("GASLIMIT", 0x45, 0, 1, false, GasClass::Fixed(2), OpCategory::Block, Fork::Frontier)),
        0x46 => Some(make_entry("CHAINID", 0x46, 0, 1, false, GasClass::Fixed(2), OpCategory::Block, Fork::Istanbul)),
        0x47 => Some(make_entry("SELFBALANCE", 0x47, 0, 1, false, GasClass::Fixed(5), OpCategory::Context, Fork::Istanbul)),
        0x48 => Some(make_entry("BASEFEE", 0x48, 0, 1, false, GasClass::Fixed(2), OpCategory::Block, Fork::London)),
        0x49 => Some(make_entry("BLOBHASH", 0x49, 1, 1, false, GasClass::Fixed(3), OpCategory::Block, Fork::Cancun)),
        0x4a => Some(make_entry("BLOBBASEFEE", 0x4a, 0, 1, false, GasClass::Fixed(2), OpCategory::Block, Fork::Cancun)),
        0x50 => Some(make_entry("POP", 0x50, 1, 0, false, GasClass::Fixed(2), OpCategory::StackManip, Fork::Frontier)),
        0x51 => Some(make_entry("MLOAD", 0x51, 1, 1, false, GasClass::Fixed(3), OpCategory::Memory, Fork::Frontier)),
        0x52 => Some(make_entry("MSTORE", 0x52, 2, 0, false, GasClass::Fixed(3), OpCategory::Memory, Fork::Frontier)),
        0x53 => Some(make_entry("MSTORE8", 0x53, 2, 0, false, GasClass::Fixed(3), OpCategory::Memory, Fork::Frontier)),
        0x54 => Some(make_entry("SLOAD", 0x54, 1, 1, false, GasClass::ColdWarm { cold: 2100, warm: 100 }, OpCategory::Storage, Fork::Frontier)),
        0x55 => Some(make_entry("SSTORE", 0x55, 2, 0, false, GasClass::StorageWrite, OpCategory::Storage, Fork::Frontier)),
        0x56 => Some(make_entry("JUMP", 0x56, 1, 0, false, GasClass::Fixed(8), OpCategory::Control, Fork::Frontier)),
        0x57 => Some(make_entry("JUMPI", 0x57, 2, 0, false, GasClass::Fixed(10), OpCategory::Control, Fork::Frontier)),
        0x58 => Some(make_entry("PC", 0x58, 0, 1, false, GasClass::Fixed(2), OpCategory::Control, Fork::Frontier)),
        0x59 => Some(make_entry("MSIZE", 0x59, 0, 1, false, GasClass::Fixed(2), OpCategory::Memory, Fork::Frontier)),
        0x5a => Some(make_entry("GAS", 0x5a, 0, 1, false, GasClass::Fixed(2), OpCategory::Context, Fork::Frontier)),
        0x5b => Some(make_entry("JUMPDEST", 0x5b, 0, 0, false, GasClass::Fixed(1), OpCategory::Control, Fork::Frontier)),
        0x5c => Some(make_entry("TLOAD", 0x5c, 1, 1, false, GasClass::Fixed(100), OpCategory::Storage, Fork::Cancun)),
        0x5d => Some(make_entry("TSTORE", 0x5d, 2, 0, false, GasClass::Fixed(100), OpCategory::Storage, Fork::Cancun)),
        0x5e => Some(make_entry("MCOPY", 0x5e, 3, 0, false, GasClass::PerWord(3), OpCategory::Memory, Fork::Cancun)),
        0x5f => Some(make_entry("PUSH0", 0x5f, 0, 1, false, GasClass::Fixed(2), OpCategory::StackManip, Fork::Shanghai)),
        0xa0 => Some(make_entry("LOG0", 0xa0, 2, 0, false, GasClass::Complex, OpCategory::Log, Fork::Frontier)),
        0xa1 => Some(make_entry("LOG1", 0xa1, 3, 0, false, GasClass::Complex, OpCategory::Log, Fork::Frontier)),
        0xa2 => Some(make_entry("LOG2", 0xa2, 4, 0, false, GasClass::Complex, OpCategory::Log, Fork::Frontier)),
        0xa3 => Some(make_entry("LOG3", 0xa3, 5, 0, false, GasClass::Complex, OpCategory::Log, Fork::Frontier)),
        0xa4 => Some(make_entry("LOG4", 0xa4, 6, 0, false, GasClass::Complex, OpCategory::Log, Fork::Frontier)),
        0xf0 => Some(make_entry("CREATE", 0xf0, 3, 1, false, GasClass::Complex, OpCategory::Call, Fork::Frontier)),
        0xf1 => Some(make_entry("CALL", 0xf1, 7, 1, false, GasClass::Complex, OpCategory::Call, Fork::Frontier)),
        0xf2 => Some(make_entry("CALLCODE", 0xf2, 7, 1, false, GasClass::Complex, OpCategory::Call, Fork::Frontier)),
        0xf3 => Some(make_entry("RETURN", 0xf3, 2, 0, true, GasClass::Zero, OpCategory::Terminating, Fork::Frontier)),
        0xf4 => Some(make_entry("DELEGATECALL", 0xf4, 6, 1, false, GasClass::Complex, OpCategory::Call, Fork::Homestead)),
        0xf5 => Some(make_entry("CREATE2", 0xf5, 4, 1, false, GasClass::Complex, OpCategory::Call, Fork::Constantinople)),
        0xfa => Some(make_entry("STATICCALL", 0xfa, 6, 1, false, GasClass::Complex, OpCategory::Call, Fork::Byzantium)),
        0xfd => Some(make_entry("REVERT", 0xfd, 2, 0, true, GasClass::Zero, OpCategory::Terminating, Fork::Byzantium)),
        0xfe => Some(make_entry("INVALID", 0xfe, 0, 0, true, GasClass::All, OpCategory::Terminating, Fork::Frontier)),
        0xff => Some(make_entry("SELFDESTRUCT", 0xff, 1, 0, true, GasClass::Complex, OpCategory::Terminating, Fork::Frontier)),
        x if 0x60 <= x && x <= 0x7f => Some(
            make_entry(
                push_mnemonic(b),
                b,
                0,
                1,
                false,
                GasClass::Fixed(3),
                OpCategory::StackManip,
                Fork::Frontier,
            ),
        ),
        x if 0x80 <= x && x <= 0x8f => Some(
            make_entry(
                dup_mnemonic(b),
                b,
                b - 0x7f,
                b - 0x7e,
                false,
                GasClass::Fixed(3),
                OpCategory::StackManip,
                Fork::Frontier,
            ),
        ),
        x if 0x90 <= x && x <= 0x9f => Some(
            make_entry(
                swap_mnemonic(b),
                b,
                b - 0x8e,
                b - 0x8e,
                false,
                GasClass::Fixed(3),
                OpCategory::StackManip,
                Fork::Frontier,
            ),
        ),
        _ => None,
    }
}

/// The byte of the `i`-th entry in listing order.
pub open spec fn byte_at(i: int) -> u8 {
    if i < 12 {
        i as u8
    } else if i < 26 {
        (0x10 + (i - 12)) as u8
    } else if i < 27 {
        0x20
    } else if i < 43 {
        (0x30 + (i - 27)) as u8
    } else if i < 54 {
        (0x40 + (i - 43)) as u8
    } else if i < 134 {
        (0x50 + (i - 54)) as u8
    } else if i < 139 {
        (0xa0 + (i - 134)) as u8
    } else if i < 145 {
        (0xf0 + (i - 139)) as u8
    } else if i == 145 {
        0xfa
    } else if i == 146 {
        0xfd
    } else if i == 147 {
        0xfe
    } else {
        0xff
    }
}

/// The listing position of byte `b`, for a byte the table assigns.
pub open spec fn position_of(b: u8) -> int {
    if b < 0x10 {
        b as int
    } else if b < 0x20 {
        b - 0x10 + 12
    } else if b < 0x30 {
        26
    } else if b < 0x40 {
        b - 0x30 + 27
    } else if b < 0x50 {
        b - 0x40 + 43
    } else if b < 0xa0 {
        b - 0x50 + 54
    } else if b < 0xf0 {
        b - 0xa0 + 134
    } else if b < 0xfa {
        b - 0xf0 + 139
    } else if b == 0xfa {
        145
    } else if b == 0xfd {
        146
    } else if b == 0xfe {
        147
    } else {
        148
    }
}

/// The `i`-th entry in listing order.
pub open spec fn spec_opcode(i: int) -> OpSpec {
    spec_by_byte(byte_at(i))->0
}

pub fn table_byte(i: usize) -> (r: u8)
    requires
        i < OPCODE_COUNT,
    ensures
        r == byte_at(i as int),
{
    if i < 12 {
        i as u8
    } else if i < 26 {
        (0x10 + (i - 12)) as u8
    } else if i < 27 {
        0x20
    } else if i < 43 {
        (0x30 + (i - 27)) as u8
    } else if i < 54 {
        (0x40 + (i - 43)) as u8
    } else if i < 134 {
        (0x50 + (i - 54)) as u8
    } else if i < 139 {
        (0xa0 + (i - 134)) as u8
    } else if i < 145 {
        (0xf0 + (i - 139)) as u8
    } else if i == 145 {
        0xfa
    } else if i == 146 {
        0xfd
    } else if i == 147 {
        0xfe
    } else {
        0xff
    }
}

/// Every listing position names an assigned byte, and the entry there
/// carries that byte.
pub proof fn lemma_listed_entries_exist(i: int)
    requires
        0 <= i < OPCODE_COUNT,
    ensures
        spec_by_byte(byte_at(i)) is Some,
        spec_opcode(i).byte == byte_at(i),
        position_of(byte_at(i)) == i,
{
}

/// Every assigned byte is listed, at [`position_of`] its byte.
pub proof fn lemma_assigned_bytes_are_listed(b: u8)
    requires
        spec_by_byte(b) is Some,
    ensures
        0 <= position_of(b) < OPCODE_COUNT,
        byte_at(position_of(b)) == b,
        spec_by_byte(b)->0.byte == b,
{
}

/// Listing order is strictly ascending byte order.
pub proof fn lemma_listing_is_ascending(i: int, j: int)
    requires
        0 <= i < j < OPCODE_COUNT,
    ensures
        byte_at(i) < byte_at(j),
{
}

} // verus!
