//! The shim's bytecode emitter.
//!
//! [`Emitter`] accumulates opcodes and their operands into a raw bytecode
//! buffer. Jump destinations are absolute byte offsets, and the size of the
//! code is not known until emission ends, so every jump is emitted as
//! `PUSH2 00 00` followed by `JUMP`/`JUMPI`, recorded as a pending patch, and
//! fixed up by [`Emitter::finish`].
//!
//! The stack discipline is the EVM's: the top of the stack is the last thing
//! pushed, so a binary operation pushes its right operand first.

use std::collections::HashMap;

use vstd::prelude::*;

use vstd::std_specs::convert::FromSpecImpl;

use vstd::arithmetic::power2::pow2;

use crate::assembler::{first_nonzero_from, lemma_first_nonzero_bounds, u128_word, word_width};
use crate::ir::repr::{bit_and, bit_or, bit_xor, word_modulus};
use crate::isa::table::spec_by_byte;

verus! {

broadcast use vstd::std_specs::hash::group_hash_axioms;

/// EVM opcode byte values (Prague / EIP-7702 instruction set).
///
/// Only opcodes the lowering refers to are listed; add more as needed.
/// [`Opcode::byte`] gives each one's byte.
#[derive(Clone, Copy, Debug, PartialEq, Eq, Structural)]
#[allow(non_camel_case_types)]
pub enum Opcode {
    STOP,
    ADD,
    MUL,
    SUB,
    DIV,
    SDIV,
    MOD,
    SMOD,
    ADDMOD,
    MULMOD,
    EXP,
    SIGNEXTEND,
    LT,
    GT,
    SLT,
    SGT,
    EQ,
    ISZERO,
    AND,
    OR,
    XOR,
    NOT,
    BYTE,
    SHL,
    SHR,
    SAR,
    KECCAK256,
    ADDRESS,
    BALANCE,
    ORIGIN,
    CALLER,
    CALLVALUE,
    CALLDATALOAD,
    CALLDATASIZE,
    CALLDATACOPY,
    CODESIZE,
    CODECOPY,
    GASPRICE,
    EXTCODESIZE,
    EXTCODECOPY,
    RETURNDATASIZE,
    RETURNDATACOPY,
    EXTCODEHASH,
    BLOCKHASH,
    COINBASE,
    TIMESTAMP,
    NUMBER,
    PREVRANDAO,
    GASLIMIT,
    CHAINID,
    SELFBALANCE,
    BASEFEE,
    BLOBHASH,
    BLOBBASEFEE,
    POP,
    MLOAD,
    MSTORE,
    MSTORE8,
    SLOAD,
    SSTORE,
    JUMP,
    JUMPI,
    PC,
    MSIZE,
    GAS,
    JUMPDEST,
    TLOAD,
    TSTORE,
    MCOPY,
    PUSH0,
    PUSH1,
    PUSH2,
    PUSH3,
    PUSH4,
    PUSH5,
    PUSH6,
    PUSH7,
    PUSH8,
    PUSH9,
    PUSH10,
    PUSH11,
    PUSH12,
    PUSH13,
    PUSH14,
    PUSH15,
    PUSH16,
    PUSH17,
    PUSH18,
    PUSH19,
    PUSH20,
    PUSH21,
    PUSH22,
    PUSH23,
    PUSH24,
    PUSH25,
    PUSH26,
    PUSH27,
    PUSH28,
    PUSH29,
    PUSH30,
    PUSH31,
    PUSH32,
    DUP1,
    DUP2,
    DUP3,
    DUP4,
    DUP5,
    DUP6,
    DUP7,
    DUP8,
    DUP9,
    DUP10,
    DUP11,
    DUP12,
    DUP13,
    DUP14,
    DUP15,
    DUP16,
    SWAP1,
    SWAP2,
    SWAP3,
    SWAP4,
    SWAP5,
    SWAP6,
    SWAP7,
    SWAP8,
    SWAP9,
    SWAP10,
    SWAP11,
    SWAP12,
    SWAP13,
    SWAP14,
    SWAP15,
    SWAP16,
    LOG0,
    LOG1,
    LOG2,
    LOG3,
    LOG4,
    CREATE,
    CALL,
    CALLCODE,
    RETURN,
    DELEGATECALL,
    CREATE2,
    STATICCALL,
    REVERT,
    INVALID,
    SELFDESTRUCT,
}

/// The byte an opcode is encoded as.
pub open spec fn opcode_byte(o: Opcode) -> u8 {
    match o {
        Opcode::STOP => 0x00,
        Opcode::ADD => 0x01,
        Opcode::MUL => 0x02,
        Opcode::SUB => 0x03,
        Opcode::DIV => 0x04,
        Opcode::SDIV => 0x05,
        Opcode::MOD => 0x06,
        Opcode::SMOD => 0x07,
        Opcode::ADDMOD => 0x08,
        Opcode::MULMOD => 0x09,
        Opcode::EXP => 0x0a,
        Opcode::SIGNEXTEND => 0x0b,
        Opcode::LT => 0x10,
        Opcode::GT => 0x11,
        Opcode::SLT => 0x12,
        Opcode::SGT => 0x13,
        Opcode::EQ => 0x14,
        Opcode::ISZERO => 0x15,
        Opcode::AND => 0x16,
        Opcode::OR => 0x17,
        Opcode::XOR => 0x18,
        Opcode::NOT => 0x19,
        Opcode::BYTE => 0x1a,
        Opcode::SHL => 0x1b,
        Opcode::SHR => 0x1c,
        Opcode::SAR => 0x1d,
        Opcode::KECCAK256 => 0x20,
        Opcode::ADDRESS => 0x30,
        Opcode::BALANCE => 0x31,
        Opcode::ORIGIN => 0x32,
        Opcode::CALLER => 0x33,
        Opcode::CALLVALUE => 0x34,
        Opcode::CALLDATALOAD => 0x35,
        Opcode::CALLDATASIZE => 0x36,
        Opcode::CALLDATACOPY => 0x37,
        Opcode::CODESIZE => 0x38,
        Opcode::CODECOPY => 0x39,
        Opcode::GASPRICE => 0x3a,
        Opcode::EXTCODESIZE => 0x3b,
        Opcode::EXTCODECOPY => 0x3c,
        Opcode::RETURNDATASIZE => 0x3d,
        Opcode::RETURNDATACOPY => 0x3e,
        Opcode::EXTCODEHASH => 0x3f,
        Opcode::BLOCKHASH => 0x40,
        Opcode::COINBASE => 0x41,
        Opcode::TIMESTAMP => 0x42,
        Opcode::NUMBER => 0x43,
        Opcode::PREVRANDAO => 0x44,
        Opcode::GASLIMIT => 0x45,
        Opcode::CHAINID => 0x46,
        Opcode::SELFBALANCE => 0x47,
        Opcode::BASEFEE => 0x48,
        Opcode::BLOBHASH => 0x49,
        Opcode::BLOBBASEFEE => 0x4a,
        Opcode::POP => 0x50,
        Opcode::MLOAD => 0x51,
        Opcode::MSTORE => 0x52,
        Opcode::MSTORE8 => 0x53,
        Opcode::SLOAD => 0x54,
        Opcode::SSTORE => 0x55,
        Opcode::JUMP => 0x56,
        Opcode::JUMPI => 0x57,
        Opcode::PC => 0x58,
        Opcode::MSIZE => 0x59,
        Opcode::GAS => 0x5a,
        Opcode::JUMPDEST => 0x5b,
        Opcode::TLOAD => 0x5c,
        Opcode::TSTORE => 0x5d,
        Opcode::MCOPY => 0x5e,
        Opcode::PUSH0 => 0x5f,
        Opcode::PUSH1 => 0x60,
        Opcode::PUSH2 => 0x61,
        Opcode::PUSH3 => 0x62,
        Opcode::PUSH4 => 0x63,
        Opcode::PUSH5 => 0x64,
        Opcode::PUSH6 => 0x65,
        Opcode::PUSH7 => 0x66,
        Opcode::PUSH8 => 0x67,
        Opcode::PUSH9 => 0x68,
        Opcode::PUSH10 => 0x69,
        Opcode::PUSH11 => 0x6a,
        Opcode::PUSH12 => 0x6b,
        Opcode::PUSH13 => 0x6c,
        Opcode::PUSH14 => 0x6d,
        Opcode::PUSH15 => 0x6e,
        Opcode::PUSH16 => 0x6f,
        Opcode::PUSH17 => 0x70,
        Opcode::PUSH18 => 0x71,
        Opcode::PUSH19 => 0x72,
        Opcode::PUSH20 => 0x73,
        Opcode::PUSH21 => 0x74,
        Opcode::PUSH22 => 0x75,
        Opcode::PUSH23 => 0x76,
        Opcode::PUSH24 => 0x77,
        Opcode::PUSH25 => 0x78,
        Opcode::PUSH26 => 0x79,
        Opcode::PUSH27 => 0x7a,
        Opcode::PUSH28 => 0x7b,
        Opcode::PUSH29 => 0x7c,
        Opcode::PUSH30 => 0x7d,
        Opcode::PUSH31 => 0x7e,
        Opcode::PUSH32 => 0x7f,
        Opcode::DUP1 => 0x80,
        Opcode::DUP2 => 0x81,
        Opcode::DUP3 => 0x82,
        Opcode::DUP4 => 0x83,
        Opcode::DUP5 => 0x84,
        Opcode::DUP6 => 0x85,
        Opcode::DUP7 => 0x86,
        Opcode::DUP8 => 0x87,
        Opcode::DUP9 => 0x88,
        Opcode::DUP10 => 0x89,
        Opcode::DUP11 => 0x8a,
        Opcode::DUP12 => 0x8b,
        Opcode::DUP13 => 0x8c,
        Opcode::DUP14 => 0x8d,
        Opcode::DUP15 => 0x8e,
        Opcode::DUP16 => 0x8f,
        Opcode::SWAP1 => 0x90,
        Opcode::SWAP2 => 0x91,
        Opcode::SWAP3 => 0x92,
        Opcode::SWAP4 => 0x93,
        Opcode::SWAP5 => 0x94,
        Opcode::SWAP6 => 0x95,
        Opcode::SWAP7 => 0x96,
        Opcode::SWAP8 => 0x97,
        Opcode::SWAP9 => 0x98,
        Opcode::SWAP10 => 0x99,
        Opcode::SWAP11 => 0x9a,
        Opcode::SWAP12 => 0x9b,
        Opcode::SWAP13 => 0x9c,
        Opcode::SWAP14 => 0x9d,
        Opcode::SWAP15 => 0x9e,
        Opcode::SWAP16 => 0x9f,
        Opcode::LOG0 => 0xa0,
        Opcode::LOG1 => 0xa1,
        Opcode::LOG2 => 0xa2,
        Opcode::LOG3 => 0xa3,
        Opcode::LOG4 => 0xa4,
        Opcode::CREATE => 0xf0,
        Opcode::CALL => 0xf1,
        Opcode::CALLCODE => 0xf2,
        Opcode::RETURN => 0xf3,
        Opcode::DELEGATECALL => 0xf4,
        Opcode::CREATE2 => 0xf5,
        Opcode::STATICCALL => 0xfa,
        Opcode::REVERT => 0xfd,
        Opcode::INVALID => 0xfe,
        Opcode::SELFDESTRUCT => 0xff,
    }
}

impl Opcode {
    /// The byte this opcode is encoded as.
    pub fn byte(self) -> (r: u8)
        ensures
            r == opcode_byte(self),
    {
        match self {
            Opcode::STOP => 0x00,
            Opcode::ADD => 0x01,
            Opcode::MUL => 0x02,
            Opcode::SUB => 0x03,
            Opcode::DIV => 0x04,
            Opcode::SDIV => 0x05,
            Opcode::MOD => 0x06,
            Opcode::SMOD => 0x07,
            Opcode::ADDMOD => 0x08,
            Opcode::MULMOD => 0x09,
            Opcode::EXP => 0x0a,
            Opcode::SIGNEXTEND => 0x0b,
            Opcode::LT => 0x10,
            Opcode::GT => 0x11,
            Opcode::SLT => 0x12,
            Opcode::SGT => 0x13,
            Opcode::EQ => 0x14,
            Opcode::ISZERO => 0x15,
            Opcode::AND => 0x16,
            Opcode::OR => 0x17,
            Opcode::XOR => 0x18,
            Opcode::NOT => 0x19,
            Opcode::BYTE => 0x1a,
            Opcode::SHL => 0x1b,
            Opcode::SHR => 0x1c,
            Opcode::SAR => 0x1d,
            Opcode::KECCAK256 => 0x20,
            Opcode::ADDRESS => 0x30,
            Opcode::BALANCE => 0x31,
            Opcode::ORIGIN => 0x32,
            Opcode::CALLER => 0x33,
            Opcode::CALLVALUE => 0x34,
            Opcode::CALLDATALOAD => 0x35,
            Opcode::CALLDATASIZE => 0x36,
            Opcode::CALLDATACOPY => 0x37,
            Opcode::CODESIZE => 0x38,
            Opcode::CODECOPY => 0x39,
            Opcode::GASPRICE => 0x3a,
            Opcode::EXTCODESIZE => 0x3b,
            Opcode::EXTCODECOPY => 0x3c,
            Opcode::RETURNDATASIZE => 0x3d,
            Opcode::RETURNDATACOPY => 0x3e,
            Opcode::EXTCODEHASH => 0x3f,
            Opcode::BLOCKHASH => 0x40,
            Opcode::COINBASE => 0x41,
            Opcode::TIMESTAMP => 0x42,
            Opcode::NUMBER => 0x43,
            Opcode::PREVRANDAO => 0x44,
            Opcode::GASLIMIT => 0x45,
            Opcode::CHAINID => 0x46,
            Opcode::SELFBALANCE => 0x47,
            Opcode::BASEFEE => 0x48,
            Opcode::BLOBHASH => 0x49,
            Opcode::BLOBBASEFEE => 0x4a,
            Opcode::POP => 0x50,
            Opcode::MLOAD => 0x51,
            Opcode::MSTORE => 0x52,
            Opcode::MSTORE8 => 0x53,
            Opcode::SLOAD => 0x54,
            Opcode::SSTORE => 0x55,
            Opcode::JUMP => 0x56,
            Opcode::JUMPI => 0x57,
            Opcode::PC => 0x58,
            Opcode::MSIZE => 0x59,
            Opcode::GAS => 0x5a,
            Opcode::JUMPDEST => 0x5b,
            Opcode::TLOAD => 0x5c,
            Opcode::TSTORE => 0x5d,
            Opcode::MCOPY => 0x5e,
            Opcode::PUSH0 => 0x5f,
            Opcode::PUSH1 => 0x60,
            Opcode::PUSH2 => 0x61,
            Opcode::PUSH3 => 0x62,
            Opcode::PUSH4 => 0x63,
            Opcode::PUSH5 => 0x64,
            Opcode::PUSH6 => 0x65,
            Opcode::PUSH7 => 0x66,
            Opcode::PUSH8 => 0x67,
            Opcode::PUSH9 => 0x68,
            Opcode::PUSH10 => 0x69,
            Opcode::PUSH11 => 0x6a,
            Opcode::PUSH12 => 0x6b,
            Opcode::PUSH13 => 0x6c,
            Opcode::PUSH14 => 0x6d,
            Opcode::PUSH15 => 0x6e,
            Opcode::PUSH16 => 0x6f,
            Opcode::PUSH17 => 0x70,
            Opcode::PUSH18 => 0x71,
            Opcode::PUSH19 => 0x72,
            Opcode::PUSH20 => 0x73,
            Opcode::PUSH21 => 0x74,
            Opcode::PUSH22 => 0x75,
            Opcode::PUSH23 => 0x76,
            Opcode::PUSH24 => 0x77,
            Opcode::PUSH25 => 0x78,
            Opcode::PUSH26 => 0x79,
            Opcode::PUSH27 => 0x7a,
            Opcode::PUSH28 => 0x7b,
            Opcode::PUSH29 => 0x7c,
            Opcode::PUSH30 => 0x7d,
            Opcode::PUSH31 => 0x7e,
            Opcode::PUSH32 => 0x7f,
            Opcode::DUP1 => 0x80,
            Opcode::DUP2 => 0x81,
            Opcode::DUP3 => 0x82,
            Opcode::DUP4 => 0x83,
            Opcode::DUP5 => 0x84,
            Opcode::DUP6 => 0x85,
            Opcode::DUP7 => 0x86,
            Opcode::DUP8 => 0x87,
            Opcode::DUP9 => 0x88,
            Opcode::DUP10 => 0x89,
            Opcode::DUP11 => 0x8a,
            Opcode::DUP12 => 0x8b,
            Opcode::DUP13 => 0x8c,
            Opcode::DUP14 => 0x8d,
            Opcode::DUP15 => 0x8e,
            Opcode::DUP16 => 0x8f,
            Opcode::SWAP1 => 0x90,
            Opcode::SWAP2 => 0x91,
            Opcode::SWAP3 => 0x92,
            Opcode::SWAP4 => 0x93,
            Opcode::SWAP5 => 0x94,
            Opcode::SWAP6 => 0x95,
            Opcode::SWAP7 => 0x96,
            Opcode::SWAP8 => 0x97,
            Opcode::SWAP9 => 0x98,
            Opcode::SWAP10 => 0x99,
            Opcode::SWAP11 => 0x9a,
            Opcode::SWAP12 => 0x9b,
            Opcode::SWAP13 => 0x9c,
            Opcode::SWAP14 => 0x9d,
            Opcode::SWAP15 => 0x9e,
            Opcode::SWAP16 => 0x9f,
            Opcode::LOG0 => 0xa0,
            Opcode::LOG1 => 0xa1,
            Opcode::LOG2 => 0xa2,
            Opcode::LOG3 => 0xa3,
            Opcode::LOG4 => 0xa4,
            Opcode::CREATE => 0xf0,
            Opcode::CALL => 0xf1,
            Opcode::CALLCODE => 0xf2,
            Opcode::RETURN => 0xf3,
            Opcode::DELEGATECALL => 0xf4,
            Opcode::CREATE2 => 0xf5,
            Opcode::STATICCALL => 0xfa,
            Opcode::REVERT => 0xfd,
            Opcode::INVALID => 0xfe,
            Opcode::SELFDESTRUCT => 0xff,
        }
    }
}

/// The mnemonic an opcode goes by: its variant's name.
pub open spec fn opcode_mnemonic(o: Opcode) -> &'static str {
    match o {
        Opcode::STOP => "STOP",
        Opcode::ADD => "ADD",
        Opcode::MUL => "MUL",
        Opcode::SUB => "SUB",
        Opcode::DIV => "DIV",
        Opcode::SDIV => "SDIV",
        Opcode::MOD => "MOD",
        Opcode::SMOD => "SMOD",
        Opcode::ADDMOD => "ADDMOD",
        Opcode::MULMOD => "MULMOD",
        Opcode::EXP => "EXP",
        Opcode::SIGNEXTEND => "SIGNEXTEND",
        Opcode::LT => "LT",
        Opcode::GT => "GT",
        Opcode::SLT => "SLT",
        Opcode::SGT => "SGT",
        Opcode::EQ => "EQ",
        Opcode::ISZERO => "ISZERO",
        Opcode::AND => "AND",
        Opcode::OR => "OR",
        Opcode::XOR => "XOR",
        Opcode::NOT => "NOT",
        Opcode::BYTE => "BYTE",
        Opcode::SHL => "SHL",
        Opcode::SHR => "SHR",
        Opcode::SAR => "SAR",
        Opcode::KECCAK256 => "KECCAK256",
        Opcode::ADDRESS => "ADDRESS",
        Opcode::BALANCE => "BALANCE",
        Opcode::ORIGIN => "ORIGIN",
        Opcode::CALLER => "CALLER",
        Opcode::CALLVALUE => "CALLVALUE",
        Opcode::CALLDATALOAD => "CALLDATALOAD",
        Opcode::CALLDATASIZE => "CALLDATASIZE",
        Opcode::CALLDATACOPY => "CALLDATACOPY",
        Opcode::CODESIZE => "CODESIZE",
        Opcode::CODECOPY => "CODECOPY",
        Opcode::GASPRICE => "GASPRICE",
        Opcode::EXTCODESIZE => "EXTCODESIZE",
        Opcode::EXTCODECOPY => "EXTCODECOPY",
        Opcode::RETURNDATASIZE => "RETURNDATASIZE",
        Opcode::RETURNDATACOPY => "RETURNDATACOPY",
        Opcode::EXTCODEHASH => "EXTCODEHASH",
        Opcode::BLOCKHASH => "BLOCKHASH",
        Opcode::COINBASE => "COINBASE",
        Opcode::TIMESTAMP => "TIMESTAMP",
        Opcode::NUMBER => "NUMBER",
        Opcode::PREVRANDAO => "PREVRANDAO",
        Opcode::GASLIMIT => "GASLIMIT",
        Opcode::CHAINID => "CHAINID",
        Opcode::SELFBALANCE => "SELFBALANCE",
        Opcode::BASEFEE => "BASEFEE",
        Opcode::BLOBHASH => "BLOBHASH",
        Opcode::BLOBBASEFEE => "BLOBBASEFEE",
        Opcode::POP => "POP",
        Opcode::MLOAD => "MLOAD",
        Opcode::MSTORE => "MSTORE",
        Opcode::MSTORE8 => "MSTORE8",
        Opcode::SLOAD => "SLOAD",
        Opcode::SSTORE => "SSTORE",
        Opcode::JUMP => "JUMP",
        Opcode::JUMPI => "JUMPI",
        Opcode::PC => "PC",
        Opcode::MSIZE => "MSIZE",
        Opcode::GAS => "GAS",
        Opcode::JUMPDEST => "JUMPDEST",
        Opcode::TLOAD => "TLOAD",
        Opcode::TSTORE => "TSTORE",
        Opcode::MCOPY => "MCOPY",
        Opcode::PUSH0 => "PUSH0",
        Opcode::PUSH1 => "PUSH1",
        Opcode::PUSH2 => "PUSH2",
        Opcode::PUSH3 => "PUSH3",
        Opcode::PUSH4 => "PUSH4",
        Opcode::PUSH5 => "PUSH5",
        Opcode::PUSH6 => "PUSH6",
        Opcode::PUSH7 => "PUSH7",
        Opcode::PUSH8 => "PUSH8",
        Opcode::PUSH9 => "PUSH9",
        Opcode::PUSH10 => "PUSH10",
        Opcode::PUSH11 => "PUSH11",
        Opcode::PUSH12 => "PUSH12",
        Opcode::PUSH13 => "PUSH13",
        Opcode::PUSH14 => "PUSH14",
        Opcode::PUSH15 => "PUSH15",
        Opcode::PUSH16 => "PUSH16",
        Opcode::PUSH17 => "PUSH17",
        Opcode::PUSH18 => "PUSH18",
        Opcode::PUSH19 => "PUSH19",
        Opcode::PUSH20 => "PUSH20",
        Opcode::PUSH21 => "PUSH21",
        Opcode::PUSH22 => "PUSH22",
        Opcode::PUSH23 => "PUSH23",
        Opcode::PUSH24 => "PUSH24",
        Opcode::PUSH25 => "PUSH25",
        Opcode::PUSH26 => "PUSH26",
        Opcode::PUSH27 => "PUSH27",
        Opcode::PUSH28 => "PUSH28",
        Opcode::PUSH29 => "PUSH29",
        Opcode::PUSH30 => "PUSH30",
        Opcode::PUSH31 => "PUSH31",
        Opcode::PUSH32 => "PUSH32",
        Opcode::DUP1 => "DUP1",
        Opcode::DUP2 => "DUP2",
        Opcode::DUP3 => "DUP3",
        Opcode::DUP4 => "DUP4",
        Opcode::DUP5 => "DUP5",
        Opcode::DUP6 => "DUP6",
        Opcode::DUP7 => "DUP7",
        Opcode::DUP8 => "DUP8",
        Opcode::DUP9 => "DUP9",
        Opcode::DUP10 => "DUP10",
        Opcode::DUP11 => "DUP11",
        Opcode::DUP12 => "DUP12",
        Opcode::DUP13 => "DUP13",
        Opcode::DUP14 => "DUP14",
        Opcode::DUP15 => "DUP15",
        Opcode::DUP16 => "DUP16",
        Opcode::SWAP1 => "SWAP1",
        Opcode::SWAP2 => "SWAP2",
        Opcode::SWAP3 => "SWAP3",
        Opcode::SWAP4 => "SWAP4",
        Opcode::SWAP5 => "SWAP5",
        Opcode::SWAP6 => "SWAP6",
        Opcode::SWAP7 => "SWAP7",
        Opcode::SWAP8 => "SWAP8",
        Opcode::SWAP9 => "SWAP9",
        Opcode::SWAP10 => "SWAP10",
        Opcode::SWAP11 => "SWAP11",
        Opcode::SWAP12 => "SWAP12",
        Opcode::SWAP13 => "SWAP13",
        Opcode::SWAP14 => "SWAP14",
        Opcode::SWAP15 => "SWAP15",
        Opcode::SWAP16 => "SWAP16",
        Opcode::LOG0 => "LOG0",
        Opcode::LOG1 => "LOG1",
        Opcode::LOG2 => "LOG2",
        Opcode::LOG3 => "LOG3",
        Opcode::LOG4 => "LOG4",
        Opcode::CREATE => "CREATE",
        Opcode::CALL => "CALL",
        Opcode::CALLCODE => "CALLCODE",
        Opcode::RETURN => "RETURN",
        Opcode::DELEGATECALL => "DELEGATECALL",
        Opcode::CREATE2 => "CREATE2",
        Opcode::STATICCALL => "STATICCALL",
        Opcode::REVERT => "REVERT",
        Opcode::INVALID => "INVALID",
        Opcode::SELFDESTRUCT => "SELFDESTRUCT",
    }
}

/// The emitter restates nothing the instruction table does not say: every
/// [`Opcode`] encodes as the byte of the table entry with its mnemonic.
pub proof fn lemma_opcodes_are_in_the_table(o: Opcode)
    ensures
        spec_by_byte(opcode_byte(o)) is Some,
        spec_by_byte(opcode_byte(o))->0.mnemonic == opcode_mnemonic(o),
{
}

/// What a two-operand arithmetic, comparison, bitwise or shift opcode leaves
/// on the stack, by opcode byte, given the word on top of the stack and the
/// word under it. Arithmetic wraps at 2^256; `DIV` and `MOD` by zero give
/// zero; a shift takes its amount from the top. Other bytes give zero.
pub open spec fn binary_result(byte: u8, top: nat, next: nat) -> int {
    if byte == 0x01 {
        (top + next) as int % word_modulus()
    } else if byte == 0x02 {
        (top * next) as int % word_modulus()
    } else if byte == 0x03 {
        (top - next) % word_modulus()
    } else if byte == 0x04 {
        if next == 0 { 0 } else { (top / next) as int }
    } else if byte == 0x06 {
        if next == 0 { 0 } else { (top % next) as int }
    } else if byte == 0x10 {
        if top < next { 1 } else { 0 }
    } else if byte == 0x11 {
        if top > next { 1 } else { 0 }
    } else if byte == 0x14 {
        if top == next { 1 } else { 0 }
    } else if byte == 0x16 {
        bit_and(top, next) as int
    } else if byte == 0x17 {
        bit_or(top, next) as int
    } else if byte == 0x18 {
        bit_xor(top, next) as int
    } else if byte == 0x1b {
        (next * pow2(top)) as int % word_modulus()
    } else if byte == 0x1c {
        (next / pow2(top)) as int
    } else {
        0
    }
}

/// A 256-bit unsigned integer, big-endian.
#[derive(Clone, Copy, Debug, PartialEq, Eq)]
pub struct U256([u8; 32]);

impl View for U256 {
    type V = Seq<u8>;

    /// The 32 big-endian bytes.
    closed spec fn view(&self) -> Seq<u8> {
        self.0@
    }
}

/// Two words with the same bytes are the same word.
proof fn lemma_view_determines(a: U256, b: U256)
    requires
        a@ == b@,
    ensures
        a == b,
{
    assert forall|i: int| 0 <= i < 32 implies a.0[i] == b.0[i] by {
        assert(a.0@[i] == b.0@[i]);
    }
    assert(a.0 =~= b.0);
}

/// The word holding `v`.
pub(crate) fn word_of(v: u128) -> (r: U256)
    ensures
        r@ == u128_word(v),
{
    let w: [u8; 32] = [
        0u8, 0u8, 0u8, 0u8, 0u8, 0u8, 0u8, 0u8, 0u8, 0u8, 0u8, 0u8, 0u8, 0u8, 0u8, 0u8,
        (v >> 120u128) as u8, (v >> 112u128) as u8, (v >> 104u128) as u8, (v >> 96u128) as u8,
        (v >> 88u128) as u8, (v >> 80u128) as u8, (v >> 72u128) as u8, (v >> 64u128) as u8,
        (v >> 56u128) as u8, (v >> 48u128) as u8, (v >> 40u128) as u8, (v >> 32u128) as u8,
        (v >> 24u128) as u8, (v >> 16u128) as u8, (v >> 8u128) as u8, v as u8,
    ];
    let r = U256(w);
    assert(r@ =~= u128_word(v));
    r
}

impl Default for U256 {
    /// Zero.
    fn default() -> (r: U256)
        ensures
            r@ == u128_word(0),
    {
        word_of(0)
    }
}

impl From<u8> for U256 {
    fn from(v: u8) -> (r: U256) {
        let r = word_of(v as u128);
        proof {
            lemma_view_determines(r, choose|c: U256| c@ == u128_word(v as u128));
        }
        r
    }
}

impl FromSpecImpl<u8> for U256 {
    open spec fn obeys_from_spec() -> bool {
        true
    }

    /// The word holding `v`.
    open spec fn from_spec(v: u8) -> U256 {
        choose|r: U256| r@ == u128_word(v as u128)
    }
}

impl From<u64> for U256 {
    fn from(v: u64) -> (r: U256) {
        let r = word_of(v as u128);
        proof {
            lemma_view_determines(r, choose|c: U256| c@ == u128_word(v as u128));
        }
        r
    }
}

impl FromSpecImpl<u64> for U256 {
    open spec fn obeys_from_spec() -> bool {
        true
    }

    /// The word holding `v`.
    open spec fn from_spec(v: u64) -> U256 {
        choose|r: U256| r@ == u128_word(v as u128)
    }
}

impl From<u128> for U256 {
    fn from(v: u128) -> (r: U256) {
        let r = word_of(v);
        proof {
            lemma_view_determines(r, choose|c: U256| c@ == u128_word(v));
        }
        r
    }
}

impl FromSpecImpl<u128> for U256 {
    open spec fn obeys_from_spec() -> bool {
        true
    }

    /// The word holding `v`.
    open spec fn from_spec(v: u128) -> U256 {
        choose|r: U256| r@ == u128_word(v)
    }
}

impl U256 {
    /// Significant bytes: the smallest `PUSH` that holds the value, at least
    /// one.
    fn significant_bytes(self) -> (r: usize)
        ensures
            r == if word_width(self@) == 0 {
                1
            } else {
                word_width(self@)
            },
            1 <= r <= 32,
    {
        let mut i: usize = 0;
        proof {
            lemma_first_nonzero(self@, 0);
        }
        while i < 32
            invariant
                i <= 32,
                self@.len() == 32,
                first_nonzero_from(self@, 0) == first_nonzero_from(self@, i as int),
            decreases 32 - i,
        {
            if self.0[i] != 0 {
                return 32 - i;
            }
            i += 1;
        }
        1
    }

    /// Whether every byte is zero.
    fn is_zero(&self) -> (r: bool)
        ensures
            r == (word_width(self@) == 0),
    {
        let mut i: usize = 0;
        while i < 32
            invariant
                i <= 32,
                self@.len() == 32,
                first_nonzero_from(self@, 0) == first_nonzero_from(self@, i as int),
            decreases 32 - i,
        {
            if self.0[i] != 0 {
                return false;
            }
            i += 1;
        }
        true
    }
}

proof fn lemma_first_nonzero(s: Seq<u8>, i: int)
    requires
        0 <= i <= s.len(),
    ensures
        i <= first_nonzero_from(s, i) <= s.len(),
    decreases s.len() - i,
{
    if i < s.len() && s[i] == 0 {
        lemma_first_nonzero(s, i + 1);
    }
}

/// What `PUSH` encodes a word as: `PUSH0` for zero, else the shortest
/// `PUSH<n>` and the word's low `n` bytes.
pub open spec fn push_encoding(w: Seq<u8>) -> Seq<u8> {
    let n = word_width(w);
    if n == 0 {
        seq![0x5fu8]
    } else {
        seq![(0x5f + n) as u8] + w.subrange(32 - n, 32)
    }
}

/// A word is pushed with the narrowest `PUSH`: `PUSH<n>` and `n` immediate
/// bytes, the word's low `n` bytes, where every byte left out is zero and a
/// nonzero immediate starts with a nonzero byte; zero is `PUSH0`.
pub proof fn lemma_push_encoding_is_narrowest(w: Seq<u8>)
    requires
        w.len() == 32,
    ensures
        ({
            let e = push_encoding(w);
            let imm = e.subrange(1, e.len() as int);
            &&& 1 <= e.len() <= 33
            &&& e[0] == 0x5f + imm.len()
            &&& imm == w.subrange(32 - imm.len(), 32)
            &&& forall|j: int| 0 <= j < 32 - imm.len() ==> w[j] == 0
            &&& imm.len() > 0 ==> imm[0] != 0
        }),
{
    lemma_first_nonzero_bounds(w, 0);
    let e = push_encoding(w);
    let imm = e.subrange(1, e.len() as int);
    let n = word_width(w);
    assert(imm =~= w.subrange(32 - n, 32));
}

/// The `PUSH2` a jump is emitted with, before its target is known.
pub open spec fn jump_stub(via: Opcode) -> Seq<u8> {
    seq![0x61u8, 0u8, 0u8, opcode_byte(via)]
}

/// The code with every pending jump from `k` on given its target's offset,
/// big-endian, in the two bytes after its `PUSH2`.
pub open spec fn patch_from(code: Seq<u8>, patches: Seq<(usize, u32)>, marks: Map<u32, usize>, k: int) -> Seq<u8>
    decreases patches.len() - k,
{
    if k < 0 || k >= patches.len() {
        code
    } else {
        let (at, target) = patches[k];
        let dest = marks[target];
        patch_from(
            code.update(at + 1, (dest / 256) as u8).update(at + 2, (dest % 256) as u8),
            patches,
            marks,
            k + 1,
        )
    }
}

/// The abstract state of an [`Emitter`].
pub struct EmitterModel {
    /// The bytes emitted so far, jump targets still zero.
    pub code: Seq<u8>,
    /// The offset of each marked block's `JUMPDEST`.
    pub marks: Map<u32, usize>,
    /// Each pending jump: where its `PUSH2` is, and the block it goes to.
    pub patches: Seq<(usize, u32)>,
}

impl EmitterModel {
    /// Nothing emitted, nothing marked, no jump pending.
    pub open spec fn empty() -> EmitterModel {
        EmitterModel { code: Seq::empty(), marks: Map::empty(), patches: Seq::empty() }
    }

    pub open spec fn op(self, o: Opcode) -> EmitterModel {
        EmitterModel { code: self.code.push(opcode_byte(o)), ..self }
    }

    pub open spec fn push(self, w: Seq<u8>) -> EmitterModel {
        EmitterModel { code: self.code + push_encoding(w), ..self }
    }

    /// A jump, via `JUMP` or `JUMPI`, to `target`.
    pub open spec fn jump_to(self, target: u32, via: Opcode) -> EmitterModel {
        EmitterModel {
            code: self.code + jump_stub(via),
            patches: self.patches.push((self.code.len() as usize, target)),
            ..self
        }
    }

    pub open spec fn mark(self, bb: u32) -> EmitterModel {
        EmitterModel {
            code: self.code.push(0x5bu8),
            marks: self.marks.insert(bb, self.code.len() as usize),
            ..self
        }
    }

    /// Every pending jump's `PUSH2` is in place, in order, one per four bytes;
    /// every mark is a `JUMPDEST`; and no mark sits in a jump's target bytes.
    pub open spec fn wf(self) -> bool {
        &&& self.code.len() <= usize::MAX
        &&& forall|k: int|
            0 <= k < self.patches.len() ==> {
                let at = (#[trigger] self.patches[k]).0 as int;
                &&& at + 4 <= self.code.len()
                &&& self.code[at] == 0x61
            }
        &&& forall|j: int, k: int|
            0 <= j < k < self.patches.len() ==> (#[trigger] self.patches[j]).0 + 4 <= (
            #[trigger] self.patches[k]).0
        &&& forall|b: u32|
            #[trigger] self.marks.contains_key(b) ==> {
                &&& (self.marks[b] as int) < self.code.len()
                &&& self.code[self.marks[b] as int] == 0x5b
            }
        &&& forall|b: u32, k: int|
            #[trigger] self.marks.contains_key(b) && 0 <= k < self.patches.len() ==> {
                let at = (#[trigger] self.patches[k]).0 as int;
                self.marks[b] != at + 1 && self.marks[b] != at + 2
            }
    }

    /// Every pending jump's target has been marked, within `PUSH2`'s reach.
    pub open spec fn resolvable(self) -> bool {
        forall|k: int|
            0 <= k < self.patches.len() ==> {
                let target = (#[trigger] self.patches[k]).1;
                &&& self.marks.contains_key(target)
                &&& self.marks[target] <= 0xffff
            }
    }

    /// The finished bytecode: every jump given its target.
    pub open spec fn finished(self) -> Seq<u8> {
        patch_from(self.code, self.patches, self.marks, 0)
    }
}

/// Patching from `k` on changes only the two target bytes of each jump from
/// `k` on, and writes each target's offset there, big-endian.
proof fn lemma_patch_from(code: Seq<u8>, patches: Seq<(usize, u32)>, marks: Map<u32, usize>, k: int)
    requires
        0 <= k <= patches.len(),
        forall|j: int| k <= j < patches.len() ==> (#[trigger] patches[j]).0 + 4 <= code.len(),
        forall|i: int, j: int| k <= i < j < patches.len() ==> (#[trigger] patches[i]).0 + 4 <= (#[trigger] patches[j]).0,
    ensures
        patch_from(code, patches, marks, k).len() == code.len(),
        forall|p: int|
            0 <= p < code.len() && (forall|j: int| k <= j < patches.len() ==> p != (#[trigger] patches[j]).0 + 1
                && p != patches[j].0 + 2) ==> #[trigger] patch_from(code, patches, marks, k)[p] == code[p],
        forall|j: int|
            k <= j < patches.len() ==> {
                let at = (#[trigger] patches[j]).0 as int;
                let dest = marks[patches[j].1];
                &&& patch_from(code, patches, marks, k)[at + 1] == (dest / 256) as u8
                &&& patch_from(code, patches, marks, k)[at + 2] == (dest % 256) as u8
            },
    decreases patches.len() - k,
{
    if k < patches.len() {
        let (at, target) = patches[k];
        let dest = marks[target];
        let next = code.update(at + 1, (dest / 256) as u8).update(at + 2, (dest % 256) as u8);
        assert forall|j: int| k + 1 <= j < patches.len() implies (#[trigger] patches[j]).0 + 4 <= next.len() by {
        }
        lemma_patch_from(next, patches, marks, k + 1);
        let out = patch_from(code, patches, marks, k);
        assert(out == patch_from(next, patches, marks, k + 1));
        assert forall|p: int|
            0 <= p < code.len() && (forall|j: int| k <= j < patches.len() ==> p != (#[trigger] patches[j]).0 + 1
                && p != patches[j].0 + 2) implies #[trigger] out[p] == code[p] by {
            assert(p != patches[k].0 + 1 && p != patches[k].0 + 2);
            assert(next[p] == code[p]);
        }
        assert forall|j: int| k <= j < patches.len() implies {
            let at = (#[trigger] patches[j]).0 as int;
            let dest = marks[patches[j].1];
            &&& out[at + 1] == (dest / 256) as u8
            &&& out[at + 2] == (dest % 256) as u8
        } by {
            if j == k {
                assert forall|i: int| k + 1 <= i < patches.len() implies at + 1 != (#[trigger] patches[i]).0 + 1
                    && at + 1 != patches[i].0 + 2 by {
                    assert(patches[k].0 + 4 <= patches[i].0);
                }
                assert forall|i: int| k + 1 <= i < patches.len() implies at + 2 != (#[trigger] patches[i]).0 + 1
                    && at + 2 != patches[i].0 + 2 by {
                    assert(patches[k].0 + 4 <= patches[i].0);
                }
                assert(out[at + 1] == next[at + 1]);
                assert(out[at + 2] == next[at + 2]);
            }
        }
    }
}

/// In finished code, every jump's `PUSH2` carries, big-endian, the offset of
/// its target block's `JUMPDEST`, and is still followed by its `JUMP` or
/// `JUMPI`: every jump the emitter wrote lands on a `JUMPDEST`.
pub proof fn lemma_finished_jumps_land_on_jumpdests(m: EmitterModel)
    requires
        m.wf(),
        m.resolvable(),
    ensures
        m.finished().len() == m.code.len(),
        forall|k: int|
            0 <= k < m.patches.len() ==> {
                let at = (#[trigger] m.patches[k]).0 as int;
                let dest = m.marks[m.patches[k].1] as int;
                let out = m.finished();
                &&& out[at] == 0x61
                &&& out[at + 1] * 256 + out[at + 2] == dest
                &&& out[at + 3] == m.code[at + 3]
                &&& out[dest] == 0x5b
            },
{
    lemma_patch_from(m.code, m.patches, m.marks, 0);
    let out = m.finished();
    assert forall|k: int| 0 <= k < m.patches.len() implies {
        let at = (#[trigger] m.patches[k]).0 as int;
        let dest = m.marks[m.patches[k].1] as int;
        &&& out[at] == 0x61
        &&& out[at + 1] * 256 + out[at + 2] == dest
        &&& out[at + 3] == m.code[at + 3]
        &&& out[dest] == 0x5b
    } by {
        let at = m.patches[k].0 as int;
        let target = m.patches[k].1;
        let dest = m.marks[target] as int;
        assert(m.marks.contains_key(target) && dest <= 0xffff);
        assert forall|j: int| 0 <= j < m.patches.len() implies at != (#[trigger] m.patches[j]).0 + 1 && at
            != m.patches[j].0 + 2 && at + 3 != m.patches[j].0 + 1 && at + 3 != m.patches[j].0 + 2 by {
            if j < k {
                assert(m.patches[j].0 + 4 <= m.patches[k].0);
            } else if j > k {
                assert(m.patches[k].0 + 4 <= m.patches[j].0);
            }
        }
        assert(out[at] == m.code[at]);
        assert(out[at + 3] == m.code[at + 3]);
        assert forall|j: int| 0 <= j < m.patches.len() implies dest != (#[trigger] m.patches[j]).0 + 1 && dest
            != m.patches[j].0 + 2 by {
        }
        assert(out[dest] == m.code[dest]);
        let hi = out[at + 1];
        let lo = out[at + 2];
        assert(hi == (dest / 256) as u8 && lo == (dest % 256) as u8);
        assert(hi * 256 + lo == dest) by (nonlinear_arith)
            requires
                0 <= dest <= 0xffff,
                hi == (dest / 256) as u8,
                lo == (dest % 256) as u8,
        ;
    }
}

/// A pending forward-jump fixup: the `PUSH2` at `offset` gets the offset of
/// block `target`'s `JUMPDEST`.
struct Patch {
    offset: usize,
    target: u32,
}

/// Accumulates EVM bytecode for a single function.
pub struct Emitter {
    buf: Vec<u8>,
    /// Where each marked block's `JUMPDEST` is.
    bb_offsets: HashMap<u32, usize>,
    patches: Vec<Patch>,
}

impl View for Emitter {
    type V = EmitterModel;

    closed spec fn view(&self) -> EmitterModel {
        EmitterModel {
            code: self.buf@,
            marks: self.bb_offsets@,
            patches: self.patches@.map_values(|p: Patch| (p.offset, p.target)),
        }
    }
}

impl Emitter {
    pub fn new() -> (r: Emitter)
        ensures
            r@ == (EmitterModel { code: Seq::empty(), marks: Map::empty(), patches: Seq::empty() }),
            r@.wf(),
    {
        let r = Emitter { buf: Vec::new(), bb_offsets: HashMap::new(), patches: Vec::new() };
        assert(r@.patches =~= Seq::empty());
        r
    }

    /// Emit a single opcode byte.
    pub fn op(&mut self, opcode: Opcode)
        requires
            old(self)@.wf(),
        ensures
            final(self)@ == old(self)@.op(opcode),
            final(self)@.wf(),
    {
        let b = opcode.byte();
        self.byte(b);
    }

    /// Emit a raw byte.
    fn byte(&mut self, b: u8)
        requires
            old(self)@.wf(),
        ensures
            final(self)@ == (EmitterModel { code: old(self)@.code.push(b), ..old(self)@ }),
            final(self)@.wf(),
    {
        self.buf.push(b);
        proof {
            assert(self.buf@.len() == self.buf.len());
            let m = self@;
            let o = old(self)@;
            assert forall|k: int| 0 <= k < m.patches.len() implies m.code[(#[trigger] m.patches[k]).0 as int] == 0x61 by {
                assert(o.code[o.patches[k].0 as int] == 0x61);
            }
            assert forall|bb: u32| #[trigger] m.marks.contains_key(bb) implies m.code[m.marks[bb] as int] == 0x5b by {
                assert(o.code[o.marks[bb] as int] == 0x5b);
            }
        }
    }

    /// Emit the shortest `PUSH` of `value`: `PUSH0` for zero.
    pub fn push_u256(&mut self, value: U256)
        requires
            old(self)@.wf(),
        ensures
            final(self)@ == old(self)@.push(value@),
            final(self)@.wf(),
    {
        if value.is_zero() {
            self.op(Opcode::PUSH0);
            assert(self@.code =~= old(self)@.code + push_encoding(value@));
            return;
        }
        let sig = value.significant_bytes();
        self.byte(0x5f + sig as u8);
        let start = 32 - sig;
        let mut i = start;
        while i < 32
            invariant
                start <= i <= 32,
                start == 32 - sig,
                sig == word_width(value@),
                1 <= sig <= 32,
                value@.len() == 32,
                    self@.wf(),
                self@.marks == old(self)@.marks,
                self@.patches == old(self)@.patches,
                self@.code == old(self)@.code + seq![(0x5f + sig) as u8] + value@.subrange(start as int, i as int),
            decreases 32 - i,
        {
            self.byte(value.0[i]);
            i += 1;
            assert(self@.code =~= old(self)@.code + seq![(0x5f + sig) as u8] + value@.subrange(start as int, i as int));
        }
        assert(self@.code =~= old(self)@.code + push_encoding(value@));
    }

    /// Emit `PUSH2 00 00 JUMP` and record a patch for `target`.
    pub fn jump(&mut self, target: u32)
        requires
            old(self)@.wf(),
        ensures
            final(self)@ == old(self)@.jump_to(target, Opcode::JUMP),
            final(self)@.wf(),
    {
        self.stub(target, Opcode::JUMP);
    }

    /// Emit `PUSH2 00 00 JUMPI` and record a patch for `target`.
    pub fn jumpi(&mut self, target: u32)
        requires
            old(self)@.wf(),
        ensures
            final(self)@ == old(self)@.jump_to(target, Opcode::JUMPI),
            final(self)@.wf(),
    {
        self.stub(target, Opcode::JUMPI);
    }

    fn stub(&mut self, target: u32, via: Opcode)
        requires
            old(self)@.wf(),
        ensures
            final(self)@ == old(self)@.jump_to(target, via),
            final(self)@.wf(),
    {
        let offset = self.buf.len();
        self.byte(0x61);
        self.byte(0x00);
        self.byte(0x00);
        self.op(via);
        let ghost before = self.patches@;
        self.patches.push(Patch { offset, target });
        proof {
            let o = old(self)@;
            let m = self@;
            assert(m.code =~= o.code + jump_stub(via));
            assert(m.patches =~= o.patches.push((offset, target)));
            assert forall|k: int| 0 <= k < m.patches.len() implies {
                let at = (#[trigger] m.patches[k]).0 as int;
                &&& at + 4 <= m.code.len()
                &&& m.code[at] == 0x61
            } by {
                if k < o.patches.len() {
                    assert(m.patches[k] == o.patches[k]);
                }
            }
            assert forall|j: int, k: int| 0 <= j < k < m.patches.len() implies (#[trigger] m.patches[j]).0 + 4
                <= (#[trigger] m.patches[k]).0 by {
                assert(m.patches[j] == o.patches[j]);
                if k < o.patches.len() {
                    assert(m.patches[k] == o.patches[k]);
                }
            }
            assert forall|bb: u32| #[trigger] m.marks.contains_key(bb) implies (m.marks[bb] as int) < m.code.len()
                && m.code[m.marks[bb] as int] == 0x5b by {
                assert(o.code[o.marks[bb] as int] == 0x5b);
            }
            assert forall|bb: u32, k: int| #[trigger] m.marks.contains_key(bb) && 0 <= k < m.patches.len() implies {
                let at = (#[trigger] m.patches[k]).0 as int;
                m.marks[bb] != at + 1 && m.marks[bb] != at + 2
            } by {
                if k < o.patches.len() {
                    assert(m.patches[k] == o.patches[k]);
                }
            }
        }
    }

    /// Mark the current offset as the start of block `bb`: emit `JUMPDEST`
    /// and record where, so jumps to `bb` can be patched.
    pub fn mark_bb(&mut self, bb: u32)
        requires
            old(self)@.wf(),
        ensures
            final(self)@ == old(self)@.mark(bb),
            final(self)@.wf(),
    {
        let offset = self.buf.len();
        self.op(Opcode::JUMPDEST);
        self.bb_offsets.insert(bb, offset);
        proof {
            let o = old(self)@;
            let m = self@;
            assert(m.marks == o.marks.insert(bb, offset));
            assert forall|b: u32| #[trigger] m.marks.contains_key(b) implies (m.marks[b] as int) < m.code.len()
                && m.code[m.marks[b] as int] == 0x5b by {
                if b != bb {
                    assert(o.code[o.marks[b] as int] == 0x5b);
                }
            }
            assert forall|b: u32, k: int| #[trigger] m.marks.contains_key(b) && 0 <= k < m.patches.len() implies {
                let at = (#[trigger] m.patches[k]).0 as int;
                m.marks[b] != at + 1 && m.marks[b] != at + 2
            } by {
                assert(m.patches[k] == o.patches[k]);
                assert(o.patches[k].0 + 4 <= o.code.len());
            }
        }
    }

    /// Resolve every pending jump and hand back the bytecode.
    pub fn finish(self) -> (r: Vec<u8>)
        requires
            self@.wf(),
            self@.resolvable(),
        ensures
            r@ == self@.finished(),
    {
        let ghost m = self@;
        let mut buf = self.buf;
        let mut k: usize = 0;
        while k < self.patches.len()
            invariant
                m == self@,
                m.wf(),
                m.resolvable(),
                k <= m.patches.len(),
                buf@.len() == m.code.len(),
                forall|j: int| k <= j < m.patches.len() ==> #[trigger] buf@[m.patches[j].0 as int] == 0x61,
                patch_from(buf@, m.patches, m.marks, k as int) == m.finished(),
            decreases m.patches.len() - k,
        {
            let at = self.patches[k].offset;
            let target = self.patches[k].target;
            assert(m.patches[k as int] == (at, target));
            let dest = *self.bb_offsets.get(&target).unwrap();
            proof {
                assert(dest <= 0xffff);
                assert(at + 4 <= m.code.len());
            }
            let hi = (dest / 256) as u8;
            let lo = (dest % 256) as u8;
            let ghost before = buf@;
            buf.set(at + 1, hi);
            buf.set(at + 2, lo);
            proof {
                assert(buf@ == before.update(at + 1, hi).update(at + 2, lo));
                assert forall|j: int| k + 1 <= j < m.patches.len() implies #[trigger] buf@[m.patches[j].0 as int] == 0x61 by {
                    assert(m.patches[k as int].0 + 4 <= m.patches[j].0);
                }
            }
            k += 1;
        }
        buf
    }
}

} // verus!
