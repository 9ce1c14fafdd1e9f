//! Mnemonics as numbers: each table entry's mnemonic read as base-64 digits,
//! and the table from those numbers back to the entries. Distinct numbers
//! make distinct names, which is what makes lookup by mnemonic exact.

use vstd::prelude::*;

use super::table::{spec_opcode, OPCODE_COUNT};

verus! {

/// A letter or digit of a mnemonic as a base-64 digit: `A`-`Z` are 1-26,
/// `0`-`9` are 27-36.
pub open spec fn name_digit(c: char) -> int {
    if 'A' <= c <= 'Z' {
        (c as int) - 64
    } else {
        (c as int) - 48 + 27
    }
}

/// The first `n` characters of `name` read as base-64 digits.
pub open spec fn name_code_upto(name: Seq<char>, n: int) -> int
    decreases n,
{
    if n <= 0 {
        0
    } else {
        name_code_upto(name, n - 1) * 64 + name_digit(name[n - 1])
    }
}

/// A mnemonic as a number: its characters read as base-64 digits.
pub open spec fn name_code(name: Seq<char>) -> int {
    name_code_upto(name, name.len() as int)
}

/// Which table entry, in listing order, has a mnemonic with this code.
pub open spec fn listed_with_code(code: int) -> int {
    if code == 5063632 {
        0
    } else if code == 4356 {
        1
    } else if code == 54604 {
        2
    } else if code == 79170 {
        3
    } else if code == 16982 {
        4
    } else if code == 4997718 {
        5
    } else if code == 54212 {
        6
    } else if code == 5034948 {
        7
    } else if code == 1141953476 {
        8
    } else if code == 14314165188 {
        9
    } else if code == 22032 {
        10
    } else if code == 344838600645432196 {
        11
    } else if code == 788 {
        12
    } else if code == 468 {
        13
    } else if code == 78612 {
        14
    } else if code == 78292 {
        15
    } else if code == 337 {
        16
    } else if code == 9989280911 {
        17
    } else if code == 4996 {
        18
    } else if code == 978 {
        19
    } else if code == 99282 {
        20
    } else if code == 58324 {
        21
    } else if code == 627973 {
        22
    } else if code == 78348 {
        23
    } else if code == 78354 {
        24
    } else if code == 77906 {
        25
    } else if code == 3118424375810081 {
        26
    } else if code == 73086293203 {
        27
    } else if code == 138714341573 {
        28
    } else if code == 16410505806 {
        29
    } else if code == 3241197906 {
        30
    } else if code == 849660864677189 {
        31
    } else if code == 222733418553356120132 {
        32
    } else if code == 222733418553357932165 {
        33
    } else if code == 222733418553353761817 {
        34
    } else if code == 14229315556997 {
        35
    } else if code == 14229311386649 {
        36
    } else if code == 30875719340229 {
        37
    } else if code == 6202596816111572613 {
        38
    } else if code == 6202596816107402265 {
        39
    } else if code == 5465278299775178266941061 {
        40
    } else if code == 5465278299775178262770713 {
        41
    } else if code == 6202596816108655816 {
        42
    } else if code == 616760711582920 {
        43
    } else if code == 14234830771397 {
        44
    } else if code == 5669980998734672 {
        45
    } else if code == 15388123474 {
        46
    } else if code == 293320447141363791 {
        47
    } else if code == 30875649888852 {
        48
    } else if code == 214767559236 {
        49
    } else if code == 21998984806791438533 {
        50
    } else if code == 138832798021 {
        51
    } else if code == 9636868527304 {
        52
    } else if code == 2526246850903957829 {
        53
    } else if code == 66512 {
        54
    } else if code == 221311044 {
        55
    } else if code == 14282716293 {
        56
    } else if code == 914093842787 {
        57
    } else if code == 321974340 {
        58
    } else if code == 20725167237 {
        59
    } else if code == 2708304 {
        60
    } else if code == 173331465 {
        61
    } else if code == 1027 {
        62
    } else if code == 223123077 {
        63
    } else if code == 28755 {
        64
    } else if code == 45437802271956 {
        65
    } else if code == 338751556 {
        66
    } else if code == 21798909061 {
        67
    } else if code == 218952729 {
        68
    } else if code == 274018843 {
        69
    } else if code == 274018844 {
        70
    } else if code == 274018845 {
        71
    } else if code == 274018846 {
        72
    } else if code == 274018847 {
        73
    } else if code == 274018848 {
        74
    } else if code == 274018849 {
        75
    } else if code == 274018850 {
        76
    } else if code == 274018851 {
        77
    } else if code == 274018852 {
        78
    } else if code == 17537206043 {
        79
    } else if code == 17537206044 {
        80
    } else if code == 17537206045 {
        81
    } else if code == 17537206046 {
        82
    } else if code == 17537206047 {
        83
    } else if code == 17537206048 {
        84
    } else if code == 17537206049 {
        85
    } else if code == 17537206050 {
        86
    } else if code == 17537206051 {
        87
    } else if code == 17537206052 {
        88
    } else if code == 17537206107 {
        89
    } else if code == 17537206108 {
        90
    } else if code == 17537206109 {
        91
    } else if code == 17537206110 {
        92
    } else if code == 17537206111 {
        93
    } else if code == 17537206112 {
        94
    } else if code == 17537206113 {
        95
    } else if code == 17537206114 {
        96
    } else if code == 17537206115 {
        97
    } else if code == 17537206116 {
        98
    } else if code == 17537206171 {
        99
    } else if code == 17537206172 {
        100
    } else if code == 17537206173 {
        101
    } else if code == 1135644 {
        102
    } else if code == 1135645 {
        103
    } else if code == 1135646 {
        104
    } else if code == 1135647 {
        105
    } else if code == 1135648 {
        106
    } else if code == 1135649 {
        107
    } else if code == 1135650 {
        108
    } else if code == 1135651 {
        109
    } else if code == 1135652 {
        110
    } else if code == 72681243 {
        111
    } else if code == 72681244 {
        112
    } else if code == 72681245 {
        113
    } else if code == 72681246 {
        114
    } else if code == 72681247 {
        115
    } else if code == 72681248 {
        116
    } else if code == 72681249 {
        117
    } else if code == 324801564 {
        118
    } else if code == 324801565 {
        119
    } else if code == 324801566 {
        120
    } else if code == 324801567 {
        121
    } else if code == 324801568 {
        122
    } else if code == 324801569 {
        123
    } else if code == 324801570 {
        124
    } else if code == 324801571 {
        125
    } else if code == 324801572 {
        126
    } else if code == 20787300123 {
        127
    } else if code == 20787300124 {
        128
    } else if code == 20787300125 {
        129
    } else if code == 20787300126 {
        130
    } else if code == 20787300127 {
        131
    } else if code == 20787300128 {
        132
    } else if code == 20787300129 {
        133
    } else if code == 3207643 {
        134
    } else if code == 3207644 {
        135
    } else if code == 3207645 {
        136
    } else if code == 3207646 {
        137
    } else if code == 3207647 {
        138
    } else if code == 3524531461 {
        139
    } else if code == 791308 {
        140
    } else if code == 13275946086661 {
        141
    } else if code == 19416568974 {
        142
    } else if code == 301130123735988966156 {
        143
    } else if code == 225570013533 {
        144
    } else if code == 347908853365216012 {
        145
    } else if code == 19417027732 {
        146
    } else if code == 633877086788 {
        147
    } else if code == 1407935036713459077332 {
        148
    } else {
        -1
    }
}

/// Entries 0 to 24: each mnemonic's code leads back to its entry.
proof fn lemma_codes_from_0(i: int)
    requires
        0 <= i < 25,
    ensures
        listed_with_code(name_code(spec_opcode(i).mnemonic@)) == i,
{
    if i == 0 {
        assert(listed_with_code(name_code(spec_opcode(0).mnemonic@)) == 0) by {
            reveal_with_fuel(name_code_upto, 15);
            reveal_strlit("STOP");
        }
    } else if i == 1 {
        assert(listed_with_code(name_code(spec_opcode(1).mnemonic@)) == 1) by {
            reveal_with_fuel(name_code_upto, 15);
            reveal_strlit("ADD");
        }
    } else if i == 2 {
        assert(listed_with_code(name_code(spec_opcode(2).mnemonic@)) == 2) by {
            reveal_with_fuel(name_code_upto, 15);
            reveal_strlit("MUL");
        }
    } else if i == 3 {
        assert(listed_with_code(name_code(spec_opcode(3).mnemonic@)) == 3) by {
            reveal_with_fuel(name_code_upto, 15);
            reveal_strlit("SUB");
        }
    } else if i == 4 {
        assert(listed_with_code(name_code(spec_opcode(4).mnemonic@)) == 4) by {
            reveal_with_fuel(name_code_upto, 15);
            reveal_strlit("DIV");
        }
    } else if i == 5 {
        assert(listed_with_code(name_code(spec_opcode(5).mnemonic@)) == 5) by {
            reveal_with_fuel(name_code_upto, 15);
            reveal_strlit("SDIV");
        }
    } else if i == 6 {
        assert(listed_with_code(name_code(spec_opcode(6).mnemonic@)) == 6) by {
            reveal_with_fuel(name_code_upto, 15);
            reveal_strlit("MOD");
        }
    } else if i == 7 {
        assert(listed_with_code(name_code(spec_opcode(7).mnemonic@)) == 7) by {
            reveal_with_fuel(name_code_upto, 15);
            reveal_strlit("SMOD");
        }
    } else if i == 8 {
        assert(listed_with_code(name_code(spec_opcode(8).mnemonic@)) == 8) by {
            reveal_with_fuel(name_code_upto, 15);
            reveal_strlit("ADDMOD");
        }
    } else if i == 9 {
        assert(listed_with_code(name_code(spec_opcode(9).mnemonic@)) == 9) by {
            reveal_with_fuel(name_code_upto, 15);
            reveal_strlit("MULMOD");
        }
    } else if i == 10 {
        assert(listed_with_code(name_code(spec_opcode(10).mnemonic@)) == 10) by {
            reveal_with_fuel(name_code_upto, 15);
            reveal_strlit("EXP");
        }
    } else if i == 11 {
        assert(listed_with_code(name_code(spec_opcode(11).mnemonic@)) == 11) by {
            reveal_with_fuel(name_code_upto, 15);
            reveal_strlit("SIGNEXTEND");
        }
    } else if i == 12 {
        assert(listed_with_code(name_code(spec_opcode(12).mnemonic@)) == 12) by {
            reveal_with_fuel(name_code_upto, 15);
            reveal_strlit("LT");
        }
    } else if i == 13 {
        assert(listed_with_code(name_code(spec_opcode(13).mnemonic@)) == 13) by {
            reveal_with_fuel(name_code_upto, 15);
            reveal_strlit("GT");
        }
    } else if i == 14 {
        assert(listed_with_code(name_code(spec_opcode(14).mnemonic@)) == 14) by {
            reveal_with_fuel(name_code_upto, 15);
            reveal_strlit("SLT");
        }
    } else if i == 15 {
        assert(listed_with_code(name_code(spec_opcode(15).mnemonic@)) == 15) by {
            reveal_with_fuel(name_code_upto, 15);
            reveal_strlit("SGT");
        }
    } else if i == 16 {
        assert(listed_with_code(name_code(spec_opcode(16).mnemonic@)) == 16) by {
            reveal_with_fuel(name_code_upto, 15);
            reveal_strlit("EQ");
        }
    } else if i == 17 {
        assert(listed_with_code(name_code(spec_opcode(17).mnemonic@)) == 17) by {
            reveal_with_fuel(name_code_upto, 15);
            reveal_strlit("ISZERO");
        }
    } else if i == 18 {
        assert(listed_with_code(name_code(spec_opcode(18).mnemonic@)) == 18) by {
            reveal_with_fuel(name_code_upto, 15);
            reveal_strlit("AND");
        }
    } else if i == 19 {
        assert(listed_with_code(name_code(spec_opcode(19).mnemonic@)) == 19) by {
            reveal_with_fuel(name_code_upto, 15);
            reveal_strlit("OR");
        }
    } else if i == 20 {
        assert(listed_with_code(name_code(spec_opcode(20).mnemonic@)) == 20) by {
            reveal_with_fuel(name_code_upto, 15);
            reveal_strlit("XOR");
        }
    } else if i == 21 {
        assert(listed_with_code(name_code(spec_opcode(21).mnemonic@)) == 21) by {
            reveal_with_fuel(name_code_upto, 15);
            reveal_strlit("NOT");
        }
    } else if i == 22 {
        assert(listed_with_code(name_code(spec_opcode(22).mnemonic@)) == 22) by {
            reveal_with_fuel(name_code_upto, 15);
            reveal_strlit("BYTE");
        }
    } else if i == 23 {
        assert(listed_with_code(name_code(spec_opcode(23).mnemonic@)) == 23) by {
            reveal_with_fuel(name_code_upto, 15);
            reveal_strlit("SHL");
        }
    } else if i == 24 {
        assert(listed_with_code(name_code(spec_opcode(24).mnemonic@)) == 24) by {
            reveal_with_fuel(name_code_upto, 15);
            reveal_strlit("SHR");
        }
    }
}

/// Entries 25 to 49: each mnemonic's code leads back to its entry.
proof fn lemma_codes_from_25(i: int)
    requires
        25 <= i < 50,
    ensures
        listed_with_code(name_code(spec_opcode(i).mnemonic@)) == i,
{
    if i == 25 {
        assert(listed_with_code(name_code(spec_opcode(25).mnemonic@)) == 25) by {
            reveal_with_fuel(name_code_upto, 15);
            reveal_strlit("SAR");
        }
    } else if i == 26 {
        assert(listed_with_code(name_code(spec_opcode(26).mnemonic@)) == 26) by {
            reveal_with_fuel(name_code_upto, 15);
            reveal_strlit("KECCAK256");
        }
    } else if i == 27 {
        assert(listed_with_code(name_code(spec_opcode(27).mnemonic@)) == 27) by {
            reveal_with_fuel(name_code_upto, 15);
            reveal_strlit("ADDRESS");
        }
    } else if i == 28 {
        assert(listed_with_code(name_code(spec_opcode(28).mnemonic@)) == 28) by {
            reveal_with_fuel(name_code_upto, 15);
            reveal_strlit("BALANCE");
        }
    } else if i == 29 {
        assert(listed_with_code(name_code(spec_opcode(29).mnemonic@)) == 29) by {
            reveal_with_fuel(name_code_upto, 15);
            reveal_strlit("ORIGIN");
        }
    } else if i == 30 {
        assert(listed_with_code(name_code(spec_opcode(30).mnemonic@)) == 30) by {
            reveal_with_fuel(name_code_upto, 15);
            reveal_strlit("CALLER");
        }
    } else if i == 31 {
        assert(listed_with_code(name_code(spec_opcode(31).mnemonic@)) == 31) by {
            reveal_with_fuel(name_code_upto, 15);
            reveal_strlit("CALLVALUE");
        }
    } else if i == 32 {
        assert(listed_with_code(name_code(spec_opcode(32).mnemonic@)) == 32) by {
            reveal_with_fuel(name_code_upto, 15);
            reveal_strlit("CALLDATALOAD");
        }
    } else if i == 33 {
        assert(listed_with_code(name_code(spec_opcode(33).mnemonic@)) == 33) by {
            reveal_with_fuel(name_code_upto, 15);
            reveal_strlit("CALLDATASIZE");
        }
    } else if i == 34 {
        assert(listed_with_code(name_code(spec_opcode(34).mnemonic@)) == 34) by {
            reveal_with_fuel(name_code_upto, 15);
            reveal_strlit("CALLDATACOPY");
        }
    } else if i == 35 {
        assert(listed_with_code(name_code(spec_opcode(35).mnemonic@)) == 35) by {
            reveal_with_fuel(name_code_upto, 15);
            reveal_strlit("CODESIZE");
        }
    } else if i == 36 {
        assert(listed_with_code(name_code(spec_opcode(36).mnemonic@)) == 36) by {
            reveal_with_fuel(name_code_upto, 15);
            reveal_strlit("CODECOPY");
        }
    } else if i == 37 {
        assert(listed_with_code(name_code(spec_opcode(37).mnemonic@)) == 37) by {
            reveal_with_fuel(name_code_upto, 15);
            reveal_strlit("GASPRICE");
        }
    } else if i == 38 {
        assert(listed_with_code(name_code(spec_opcode(38).mnemonic@)) == 38) by {
            reveal_with_fuel(name_code_upto, 15);
            reveal_strlit("EXTCODESIZE");
        }
    } else if i == 39 {
        assert(listed_with_code(name_code(spec_opcode(39).mnemonic@)) == 39) by {
            reveal_with_fuel(name_code_upto, 15);
            reveal_strlit("EXTCODECOPY");
        }
    } else if i == 40 {
        assert(listed_with_code(name_code(spec_opcode(40).mnemonic@)) == 40) by {
            reveal_with_fuel(name_code_upto, 15);
            reveal_strlit("RETURNDATASIZE");
        }
    } else if i == 41 {
        assert(listed_with_code(name_code(spec_opcode(41).mnemonic@)) == 41) by {
            reveal_with_fuel(name_code_upto, 15);
            reveal_strlit("RETURNDATACOPY");
        }
    } else if i == 42 {
        assert(listed_with_code(name_code(spec_opcode(42).mnemonic@)) == 42) by {
            reveal_with_fuel(name_code_upto, 15);
            reveal_strlit("EXTCODEHASH");
        }
    } else if i == 43 {
        assert(listed_with_code(name_code(spec_opcode(43).mnemonic@)) == 43) by {
            reveal_with_fuel(name_code_upto, 15);
            reveal_strlit("BLOCKHASH");
        }
    } else if i == 44 {
        assert(listed_with_code(name_code(spec_opcode(44).mnemonic@)) == 44) by {
            reveal_with_fuel(name_code_upto, 15);
            reveal_strlit("COINBASE");
        }
    } else if i == 45 {
        assert(listed_with_code(name_code(spec_opcode(45).mnemonic@)) == 45) by {
            reveal_with_fuel(name_code_upto, 15);
            reveal_strlit("TIMESTAMP");
        }
    } else if i == 46 {
        assert(listed_with_code(name_code(spec_opcode(46).mnemonic@)) == 46) by {
            reveal_with_fuel(name_code_upto, 15);
            reveal_strlit("NUMBER");
        }
    } else if i == 47 {
        assert(listed_with_code(name_code(spec_opcode(47).mnemonic@)) == 47) by {
            reveal_with_fuel(name_code_upto, 15);
            reveal_strlit("PREVRANDAO");
        }
    } else if i == 48 {
        assert(listed_with_code(name_code(spec_opcode(48).mnemonic@)) == 48) by {
            reveal_with_fuel(name_code_upto, 15);
            reveal_strlit("GASLIMIT");
        }
    } else if i == 49 {
        assert(listed_with_code(name_code(spec_opcode(49).mnemonic@)) == 49) by {
            reveal_with_fuel(name_code_upto, 15);
            reveal_strlit("CHAINID");
        }
    }
}

/// Entries 50 to 74: each mnemonic's code leads back to its entry.
proof fn lemma_codes_from_50(i: int)
    requires
        50 <= i < 75,
    ensures
        listed_with_code(name_code(spec_opcode(i).mnemonic@)) == i,
{
    if i == 50 {
        assert(listed_with_code(name_code(spec_opcode(50).mnemonic@)) == 50) by {
            reveal_with_fuel(name_code_upto, 15);
            reveal_strlit("SELFBALANCE");
        }
    } else if i == 51 {
        assert(listed_with_code(name_code(spec_opcode(51).mnemonic@)) == 51) by {
            reveal_with_fuel(name_code_upto, 15);
            reveal_strlit("BASEFEE");
        }
    } else if i == 52 {
        assert(listed_with_code(name_code(spec_opcode(52).mnemonic@)) == 52) by {
            reveal_with_fuel(name_code_upto, 15);
            reveal_strlit("BLOBHASH");
        }
    } else if i == 53 {
        assert(listed_with_code(name_code(spec_opcode(53).mnemonic@)) == 53) by {
            reveal_with_fuel(name_code_upto, 15);
            reveal_strlit("BLOBBASEFEE");
        }
    } else if i == 54 {
        assert(listed_with_code(name_code(spec_opcode(54).mnemonic@)) == 54) by {
            reveal_with_fuel(name_code_upto, 15);
            reveal_strlit("POP");
        }
    } else if i == 55 {
        assert(listed_with_code(name_code(spec_opcode(55).mnemonic@)) == 55) by {
            reveal_with_fuel(name_code_upto, 15);
            reveal_strlit("MLOAD");
        }
    } else if i == 56 {
        assert(listed_with_code(name_code(spec_opcode(56).mnemonic@)) == 56) by {
            reveal_with_fuel(name_code_upto, 15);
            reveal_strlit("MSTORE");
        }
    } else if i == 57 {
        assert(listed_with_code(name_code(spec_opcode(57).mnemonic@)) == 57) by {
            reveal_with_fuel(name_code_upto, 15);
            reveal_strlit("MSTORE8");
        }
    } else if i == 58 {
        assert(listed_with_code(name_code(spec_opcode(58).mnemonic@)) == 58) by {
            reveal_with_fuel(name_code_upto, 15);
            reveal_strlit("SLOAD");
        }
    } else if i == 59 {
        assert(listed_with_code(name_code(spec_opcode(59).mnemonic@)) == 59) by {
            reveal_with_fuel(name_code_upto, 15);
            reveal_strlit("SSTORE");
        }
    } else if i == 60 {
        assert(listed_with_code(name_code(spec_opcode(60).mnemonic@)) == 60) by {
            reveal_with_fuel(name_code_upto, 15);
            reveal_strlit("JUMP");
        }
    } else if i == 61 {
        assert(listed_with_code(name_code(spec_opcode(61).mnemonic@)) == 61) by {
            reveal_with_fuel(name_code_upto, 15);
            reveal_strlit("JUMPI");
        }
    } else if i == 62 {
        assert(listed_with_code(name_code(spec_opcode(62).mnemonic@)) == 62) by {
            reveal_with_fuel(name_code_upto, 15);
            reveal_strlit("PC");
        }
    } else if i == 63 {
        assert(listed_with_code(name_code(spec_opcode(63).mnemonic@)) == 63) by {
            reveal_with_fuel(name_code_upto, 15);
            reveal_strlit("MSIZE");
        }
    } else if i == 64 {
        assert(listed_with_code(name_code(spec_opcode(64).mnemonic@)) == 64) by {
            reveal_with_fuel(name_code_upto, 15);
            reveal_strlit("GAS");
        }
    } else if i == 65 {
        assert(listed_with_code(name_code(spec_opcode(65).mnemonic@)) == 65) by {
            reveal_with_fuel(name_code_upto, 15);
            reveal_strlit("JUMPDEST");
        }
    } else if i == 66 {
        assert(listed_with_code(name_code(spec_opcode(66).mnemonic@)) == 66) by {
            reveal_with_fuel(name_code_upto, 15);
            reveal_strlit("TLOAD");
        }
    } else if i == 67 {
        assert(listed_with_code(name_code(spec_opcode(67).mnemonic@)) == 67) by {
            reveal_with_fuel(name_code_upto, 15);
            reveal_strlit("TSTORE");
        }
    } else if i == 68 {
        assert(listed_with_code(name_code(spec_opcode(68).mnemonic@)) == 68) by {
            reveal_with_fuel(name_code_upto, 15);
            reveal_strlit("MCOPY");
        }
    } else if i == 69 {
        assert(listed_with_code(name_code(spec_opcode(69).mnemonic@)) == 69) by {
            reveal_with_fuel(name_code_upto, 15);
            reveal_strlit("PUSH0");
        }
    } else if i == 70 {
        assert(listed_with_code(name_code(spec_opcode(70).mnemonic@)) == 70) by {
            reveal_with_fuel(name_code_upto, 15);
            reveal_strlit("PUSH1");
        }
    } else if i == 71 {
        assert(listed_with_code(name_code(spec_opcode(71).mnemonic@)) == 71) by {
            reveal_with_fuel(name_code_upto, 15);
            reveal_strlit("PUSH2");
        }
    } else if i == 72 {
        assert(listed_with_code(name_code(spec_opcode(72).mnemonic@)) == 72) by {
            reveal_with_fuel(name_code_upto, 15);
            reveal_strlit("PUSH3");
        }
    } else if i == 73 {
        assert(listed_with_code(name_code(spec_opcode(73).mnemonic@)) == 73) by {
            reveal_with_fuel(name_code_upto, 15);
            reveal_strlit("PUSH4");
        }
    } else if i == 74 {
        assert(listed_with_code(name_code(spec_opcode(74).mnemonic@)) == 74) by {
            reveal_with_fuel(name_code_upto, 15);
            reveal_strlit("PUSH5");
        }
    }
}

/// Entries 75 to 99: each mnemonic's code leads back to its entry.
proof fn lemma_codes_from_75(i: int)
    requires
        75 <= i < 100,
    ensures
        listed_with_code(name_code(spec_opcode(i).mnemonic@)) == i,
{
    if i == 75 {
        assert(listed_with_code(name_code(spec_opcode(75).mnemonic@)) == 75) by {
            reveal_with_fuel(name_code_upto, 15);
            reveal_strlit("PUSH6");
        }
    } else if i == 76 {
        assert(listed_with_code(name_code(spec_opcode(76).mnemonic@)) == 76) by {
            reveal_with_fuel(name_code_upto, 15);
            reveal_strlit("PUSH7");
        }
    } else if i == 77 {
        assert(listed_with_code(name_code(spec_opcode(77).mnemonic@)) == 77) by {
            reveal_with_fuel(name_code_upto, 15);
            reveal_strlit("PUSH8");
        }
    } else if i == 78 {
        assert(listed_with_code(name_code(spec_opcode(78).mnemonic@)) == 78) by {
            reveal_with_fuel(name_code_upto, 15);
            reveal_strlit("PUSH9");
        }
    } else if i == 79 {
        assert(listed_with_code(name_code(spec_opcode(79).mnemonic@)) == 79) by {
            reveal_with_fuel(name_code_upto, 15);
            reveal_strlit("PUSH10");
        }
    } else if i == 80 {
        assert(listed_with_code(name_code(spec_opcode(80).mnemonic@)) == 80) by {
            reveal_with_fuel(name_code_upto, 15);
            reveal_strlit("PUSH11");
        }
    } else if i == 81 {
        assert(listed_with_code(name_code(spec_opcode(81).mnemonic@)) == 81) by {
            reveal_with_fuel(name_code_upto, 15);
            reveal_strlit("PUSH12");
        }
    } else if i == 82 {
        assert(listed_with_code(name_code(spec_opcode(82).mnemonic@)) == 82) by {
            reveal_with_fuel(name_code_upto, 15);
            reveal_strlit("PUSH13");
        }
    } else if i == 83 {
        assert(listed_with_code(name_code(spec_opcode(83).mnemonic@)) == 83) by {
            reveal_with_fuel(name_code_upto, 15);
            reveal_strlit("PUSH14");
        }
    } else if i == 84 {
        assert(listed_with_code(name_code(spec_opcode(84).mnemonic@)) == 84) by {
            reveal_with_fuel(name_code_upto, 15);
            reveal_strlit("PUSH15");
        }
    } else if i == 85 {
        assert(listed_with_code(name_code(spec_opcode(85).mnemonic@)) == 85) by {
            reveal_with_fuel(name_code_upto, 15);
            reveal_strlit("PUSH16");
        }
    } else if i == 86 {
        assert(listed_with_code(name_code(spec_opcode(86).mnemonic@)) == 86) by {
            reveal_with_fuel(name_code_upto, 15);
            reveal_strlit("PUSH17");
        }
    } else if i == 87 {
        assert(listed_with_code(name_code(spec_opcode(87).mnemonic@)) == 87) by {
            reveal_with_fuel(name_code_upto, 15);
            reveal_strlit("PUSH18");
        }
    } else if i == 88 {
        assert(listed_with_code(name_code(spec_opcode(88).mnemonic@)) == 88) by {
            reveal_with_fuel(name_code_upto, 15);
            reveal_strlit("PUSH19");
        }
    } else if i == 89 {
        assert(listed_with_code(name_code(spec_opcode(89).mnemonic@)) == 89) by {
            reveal_with_fuel(name_code_upto, 15);
            reveal_strlit("PUSH20");
        }
    } else if i == 90 {
        assert(listed_with_code(name_code(spec_opcode(90).mnemonic@)) == 90) by {
            reveal_with_fuel(name_code_upto, 15);
            reveal_strlit("PUSH21");
        }
    } else if i == 91 {
        assert(listed_with_code(name_code(spec_opcode(91).mnemonic@)) == 91) by {
            reveal_with_fuel(name_code_upto, 15);
            reveal_strlit("PUSH22");
        }
    } else if i == 92 {
        assert(listed_with_code(name_code(spec_opcode(92).mnemonic@)) == 92) by {
            reveal_with_fuel(name_code_upto, 15);
            reveal_strlit("PUSH23");
        }
    } else if i == 93 {
        assert(listed_with_code(name_code(spec_opcode(93).mnemonic@)) == 93) by {
            reveal_with_fuel(name_code_upto, 15);
            reveal_strlit("PUSH24");
        }
    } else if i == 94 {
        assert(listed_with_code(name_code(spec_opcode(94).mnemonic@)) == 94) by {
            reveal_with_fuel(name_code_upto, 15);
            reveal_strlit("PUSH25");
        }
    } else if i == 95 {
        assert(listed_with_code(name_code(spec_opcode(95).mnemonic@)) == 95) by {
            reveal_with_fuel(name_code_upto, 15);
            reveal_strlit("PUSH26");
        }
    } else if i == 96 {
        assert(listed_with_code(name_code(spec_opcode(96).mnemonic@)) == 96) by {
            reveal_with_fuel(name_code_upto, 15);
            reveal_strlit("PUSH27");
        }
    } else if i == 97 {
        assert(listed_with_code(name_code(spec_opcode(97).mnemonic@)) == 97) by {
            reveal_with_fuel(name_code_upto, 15);
            reveal_strlit("PUSH28");
        }
    } else if i == 98 {
        assert(listed_with_code(name_code(spec_opcode(98).mnemonic@)) == 98) by {
            reveal_with_fuel(name_code_upto, 15);
            reveal_strlit("PUSH29");
        }
    } else if i == 99 {
        assert(listed_with_code(name_code(spec_opcode(99).mnemonic@)) == 99) by {
            reveal_with_fuel(name_code_upto, 15);
            reveal_strlit("PUSH30");
        }
    }
}

/// Entries 100 to 124: each mnemonic's code leads back to its entry.
proof fn lemma_codes_from_100(i: int)
    requires
        100 <= i < 125,
    ensures
        listed_with_code(name_code(spec_opcode(i).mnemonic@)) == i,
{
    if i == 100 {
        assert(listed_with_code(name_code(spec_opcode(100).mnemonic@)) == 100) by {
            reveal_with_fuel(name_code_upto, 15);
            reveal_strlit("PUSH31");
        }
    } else if i == 101 {
        assert(listed_with_code(name_code(spec_opcode(101).mnemonic@)) == 101) by {
            reveal_with_fuel(name_code_upto, 15);
            reveal_strlit("PUSH32");
        }
    } else if i == 102 {
        assert(listed_with_code(name_code(spec_opcode(102).mnemonic@)) == 102) by {
            reveal_with_fuel(name_code_upto, 15);
            reveal_strlit("DUP1");
        }
    } else if i == 103 {
        assert(listed_with_code(name_code(spec_opcode(103).mnemonic@)) == 103) by {
            reveal_with_fuel(name_code_upto, 15);
            reveal_strlit("DUP2");
        }
    } else if i == 104 {
        assert(listed_with_code(name_code(spec_opcode(104).mnemonic@)) == 104) by {
            reveal_with_fuel(name_code_upto, 15);
            reveal_strlit("DUP3");
        }
    } else if i == 105 {
        assert(listed_with_code(name_code(spec_opcode(105).mnemonic@)) == 105) by {
            reveal_with_fuel(name_code_upto, 15);
            reveal_strlit("DUP4");
        }
    } else if i == 106 {
        assert(listed_with_code(name_code(spec_opcode(106).mnemonic@)) == 106) by {
            reveal_with_fuel(name_code_upto, 15);
            reveal_strlit("DUP5");
        }
    } else if i == 107 {
        assert(listed_with_code(name_code(spec_opcode(107).mnemonic@)) == 107) by {
            reveal_with_fuel(name_code_upto, 15);
            reveal_strlit("DUP6");
        }
    } else if i == 108 {
        assert(listed_with_code(name_code(spec_opcode(108).mnemonic@)) == 108) by {
            reveal_with_fuel(name_code_upto, 15);
            reveal_strlit("DUP7");
        }
    } else if i == 109 {
        assert(listed_with_code(name_code(spec_opcode(109).mnemonic@)) == 109) by {
            reveal_with_fuel(name_code_upto, 15);
            reveal_strlit("DUP8");
        }
    } else if i == 110 {
        assert(listed_with_code(name_code(spec_opcode(110).mnemonic@)) == 110) by {
            reveal_with_fuel(name_code_upto, 15);
            reveal_strlit("DUP9");
        }
    } else if i == 111 {
        assert(listed_with_code(name_code(spec_opcode(111).mnemonic@)) == 111) by {
            reveal_with_fuel(name_code_upto, 15);
            reveal_strlit("DUP10");
        }
    } else if i == 112 {
        assert(listed_with_code(name_code(spec_opcode(112).mnemonic@)) == 112) by {
            reveal_with_fuel(name_code_upto, 15);
            reveal_strlit("DUP11");
        }
    } else if i == 113 {
        assert(listed_with_code(name_code(spec_opcode(113).mnemonic@)) == 113) by {
            reveal_with_fuel(name_code_upto, 15);
            reveal_strlit("DUP12");
        }
    } else if i == 114 {
        assert(listed_with_code(name_code(spec_opcode(114).mnemonic@)) == 114) by {
            reveal_with_fuel(name_code_upto, 15);
            reveal_strlit("DUP13");
        }
    } else if i == 115 {
        assert(listed_with_code(name_code(spec_opcode(115).mnemonic@)) == 115) by {
            reveal_with_fuel(name_code_upto, 15);
            reveal_strlit("DUP14");
        }
    } else if i == 116 {
        assert(listed_with_code(name_code(spec_opcode(116).mnemonic@)) == 116) by {
            reveal_with_fuel(name_code_upto, 15);
            reveal_strlit("DUP15");
        }
    } else if i == 117 {
        assert(listed_with_code(name_code(spec_opcode(117).mnemonic@)) == 117) by {
            reveal_with_fuel(name_code_upto, 15);
            reveal_strlit("DUP16");
        }
    } else if i == 118 {
        assert(listed_with_code(name_code(spec_opcode(118).mnemonic@)) == 118) by {
            reveal_with_fuel(name_code_upto, 15);
            reveal_strlit("SWAP1");
        }
    } else if i == 119 {
        assert(listed_with_code(name_code(spec_opcode(119).mnemonic@)) == 119) by {
            reveal_with_fuel(name_code_upto, 15);
            reveal_strlit("SWAP2");
        }
    } else if i == 120 {
        assert(listed_with_code(name_code(spec_opcode(120).mnemonic@)) == 120) by {
            reveal_with_fuel(name_code_upto, 15);
            reveal_strlit("SWAP3");
        }
    } else if i == 121 {
        assert(listed_with_code(name_code(spec_opcode(121).mnemonic@)) == 121) by {
            reveal_with_fuel(name_code_upto, 15);
            reveal_strlit("SWAP4");
        }
    } else if i == 122 {
        assert(listed_with_code(name_code(spec_opcode(122).mnemonic@)) == 122) by {
            reveal_with_fuel(name_code_upto, 15);
            reveal_strlit("SWAP5");
        }
    } else if i == 123 {
        assert(listed_with_code(name_code(spec_opcode(123).mnemonic@)) == 123) by {
            reveal_with_fuel(name_code_upto, 15);
            reveal_strlit("SWAP6");
        }
    } else if i == 124 {
        assert(listed_with_code(name_code(spec_opcode(124).mnemonic@)) == 124) by {
            reveal_with_fuel(name_code_upto, 15);
            reveal_strlit("SWAP7");
        }
    }
}

/// Entries 125 to 148: each mnemonic's code leads back to its entry.
proof fn lemma_codes_from_125(i: int)
    requires
        125 <= i < 149,
    ensures
        listed_with_code(name_code(spec_opcode(i).mnemonic@)) == i,
{
    if i == 125 {
        assert(listed_with_code(name_code(spec_opcode(125).mnemonic@)) == 125) by {
            reveal_with_fuel(name_code_upto, 15);
            reveal_strlit("SWAP8");
        }
    } else if i == 126 {
        assert(listed_with_code(name_code(spec_opcode(126).mnemonic@)) == 126) by {
            reveal_with_fuel(name_code_upto, 15);
            reveal_strlit("SWAP9");
        }
    } else if i == 127 {
        assert(listed_with_code(name_code(spec_opcode(127).mnemonic@)) == 127) by {
            reveal_with_fuel(name_code_upto, 15);
            reveal_strlit("SWAP10");
        }
    } else if i == 128 {
        assert(listed_with_code(name_code(spec_opcode(128).mnemonic@)) == 128) by {
            reveal_with_fuel(name_code_upto, 15);
            reveal_strlit("SWAP11");
        }
    } else if i == 129 {
        assert(listed_with_code(name_code(spec_opcode(129).mnemonic@)) == 129) by {
            reveal_with_fuel(name_code_upto, 15);
            reveal_strlit("SWAP12");
        }
    } else if i == 130 {
        assert(listed_with_code(name_code(spec_opcode(130).mnemonic@)) == 130) by {
            reveal_with_fuel(name_code_upto, 15);
            reveal_strlit("SWAP13");
        }
    } else if i == 131 {
        assert(listed_with_code(name_code(spec_opcode(131).mnemonic@)) == 131) by {
            reveal_with_fuel(name_code_upto, 15);
            reveal_strlit("SWAP14");
        }
    } else if i == 132 {
        assert(listed_with_code(name_code(spec_opcode(132).mnemonic@)) == 132) by {
            reveal_with_fuel(name_code_upto, 15);
            reveal_strlit("SWAP15");
        }
    } else if i == 133 {
        assert(listed_with_code(name_code(spec_opcode(133).mnemonic@)) == 133) by {
            reveal_with_fuel(name_code_upto, 15);
            reveal_strlit("SWAP16");
        }
    } else if i == 134 {
        assert(listed_with_code(name_code(spec_opcode(134).mnemonic@)) == 134) by {
            reveal_with_fuel(name_code_upto, 15);
            reveal_strlit("LOG0");
        }
    } else if i == 135 {
        assert(listed_with_code(name_code(spec_opcode(135).mnemonic@)) == 135) by {
            reveal_with_fuel(name_code_upto, 15);
            reveal_strlit("LOG1");
        }
    } else if i == 136 {
        assert(listed_with_code(name_code(spec_opcode(136).mnemonic@)) == 136) by {
            reveal_with_fuel(name_code_upto, 15);
            reveal_strlit("LOG2");
        }
    } else if i == 137 {
        assert(listed_with_code(name_code(spec_opcode(137).mnemonic@)) == 137) by {
            reveal_with_fuel(name_code_upto, 15);
            reveal_strlit("LOG3");
        }
    } else if i == 138 {
        assert(listed_with_code(name_code(spec_opcode(138).mnemonic@)) == 138) by {
            reveal_with_fuel(name_code_upto, 15);
            reveal_strlit("LOG4");
        }
    } else if i == 139 {
        assert(listed_with_code(name_code(spec_opcode(139).mnemonic@)) == 139) by {
            reveal_with_fuel(name_code_upto, 15);
            reveal_strlit("CREATE");
        }
    } else if i == 140 {
        assert(listed_with_code(name_code(spec_opcode(140).mnemonic@)) == 140) by {
            reveal_with_fuel(name_code_upto, 15);
            reveal_strlit("CALL");
        }
    } else if i == 141 {
        assert(listed_with_code(name_code(spec_opcode(141).mnemonic@)) == 141) by {
            reveal_with_fuel(name_code_upto, 15);
            reveal_strlit("CALLCODE");
        }
    } else if i == 142 {
        assert(listed_with_code(name_code(spec_opcode(142).mnemonic@)) == 142) by {
            reveal_with_fuel(name_code_upto, 15);
            reveal_strlit("RETURN");
        }
    } else if i == 143 {
        assert(listed_with_code(name_code(spec_opcode(143).mnemonic@)) == 143) by {
            reveal_with_fuel(name_code_upto, 15);
            reveal_strlit("DELEGATECALL");
        }
    } else if i == 144 {
        assert(listed_with_code(name_code(spec_opcode(144).mnemonic@)) == 144) by {
            reveal_with_fuel(name_code_upto, 15);
            reveal_strlit("CREATE2");
        }
    } else if i == 145 {
        assert(listed_with_code(name_code(spec_opcode(145).mnemonic@)) == 145) by {
            reveal_with_fuel(name_code_upto, 15);
            reveal_strlit("STATICCALL");
        }
    } else if i == 146 {
        assert(listed_with_code(name_code(spec_opcode(146).mnemonic@)) == 146) by {
            reveal_with_fuel(name_code_upto, 15);
            reveal_strlit("REVERT");
        }
    } else if i == 147 {
        assert(listed_with_code(name_code(spec_opcode(147).mnemonic@)) == 147) by {
            reveal_with_fuel(name_code_upto, 15);
            reveal_strlit("INVALID");
        }
    } else if i == 148 {
        assert(listed_with_code(name_code(spec_opcode(148).mnemonic@)) == 148) by {
            reveal_with_fuel(name_code_upto, 15);
            reveal_strlit("SELFDESTRUCT");
        }
    }
}

/// Each entry's mnemonic has its own code, recovered by
/// [`listed_with_code`].
proof fn lemma_name_codes_identify_entries(i: int)
    requires
        0 <= i < OPCODE_COUNT,
    ensures
        listed_with_code(name_code(spec_opcode(i).mnemonic@)) == i,
{
    if i < 25 {
        lemma_codes_from_0(i);
    } else if i < 50 {
        lemma_codes_from_25(i);
    } else if i < 75 {
        lemma_codes_from_50(i);
    } else if i < 100 {
        lemma_codes_from_75(i);
    } else if i < 125 {
        lemma_codes_from_100(i);
    } else {
        lemma_codes_from_125(i);
    }
}

/// No two entries of the table share a mnemonic.
pub proof fn lemma_mnemonics_are_unique(i: int, j: int)
    requires
        0 <= i < OPCODE_COUNT,
        0 <= j < OPCODE_COUNT,
        spec_opcode(i).mnemonic@ == spec_opcode(j).mnemonic@,
    ensures
        i == j,
{
    lemma_name_codes_identify_entries(i);
    lemma_name_codes_identify_entries(j);
}

} // verus!
