//! The read-only mnemonic and register tables, as word-lookup functions.
//!
//! A mnemonic appears in at most one table; the driver tries the tables in a
//! fixed shape order (R-ALU, I-ALU-immediate, I-branch, I-load/store, J-jump,
//! R-jump-register) and falls back to reading the word as a label definition.
use vstd::prelude::*;

verus! {

pub open spec fn eq1_s(w: Seq<char>, a: char) -> bool {
    w.len() == 1 && w[0] == a
}

pub open spec fn eq2_s(w: Seq<char>, a: char, b: char) -> bool {
    w.len() == 2 && w[0] == a && w[1] == b
}

pub open spec fn eq3_s(w: Seq<char>, a: char, b: char, c: char) -> bool {
    w.len() == 3 && w[0] == a && w[1] == b && w[2] == c
}

pub open spec fn eq4_s(w: Seq<char>, a: char, b: char, c: char, d: char) -> bool {
    w.len() == 4 && w[0] == a && w[1] == b && w[2] == c && w[3] == d
}

pub open spec fn eq5_s(w: Seq<char>, a: char, b: char, c: char, d: char, e: char) -> bool {
    w.len() == 5 && w[0] == a && w[1] == b && w[2] == c && w[3] == d && w[4] == e
}

pub open spec fn eq6_s(w: Seq<char>, a: char, b: char, c: char, d: char, e: char, f: char) -> bool {
    w.len() == 6 && w[0] == a && w[1] == b && w[2] == c && w[3] == d && w[4] == e && w[5] == f
}

fn weq1(w: &Vec<char>, a: char) -> (r: bool)
    ensures
        r == eq1_s(w@, a),
{
    w.len() == 1 && w[0] == a
}

fn weq2(w: &Vec<char>, a: char, b: char) -> (r: bool)
    ensures
        r == eq2_s(w@, a, b),
{
    w.len() == 2 && w[0] == a && w[1] == b
}

fn weq3(w: &Vec<char>, a: char, b: char, c: char) -> (r: bool)
    ensures
        r == eq3_s(w@, a, b, c),
{
    w.len() == 3 && w[0] == a && w[1] == b && w[2] == c
}

fn weq4(w: &Vec<char>, a: char, b: char, c: char, d: char) -> (r: bool)
    ensures
        r == eq4_s(w@, a, b, c, d),
{
    w.len() == 4 && w[0] == a && w[1] == b && w[2] == c && w[3] == d
}

fn weq5(w: &Vec<char>, a: char, b: char, c: char, d: char, e: char) -> (r: bool)
    ensures
        r == eq5_s(w@, a, b, c, d, e),
{
    w.len() == 5 && w[0] == a && w[1] == b && w[2] == c && w[3] == d && w[4] == e
}

fn weq6(w: &Vec<char>, a: char, b: char, c: char, d: char, e: char, f: char) -> (r: bool)
    ensures
        r == eq6_s(w@, a, b, c, d, e, f),
{
    w.len() == 6 && w[0] == a && w[1] == b && w[2] == c && w[3] == d && w[4] == e && w[5] == f
}

/// R-type ALU mnemonics and their funct codes.
pub open spec fn alu_r_funct_s(w: Seq<char>) -> Option<u32> {
    if eq3_s(w, 'a', 'd', 'd') {
        Some(32u32)
    } else if eq4_s(w, 'a', 'd', 'd', 'u') {
        Some(33u32)
    } else if eq3_s(w, 's', 'u', 'b') {
        Some(34u32)
    } else if eq4_s(w, 's', 'u', 'b', 'u') {
        Some(35u32)
    } else if eq3_s(w, 'a', 'n', 'd') {
        Some(36u32)
    } else if eq2_s(w, 'o', 'r') {
        Some(37u32)
    } else if eq3_s(w, 'x', 'o', 'r') {
        Some(38u32)
    } else if eq3_s(w, 'n', 'o', 'r') {
        Some(39u32)
    } else if eq3_s(w, 's', 'l', 't') {
        Some(42u32)
    } else if eq4_s(w, 's', 'l', 't', 'u') {
        Some(43u32)
    } else {
        None
    }
}

pub fn alu_r_lookup(w: &Vec<char>) -> (r: Option<u32>)
    ensures
        r == alu_r_funct_s(w@),
{
    if weq3(w, 'a', 'd', 'd') {
        Some(32)
    } else if weq4(w, 'a', 'd', 'd', 'u') {
        Some(33)
    } else if weq3(w, 's', 'u', 'b') {
        Some(34)
    } else if weq4(w, 's', 'u', 'b', 'u') {
        Some(35)
    } else if weq3(w, 'a', 'n', 'd') {
        Some(36)
    } else if weq2(w, 'o', 'r') {
        Some(37)
    } else if weq3(w, 'x', 'o', 'r') {
        Some(38)
    } else if weq3(w, 'n', 'o', 'r') {
        Some(39)
    } else if weq3(w, 's', 'l', 't') {
        Some(42)
    } else if weq4(w, 's', 'l', 't', 'u') {
        Some(43)
    } else {
        None
    }
}

/// I-type ALU-immediate mnemonics and their opcodes.
pub open spec fn alu_i_opcode_s(w: Seq<char>) -> Option<u32> {
    if eq4_s(w, 'a', 'd', 'd', 'i') {
        Some(8u32)
    } else if eq5_s(w, 'a', 'd', 'd', 'i', 'u') {
        Some(9u32)
    } else if eq4_s(w, 's', 'l', 't', 'i') {
        Some(10u32)
    } else if eq5_s(w, 's', 'l', 't', 'i', 'u') {
        Some(11u32)
    } else if eq4_s(w, 'a', 'n', 'd', 'i') {
        Some(12u32)
    } else if eq3_s(w, 'o', 'r', 'i') {
        Some(13u32)
    } else if eq4_s(w, 'x', 'o', 'r', 'i') {
        Some(14u32)
    } else if eq3_s(w, 'l', 'u', 'i') {
        Some(15u32)
    } else {
        None
    }
}

pub fn alu_i_lookup(w: &Vec<char>) -> (r: Option<u32>)
    ensures
        r == alu_i_opcode_s(w@),
{
    if weq4(w, 'a', 'd', 'd', 'i') {
        Some(8)
    } else if weq5(w, 'a', 'd', 'd', 'i', 'u') {
        Some(9)
    } else if weq4(w, 's', 'l', 't', 'i') {
        Some(10)
    } else if weq5(w, 's', 'l', 't', 'i', 'u') {
        Some(11)
    } else if weq4(w, 'a', 'n', 'd', 'i') {
        Some(12)
    } else if weq3(w, 'o', 'r', 'i') {
        Some(13)
    } else if weq4(w, 'x', 'o', 'r', 'i') {
        Some(14)
    } else if weq3(w, 'l', 'u', 'i') {
        Some(15)
    } else {
        None
    }
}

/// I-type branch mnemonics and their opcodes.
pub open spec fn branch_opcode_s(w: Seq<char>) -> Option<u32> {
    if eq3_s(w, 'b', 'e', 'q') {
        Some(4u32)
    } else if eq3_s(w, 'b', 'n', 'e') {
        Some(5u32)
    } else if eq4_s(w, 'b', 'l', 'e', 'z') {
        Some(6u32)
    } else if eq4_s(w, 'b', 'g', 't', 'z') {
        Some(7u32)
    } else {
        None
    }
}

pub fn branch_lookup(w: &Vec<char>) -> (r: Option<u32>)
    ensures
        r == branch_opcode_s(w@),
{
    if weq3(w, 'b', 'e', 'q') {
        Some(4)
    } else if weq3(w, 'b', 'n', 'e') {
        Some(5)
    } else if weq4(w, 'b', 'l', 'e', 'z') {
        Some(6)
    } else if weq4(w, 'b', 'g', 't', 'z') {
        Some(7)
    } else {
        None
    }
}

/// I-type load/store mnemonics and their opcodes.
pub open spec fn load_store_opcode_s(w: Seq<char>) -> Option<u32> {
    if eq2_s(w, 's', 'w') {
        Some(43u32)
    } else if eq2_s(w, 'l', 'w') {
        Some(35u32)
    } else {
        None
    }
}

pub fn load_store_lookup(w: &Vec<char>) -> (r: Option<u32>)
    ensures
        r == load_store_opcode_s(w@),
{
    if weq2(w, 's', 'w') {
        Some(43)
    } else if weq2(w, 'l', 'w') {
        Some(35)
    } else {
        None
    }
}

/// J-type jump mnemonics and their opcodes.
pub open spec fn jump_j_opcode_s(w: Seq<char>) -> Option<u32> {
    if eq1_s(w, 'j') {
        Some(2u32)
    } else if eq3_s(w, 'j', 'a', 'l') {
        Some(3u32)
    } else {
        None
    }
}

pub fn jump_j_lookup(w: &Vec<char>) -> (r: Option<u32>)
    ensures
        r == jump_j_opcode_s(w@),
{
    if weq1(w, 'j') {
        Some(2)
    } else if weq3(w, 'j', 'a', 'l') {
        Some(3)
    } else {
        None
    }
}

/// R-type jump-register mnemonics and their funct codes.
pub open spec fn jump_r_funct_s(w: Seq<char>) -> Option<u32> {
    if eq2_s(w, 'j', 'r') {
        Some(8u32)
    } else if eq4_s(w, 'j', 'a', 'l', 'r') {
        Some(9u32)
    } else {
        None
    }
}

pub fn jump_r_lookup(w: &Vec<char>) -> (r: Option<u32>)
    ensures
        r == jump_r_funct_s(w@),
{
    if weq2(w, 'j', 'r') {
        Some(8)
    } else if weq4(w, 'j', 'a', 'l', 'r') {
        Some(9)
    } else {
        None
    }
}

/// The directive keywords, recognized and ignored.
pub open spec fn is_directive_s(w: Seq<char>) -> bool {
    ||| eq5_s(w, '.', 'd', 'a', 't', 'a')
    ||| eq5_s(w, '.', 'c', 'o', 'd', 'e')
    ||| eq5_s(w, '.', 't', 'e', 'x', 't')
    ||| eq6_s(w, '.', 'g', 'l', 'o', 'b', 'l')
}

pub fn is_directive(w: &Vec<char>) -> (r: bool)
    ensures
        r == is_directive_s(w@),
{
    weq5(w, '.', 'd', 'a', 't', 'a') || weq5(w, '.', 'c', 'o', 'd', 'e')
        || weq5(w, '.', 't', 'e', 'x', 't') || weq6(w, '.', 'g', 'l', 'o', 'b', 'l')
}

/// Index of a two-character symbolic register name, or `None`.
pub open spec fn two_char_reg_s(a: char, b: char) -> Option<u32> {
    let d = b as u32;
    if a == 'a' && b == 't' {
        Some(1u32)
    } else if a == 'v' && 0x30 <= d && d <= 0x31 {
        Some((2 + (d - 0x30)) as u32)
    } else if a == 'a' && 0x30 <= d && d <= 0x33 {
        Some((4 + (d - 0x30)) as u32)
    } else if a == 't' && 0x30 <= d && d <= 0x37 {
        Some((8 + (d - 0x30)) as u32)
    } else if a == 't' && 0x38 <= d && d <= 0x39 {
        Some((16 + (d - 0x30)) as u32)
    } else if a == 's' && 0x30 <= d && d <= 0x37 {
        Some((16 + (d - 0x30)) as u32)
    } else if a == 'k' && 0x30 <= d && d <= 0x31 {
        Some((26 + (d - 0x30)) as u32)
    } else if a == 'g' && b == 'p' {
        Some(28u32)
    } else if a == 's' && b == 'p' {
        Some(29u32)
    } else if a == 'f' && b == 'p' {
        Some(30u32)
    } else if a == 'r' && b == 'a' {
        Some(31u32)
    } else {
        None
    }
}

/// The register table: 32 fixed symbolic names mapped to indices 0 - 31,
/// case-sensitive exact match.
pub open spec fn reg_index_s(w: Seq<char>) -> Option<u32> {
    if eq4_s(w, 'Z', 'E', 'R', 'O') {
        Some(0u32)
    } else if w.len() == 2 {
        two_char_reg_s(w[0], w[1])
    } else {
        None
    }
}

pub fn reg_lookup(w: &Vec<char>) -> (r: Option<u32>)
    ensures
        r == reg_index_s(w@),
{
    if weq4(w, 'Z', 'E', 'R', 'O') {
        Some(0)
    } else if w.len() == 2 {
        let a = w[0];
        let b = w[1];
        let d = b as u32;
        if a == 'a' && b == 't' {
            Some(1)
        } else if a == 'v' && 0x30 <= d && d <= 0x31 {
            Some(2 + (d - 0x30))
        } else if a == 'a' && 0x30 <= d && d <= 0x33 {
            Some(4 + (d - 0x30))
        } else if a == 't' && 0x30 <= d && d <= 0x37 {
            Some(8 + (d - 0x30))
        } else if a == 't' && 0x38 <= d && d <= 0x39 {
            Some(16 + (d - 0x30))
        } else if a == 's' && 0x30 <= d && d <= 0x37 {
            Some(16 + (d - 0x30))
        } else if a == 'k' && 0x30 <= d && d <= 0x31 {
            Some(26 + (d - 0x30))
        } else if a == 'g' && b == 'p' {
            Some(28)
        } else if a == 's' && b == 'p' {
            Some(29)
        } else if a == 'f' && b == 'p' {
            Some(30)
        } else if a == 'r' && b == 'a' {
            Some(31)
        } else {
            None
        }
    } else {
        None
    }
}

} // verus!
