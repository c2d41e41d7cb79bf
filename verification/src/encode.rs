//! Bit-field encoders for the three instruction layouts, and the re-emit
//! functions that patch only the address/offset field of an existing word.
use vstd::prelude::*;

verus! {

/// R-type layout: `opcode | rs | rt | rd | shamt | funct`.
pub open spec fn emit_r_s(op: u32, source: u32, target: u32, dest: u32, shamt: u32, funct: u32) -> u32 {
    (op << 26) | (source << 21) | (target << 16) | (dest << 11) | (shamt << 6) | funct
}

/// I-type layout: `opcode | rs | rt | imm16`.
pub open spec fn emit_i_s(op: u32, source: u32, target: u32, imm: u32) -> u32 {
    (op << 26) | (source << 21) | (target << 16) | (imm & 0xFFFF)
}

/// J-type layout: `opcode | addr26`.
pub open spec fn emit_j_s(op: u32, addr: u32) -> u32 {
    (op << 26) | (addr & 0x3FFFFFF)
}

/// Patch of a branch word: the offset lands in the low 16 bits by `or`,
/// leaving the already-emitted opcode/rs/rt bits untouched.
pub open spec fn reemit_i_s(instr: u32, offset: u32) -> u32 {
    instr | (offset & 0xFFFF)
}

/// Patch of a jump word: the low 6 bits are cleared, then the address is
/// `or`-ed in; the placeholder address was zero, so the opcode bits stay.
pub open spec fn reemit_j_s(instr: u32, addr: u32) -> u32 {
    (instr & 0xFFFF_FFC0) | addr
}

/// The low 16 bits of the branch displacement `target - source`, as the
/// two's-complement field value.  The displacement is a count of
/// instructions, not bytes, with no next-instruction bias.
pub open spec fn off16_s(target: int, source: int) -> u32 {
    (((target - source) % 0x10000) as u32)
}

pub fn EmitFormatR(opCode: u32, source: u32, target: u32, dest: u32, shamt: u32, funct: u32) -> (r:
    u32)
    ensures
        r == emit_r_s(opCode, source, target, dest, shamt, funct),
{
    opCode << 26 | source << 21 | target << 16 | dest << 11 | shamt << 6 | funct
}

pub fn EmitFormatI(opCode: u32, source: u32, target: u32, imm: u32) -> (r: u32)
    ensures
        r == emit_i_s(opCode, source, target, imm),
{
    opCode << 26 | source << 21 | target << 16 | (imm & 0xFFFF)
}

pub fn EmitFormatJ(opCode: u32, addr: u32) -> (r: u32)
    ensures
        r == emit_j_s(opCode, addr),
{
    opCode << 26 | (addr & 0x3FFFFFF)
}

pub fn ReemitFormatI(instr: u32, offset: u32) -> (r: u32)
    ensures
        r == reemit_i_s(instr, offset),
{
    instr | (offset & 0xFFFF)
}

pub fn ReemitFormatJ(instr: u32, addr: u32) -> (r: u32)
    ensures
        r == reemit_j_s(instr, addr),
{
    (instr & 0xFFFF_FFC0) | addr
}

/// The 16-bit field value of a signed immediate: its two's-complement
/// low 16 bits.
pub fn imm_field(v: i16) -> (r: u32)
    ensures
        r == (((v as int) % 0x10000) as u32),
{
    if v >= 0 {
        proof {
            vstd::arithmetic::div_mod::lemma_small_mod(v as nat, 0x10000nat);
        }
        v as u32
    } else {
        proof {
            vstd::arithmetic::div_mod::lemma_mod_multiples_vanish(1, v as int, 0x10000int);
            vstd::arithmetic::div_mod::lemma_small_mod((v + 0x10000) as nat, 0x10000nat);
        }
        (v as i32 + 0x10000) as u32
    }
}

/// Computes [`off16_s`] on machine integers.
pub fn off16(target: usize, source: usize) -> (r: u32)
    ensures
        r == off16_s(target as int, source as int),
{
    if target >= source {
        let d = (target - source) % 0x10000;
        proof {
            assert(0 <= d < 0x10000);
        }
        d as u32
    } else {
        let a = (source - target) % 0x10000;
        let r = (0x10000 - a) % 0x10000;
        proof {
            let t = target as int;
            let s = source as int;
            let m = 0x10000int;
            vstd::arithmetic::div_mod::lemma_fundamental_div_mod(s - t, m);
            let q = (s - t) / m;
            assert(s - t == q * m + a);
            assert(t - s == (-q) * m - a) by (nonlinear_arith)
                requires s - t == q * m + a;
            assert(t - s == (-q - 1) * m + (m - a)) by (nonlinear_arith)
                requires t - s == (-q) * m - a;
            vstd::arithmetic::div_mod::lemma_mod_multiples_vanish(-q - 1, m - a, m);
            assert((t - s) % m == (m - a) % m);
            if a == 0 {
                vstd::arithmetic::div_mod::lemma_mod_self_0(m);
            } else {
                vstd::arithmetic::div_mod::lemma_small_mod((m - a) as nat, m as nat);
            }
        }
        r as u32
    }
}

} // verus!
