//! Laws of the assembler, stated over the reference semantics of
//! [`crate::model`] and proved once and for all.
use vstd::prelude::*;
use crate::lex::{skip_sp, wend, parse_i32_s, lemma_skip_sp_bounds};
use crate::encode::{emit_i_s, emit_j_s, reemit_i_s, reemit_j_s, off16_s};
use crate::model::{
    AsmErrorKind, RelocKind, AsmState, parse_imm_s, line_step, strip_comment, asm_prefix,
    lookup_label, resolve_from, asm_lines_s,
};

verus! {

/// Patching a branch placeholder stores exactly the instruction-index
/// displacement `target - source`, two's-complement in the low 16 bits,
/// and leaves the opcode/rs/rt bits untouched.
pub proof fn lemma_branch_patch(op: u32, rs: u32, rt: u32, target: int, source: int)
    ensures
        ({
            let w = emit_i_s(op, rs, rt, 0);
            let p = reemit_i_s(w, off16_s(target, source));
            &&& p & 0xFFFF == (target - source) % 0x10000
            &&& p >> 16 == w >> 16
        }),
{
    let w = emit_i_s(op, rs, rt, 0);
    let off = off16_s(target, source);
    vstd::arithmetic::div_mod::lemma_mod_bound(target - source, 0x10000);
    assert(off == (target - source) % 0x10000);
    assert((((op << 26) | (rs << 21) | (rt << 16) | (0u32 & 0xFFFF)) & 0xFFFF) == 0u32)
        by (bit_vector);
    assert(off < 0x10000 && w & 0xFFFF == 0 ==> ((w | (off & 0xFFFF)) & 0xFFFF == off && (w | (off
        & 0xFFFF)) >> 16 == w >> 16)) by (bit_vector);
}

/// Patching a jump placeholder stores the target instruction index in the
/// low 26 bits and preserves the opcode's high 6 bits.
pub proof fn lemma_jump_patch(op: u32, target: int)
    requires
        0 <= target < 0x400_0000,
    ensures
        ({
            let w = emit_j_s(op, 0);
            let p = reemit_j_s(w, ((target % 0x1_0000_0000) as u32));
            &&& p & 0x3FF_FFFF == target
            &&& p >> 26 == w >> 26
        }),
{
    let w = emit_j_s(op, 0);
    vstd::arithmetic::div_mod::lemma_small_mod(target as nat, 0x1_0000_0000nat);
    let a = ((target % 0x1_0000_0000) as u32);
    assert(a < 0x400_0000);
    assert(a < 0x400_0000 ==> ((((op << 26) | (0u32 & 0x3FFFFFF)) & 0xFFFF_FFC0) | a) & 0x3FF_FFFF
        == a) by (bit_vector);
    assert(a < 0x400_0000 ==> (((((op << 26) | (0u32 & 0x3FFFFFF)) & 0xFFFF_FFC0) | a) >> 26) == ((
    op << 26) | (0u32 & 0x3FFFFFF)) >> 26) by (bit_vector);
}

/// Resolution succeeds exactly when every pending relocation from `i` on
/// references a defined label.
pub proof fn lemma_resolve_ok_iff(
    instrs: Seq<u32>,
    labels: Seq<(Seq<char>, int)>,
    relocs: Seq<(int, Seq<char>, RelocKind)>,
    i: int,
)
    requires
        0 <= i,
    ensures
        resolve_from(instrs, labels, relocs, i) is Some <==> (forall|j: int|
            i <= j < relocs.len() ==> lookup_label(labels, (#[trigger] relocs[j]).1) is Some),
    decreases relocs.len() - i,
{
    if i < relocs.len() {
        let (idx, name, kind) = relocs[i];
        match lookup_label(labels, name) {
            None => {
                assert(lookup_label(labels, relocs[i].1) is None);
            },
            Some(pos) => {
                let w = instrs[idx];
                let w2 = match kind {
                    RelocKind::Branch => reemit_i_s(w, off16_s(pos, idx)),
                    RelocKind::Jump => reemit_j_s(w, ((pos % 0x1_0000_0000) as u32)),
                };
                lemma_resolve_ok_iff(instrs.update(idx, w2), labels, relocs, i + 1);
            },
        }
    }
}

/// Referencing an undefined label anywhere makes the whole assembly fail
/// with a label-not-found error; an `Err` outcome carries no output words.
pub proof fn lemma_undefined_label_fails(lines: Seq<Seq<char>>)
    requires
        ({
            &&& asm_prefix(lines, lines.len() as int) is Ok
            &&& match asm_prefix(lines, lines.len() as int) {
                Ok(st) => exists|j: int|
                    0 <= j < st.relocs.len() && lookup_label(
                        st.labels,
                        (#[trigger] st.relocs[j]).1,
                    ) is None,
                Err(_) => false,
            }
        }),
    ensures
        asm_lines_s(lines) is Err,
        match asm_lines_s(lines) {
            Ok(_) => false,
            Err((k, row, col)) => k == AsmErrorKind::LabelNotFound,
        },
{
    match asm_prefix(lines, lines.len() as int) {
        Ok(st) => {
            lemma_resolve_ok_iff(st.instrs, st.labels, st.relocs, 0);
        },
        Err(_) => {},
    }
}

/// A bounded immediate parse returns a value within its bounds; a word
/// that reads as an integer outside them fails with a range error, and
/// one that does not read as an integer at all with an invalid-immediate
/// error.
/// What [`lemma_imm_range`] states of one immediate parse: where the word
/// reads as an integer, the parse succeeds exactly on the values within
/// `[lo, hi]`, fails with a range error outside them, and fails with an
/// invalid-immediate error where the word is no integer at all.
pub open spec fn imm_range_law(line: Seq<char>, col: int, lo: int, hi: int) -> bool {
    let s = skip_sp(line, col);
    let e = wend(line, s);
    e > s ==> match parse_i32_s(line.subrange(s, e)) {
        Some(v) => if lo <= v && v <= hi {
            parse_imm_s(line, col, lo, hi) == Ok::<(int, int), (AsmErrorKind, int)>((v, e))
        } else {
            parse_imm_s(line, col, lo, hi) == Err::<(int, int), (AsmErrorKind, int)>(
                (AsmErrorKind::ImmOutOfRange, e),
            )
        },
        None => parse_imm_s(line, col, lo, hi) == Err::<(int, int), (AsmErrorKind, int)>(
            (AsmErrorKind::InvalidImm, e),
        ),
    }
}

pub proof fn lemma_imm_range(line: Seq<char>, col: int, lo: int, hi: int)
    ensures
        (match parse_imm_s(line, col, lo, hi) {
            Ok((v, c)) => lo <= v <= hi,
            Err(_) => true,
        }),
        imm_range_law(line, col, lo, hi),
{
}

/// A line that is blank after comment stripping leaves the emitted words,
/// the label table and the pending relocations unchanged.
pub proof fn lemma_blank_line(st: AsmState, line: Seq<char>, row: int)
    requires
        skip_sp(line, 0) == line.len(),
    ensures
        line_step(st, line, row) is Ok,
        match line_step(st, line, row) {
            Ok(st2) => st2.instrs == st.instrs && st2.labels == st.labels && st2.relocs
                == st.relocs,
            Err(_) => false,
        },
{
    lemma_skip_sp_bounds(line, 0);
    assert(wend(line, line.len() as int) == line.len() as int);
}

/// A line whose text is entirely a comment is skipped outright by the
/// first pass.
pub proof fn lemma_comment_line(lines: Seq<Seq<char>>, n: int)
    requires
        0 <= n < lines.len(),
        strip_comment(lines[n]).len() == 0,
    ensures
        asm_prefix(lines, n + 1) == asm_prefix(lines, n),
{
}

} // verus!
