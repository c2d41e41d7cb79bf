//! The reference semantics of the assembler: spec functions giving, for any
//! input, the exact word sequence or the first positioned error.  The
//! executable pipeline in [`crate::assembler`] is proved to return precisely
//! [`asm_lines_s`] (or [`asm_str_s`]) of its input.
use vstd::prelude::*;
use crate::lex::{is_digit_c, skip_sp, wend, hash_pos, parse_u32_s, parse_i32_s};
use crate::tables::{
    alu_r_funct_s, alu_i_opcode_s, branch_opcode_s, load_store_opcode_s, jump_j_opcode_s,
    jump_r_funct_s, is_directive_s, reg_index_s,
};
use crate::encode::{emit_r_s, emit_i_s, emit_j_s, reemit_i_s, reemit_j_s, off16_s};

verus! {

/// The error kinds, each positioned at a 0-based line and column.
#[derive(Clone, Copy, PartialEq, Eq, Debug)]
pub enum AsmErrorKind {
    /// A `$`-register written as digits that `u32` parsing rejects.
    InvalidRegister,
    /// A symbolic register name absent from the register table.
    RegisterNotFound,
    /// Line ended where a register name was required.
    RegisterExpected,
    /// An immediate word that is not a decimal integer literal.
    InvalidImm,
    /// An immediate literal outside the permitted range.
    ImmOutOfRange,
    /// Line ended where an immediate was required.
    ImmExpected,
    /// A required punctuation character (`,`, `(`, `)`, `:`, `$`) is missing.
    ExpectedChar(char),
    /// Non-whitespace text after a jump's label operand.
    TrailingTokens,
    /// Line ended where a branch's label operand was required.
    LabelExpected,
    /// A word that is no mnemonic and is not followed by `:`.
    UnknownInstruction,
    /// A relocation references a label never defined.
    LabelNotFound,
    /// A load/store offset position holding neither digits nor `(`.
    InvalidCharacter,
}

/// Which field of a placeholder word a relocation patches.
#[derive(Clone, Copy, PartialEq, Eq, Debug)]
pub enum RelocKind {
    /// Low 16 bits take `target index - source index`.
    Branch,
    /// Low 26 bits take the target index.
    Jump,
}

/// The driver's accumulated state: emitted words, label definitions,
/// pending relocations, and the cursor's row/column.
pub ghost struct AsmState {
    pub instrs: Seq<u32>,
    pub labels: Seq<(Seq<char>, int)>,
    pub relocs: Seq<(int, Seq<char>, RelocKind)>,
    pub row: int,
    pub col: int,
}

pub open spec fn init_state() -> AsmState {
    AsmState {
        instrs: Seq::empty(),
        labels: Seq::empty(),
        relocs: Seq::empty(),
        row: 0,
        col: 0,
    }
}

/// Skip spaces, then require exactly the character `c`; on success the
/// column stands after it, on failure at the offending position.
pub open spec fn expect_s(line: Seq<char>, col: int, c: char) -> Result<int, (AsmErrorKind, int)> {
    let s = skip_sp(line, col);
    if s < line.len() && line[s] == c {
        Ok(s + 1)
    } else {
        Err((AsmErrorKind::ExpectedChar(c), s))
    }
}

/// Register operand: `$` then either a decimal literal (no range check) or
/// a symbolic name looked up in the register table.
pub open spec fn parse_reg_s(line: Seq<char>, col: int) -> Result<(u32, int), (AsmErrorKind, int)> {
    match expect_s(line, col, '$') {
        Err(e) => Err(e),
        Ok(c1) => {
            if c1 < line.len() && is_digit_c(line[c1]) {
                let e = wend(line, c1);
                let w = line.subrange(c1, e);
                match parse_u32_s(w) {
                    Some(v) => Ok(((v as u32), e)),
                    None => Err((AsmErrorKind::InvalidRegister, e)),
                }
            } else if c1 < line.len() {
                let s = skip_sp(line, c1);
                let e = wend(line, s);
                if e == s {
                    Err((AsmErrorKind::RegisterNotFound, s))
                } else {
                    let w = line.subrange(s, e);
                    match reg_index_s(w) {
                        Some(v) => Ok((v, e)),
                        None => Err((AsmErrorKind::RegisterNotFound, e)),
                    }
                }
            } else {
                Err((AsmErrorKind::RegisterExpected, c1))
            }
        },
    }
}

/// Bounded signed immediate: a word parsed as a base-10 `i32`, required to
/// lie within `[lo, hi]`.
pub open spec fn parse_imm_s(line: Seq<char>, col: int, lo: int, hi: int) -> Result<
    (int, int),
    (AsmErrorKind, int),
> {
    let s = skip_sp(line, col);
    let e = wend(line, s);
    if e == s {
        Err((AsmErrorKind::ImmExpected, s))
    } else {
        let w = line.subrange(s, e);
        match parse_i32_s(w) {
            None => Err((AsmErrorKind::InvalidImm, e)),
            Some(v) => if v > hi || v < lo {
                Err((AsmErrorKind::ImmOutOfRange, e))
            } else {
                Ok((v, e))
            },
        }
    }
}

/// Only whitespace may remain on the line.
pub open spec fn ensure_end_s(line: Seq<char>, col: int) -> Result<int, (AsmErrorKind, int)> {
    let s = skip_sp(line, col);
    if s == line.len() {
        Ok(s)
    } else {
        Err((AsmErrorKind::TrailingTokens, s))
    }
}

/// `op rd, rs, rt` with opcode 0 and the table's funct code.
pub open spec fn step_alu_r(st: AsmState, line: Seq<char>, col: int, row: int, funct: u32) -> Result<
    AsmState,
    (AsmErrorKind, int),
> {
    match parse_reg_s(line, col) {
        Err(e) => Err(e),
        Ok((rd, c1)) => match expect_s(line, c1, ',') {
            Err(e) => Err(e),
            Ok(c2) => match parse_reg_s(line, c2) {
                Err(e) => Err(e),
                Ok((rs, c3)) => match expect_s(line, c3, ',') {
                    Err(e) => Err(e),
                    Ok(c4) => match parse_reg_s(line, c4) {
                        Err(e) => Err(e),
                        Ok((rt, c5)) => Ok(
                            AsmState {
                                instrs: st.instrs.push(emit_r_s(0, rs, rt, rd, 0, funct)),
                                row,
                                col: c5,
                                ..st
                            },
                        ),
                    },
                },
            },
        },
    }
}

/// `op rd, rs, imm16` with the table's opcode.
pub open spec fn step_alu_i(st: AsmState, line: Seq<char>, col: int, row: int, op: u32) -> Result<
    AsmState,
    (AsmErrorKind, int),
> {
    match parse_reg_s(line, col) {
        Err(e) => Err(e),
        Ok((rd, c1)) => match expect_s(line, c1, ',') {
            Err(e) => Err(e),
            Ok(c2) => match parse_reg_s(line, c2) {
                Err(e) => Err(e),
                Ok((rs, c3)) => match expect_s(line, c3, ',') {
                    Err(e) => Err(e),
                    Ok(c4) => match parse_imm_s(line, c4, -32768, 32767) {
                        Err(e) => Err(e),
                        Ok((v, c5)) => Ok(
                            AsmState {
                                instrs: st.instrs.push(
                                    emit_i_s(op, rs, rd, ((v % 0x10000) as u32)),
                                ),
                                row,
                                col: c5,
                                ..st
                            },
                        ),
                    },
                },
            },
        },
    }
}

/// `op rs, rt, label`: a placeholder word with immediate 0 and a pending
/// branch-relative relocation.
pub open spec fn step_branch(st: AsmState, line: Seq<char>, col: int, row: int, op: u32) -> Result<
    AsmState,
    (AsmErrorKind, int),
> {
    match parse_reg_s(line, col) {
        Err(e) => Err(e),
        Ok((rs, c1)) => match expect_s(line, c1, ',') {
            Err(e) => Err(e),
            Ok(c2) => match parse_reg_s(line, c2) {
                Err(e) => Err(e),
                Ok((rt, c3)) => match expect_s(line, c3, ',') {
                    Err(e) => Err(e),
                    Ok(c4) => {
                        let s = skip_sp(line, c4);
                        let e = wend(line, s);
                        if e == s {
                            Err((AsmErrorKind::LabelExpected, s))
                        } else {
                            Ok(
                                AsmState {
                                    instrs: st.instrs.push(emit_i_s(op, rs, rt, 0)),
                                    relocs: st.relocs.push(
                                        (
                                            st.instrs.len() as int,
                                            line.subrange(s, e),
                                            RelocKind::Branch,
                                        ),
                                    ),
                                    row,
                                    col: e,
                                    ..st
                                },
                            )
                        }
                    },
                },
            },
        },
    }
}

/// The tail of a load/store after the offset is known: `( rs )`.
pub open spec fn step_ls_rest(
    st: AsmState,
    line: Seq<char>,
    col: int,
    row: int,
    op: u32,
    rt: u32,
    off: int,
) -> Result<AsmState, (AsmErrorKind, int)> {
    match expect_s(line, col, '(') {
        Err(e) => Err(e),
        Ok(c1) => match parse_reg_s(line, c1) {
            Err(e) => Err(e),
            Ok((rs, c2)) => match expect_s(line, c2, ')') {
                Err(e) => Err(e),
                Ok(c3) => Ok(
                    AsmState {
                        instrs: st.instrs.push(emit_i_s(op, rs, rt, ((off % 0x10000) as u32))),
                        row,
                        col: c3,
                        ..st
                    },
                ),
            },
        },
    }
}

/// `op rt, offset(rs)` or `op rt, (rs)`: the offset defaults to 0 when a
/// `(` follows immediately in place of digits.
pub open spec fn step_load_store(st: AsmState, line: Seq<char>, col: int, row: int, op: u32) -> Result<
    AsmState,
    (AsmErrorKind, int),
> {
    match parse_reg_s(line, col) {
        Err(e) => Err(e),
        Ok((rt, c1)) => match expect_s(line, c1, ',') {
            Err(e) => Err(e),
            Ok(c2) => {
                let s = skip_sp(line, c2);
                if s < line.len() && is_digit_c(line[s]) {
                    match parse_imm_s(line, s, -32768, 32767) {
                        Err(e) => Err(e),
                        Ok((v, c3)) => step_ls_rest(st, line, c3, row, op, rt, v),
                    }
                } else if s < line.len() && line[s] == '(' {
                    step_ls_rest(st, line, s, row, op, rt, 0)
                } else {
                    Err((AsmErrorKind::InvalidCharacter, s))
                }
            },
        },
    }
}

/// `op label`: a placeholder word with address 0 and a pending
/// jump-absolute relocation; nothing may follow the label.  A jump with no
/// label token at all is silently ignored.
pub open spec fn step_jump_j(st: AsmState, line: Seq<char>, col: int, row: int, op: u32) -> Result<
    AsmState,
    (AsmErrorKind, int),
> {
    let s = skip_sp(line, col);
    let e = wend(line, s);
    if e == s {
        Ok(AsmState { row, col: s, ..st })
    } else {
        match ensure_end_s(line, e) {
            Err(er) => Err(er),
            Ok(c2) => Ok(
                AsmState {
                    instrs: st.instrs.push(emit_j_s(op, 0)),
                    relocs: st.relocs.push(
                        (st.instrs.len() as int, line.subrange(s, e), RelocKind::Jump),
                    ),
                    row,
                    col: c2,
                    ..st
                },
            ),
        }
    }
}

/// `op rs` with opcode 0 and the table's funct code.
pub open spec fn step_jump_r(st: AsmState, line: Seq<char>, col: int, row: int, funct: u32) -> Result<
    AsmState,
    (AsmErrorKind, int),
> {
    match parse_reg_s(line, col) {
        Err(e) => Err(e),
        Ok((rs, c1)) => Ok(
            AsmState {
                instrs: st.instrs.push(emit_r_s(0, rs, 0, 0, 0, funct)),
                row,
                col: c1,
                ..st
            },
        ),
    }
}

/// `name :` records the label at the current instruction count; a later
/// definition of the same name wins.  The rest of the line is ignored.
pub open spec fn step_label(st: AsmState, line: Seq<char>, col: int, row: int, w: Seq<char>) -> Result<
    AsmState,
    (AsmErrorKind, int),
> {
    match expect_s(line, col, ':') {
        Err((k, c)) => Err((AsmErrorKind::UnknownInstruction, c)),
        Ok(c1) => Ok(
            AsmState {
                labels: st.labels.push((w, st.instrs.len() as int)),
                row,
                col: c1,
                ..st
            },
        ),
    }
}

/// One comment-stripped source line: extract the first word, dispatch it
/// across the tables in shape order, or read it as a label definition.
pub open spec fn line_step(st: AsmState, line: Seq<char>, row: int) -> Result<
    AsmState,
    (AsmErrorKind, int),
> {
    let s0 = skip_sp(line, 0);
    let e0 = wend(line, s0);
    if e0 == s0 {
        Ok(AsmState { row, col: s0, ..st })
    } else {
        let w = line.subrange(s0, e0);
        if is_directive_s(w) {
            Ok(AsmState { row, col: e0, ..st })
        } else {
            match alu_r_funct_s(w) {
                Some(f) => step_alu_r(st, line, e0, row, f),
                None => match alu_i_opcode_s(w) {
                    Some(op) => step_alu_i(st, line, e0, row, op),
                    None => match branch_opcode_s(w) {
                        Some(op) => step_branch(st, line, e0, row, op),
                        None => match load_store_opcode_s(w) {
                            Some(op) => step_load_store(st, line, e0, row, op),
                            None => match jump_j_opcode_s(w) {
                                Some(op) => step_jump_j(st, line, e0, row, op),
                                None => match jump_r_funct_s(w) {
                                    Some(f) => step_jump_r(st, line, e0, row, f),
                                    None => step_label(st, line, e0, row, w),
                                },
                            },
                        },
                    },
                },
            }
        }
    }
}

/// A line with everything from the first `#` discarded.
pub open spec fn strip_comment(line: Seq<char>) -> Seq<char> {
    line.take(hash_pos(line, 0))
}

/// First-pass state after the first `n` lines, or the first error.
pub open spec fn asm_prefix(lines: Seq<Seq<char>>, n: int) -> Result<
    AsmState,
    (AsmErrorKind, int, int),
>
    decreases n,
{
    if n <= 0 {
        Ok(init_state())
    } else {
        match asm_prefix(lines, n - 1) {
            Err(e) => Err(e),
            Ok(st) => {
                let stripped = strip_comment(lines[n - 1]);
                if stripped.len() == 0 {
                    Ok(st)
                } else {
                    match line_step(st, stripped, n - 1) {
                        Ok(st2) => Ok(st2),
                        Err((k, c)) => Err((k, n - 1, c)),
                    }
                }
            },
        }
    }
}

/// The first error is final: once a prefix fails, every longer prefix
/// reports that same error.
pub proof fn lemma_prefix_err_stable(lines: Seq<Seq<char>>, n: int, m: int)
    requires
        0 <= n <= m,
        asm_prefix(lines, n) is Err,
    ensures
        asm_prefix(lines, m) == asm_prefix(lines, n),
    decreases m - n,
{
    if m > n {
        lemma_prefix_err_stable(lines, n, m - 1);
    }
}

/// Most recent definition of `name`, if any.
pub open spec fn lookup_label(labels: Seq<(Seq<char>, int)>, name: Seq<char>) -> Option<int>
    decreases labels.len(),
{
    if labels.len() == 0 {
        None
    } else if labels.last().0 == name {
        Some(labels.last().1)
    } else {
        lookup_label(labels.drop_last(), name)
    }
}

/// Second pass from relocation `i` on: patch each placeholder with its
/// label's instruction index, or `None` as soon as a label is undefined.
pub open spec fn resolve_from(
    instrs: Seq<u32>,
    labels: Seq<(Seq<char>, int)>,
    relocs: Seq<(int, Seq<char>, RelocKind)>,
    i: int,
) -> Option<Seq<u32>>
    decreases relocs.len() - i,
{
    if i < 0 || i >= relocs.len() {
        Some(instrs)
    } else {
        let (idx, name, kind) = relocs[i];
        match lookup_label(labels, name) {
            None => None,
            Some(pos) => {
                let w = instrs[idx];
                let w2 = match kind {
                    RelocKind::Branch => reemit_i_s(w, off16_s(pos, idx)),
                    RelocKind::Jump => reemit_j_s(w, ((pos % 0x1_0000_0000) as u32)),
                };
                resolve_from(instrs.update(idx, w2), labels, relocs, i + 1)
            },
        }
    }
}

/// The whole assembly of a line sequence: first pass, then relocation
/// resolution; an undefined label is reported at the cursor's final
/// position.
pub open spec fn asm_lines_s(lines: Seq<Seq<char>>) -> Result<Seq<u32>, (AsmErrorKind, int, int)> {
    match asm_prefix(lines, lines.len() as int) {
        Err(e) => Err(e),
        Ok(st) => match resolve_from(st.instrs, st.labels, st.relocs, 0) {
            Some(ws) => Ok(ws),
            None => Err((AsmErrorKind::LabelNotFound, st.row, st.col)),
        },
    }
}

/// Position of the first `\n` at or after `i`, or the text length.
pub open spec fn nl_pos(s: Seq<char>, i: int) -> int
    decreases s.len() - i,
{
    if 0 <= i && i < s.len() && s[i] != '\n' {
        nl_pos(s, i + 1)
    } else {
        i
    }
}

pub proof fn lemma_nl_pos_bounds(s: Seq<char>, i: int)
    requires
        0 <= i <= s.len(),
    ensures
        i <= nl_pos(s, i) <= s.len(),
    decreases s.len() - i,
{
    if i < s.len() && s[i] != '\n' {
        lemma_nl_pos_bounds(s, i + 1);
    }
}

/// A line terminator's optional `\r`, removed.
pub open spec fn chop_cr(l: Seq<char>) -> Seq<char> {
    if l.len() > 0 && l.last() == '\r' {
        l.drop_last()
    } else {
        l
    }
}

/// The line split of `s[i..]`, with `\n` and `\r\n` as terminators and the
/// final terminator optional.
pub open spec fn split_from(s: Seq<char>, i: int) -> Seq<Seq<char>>
    decreases s.len() - i,
    via split_from_dec
{
    if !(0 <= i && i < s.len()) {
        Seq::empty()
    } else {
        let j = nl_pos(s, i);
        if j == s.len() {
            seq![s.subrange(i, j)]
        } else {
            seq![chop_cr(s.subrange(i, j))] + split_from(s, j + 1)
        }
    }
}

#[via_fn]
proof fn split_from_dec(s: Seq<char>, i: int) {
    if 0 <= i && i < s.len() {
        lemma_nl_pos_bounds(s, i);
    }
}

pub open spec fn split_lines(s: Seq<char>) -> Seq<Seq<char>> {
    split_from(s, 0)
}

/// Assembly of a full text blob: split into lines, then [`asm_lines_s`].
pub open spec fn asm_str_s(text: Seq<char>) -> Result<Seq<u32>, (AsmErrorKind, int, int)> {
    asm_lines_s(split_lines(text))
}

} // verus!
