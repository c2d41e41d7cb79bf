//! The executable assembler: a line cursor with tokenizing primitives, the
//! operand parsers, and the two-pass driver.  Every function is proved to
//! behave exactly as the corresponding spec function in [`crate::model`].
use vstd::prelude::*;
use crate::lex::{
    is_space, is_digit, is_ident_char, skip_sp, wend, hash_pos, parse_i32_word, parse_u32_word,
};
use crate::tables::{
    alu_r_lookup, alu_i_lookup, branch_lookup, load_store_lookup, jump_j_lookup, jump_r_lookup,
    is_directive, reg_lookup,
};
use crate::encode::{
    EmitFormatR, EmitFormatI, EmitFormatJ, ReemitFormatI, ReemitFormatJ, off16, imm_field,
};
use crate::model::{
    AsmErrorKind, RelocKind, AsmState, init_state, expect_s, parse_reg_s, parse_imm_s,
    ensure_end_s, line_step, strip_comment, asm_prefix, lookup_label, resolve_from, asm_lines_s,
    asm_str_s, split_lines, split_from, nl_pos, chop_cr, lemma_prefix_err_stable,
};

verus! {

/// A positioned assembly error: the kind, and the 0-based line and column
/// of the first failure.
#[derive(Clone, Copy, PartialEq, Eq, Debug)]
pub struct AsmErrorInfo {
    pub kind: AsmErrorKind,
    pub line: usize,
    pub col: usize,
}

impl AsmErrorInfo {
    pub fn new(kind: AsmErrorKind, line: usize, col: usize) -> (r: AsmErrorInfo)
        ensures
            r.kind == kind && r.line == line && r.col == col,
    {
        AsmErrorInfo { kind, line, col }
    }

    /// A human-readable rendering of the error kind.
    pub fn message(&self) -> (r: String)
        ensures
            r@ == message_s(self.kind),
    {
        match self.kind {
            AsmErrorKind::InvalidRegister => "Invalid register".to_owned(),
            AsmErrorKind::RegisterNotFound => "Couldn't find register".to_owned(),
            AsmErrorKind::RegisterExpected => "Register name expected, got nothing".to_owned(),
            AsmErrorKind::InvalidImm => "Invalid immediate number".to_owned(),
            AsmErrorKind::ImmOutOfRange => "Too large imm".to_owned(),
            AsmErrorKind::ImmExpected => "Imm expected".to_owned(),
            AsmErrorKind::ExpectedChar(_) => "Punctuation expected".to_owned(),
            AsmErrorKind::TrailingTokens => "Expected nothing at this line".to_owned(),
            AsmErrorKind::LabelExpected => "Label expected".to_owned(),
            AsmErrorKind::UnknownInstruction => "Invalid instruction, or a label missing its colon".to_owned(),
            AsmErrorKind::LabelNotFound => "Label name isn't found".to_owned(),
            AsmErrorKind::InvalidCharacter => "Invalid character".to_owned(),
        }
    }
}

/// The message text each error kind renders to.
pub open spec fn message_s(k: AsmErrorKind) -> Seq<char> {
    match k {
        AsmErrorKind::InvalidRegister => "Invalid register"@,
        AsmErrorKind::RegisterNotFound => "Couldn't find register"@,
        AsmErrorKind::RegisterExpected => "Register name expected, got nothing"@,
        AsmErrorKind::InvalidImm => "Invalid immediate number"@,
        AsmErrorKind::ImmOutOfRange => "Too large imm"@,
        AsmErrorKind::ImmExpected => "Imm expected"@,
        AsmErrorKind::ExpectedChar(_) => "Punctuation expected"@,
        AsmErrorKind::TrailingTokens => "Expected nothing at this line"@,
        AsmErrorKind::LabelExpected => "Label expected"@,
        AsmErrorKind::UnknownInstruction => "Invalid instruction, or a label missing its colon"@,
        AsmErrorKind::LabelNotFound => "Label name isn't found"@,
        AsmErrorKind::InvalidCharacter => "Invalid character"@,
    }
}

/// How an executable operand-parse result must relate to its spec
/// counterpart: same value on success, same kind and position on failure.
pub open spec fn op_result_matches<T>(
    r: Result<T, AsmErrorInfo>,
    s: Result<(T, int), (AsmErrorKind, int)>,
    row: int,
) -> bool {
    match s {
        Ok((v, c2)) => match r {
            Ok(x) => x == v,
            Err(_) => false,
        },
        Err((k, c)) => match r {
            Ok(_) => false,
            Err(e) => e.kind == k && e.line == row && e.col == c,
        },
    }
}

/// The column where a spec parse left the cursor, on either outcome.
pub open spec fn op_result_col<T>(s: Result<(T, int), (AsmErrorKind, int)>) -> int {
    match s {
        Ok((v, c2)) => c2,
        Err((k, c)) => c,
    }
}

/// How the executable assembly result must relate to the reference
/// semantics: the same words on success, the same kind, line and column on
/// failure.
pub open spec fn asm_result_matches(
    r: Result<Vec<u32>, AsmErrorInfo>,
    s: Result<Seq<u32>, (AsmErrorKind, int, int)>,
) -> bool {
    match s {
        Ok(ws) => match r {
            Ok(v) => v@ == ws,
            Err(_) => false,
        },
        Err((k, row, c)) => match r {
            Ok(_) => false,
            Err(e) => e.kind == k && e.line == row && e.col == c,
        },
    }
}

/// Element-wise equality of two character vectors.
fn chars_eq(a: &Vec<char>, b: &Vec<char>) -> (r: bool)
    ensures
        r == (a@ == b@),
{
    if a.len() != b.len() {
        return false;
    }
    let mut i: usize = 0;
    while i < a.len()
        invariant
            i <= a@.len(),
            a@.len() == b@.len(),
            forall|j: int| 0 <= j < i ==> a@[j] == b@[j],
        decreases a@.len() - i,
    {
        if a[i] != b[i] {
            return false;
        }
        i = i + 1;
    }
    proof {
        assert(a@ =~= b@);
    }
    true
}

/// The label accumulator's mathematical content.
pub open spec fn labels_view(ls: Seq<(Vec<char>, usize)>) -> Seq<(Seq<char>, int)> {
    ls.map_values(|p: (Vec<char>, usize)| (p.0@, p.1 as int))
}

/// The relocation accumulator's mathematical content.
pub open spec fn relocs_view(rs: Seq<(usize, Vec<char>, RelocKind)>) -> Seq<
    (int, Seq<char>, RelocKind),
> {
    rs.map_values(|t: (usize, Vec<char>, RelocKind)| (t.0 as int, t.1@, t.2))
}

/// Every pending relocation points at a word already emitted.
pub open spec fn wf_relocs(rs: Seq<(usize, Vec<char>, RelocKind)>, ninstrs: int) -> bool {
    forall|j: int| 0 <= j < rs.len() ==> (#[trigger] rs[j]).0 < ninstrs
}

/// The character sequences of a sequence of character vectors.
pub open spec fn vecs_view(ls: Seq<Vec<char>>) -> Seq<Seq<char>> {
    ls.map_values(|l: Vec<char>| l@)
}

/// The character sequences of a sequence of strings.
pub open spec fn strs_view(ls: Seq<String>) -> Seq<Seq<char>> {
    ls.map_values(|s: String| s@)
}

/// Most recent definition of `name` among the recorded labels.
fn lookup_label_x(labels: &Vec<(Vec<char>, usize)>, name: &Vec<char>) -> (r: Option<usize>)
    ensures
        ({
            let s = lookup_label(labels_view(labels@), name@);
            match r {
                Some(x) => s == Some(x as int),
                None => s is None,
            }
        }),
{
    let ghost lv = labels_view(labels@);
    let mut j = labels.len();
    proof {
        assert(lv.take(labels@.len() as int) =~= lv);
    }
    while j > 0
        invariant
            j <= labels@.len(),
            lv == labels_view(labels@),
            lookup_label(lv, name@) == lookup_label(lv.take(j as int), name@),
        decreases j,
    {
        j = j - 1;
        if chars_eq(&labels[j].0, name) {
            proof {
                let pre = lv.take(j + 1);
                assert(pre.last() == lv[j as int]);
                assert(lv[j as int] == (labels@[j as int].0@, labels@[j as int].1 as int));
            }
            return Some(labels[j].1);
        }
        proof {
            let pre = lv.take(j + 1);
            assert(pre.last() == lv[j as int]);
            assert(lv[j as int] == (labels@[j as int].0@, labels@[j as int].1 as int));
            assert(pre.drop_last() =~= lv.take(j as int));
        }
    }
    proof {
        assert(lv.take(0) =~= Seq::<(Seq<char>, int)>::empty());
    }
    None
}

/// A line with everything from the first `#` discarded.
fn strip_hash(line: &Vec<char>) -> (r: Vec<char>)
    ensures
        r@ == strip_comment(line@),
{
    let ghost l = line@;
    let mut h: usize = 0;
    while h < line.len() && line[h] != '#'
        invariant
            h <= l.len(),
            line@ == l,
            hash_pos(l, 0) == hash_pos(l, h as int),
        decreases l.len() - h,
    {
        h = h + 1;
    }
    let mut r: Vec<char> = Vec::new();
    let mut k: usize = 0;
    while k < h
        invariant
            k <= h <= l.len(),
            line@ == l,
            r@ == l.subrange(0, k as int),
        decreases h - k,
    {
        let c = line[k];
        r.push(c);
        proof {
            assert(l.subrange(0, k + 1) =~= l.subrange(0, k as int).push(l[k as int]));
        }
        k = k + 1;
    }
    proof {
        assert(l.take(hash_pos(l, 0)) =~= l.subrange(0, h as int));
    }
    r
}

/// The characters of a string, in order, as a vector.
fn to_chars(s: &str) -> (r: Vec<char>)
    ensures
        r@ == s@,
{
    broadcast use vstd::string::axiom_spec_iter;

    let mut v: Vec<char> = Vec::new();
    for c in it: s.chars()
        invariant
            v@ == it.seq().take(it.index() as int),
            it.seq() == s@,
    {
        v.push(c);
        proof {
            assert(it.seq().take(it.index() + 1) =~= it.seq().take(it.index() as int).push(
                it.seq()[it.index() as int],
            ));
        }
    }
    proof {
        assert(v@ =~= s@);
    }
    v
}

/// Split a text into lines as [`split_lines`] does: terminators are `\n`
/// or `\r\n`, and the final one is optional.
fn split_lines_x(text: &Vec<char>) -> (r: Vec<Vec<char>>)
    ensures
        vecs_view(r@) == split_lines(text@),
{
    let ghost t = text@;
    let mut out: Vec<Vec<char>> = Vec::new();
    let mut i: usize = 0;
    proof {
        assert(vecs_view(out@) =~= Seq::<Seq<char>>::empty());
    }
    while i < text.len()
        invariant
            i <= t.len(),
            text@ == t,
            vecs_view(out@) + split_from(t, i as int) == split_lines(t),
        decreases t.len() - i,
    {
        let mut j: usize = i;
        while j < text.len() && text[j] != '\n'
            invariant
                i <= j <= t.len(),
                text@ == t,
                nl_pos(t, i as int) == nl_pos(t, j as int),
            decreases t.len() - j,
        {
            j = j + 1;
        }
        let end: usize = if j < text.len() {
            if j > i && text[j - 1] == '\r' {
                j - 1
            } else {
                j
            }
        } else {
            j
        };
        let mut line: Vec<char> = Vec::new();
        let mut k = i;
        while k < end
            invariant
                i <= k <= end <= t.len(),
                text@ == t,
                line@ == t.subrange(i as int, k as int),
            decreases end - k,
        {
            let c = text[k];
            line.push(c);
            proof {
                assert(t.subrange(i as int, k + 1) =~= t.subrange(i as int, k as int).push(
                    t[k as int],
                ));
            }
            k = k + 1;
        }
        proof {
            assert(nl_pos(t, i as int) == j);
            if (j as int) < t.len() {
                let raw = t.subrange(i as int, j as int);
                if j > i && t[j - 1] == '\r' {
                    assert(chop_cr(raw) =~= t.subrange(i as int, j - 1));
                } else {
                    assert(chop_cr(raw) =~= raw);
                }
                assert(line@ == chop_cr(raw));
            }
        }
        let ghost out0 = out@;
        out.push(line);
        proof {
            let lsp = t.subrange(i as int, end as int);
            assert(vecs_view(out@) =~= vecs_view(out0).push(lsp));
            assert(vecs_view(out0).push(lsp) =~= vecs_view(out0) + seq![lsp]);
            if j == t.len() {
                assert(split_from(t, i as int) =~= seq![lsp]);
                assert((vecs_view(out0) + seq![lsp]) + split_from(t, j as int) =~= vecs_view(out0)
                    + seq![lsp]);
            } else {
                assert(split_from(t, i as int) == seq![chop_cr(t.subrange(i as int, j as int))]
                    + split_from(t, j + 1));
                assert(split_from(t, i as int) =~= seq![lsp] + split_from(t, j + 1));
                assert((vecs_view(out0) + seq![lsp]) + split_from(t, j + 1) =~= vecs_view(out0) + (
                seq![lsp] + split_from(t, j + 1)));
            }
        }
        if j < text.len() {
            i = j + 1;
        } else {
            i = j;
        }
    }
    proof {
        assert(split_from(t, i as int) =~= Seq::<Seq<char>>::empty());
        assert(vecs_view(out@) + Seq::<Seq<char>>::empty() =~= vecs_view(out@));
    }
    out
}

/// The line cursor and two-pass driver.  It holds the current row, column
/// and line characters; the driver methods own their word, label and
/// relocation accumulators per run.
pub struct Parser {
    row: usize,
    col: usize,
    currentLine: Vec<char>,
}

impl Parser {
    /// The characters of the current line.
    pub closed spec fn line_v(self) -> Seq<char> {
        self.currentLine@
    }

    /// The current 0-based row.
    pub closed spec fn row_v(self) -> int {
        self.row as int
    }

    /// The current 0-based column.
    pub closed spec fn col_v(self) -> int {
        self.col as int
    }

    /// The cursor never stands past the end of its line.
    pub closed spec fn wf(self) -> bool {
        self.col <= self.currentLine@.len()
    }

    pub fn new() -> (p: Parser)
        ensures
            p.wf() && p.row_v() == 0 && p.col_v() == 0 && p.line_v().len() == 0,
    {
        Parser { row: 0, col: 0, currentLine: Vec::new() }
    }

    pub fn Reset(&mut self)
        ensures
            final(self).wf() && final(self).row_v() == 0 && final(self).col_v() == 0
                && final(self).line_v().len() == 0,
    {
        self.row = 0;
        self.col = 0;
        self.currentLine.clear();
    }

    fn MakeErrorInfo(&self, kind: AsmErrorKind) -> (r: AsmErrorInfo)
        ensures
            r.kind == kind && r.line == self.row_v() && r.col == self.col_v(),
    {
        AsmErrorInfo { kind, line: self.row, col: self.col }
    }

    fn SkipSpaces(&mut self)
        requires
            old(self).wf(),
        ensures
            final(self).wf(),
            final(self).line_v() == old(self).line_v(),
            final(self).row_v() == old(self).row_v(),
            final(self).col_v() == skip_sp(old(self).line_v(), old(self).col_v()),
    {
        let ghost l = self.currentLine@;
        let ghost c0 = self.col as int;
        while self.col < self.currentLine.len() && is_space(self.currentLine[self.col])
            invariant
                self.wf(),
                self.currentLine@ == l,
                self.row == old(self).row,
                skip_sp(l, c0) == skip_sp(l, self.col as int),
            decreases l.len() - self.col,
        {
            self.col = self.col + 1;
        }
    }

    fn IsLineEnd(&self) -> (r: bool)
        requires
            self.wf(),
        ensures
            r == (self.col_v() == self.line_v().len()),
    {
        self.col == self.currentLine.len()
    }

    fn PeekChar(&self) -> (r: Option<char>)
        requires
            self.wf(),
        ensures
            r == (if self.col_v() < self.line_v().len() {
                Some(self.line_v()[self.col_v()])
            } else {
                None::<char>
            }),
    {
        if !self.IsLineEnd() {
            Some(self.currentLine[self.col])
        } else {
            None
        }
    }

    fn Bump(&mut self, count: usize)
        requires
            old(self).wf(),
            old(self).col_v() + count <= old(self).line_v().len(),
        ensures
            final(self).wf(),
            final(self).line_v() == old(self).line_v(),
            final(self).row_v() == old(self).row_v(),
            final(self).col_v() == old(self).col_v() + count,
    {
        let n = self.currentLine.len();
        assert(self.col + count <= n);
        self.col = self.col + count;
    }

    /// Skip spaces, then take the maximal identifier-character run; `None`
    /// when no identifier character follows.
    fn EatWord(&mut self) -> (r: Option<Vec<char>>)
        requires
            old(self).wf(),
        ensures
            final(self).wf(),
            final(self).line_v() == old(self).line_v(),
            final(self).row_v() == old(self).row_v(),
            ({
                let l = old(self).line_v();
                let s = skip_sp(l, old(self).col_v());
                let e = wend(l, s);
                &&& final(self).col_v() == e
                &&& match r {
                    Some(w) => e > s && w@ == l.subrange(s, e),
                    None => e == s,
                }
            }),
    {
        self.SkipSpaces();
        let ghost l = self.currentLine@;
        let start = self.col;
        while self.col < self.currentLine.len() && is_ident_char(self.currentLine[self.col])
            invariant
                self.wf(),
                self.currentLine@ == l,
                self.row == old(self).row,
                start <= self.col,
                wend(l, start as int) == wend(l, self.col as int),
            decreases l.len() - self.col,
        {
            self.col = self.col + 1;
        }
        if self.col == start {
            None
        } else {
            let mut w: Vec<char> = Vec::new();
            let mut k = start;
            while k < self.col
                invariant
                    start <= k <= self.col <= self.currentLine@.len(),
                    self.currentLine@ == l,
                    w@ == l.subrange(start as int, k as int),
                decreases self.col - k,
            {
                let c = self.currentLine[k];
                w.push(c);
                proof {
                    assert(l.subrange(start as int, k + 1) =~= l.subrange(start as int, k as int)
                        .push(l[k as int]));
                }
                k = k + 1;
            }
            Some(w)
        }
    }

    /// Skip spaces, then consume exactly `c` or fail at that position.
    fn ExpectChar(&mut self, c: char) -> (r: Result<char, AsmErrorInfo>)
        requires
            old(self).wf(),
        ensures
            final(self).wf(),
            final(self).line_v() == old(self).line_v(),
            final(self).row_v() == old(self).row_v(),
            ({
                let s = expect_s(old(self).line_v(), old(self).col_v(), c);
                &&& match s {
                    Ok(c2) => r == Ok::<char, AsmErrorInfo>(c) && final(self).col_v() == c2,
                    Err((k, cc)) => (match r {
                        Ok(_) => false,
                        Err(e) => e.kind == k && e.line == old(self).row_v() && e.col == cc,
                    }) && final(self).col_v() == cc,
                }
            }),
    {
        self.SkipSpaces();
        if let Some(fc) = self.PeekChar() {
            if fc == c {
                self.Bump(1);
                Ok(c)
            } else {
                Err(self.MakeErrorInfo(AsmErrorKind::ExpectedChar(c)))
            }
        } else {
            Err(self.MakeErrorInfo(AsmErrorKind::ExpectedChar(c)))
        }
    }

    /// Skip spaces and require the line end, else a trailing-tokens error.
    fn EnsureEnd(&mut self) -> (r: Result<(), AsmErrorInfo>)
        requires
            old(self).wf(),
        ensures
            final(self).wf(),
            final(self).line_v() == old(self).line_v(),
            final(self).row_v() == old(self).row_v(),
            ({
                let s = ensure_end_s(old(self).line_v(), old(self).col_v());
                &&& match s {
                    Ok(c2) => r is Ok && final(self).col_v() == c2,
                    Err((k, cc)) => (match r {
                        Ok(_) => false,
                        Err(e) => e.kind == k && e.line == old(self).row_v() && e.col == cc,
                    }) && final(self).col_v() == cc,
                }
            }),
    {
        self.SkipSpaces();
        if self.IsLineEnd() {
            Ok(())
        } else {
            Err(self.MakeErrorInfo(AsmErrorKind::TrailingTokens))
        }
    }

    /// Register operand: `$` then a decimal index (unchecked range) or a
    /// symbolic name from the register table.
    fn ParseRegister(&mut self) -> (r: Result<u32, AsmErrorInfo>)
        requires
            old(self).wf(),
        ensures
            final(self).wf(),
            final(self).line_v() == old(self).line_v(),
            final(self).row_v() == old(self).row_v(),
            op_result_matches(r, parse_reg_s(old(self).line_v(), old(self).col_v()), old(self).row_v()),
            final(self).col_v() == op_result_col(parse_reg_s(old(self).line_v(), old(self).col_v())),
    {
        match self.ExpectChar('$') {
            Err(e) => Err(e),
            Ok(_) => {
                match self.PeekChar() {
                    Some(c) if is_digit(c) => {
                        proof {
                            let l = self.currentLine@;
                            let c1 = self.col as int;
                            assert(skip_sp(l, c1) == c1);
                            crate::lex::lemma_wend_bounds(l, c1 + 1);
                            assert(wend(l, c1) >= c1 + 1);
                        }
                        let w = self.EatWord().unwrap();
                        match parse_u32_word(&w) {
                            Some(v) => Ok(v),
                            None => Err(self.MakeErrorInfo(AsmErrorKind::InvalidRegister)),
                        }
                    },
                    Some(_) => {
                        match self.EatWord() {
                            None => Err(self.MakeErrorInfo(AsmErrorKind::RegisterNotFound)),
                            Some(w) => match reg_lookup(&w) {
                                Some(v) => Ok(v),
                                None => Err(self.MakeErrorInfo(AsmErrorKind::RegisterNotFound)),
                            },
                        }
                    },
                    None => Err(self.MakeErrorInfo(AsmErrorKind::RegisterExpected)),
                }
            },
        }
    }

    /// Bounded signed immediate in `[lower, upper]`.
    fn ParseImm(&mut self, lower: i32, upper: i32) -> (r: Result<i32, AsmErrorInfo>)
        requires
            old(self).wf(),
        ensures
            final(self).wf(),
            final(self).line_v() == old(self).line_v(),
            final(self).row_v() == old(self).row_v(),
            ({
                let s = parse_imm_s(old(self).line_v(), old(self).col_v(), lower as int, upper as int);
                &&& match s {
                    Ok((v, c2)) => (match r {
                        Ok(x) => x as int == v,
                        Err(_) => false,
                    }),
                    Err((k, cc)) => (match r {
                        Ok(_) => false,
                        Err(e) => e.kind == k && e.line == old(self).row_v() && e.col == cc,
                    }),
                }
                &&& final(self).col_v() == op_result_col(s)
            }),
    {
        match self.EatWord() {
            None => Err(self.MakeErrorInfo(AsmErrorKind::ImmExpected)),
            Some(w) => match parse_i32_word(&w) {
                None => Err(self.MakeErrorInfo(AsmErrorKind::InvalidImm)),
                Some(x) => if x > upper || x < lower {
                    Err(self.MakeErrorInfo(AsmErrorKind::ImmOutOfRange))
                } else {
                    Ok(x)
                },
            },
        }
    }

    /// The 16-bit immediate form, bounds `[-32768, 32767]`.
    fn ParseImm16(&mut self) -> (r: Result<i16, AsmErrorInfo>)
        requires
            old(self).wf(),
        ensures
            final(self).wf(),
            final(self).line_v() == old(self).line_v(),
            final(self).row_v() == old(self).row_v(),
            ({
                let s = parse_imm_s(old(self).line_v(), old(self).col_v(), -32768, 32767);
                &&& match s {
                    Ok((v, c2)) => (match r {
                        Ok(x) => x as int == v,
                        Err(_) => false,
                    }),
                    Err((k, cc)) => (match r {
                        Ok(_) => false,
                        Err(e) => e.kind == k && e.line == old(self).row_v() && e.col == cc,
                    }),
                }
                &&& final(self).col_v() == op_result_col(s)
            }),
    {
        match self.ParseImm(-32768, 32767) {
            Ok(x) => Ok(x as i16),
            Err(e) => Err(e),
        }
    }

    /// One comment-stripped line of the first pass, run against the three
    /// accumulators; behaves as [`line_step`] on their views.
    #[verifier::rlimit(50)]
    fn asm_line(
        &mut self,
        instrs: &mut Vec<u32>,
        labels: &mut Vec<(Vec<char>, usize)>,
        relocs: &mut Vec<(usize, Vec<char>, RelocKind)>,
    ) -> (r: Result<(), AsmErrorInfo>)
        requires
            old(self).wf(),
            old(self).col_v() == 0,
            wf_relocs(old(relocs)@, old(instrs)@.len() as int),
        ensures
            final(self).wf(),
            ({
                let st = AsmState {
                    instrs: old(instrs)@,
                    labels: labels_view(old(labels)@),
                    relocs: relocs_view(old(relocs)@),
                    row: old(self).row_v(),
                    col: old(self).col_v(),
                };
                let sr = line_step(st, old(self).line_v(), old(self).row_v());
                match sr {
                    Ok(st2) => {
                        &&& r is Ok
                        &&& final(instrs)@ == st2.instrs
                        &&& labels_view(final(labels)@) == st2.labels
                        &&& relocs_view(final(relocs)@) == st2.relocs
                        &&& final(self).row_v() == st2.row
                        &&& final(self).col_v() == st2.col
                        &&& wf_relocs(final(relocs)@, final(instrs)@.len() as int)
                    },
                    Err((k, c)) => (match r {
                        Ok(_) => false,
                        Err(e) => e.kind == k && e.line == old(self).row_v() && e.col == c,
                    }),
                }
            }),
    {
        let wopt = self.EatWord();
        let w = match wopt {
            None => {
                return Ok(());
            },
            Some(w) => w,
        };
        if is_directive(&w) {
            return Ok(());
        }
        if let Some(funct) = alu_r_lookup(&w) {
            let rd = match self.ParseRegister() {
                Ok(v) => v,
                Err(e) => return Err(e),
            };
            match self.ExpectChar(',') {
                Ok(_) => (),
                Err(e) => return Err(e),
            };
            let rs = match self.ParseRegister() {
                Ok(v) => v,
                Err(e) => return Err(e),
            };
            match self.ExpectChar(',') {
                Ok(_) => (),
                Err(e) => return Err(e),
            };
            let rt = match self.ParseRegister() {
                Ok(v) => v,
                Err(e) => return Err(e),
            };
            instrs.push(EmitFormatR(0, rs, rt, rd, 0, funct));
            return Ok(());
        }
        if let Some(op) = alu_i_lookup(&w) {
            let rd = match self.ParseRegister() {
                Ok(v) => v,
                Err(e) => return Err(e),
            };
            match self.ExpectChar(',') {
                Ok(_) => (),
                Err(e) => return Err(e),
            };
            let rs = match self.ParseRegister() {
                Ok(v) => v,
                Err(e) => return Err(e),
            };
            match self.ExpectChar(',') {
                Ok(_) => (),
                Err(e) => return Err(e),
            };
            let imm = match self.ParseImm16() {
                Ok(v) => v,
                Err(e) => return Err(e),
            };
            instrs.push(EmitFormatI(op, rs, rd, imm_field(imm)));
            return Ok(());
        }
        if let Some(op) = branch_lookup(&w) {
            let rs = match self.ParseRegister() {
                Ok(v) => v,
                Err(e) => return Err(e),
            };
            match self.ExpectChar(',') {
                Ok(_) => (),
                Err(e) => return Err(e),
            };
            let rt = match self.ParseRegister() {
                Ok(v) => v,
                Err(e) => return Err(e),
            };
            match self.ExpectChar(',') {
                Ok(_) => (),
                Err(e) => return Err(e),
            };
            match self.EatWord() {
                Some(lbl) => {
                    let idx = instrs.len();
                    let ghost lv = lbl@;
                    let ghost r0 = relocs@;
                    relocs.push((idx, lbl, RelocKind::Branch));
                    instrs.push(EmitFormatI(op, rs, rt, 0));
                    proof {
                        assert(relocs_view(relocs@) =~= relocs_view(r0).push(
                            (idx as int, lv, RelocKind::Branch),
                        ));
                        assert((0u32 % 0x10000) as u32 == 0u32);
                    }
                    return Ok(());
                },
                None => {
                    return Err(self.MakeErrorInfo(AsmErrorKind::LabelExpected));
                },
            }
        }
        if let Some(op) = load_store_lookup(&w) {
            let rt = match self.ParseRegister() {
                Ok(v) => v,
                Err(e) => return Err(e),
            };
            match self.ExpectChar(',') {
                Ok(_) => (),
                Err(e) => return Err(e),
            };
            self.SkipSpaces();
            let offset: u32 = match self.PeekChar() {
                Some(c) if is_digit(c) => {
                    let v = match self.ParseImm16() {
                        Ok(v) => v,
                        Err(e) => return Err(e),
                    };
                    imm_field(v)
                },
                Some('(') => {
                    proof {
                        assert((0int % 0x10000) as u32 == 0u32);
                    }
                    0
                },
                _ => {
                    return Err(self.MakeErrorInfo(AsmErrorKind::InvalidCharacter));
                },
            };
            match self.ExpectChar('(') {
                Ok(_) => (),
                Err(e) => return Err(e),
            };
            let rs = match self.ParseRegister() {
                Ok(v) => v,
                Err(e) => return Err(e),
            };
            match self.ExpectChar(')') {
                Ok(_) => (),
                Err(e) => return Err(e),
            };
            instrs.push(EmitFormatI(op, rs, rt, offset));
            return Ok(());
        }
        if let Some(op) = jump_j_lookup(&w) {
            match self.EatWord() {
                Some(dest) => {
                    match self.EnsureEnd() {
                        Ok(_) => (),
                        Err(e) => return Err(e),
                    };
                    let idx = instrs.len();
                    let ghost dv = dest@;
                    let ghost r0 = relocs@;
                    relocs.push((idx, dest, RelocKind::Jump));
                    instrs.push(EmitFormatJ(op, 0));
                    proof {
                        assert(relocs_view(relocs@) =~= relocs_view(r0).push(
                            (idx as int, dv, RelocKind::Jump),
                        ));
                    }
                    return Ok(());
                },
                None => {
                    return Ok(());
                },
            }
        }
        if let Some(funct) = jump_r_lookup(&w) {
            let rs = match self.ParseRegister() {
                Ok(v) => v,
                Err(e) => return Err(e),
            };
            instrs.push(EmitFormatR(0, rs, 0, 0, 0, funct));
            return Ok(());
        }
        match self.ExpectChar(':') {
            Err(_) => Err(self.MakeErrorInfo(AsmErrorKind::UnknownInstruction)),
            Ok(_) => {
                let idx = instrs.len();
                let ghost wv = w@;
                let ghost l0 = labels@;
                labels.push((w, idx));
                proof {
                    assert(labels_view(labels@) =~= labels_view(l0).push((wv, idx as int)));
                }
                Ok(())
            },
        }
    }

    /// Both passes over comment-stripped character lines: the line loop,
    /// then relocation resolution.
    fn asm_core(&mut self, lines: &Vec<Vec<char>>) -> (r: Result<Vec<u32>, AsmErrorInfo>)
        ensures
            final(self).wf(),
            asm_result_matches(r, asm_lines_s(vecs_view(lines@))),
    {
        self.row = 0;
        self.col = 0;
        let ghost lv = vecs_view(lines@);
        let mut instrs: Vec<u32> = Vec::new();
        let mut labels: Vec<(Vec<char>, usize)> = Vec::new();
        let mut relocs: Vec<(usize, Vec<char>, RelocKind)> = Vec::new();
        let mut i: usize = 0;
        proof {
            assert(labels_view(labels@) =~= init_state().labels);
            assert(relocs_view(relocs@) =~= init_state().relocs);
        }
        while i < lines.len()
            invariant
                i <= lines@.len(),
                lv == vecs_view(lines@),
                self.wf(),
                wf_relocs(relocs@, instrs@.len() as int),
                ({
                    let sp = asm_prefix(lv, i as int);
                    match sp {
                        Ok(st) => st.instrs == instrs@ && st.labels == labels_view(labels@)
                            && st.relocs == relocs_view(relocs@) && st.row == self.row_v()
                            && st.col == self.col_v(),
                        Err(_) => false,
                    }
                }),
            decreases lines@.len() - i,
        {
            let stripped = strip_hash(&lines[i]);
            if stripped.len() == 0 {
                i = i + 1;
                continue;
            }
            self.row = i;
            self.col = 0;
            self.currentLine = stripped;
            match self.asm_line(&mut instrs, &mut labels, &mut relocs) {
                Ok(_) => {
                    i = i + 1;
                },
                Err(e) => {
                    proof {
                        lemma_prefix_err_stable(lv, i + 1, lv.len() as int);
                    }
                    return Err(e);
                },
            }
        }
        let mut k: usize = 0;
        while k < relocs.len()
            invariant
                k <= relocs@.len(),
                lv == vecs_view(lines@),
                self.wf(),
                wf_relocs(relocs@, instrs@.len() as int),
                ({
                    let sp = asm_prefix(lv, lv.len() as int);
                    match sp {
                        Ok(st) => st.labels == labels_view(labels@) && st.relocs == relocs_view(
                            relocs@,
                        ) && st.row == self.row_v() && st.col == self.col_v() && instrs@.len()
                            == st.instrs.len() && resolve_from(
                            instrs@,
                            st.labels,
                            st.relocs,
                            k as int,
                        ) == resolve_from(st.instrs, st.labels, st.relocs, 0),
                        Err(_) => false,
                    }
                }),
            decreases relocs@.len() - k,
        {
            let idx = relocs[k].0;
            let kind = relocs[k].2;
            proof {
                assert(relocs_view(relocs@)[k as int] == (idx as int, relocs@[k as int].1@, kind));
            }
            match lookup_label_x(&labels, &relocs[k].1) {
                None => {
                    let e = self.MakeErrorInfo(AsmErrorKind::LabelNotFound);
                    proof {
                        let sp = asm_prefix(lv, lv.len() as int);
                        match sp {
                            Ok(st) => {
                                assert(st.relocs[k as int] == (
                                    idx as int,
                                    relocs@[k as int].1@,
                                    kind,
                                ));
                                assert(lookup_label(st.labels, st.relocs[k as int].1) is None);
                                assert(resolve_from(instrs@, st.labels, st.relocs, k as int)
                                    is None);
                                assert(resolve_from(st.instrs, st.labels, st.relocs, 0) is None);
                            },
                            Err(_) => {
                                assert(false);
                            },
                        }
                    }
                    return Err(e);
                },
                Some(pos) => {
                    let w = instrs[idx];
                    let w2 = match kind {
                        RelocKind::Branch => ReemitFormatI(w, off16(pos, idx)),
                        RelocKind::Jump => {
                            let p64: u64 = pos as u64;
                            let lo: u32 = (p64 % 0x1_0000_0000) as u32;
                            ReemitFormatJ(w, lo)
                        },
                    };
                    instrs.set(idx, w2);
                    k = k + 1;
                },
            }
        }
        Ok(instrs)
    }

    /// Assemble an ordered sequence of source lines into machine words, or
    /// return the first positioned error; the result is exactly
    /// [`asm_lines_s`] of the lines' characters.
    pub fn AsmLines(&mut self, lines: &Vec<String>) -> (r: Result<Vec<u32>, AsmErrorInfo>)
        ensures
            final(self).wf(),
            asm_result_matches(r, asm_lines_s(strs_view(lines@))),
    {
        let mut cls: Vec<Vec<char>> = Vec::new();
        let mut k: usize = 0;
        while k < lines.len()
            invariant
                k <= lines@.len(),
                cls@.len() == k,
                forall|j: int| 0 <= j < k ==> (#[trigger] cls@[j])@ == lines@[j]@,
            decreases lines@.len() - k,
        {
            let s = to_chars(lines[k].as_str());
            cls.push(s);
            k = k + 1;
        }
        proof {
            assert(vecs_view(cls@) =~= strs_view(lines@));
        }
        self.asm_core(&cls)
    }

    /// Assemble a full text blob: split it into lines, then assemble them;
    /// the result is exactly [`asm_str_s`] of the text's characters.
    pub fn AsmStr(&mut self, content: &str) -> (r: Result<Vec<u32>, AsmErrorInfo>)
        ensures
            final(self).wf(),
            asm_result_matches(r, asm_str_s(content@)),
    {
        let chars = to_chars(content);
        let ls = split_lines_x(&chars);
        self.asm_core(&ls)
    }
}

} // verus!
