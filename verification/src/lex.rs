//! Character classes and decimal-literal parsing for the tokenizer.
use vstd::prelude::*;

verus! {

/// Unicode `White_Space` characters, the class skipped between tokens.
pub open spec fn is_space_c(c: char) -> bool {
    let u = c as u32;
    ||| u == 0x20
    ||| (0x09 <= u && u <= 0x0D)
    ||| u == 0x85
    ||| u == 0xA0
    ||| u == 0x1680
    ||| (0x2000 <= u && u <= 0x200A)
    ||| u == 0x2028
    ||| u == 0x2029
    ||| u == 0x202F
    ||| u == 0x205F
    ||| u == 0x3000
}

pub fn is_space(c: char) -> (r: bool)
    ensures
        r == is_space_c(c),
{
    let u = c as u32;
    u == 0x20 || (0x09 <= u && u <= 0x0D) || u == 0x85 || u == 0xA0 || u == 0x1680
        || (0x2000 <= u && u <= 0x200A) || u == 0x2028 || u == 0x2029 || u == 0x202F
        || u == 0x205F || u == 0x3000
}

/// ASCII decimal digits `0` ..= `9`.
pub open spec fn is_digit_c(c: char) -> bool {
    0x30 <= c as u32 && c as u32 <= 0x39
}

pub fn is_digit(c: char) -> (r: bool)
    ensures
        r == is_digit_c(c),
{
    let u = c as u32;
    0x30 <= u && u <= 0x39
}

/// The identifier class: letters, digits, `$`, `+`, `-`, `_` and `.`.
/// Mnemonics, labels, register and immediate literals are all drawn from it.
pub open spec fn is_ident_c(c: char) -> bool {
    let u = c as u32;
    ||| (0x61 <= u && u <= 0x7A)
    ||| (0x41 <= u && u <= 0x5A)
    ||| u == 0x24
    ||| is_digit_c(c)
    ||| u == 0x2B
    ||| u == 0x2D
    ||| u == 0x5F
    ||| u == 0x2E
}

pub fn is_ident_char(c: char) -> (r: bool)
    ensures
        r == is_ident_c(c),
{
    let u = c as u32;
    (0x61 <= u && u <= 0x7A) || (0x41 <= u && u <= 0x5A) || u == 0x24 || is_digit(c)
        || u == 0x2B || u == 0x2D || u == 0x5F || u == 0x2E
}

/// Column reached after skipping consecutive whitespace from `col`.
pub open spec fn skip_sp(line: Seq<char>, col: int) -> int
    decreases line.len() - col,
{
    if 0 <= col && col < line.len() && is_space_c(line[col]) {
        skip_sp(line, col + 1)
    } else {
        col
    }
}

pub proof fn lemma_skip_sp_bounds(line: Seq<char>, col: int)
    requires
        0 <= col <= line.len(),
    ensures
        col <= skip_sp(line, col) <= line.len(),
    decreases line.len() - col,
{
    if col < line.len() && is_space_c(line[col]) {
        lemma_skip_sp_bounds(line, col + 1);
    }
}

/// End of the maximal identifier-character run starting at `col`.
pub open spec fn wend(line: Seq<char>, col: int) -> int
    decreases line.len() - col,
{
    if 0 <= col && col < line.len() && is_ident_c(line[col]) {
        wend(line, col + 1)
    } else {
        col
    }
}

pub proof fn lemma_wend_bounds(line: Seq<char>, col: int)
    requires
        0 <= col <= line.len(),
    ensures
        col <= wend(line, col) <= line.len(),
    decreases line.len() - col,
{
    if col < line.len() && is_ident_c(line[col]) {
        lemma_wend_bounds(line, col + 1);
    }
}

/// Position of the first `#` at or after `col`, or the line length.
pub open spec fn hash_pos(line: Seq<char>, col: int) -> int
    decreases line.len() - col,
{
    if 0 <= col && col < line.len() && line[col] != '#' {
        hash_pos(line, col + 1)
    } else {
        col
    }
}

pub proof fn lemma_hash_pos_bounds(line: Seq<char>, col: int)
    requires
        0 <= col <= line.len(),
    ensures
        col <= hash_pos(line, col) <= line.len(),
    decreases line.len() - col,
{
    if col < line.len() && line[col] != '#' {
        lemma_hash_pos_bounds(line, col + 1);
    }
}

/// Numeric value of a decimal digit character.
pub open spec fn digit_val(c: char) -> int {
    c as u32 - 0x30
}

pub open spec fn all_digits(s: Seq<char>) -> bool {
    forall|i: int| 0 <= i < s.len() ==> is_digit_c(#[trigger] s[i])
}

/// Value of a run of decimal digits, most significant first.
pub open spec fn dec_val(s: Seq<char>) -> int
    decreases s.len(),
{
    if s.len() == 0 {
        0
    } else {
        dec_val(s.drop_last()) * 10 + digit_val(s.last())
    }
}

pub proof fn lemma_dec_val_nonneg(s: Seq<char>)
    requires
        all_digits(s),
    ensures
        dec_val(s) >= 0,
    decreases s.len(),
{
    if s.len() > 0 {
        assert(all_digits(s.drop_last()));
        lemma_dec_val_nonneg(s.drop_last());
    }
}

/// Meaning of a word handed to `i32::from_str`: an optional sign, then one
/// or more decimal digits, with the value within the `i32` range.
pub open spec fn parse_int_s(w: Seq<char>) -> Option<int> {
    if w.len() > 0 && (w[0] == '+' || w[0] == '-') {
        if w.len() > 1 && all_digits(w.skip(1)) {
            if w[0] == '-' {
                Some(-dec_val(w.skip(1)))
            } else {
                Some(dec_val(w.skip(1)))
            }
        } else {
            None
        }
    } else if w.len() > 0 && all_digits(w) {
        Some(dec_val(w))
    } else {
        None
    }
}

pub open spec fn parse_i32_s(w: Seq<char>) -> Option<int> {
    match parse_int_s(w) {
        Some(v) => if -0x8000_0000 <= v && v <= 0x7FFF_FFFF {
            Some(v)
        } else {
            None
        },
        None => None,
    }
}

/// Meaning of a word handed to `u32::from_str`: an optional `+`, then one
/// or more decimal digits, with the value within the `u32` range.
pub open spec fn parse_u32_s(w: Seq<char>) -> Option<int> {
    if w.len() > 0 && w[0] == '+' {
        if w.len() > 1 && all_digits(w.skip(1)) && dec_val(w.skip(1)) <= 0xFFFF_FFFF {
            Some(dec_val(w.skip(1)))
        } else {
            None
        }
    } else if w.len() > 0 && all_digits(w) && dec_val(w) <= 0xFFFF_FFFF {
        Some(dec_val(w))
    } else {
        None
    }
}

/// Digit-run evaluator shared by the two literal parsers: the value of
/// `w[start..]` when every character is a digit and the value stays within
/// `limit`, and `None` otherwise.
fn parse_mag(w: &Vec<char>, start: usize, limit: u64) -> (r: Option<u64>)
    requires
        start <= w@.len(),
        limit <= 0xFFFF_FFFF,
    ensures
        ({
            let digits = w@.skip(start as int);
            match r {
                Some(v) => digits.len() > 0 && all_digits(digits) && dec_val(digits) == v
                    && v <= limit,
                None => digits.len() == 0 || !all_digits(digits) || dec_val(digits) > limit,
            }
        }),
{
    let ghost digits = w@.skip(start as int);
    if start >= w.len() {
        return None;
    }
    let mut i: usize = start;
    let mut acc: u64 = 0;
    let mut over: bool = false;
    while i < w.len()
        invariant
            start <= i <= w@.len(),
            limit <= 0xFFFF_FFFF,
            digits == w@.skip(start as int),
            all_digits(digits.take(i - start)),
            !over ==> acc == dec_val(digits.take(i - start)) && acc <= limit,
            over ==> dec_val(digits.take(i - start)) > limit,
        decreases w@.len() - i,
    {
        let c = w[i];
        assert(digits[i - start] == w@[i as int]);
        if !is_digit(c) {
            assert(!all_digits(digits));
            return None;
        }
        let d: u64 = (c as u32 - 0x30) as u64;
        proof {
            let pre = digits.take(i - start);
            let post = digits.take(i + 1 - start);
            assert(post.drop_last() =~= pre);
            assert(post.last() == digits[i - start]);
            assert(dec_val(post) == dec_val(pre) * 10 + d);
            if over {
                lemma_dec_val_nonneg(pre);
            }
        }
        if !over {
            acc = acc * 10 + d;
            if acc > limit {
                over = true;
            }
        }
        i += 1;
    }
    assert(digits.take(i - start) =~= digits);
    if over {
        None
    } else {
        Some(acc)
    }
}

/// `i32::from_str` over a word of characters.
pub fn parse_i32_word(w: &Vec<char>) -> (r: Option<i32>)
    ensures
        match r {
            Some(v) => parse_i32_s(w@) == Some(v as int),
            None => parse_i32_s(w@) is None,
        },
{
    if w.len() == 0 {
        return None;
    }
    let c0 = w[0];
    let neg = c0 == '-';
    let start: usize = if c0 == '-' || c0 == '+' {
        1
    } else {
        0
    };
    let limit: u64 = if neg {
        0x8000_0000
    } else {
        0x7FFF_FFFF
    };
    proof {
        if start == 0 {
            assert(w@.skip(0) =~= w@);
        }
    }
    match parse_mag(w, start, limit) {
        None => None,
        Some(m) => {
            if neg {
                if m == 0x8000_0000 {
                    Some(-2147483647i32 - 1)
                } else {
                    Some(-(m as i32))
                }
            } else {
                Some(m as i32)
            }
        },
    }
}

/// `u32::from_str` over a word of characters.
pub fn parse_u32_word(w: &Vec<char>) -> (r: Option<u32>)
    ensures
        match r {
            Some(v) => parse_u32_s(w@) == Some(v as int),
            None => parse_u32_s(w@) is None,
        },
{
    if w.len() == 0 {
        return None;
    }
    let start: usize = if w[0] == '+' {
        1
    } else {
        0
    };
    proof {
        if start == 0 {
            assert(w@.skip(0) =~= w@);
        }
    }
    match parse_mag(w, start, 0xFFFF_FFFF) {
        None => None,
        Some(m) => Some(m as u32),
    }
}

} // verus!
