//! The tokenizer: one pass over the characters of a line, producing the
//! token sequence the parser consumes.
//!
//! Characters outside the accepted set are silently discarded.  Letters
//! and digits are classified under full Unicode, by `char`'s own classes;
//! ASCII letters are lowered as they are read.  Digit runs become integer
//! literals (or, followed by a dot, exact decimal literals), letter runs
//! become identifiers, and the operator characters map to their tokens,
//! with the two-character operators read by one look-ahead.

use vstd::prelude::*;

use crate::exact_math::rationals::Rationals;
use crate::lexing::token::Operator;
use crate::lexing::token::Token;
use crate::lexing::token::TokenV;
use crate::lexing::token::tokens_view;

verus! {

/// A decimal digit.
pub open spec fn is_digit_char(c: char) -> bool {
    '0' <= c && c <= '9'
}

/// An ASCII letter.
pub open spec fn is_alpha_char(c: char) -> bool {
    ('a' <= c && c <= 'z') || ('A' <= c && c <= 'Z')
}

/// Whether a character is a letter under full Unicode, as the class
/// behind `char::is_alphabetic` defines it.
pub uninterp spec fn unicode_alpha(c: char) -> bool;

/// Whether a character is a letter or a digit under full Unicode, as the
/// class behind `char::is_alphanumeric` defines it.
pub uninterp spec fn unicode_alnum(c: char) -> bool;

/// A whitespace character: accepted, discarded, and never a token.
pub open spec fn is_space_char(c: char) -> bool {
    c == ' ' || c == '\t' || c == '\n' || c == '\r'
}

/// The punctuation characters of the accepted set.
pub open spec fn is_symbol_char(c: char) -> bool {
    c == '+' || c == '-' || c == '*' || c == '/' || c == '(' || c == ')' || c == '"' || c == '.'
        || c == '=' || c == '^' || c == ',' || c == '<' || c == '>' || c == '!' || c == '&' || c
        == '|' || c == '[' || c == ']'
}

/// Relies on char::is_alphabetic: the result depends on the character
/// alone.  Its documentation gives the facts stated here: every ASCII
/// letter is alphabetic, every alphabetic character is alphanumeric
/// (`is_alphanumeric` is alphabetic-or-numeric), and digits, whitespace
/// and ASCII punctuation are not alphabetic.
#[verifier::external_body]
fn char_is_alphabetic(c: char) -> (r: bool)
    ensures
        r == unicode_alpha(c),
        is_alpha_char(c) ==> r,
        r ==> unicode_alnum(c),
        is_digit_char(c) || is_space_char(c) || is_symbol_char(c) ==> !r,
{
    c.is_alphabetic()
}

/// Relies on char::is_alphanumeric: the result depends on the character
/// alone.  Its documentation gives the facts stated here: every ASCII
/// letter and digit is alphanumeric, and whitespace and ASCII punctuation
/// are not.
#[verifier::external_body]
fn char_is_alphanumeric(c: char) -> (r: bool)
    ensures
        r == unicode_alnum(c),
        is_digit_char(c) || is_alpha_char(c) ==> r,
        is_space_char(c) || is_symbol_char(c) ==> !r,
{
    c.is_alphanumeric()
}

/// A letter or a digit, under full Unicode: what may continue an
/// identifier run.
pub open spec fn is_alnum_char(c: char) -> bool {
    is_digit_char(c) || is_alpha_char(c) || unicode_alnum(c)
}

/// A letter, under full Unicode: what may open an identifier run.  A
/// letter is in particular alphanumeric, so the run it opens is not
/// empty.
pub open spec fn is_letter_char(c: char) -> bool {
    is_alpha_char(c) || (unicode_alpha(c) && unicode_alnum(c))
}

/// The characters the tokenizer accepts; everything else is discarded.
pub open spec fn spec_allowed_char(c: char) -> bool {
    is_alnum_char(c) || is_space_char(c) || is_symbol_char(c)
}

/// Whether a character belongs to the accepted alphabet.
pub fn is_an_allowed_char(character: char) -> (r: bool)
    ensures
        r == spec_allowed_char(character),
        is_space_char(character) || is_symbol_char(character) ==> !unicode_alnum(character),
{
    let al = char_is_alphanumeric(character);
    al || character == ' ' || character == '\t' || character == '\n' || character == '\r'
        || character == '+' || character == '-' || character == '*' || character == '/'
        || character == '(' || character == ')' || character == '"' || character == '.'
        || character == '=' || character == '^' || character == ',' || character == '<'
        || character == '>' || character == '!' || character == '&' || character == '|'
        || character == '[' || character == ']'
}

/// An upper-case letter lowered, any other character unchanged.
pub open spec fn spec_lower(c: char) -> char {
    if 'A' <= c && c <= 'Z' {
        (((c as u32) + 32) as u8) as char
    } else {
        c
    }
}

fn lower_char(c: char) -> (r: char)
    ensures
        r == spec_lower(c),
{
    if c >= 'A' && c <= 'Z' {
        (((c as u32) + 32) as u8) as char
    } else {
        c
    }
}

/// The end of the digit run starting at `pos`.
pub open spec fn digit_run_end(s: Seq<char>, pos: nat) -> nat
    decreases s.len() - pos when pos <= s.len()
{
    if pos < s.len() && is_digit_char(s[pos as int]) {
        digit_run_end(s, pos + 1)
    } else {
        pos
    }
}

/// The end of the alphanumeric run starting at `pos`.
pub open spec fn alnum_run_end(s: Seq<char>, pos: nat) -> nat
    decreases s.len() - pos when pos <= s.len()
{
    if pos < s.len() && is_alnum_char(s[pos as int]) {
        alnum_run_end(s, pos + 1)
    } else {
        pos
    }
}

pub proof fn lemma_digit_run_bounds(s: Seq<char>, pos: nat)
    requires
        pos <= s.len(),
    ensures
        pos <= digit_run_end(s, pos) <= s.len(),
    decreases s.len() - pos,
{
    if pos < s.len() && is_digit_char(s[pos as int]) {
        lemma_digit_run_bounds(s, pos + 1);
    }
}

pub proof fn lemma_alnum_run_bounds(s: Seq<char>, pos: nat)
    requires
        pos <= s.len(),
    ensures
        pos <= alnum_run_end(s, pos) <= s.len(),
    decreases s.len() - pos,
{
    if pos < s.len() && is_alnum_char(s[pos as int]) {
        lemma_alnum_run_bounds(s, pos + 1);
    }
}

/// The number a digit sequence denotes in decimal.
pub open spec fn digits_val(s: Seq<char>) -> nat
    decreases s,
{
    if s.len() == 0 {
        0
    } else {
        digits_val(s.drop_last()) * 10 + (if is_digit_char(s.last()) {
            (s.last() as u32 - 48) as nat
        } else {
            0
        })
    }
}

/// Ten to the `k`-th.
pub open spec fn pow10(k: nat) -> nat
    decreases k,
{
    if k == 0 {
        1
    } else {
        10 * pow10((k - 1) as nat)
    }
}

/// The exact fraction a decimal literal `ip.ds` denotes, with the
/// overflow marker where it does not fit the 64-bit fields.
pub open spec fn dec_rat(ip: i64, ds: Seq<char>) -> Rationals {
    let p = pow10(ds.len());
    let wp = ip * p;
    let ov = wp + digits_val(ds);
    if p <= i64::MAX && i64::MIN <= wp <= i64::MAX && i64::MIN <= ov <= i64::MAX {
        Rationals { under: p as i64, over: ov as i64 }
    } else {
        Rationals { under: 1, over: i64::MAX }
    }
}

/// The value of the integer literal starting at `pos`: the denoted number
/// where it fits a 64-bit integer, 0 otherwise.
pub open spec fn int_tok_val(s: Seq<char>, pos: nat) -> i64 {
    let run = s.subrange(pos as int, digit_run_end(s, pos) as int);
    if digits_val(run) <= i64::MAX {
        digits_val(run) as i64
    } else {
        0
    }
}

/// Reads the digit run beginning at `current_pos` into a string, leaving
/// the position just past it.
#[verifier::loop_isolation(false)]
fn lex_raddix(current_char: char, chars: &Vec<char>, current_pos: usize, len: usize) -> (r: (
    String,
    usize,
))
    requires
        current_pos <= chars@.len(),
        len == chars@.len(),
        current_pos < len ==> current_char == chars@[current_pos as int],
    ensures
        r.1 == digit_run_end(chars@, current_pos as nat),
        r.0@ == chars@.subrange(current_pos as int, r.1 as int),
        current_pos <= r.1 <= len,
{
    let mut out = String::new();
    let mut pos = current_pos;
    let mut c = current_char;
    proof {
        lemma_digit_run_bounds(chars@, current_pos as nat);
    }
    while pos < len && c >= '0' && c <= '9'
        invariant
            current_pos <= pos <= len,
            pos < len ==> c == chars@[pos as int],
            out@ == chars@.subrange(current_pos as int, pos as int),
            digit_run_end(chars@, pos as nat) == digit_run_end(chars@, current_pos as nat),
        decreases len - pos,
    {
        crate::utils::text::push_char(&mut out, c);
        proof {
            assert(out@ =~= chars@.subrange(current_pos as int, pos as int + 1));
        }
        pos += 1;
        if pos < len {
            c = chars[pos];
        }
    }
    proof {
        if pos < len {
            assert(!is_digit_char(chars@[pos as int]));
        }
        assert(digit_run_end(chars@, pos as nat) == pos as nat);
    }
    (out, pos)
}

/// Reads the alphanumeric run beginning at `current_pos` into a string.
#[verifier::loop_isolation(false)]
fn lex_string(current_char: char, chars: &Vec<char>, current_pos: usize, len: usize) -> (r: (
    String,
    usize,
))
    requires
        current_pos <= chars@.len(),
        len == chars@.len(),
        current_pos < len ==> current_char == chars@[current_pos as int],
    ensures
        r.1 == alnum_run_end(chars@, current_pos as nat),
        r.0@ == chars@.subrange(current_pos as int, r.1 as int),
        current_pos <= r.1 <= len,
{
    let mut out = String::new();
    let mut pos = current_pos;
    let mut c = current_char;
    proof {
        lemma_alnum_run_bounds(chars@, current_pos as nat);
    }
    while pos < len && char_is_alphanumeric(c)
        invariant
            current_pos <= pos <= len,
            pos < len ==> c == chars@[pos as int],
            out@ == chars@.subrange(current_pos as int, pos as int),
            alnum_run_end(chars@, pos as nat) == alnum_run_end(chars@, current_pos as nat),
        decreases len - pos,
    {
        crate::utils::text::push_char(&mut out, c);
        proof {
            assert(out@ =~= chars@.subrange(current_pos as int, pos as int + 1));
        }
        pos += 1;
        if pos < len {
            c = chars[pos];
        }
    }
    proof {
        if pos < len {
            assert(!is_alnum_char(chars@[pos as int]));
        }
        assert(alnum_run_end(chars@, pos as nat) == pos as nat);
    }
    (out, pos)
}

/// The denoted value of a digit string, capped by overflow to 0.
#[verifier::loop_isolation(false)]
fn digits_to_i64(s: &String) -> (r: i64)
    requires
        forall|i: int| 0 <= i < s@.len() ==> is_digit_char(s@[i]),
    ensures
        r == (if digits_val(s@) <= i64::MAX {
            digits_val(s@) as i64
        } else {
            0i64
        }),
{
    proof {
        assert(s@.subrange(0, 0) =~= Seq::<char>::empty());
    }
    let cvec = crate::utils::text::chars_of(s.as_str());
    let m = cvec.len();
    let mut acc2: i64 = 0;
    let mut over2: bool = false;
    let mut j: usize = 0;
    while j < m
        invariant
            j <= m,
            m == s@.len(),
            cvec@ == s@,
            forall|t: int| 0 <= t < s@.len() ==> is_digit_char(s@[t]),
            !over2 ==> acc2 == digits_val(s@.subrange(0, j as int)) && digits_val(
                s@.subrange(0, j as int),
            ) <= i64::MAX,
            over2 ==> digits_val(s@.subrange(0, j as int)) > i64::MAX,
        decreases m - j,
    {
        let c = cvec[j];
        let d: i64 = ((c as u32) - 48) as i64;
        proof {
            assert(is_digit_char(s@[j as int]));
            assert(0 <= d <= 9);
            assert(s@.subrange(0, j as int + 1).drop_last() =~= s@.subrange(0, j as int));
        }
        if over2 {
            proof {
                assert(digits_val(s@.subrange(0, j as int + 1)) == digits_val(
                    s@.subrange(0, j as int),
                ) * 10 + d);
            }
        } else if acc2 > (i64::MAX - d) / 10 {
            over2 = true;
            proof {
                assert(digits_val(s@.subrange(0, j as int + 1)) == acc2 * 10 + d);
                assert(acc2 * 10 + d > i64::MAX) by (nonlinear_arith)
                    requires
                        acc2 > (i64::MAX - d) / 10,
                        0 <= d <= 9,
                        acc2 >= 0,
                ;
            }
        } else {
            proof {
                assert(acc2 * 10 + d <= i64::MAX) by (nonlinear_arith)
                    requires
                        acc2 <= (i64::MAX - d) / 10,
                        0 <= d <= 9,
                        acc2 >= 0,
                ;
            }
            acc2 = acc2 * 10 + d;
        }
        j += 1;
    }
    proof {
        assert(s@.subrange(0, m as int) =~= s@);
    }
    if over2 {
        0
    } else {
        acc2
    }
}

/// Reads the digit run at `current_pos` as an integer literal: its value,
/// or 0 where the run does not fit, and the position past the run.
#[verifier::loop_isolation(false)]
fn lex_int(current_char: char, chars: &Vec<char>, current_pos: usize, len: usize) -> (r: (
    i64,
    usize,
))
    requires
        current_pos <= chars@.len(),
        len == chars@.len(),
        current_pos < len ==> current_char == chars@[current_pos as int],
    ensures
        r.1 == digit_run_end(chars@, current_pos as nat),
        r.0 == int_tok_val(chars@, current_pos as nat),
        current_pos <= r.1 <= len,
{
    let (a, b) = lex_raddix(current_char, chars, current_pos, len);
    proof {
        lemma_digit_run_chars(chars@, current_pos as nat);
    }
    let v = digits_to_i64(&a);
    (v, b)
}

/// Every character of a digit run is a digit.
pub proof fn lemma_digit_run_chars(s: Seq<char>, pos: nat)
    requires
        pos <= s.len(),
    ensures
        forall|i: int|
            pos <= i < digit_run_end(s, pos) ==> is_digit_char(#[trigger] s[i]),
        digit_run_end(s, pos) <= s.len(),
    decreases s.len() - pos,
{
    if pos < s.len() && is_digit_char(s[pos as int]) {
        lemma_digit_run_chars(s, pos + 1);
    }
}

/// Reads the fractional digits after the dot at `current_pos`, returning
/// the exact decimal the whole literal denotes and the position past it.
#[verifier::loop_isolation(false)]
fn lex_float(whole_side: i64, chars: &Vec<char>, current_pos: usize, len: usize) -> (r: (
    Rationals,
    usize,
))
    requires
        current_pos < chars@.len(),
        len == chars@.len(),
    ensures
        r.1 == digit_run_end(chars@, current_pos as nat + 1),
        r.0 == dec_rat(
            whole_side,
            chars@.subrange(current_pos as int + 1, r.1 as int),
        ),
        current_pos < r.1 <= len,
{
    let pos2 = current_pos + 1;
    let c: char = if pos2 < len {
        chars[pos2]
    } else {
        '0'
    };
    let (a, b) = lex_raddix(c, chars, pos2, len);
    proof {
        lemma_digit_run_chars(chars@, pos2 as nat);
    }
    let ds = &a;
    let k = ds.as_str().unicode_len();
    let mut p: i64 = 1;
    let mut overflow = false;
    let mut t: usize = 0;
    while t < k
        invariant
            t <= k,
            k == ds@.len(),
            !overflow ==> p == pow10(t as nat) && pow10(t as nat) <= i64::MAX && p >= 1,
            overflow ==> pow10(t as nat) > i64::MAX,
        decreases k - t,
    {
        if overflow {
        } else if p > i64::MAX / 10 {
            overflow = true;
            proof {
                assert(pow10(t as nat + 1) == 10 * pow10(t as nat));
                assert(10 * p > i64::MAX) by (nonlinear_arith)
                    requires
                        p > i64::MAX / 10,
                        p >= 1,
                ;
            }
        } else {
            proof {
                assert(10 * p <= i64::MAX) by (nonlinear_arith)
                    requires
                        p <= i64::MAX / 10,
                        p >= 1,
                ;
                assert(pow10(t as nat + 1) == 10 * pow10(t as nat));
            }
            p = 10 * p;
        }
        t += 1;
    }
    if overflow {
        return (Rationals::new(1, i64::MAX), b);
    }
    let frac = digits_to_i64(ds);
    proof {
        if digits_val(ds@) > i64::MAX {
            lemma_digits_val_bound(ds@);
            assert(false);
        }
    }
    let prod = whole_side.checked_mul(p);
    match prod {
        Some(wp) => {
            match wp.checked_add(frac) {
                Some(ov) => {
                    proof {
                        assert(ov == whole_side * pow10(ds@.len()) + digits_val(ds@));
                    }
                    (Rationals::new(p, ov), b)
                },
                None => (Rationals::new(1, i64::MAX), b),
            }
        },
        None => (Rationals::new(1, i64::MAX), b),
    }
}

/// A digit string whose power-of-ten bound fits also denotes a value
/// below that bound.
pub proof fn lemma_digits_val_bound(s: Seq<char>)
    requires
        forall|i: int| 0 <= i < s.len() ==> is_digit_char(#[trigger] s[i]),
    ensures
        digits_val(s) < pow10(s.len()),
    decreases s,
{
    if s.len() > 0 {
        assert(forall|i: int| 0 <= i < s.drop_last().len() ==> is_digit_char(
            #[trigger] s.drop_last()[i]));
        lemma_digits_val_bound(s.drop_last());
        assert(digits_val(s) == digits_val(s.drop_last()) * 10 + (s.last() as u32 - 48));
        assert(digits_val(s.drop_last()) * 10 + 9 < pow10(s.drop_last().len()) * 10)
            by (nonlinear_arith)
            requires
                digits_val(s.drop_last()) < pow10(s.drop_last().len()),
        ;
        assert(pow10(s.len()) == 10 * pow10(s.drop_last().len()));
    }
}

/// Every character lowered.
pub open spec fn lower_seq(s: Seq<char>) -> Seq<char> {
    s.map(|i: int, c: char| spec_lower(c))
}

/// The token sequence denoted by the (lowered) characters from `pos` on.
pub open spec fn lex_spec(s: Seq<char>, pos: nat) -> Seq<TokenV>
    decreases s.len() - pos when pos <= s.len()
{
    if pos >= s.len() {
        Seq::empty()
    } else {
        let c = s[pos as int];
        if !spec_allowed_char(c) {
            lex_spec(s, pos + 1)
        } else if c == '+' {
            seq![TokenV::OPE(Operator::PLUS)] + lex_spec(s, pos + 1)
        } else if c == '-' {
            seq![TokenV::OPE(Operator::MINUS)] + lex_spec(s, pos + 1)
        } else if c == '*' {
            seq![TokenV::OPE(Operator::MULTIPLICATION)] + lex_spec(s, pos + 1)
        } else if c == '/' {
            seq![TokenV::OPE(Operator::DIVIDE)] + lex_spec(s, pos + 1)
        } else if c == ')' {
            seq![TokenV::RPAR] + lex_spec(s, pos + 1)
        } else if c == '(' {
            seq![TokenV::LPAR] + lex_spec(s, pos + 1)
        } else if c == '^' {
            seq![TokenV::OPE(Operator::EXPO)] + lex_spec(s, pos + 1)
        } else if c == '=' {
            if pos + 1 < s.len() && s[pos as int + 1] == '=' {
                seq![TokenV::OPE(Operator::EQUALITY)] + lex_spec(s, pos + 2)
            } else {
                seq![TokenV::EQUAL] + lex_spec(s, pos + 1)
            }
        } else if c == '<' {
            if pos + 1 < s.len() && s[pos as int + 1] == '=' {
                seq![TokenV::OPE(Operator::LesserOrEqual)] + lex_spec(s, pos + 2)
            } else {
                seq![TokenV::OPE(Operator::LesserThan)] + lex_spec(s, pos + 1)
            }
        } else if c == '>' {
            if pos + 1 < s.len() && s[pos as int + 1] == '=' {
                seq![TokenV::OPE(Operator::GreaterOrEqual)] + lex_spec(s, pos + 2)
            } else {
                seq![TokenV::OPE(Operator::GreaterThan)] + lex_spec(s, pos + 1)
            }
        } else if c == '!' {
            seq![TokenV::OPE(Operator::NOT)] + lex_spec(s, pos + 1)
        } else if c == '&' {
            if pos + 1 < s.len() && s[pos as int + 1] == '&' {
                seq![TokenV::OPE(Operator::And)] + lex_spec(s, pos + 2)
            } else {
                seq![TokenV::PreAnd] + lex_spec(s, pos + 1)
            }
        } else if c == '|' {
            if pos + 1 < s.len() && s[pos as int + 1] == '|' {
                seq![TokenV::OPE(Operator::Or)] + lex_spec(s, pos + 2)
            } else {
                seq![TokenV::PreOr] + lex_spec(s, pos + 1)
            }
        } else if c == ',' {
            seq![TokenV::COMMA] + lex_spec(s, pos + 1)
        } else if c == '[' {
            seq![TokenV::LBRACKET] + lex_spec(s, pos + 1)
        } else if c == ']' {
            seq![TokenV::RBRACKET] + lex_spec(s, pos + 1)
        } else if c == '"' {
            seq![TokenV::QUOTE] + lex_spec(s, pos + 1)
        } else if is_digit_char(c) {
            proof {
                lemma_digit_run_bounds(s, pos + 1);
            }
            let e = digit_run_end(s, pos);
            if e < s.len() && s[e as int] == '.' {
                proof {
                    lemma_digit_run_bounds(s, e + 1);
                }
                let e2 = digit_run_end(s, e + 1);
                seq![
                    TokenV::FLOAT(
                        dec_rat(int_tok_val(s, pos), s.subrange(e as int + 1, e2 as int)),
                    ),
                ] + lex_spec(s, e2)
            } else {
                seq![TokenV::INT(int_tok_val(s, pos))] + lex_spec(s, e)
            }
        } else if is_letter_char(c) {
            proof {
                lemma_alnum_run_bounds(s, pos + 1);
            }
            let e = alnum_run_end(s, pos);
            seq![TokenV::IDENTIFIER(s.subrange(pos as int, e as int))] + lex_spec(s, e)
        } else if c == '.' {
            proof {
                lemma_digit_run_bounds(s, pos + 1);
            }
            let e = digit_run_end(s, pos + 1);
            seq![TokenV::FLOAT(dec_rat(0, s.subrange(pos as int + 1, e as int)))] + lex_spec(s, e)
        } else {
            lex_spec(s, pos + 1)
        }
    }
}

/// Turns one line into its token sequence, discarding characters outside
/// the accepted set and lowering letters as they are read.
#[verifier::loop_isolation(false)]
pub fn lex(input: String) -> (r: Vec<Token>)
    ensures
        tokens_view(r@) =~= lex_spec(lower_seq(input@), 0),
{
    let raw = crate::utils::text::chars_of(input.as_str());
    let mut chars: Vec<char> = Vec::new();
    let mut li: usize = 0;
    while li < raw.len()
        invariant
            li <= raw@.len(),
            chars@.len() == li,
            forall|j: int| 0 <= j < li ==> chars@[j] == spec_lower(raw@[j]),
        decreases raw@.len() - li,
    {
        chars.push(lower_char(raw[li]));
        li += 1;
    }
    let ghost sv = lower_seq(input@);
    proof {
        assert(chars@ =~= sv);
    }
    let length = chars.len();
    let mut vec: Vec<Token> = Vec::new();
    let mut current_pos: usize = 0;
    while current_pos < length
        invariant
            current_pos <= length,
            length == sv.len(),
            chars@ == sv,
            tokens_view(vec@) + lex_spec(sv, current_pos as nat) =~= lex_spec(sv, 0),
        decreases length - current_pos,
    {
        let ghost pos0 = current_pos as nat;
        let ghost pre = vec@;
        let current_character: char = chars[current_pos];
        if !is_an_allowed_char(current_character) {
            current_pos += 1;
            continue ;
        }
        if current_character == '+' {
            vec.push(Token::OPE(Operator::PLUS));
            current_pos += 1;
        } else if current_character == '-' {
            vec.push(Token::OPE(Operator::MINUS));
            current_pos += 1;
        } else if current_character == '*' {
            vec.push(Token::OPE(Operator::MULTIPLICATION));
            current_pos += 1;
        } else if current_character == '/' {
            vec.push(Token::OPE(Operator::DIVIDE));
            current_pos += 1;
        } else if current_character == ')' {
            vec.push(Token::RPAR);
            current_pos += 1;
        } else if current_character == '(' {
            vec.push(Token::LPAR);
            current_pos += 1;
        } else if current_character == '^' {
            vec.push(Token::OPE(Operator::EXPO));
            current_pos += 1;
        } else if current_character == '=' {
            if current_pos + 1 < length && chars[current_pos + 1] == '=' {
                vec.push(Token::OPE(Operator::EQUALITY));
                current_pos += 2;
            } else {
                vec.push(Token::EQUAL);
                current_pos += 1;
            }
        } else if current_character == '<' {
            if current_pos + 1 < length && chars[current_pos + 1] == '=' {
                vec.push(Token::OPE(Operator::LesserOrEqual));
                current_pos += 2;
            } else {
                vec.push(Token::OPE(Operator::LesserThan));
                current_pos += 1;
            }
        } else if current_character == '>' {
            if current_pos + 1 < length && chars[current_pos + 1] == '=' {
                vec.push(Token::OPE(Operator::GreaterOrEqual));
                current_pos += 2;
            } else {
                vec.push(Token::OPE(Operator::GreaterThan));
                current_pos += 1;
            }
        } else if current_character == '!' {
            vec.push(Token::OPE(Operator::NOT));
            current_pos += 1;
        } else if current_character == '&' {
            if current_pos + 1 < length && chars[current_pos + 1] == '&' {
                vec.push(Token::OPE(Operator::And));
                current_pos += 2;
            } else {
                vec.push(Token::PreAnd);
                current_pos += 1;
            }
        } else if current_character == '|' {
            if current_pos + 1 < length && chars[current_pos + 1] == '|' {
                vec.push(Token::OPE(Operator::Or));
                current_pos += 2;
            } else {
                vec.push(Token::PreOr);
                current_pos += 1;
            }
        } else if current_character == ',' {
            vec.push(Token::COMMA);
            current_pos += 1;
        } else if current_character == '[' {
            vec.push(Token::LBRACKET);
            current_pos += 1;
        } else if current_character == ']' {
            vec.push(Token::RBRACKET);
            current_pos += 1;
        } else if current_character == '"' {
            vec.push(Token::QUOTE);
            current_pos += 1;
        } else if current_character == ' ' || current_character == '\t' || current_character
            == '\n' || current_character == '\r' {
            current_pos += 1;
            continue ;
        } else if current_character >= '0' && current_character <= '9' {
            let (a, b) = lex_int(current_character, &chars, current_pos, length);
            if b < length && chars[b] == '.' {
                let (a1, b1) = lex_float(a, &chars, b, length);
                vec.push(Token::FLOAT(a1));
                current_pos = b1;
            } else {
                vec.push(Token::INT(a));
                current_pos = b;
            }
        } else if current_character == '.' {
            let (a1, b1) = lex_float(0, &chars, current_pos, length);
            vec.push(Token::FLOAT(a1));
            current_pos = b1;
        } else if char_is_alphabetic(current_character) {
            let (a, b) = lex_string(current_character, &chars, current_pos, length);
            vec.push(Token::IDENTIFIER(a));
            current_pos = b;
            proof {
                assert(is_letter_char(sv[pos0 as int]));
                assert(is_alnum_char(sv[pos0 as int]));
                assert(alnum_run_end(sv, pos0) >= pos0 + 1);
            }
        } else {
            current_pos += 1;
            continue ;
        }
        proof {
            assert(vec@.drop_last() =~= pre);
            assert(tokens_view(vec@) =~= tokens_view(pre) + seq![vec@.last()@]);
            assert(tokens_view(vec@) + lex_spec(sv, current_pos as nat) =~= lex_spec(sv, 0));
        }
    }
    proof {
        assert(lex_spec(sv, current_pos as nat) =~= Seq::<TokenV>::empty());
        assert(tokens_view(vec@) + Seq::<TokenV>::empty() =~= tokens_view(vec@));
    }
    vec
}

/// Every printed digit is a digit, and at least one is printed.
pub proof fn lemma_digits_of_are_digits(n: nat)
    ensures
        crate::parsing::pretty::digits_of(n).len() >= 1,
        forall|i: int|
            0 <= i < crate::parsing::pretty::digits_of(n).len() ==> is_digit_char(
                #[trigger] crate::parsing::pretty::digits_of(n)[i],
            ),
    decreases n,
{
    if n >= 10 {
        lemma_digits_of_are_digits(n / 10);
    }
}

/// Reading the printed decimal digits of a number back gives the number:
/// the decimal rendering and the decimal reading invert each other.
pub proof fn lemma_decimal_round_trip(n: nat)
    ensures
        digits_val(crate::parsing::pretty::digits_of(n)) == n,
    decreases n,
{
    let ds = crate::parsing::pretty::digits_of(n);
    if n < 10 {
        let c = ((48 + n) as u8) as char;
        assert(c as u32 == 48 + n);
        assert(is_digit_char(c));
        assert(ds =~= seq![c]);
        assert(ds.drop_last() =~= Seq::<char>::empty());
        assert(digits_val(ds) == digits_val(Seq::<char>::empty()) * 10 + (c as u32 - 48));
    } else {
        lemma_decimal_round_trip(n / 10);
        lemma_digits_of_are_digits(n / 10);
        assert(ds == crate::parsing::pretty::digits_of(n / 10).push(((48 + n % 10) as u8) as char));
        assert(ds.drop_last() =~= crate::parsing::pretty::digits_of(n / 10));
        let c = ((48 + n % 10) as u8) as char;
        assert(c as u32 == 48 + n % 10);
        assert(is_digit_char(c));
        assert(ds.last() == c);
        assert(digits_val(ds) == (n / 10) * 10 + n % 10);
        assert((n / 10) * 10 + n % 10 == n) by {
            vstd::arithmetic::div_mod::lemma_fundamental_div_mod(n as int, 10);
        }
    }
}

/// A digit run stops exactly at the first non-digit (or the end).
pub proof fn lemma_digit_run_to(s: Seq<char>, pos: nat, end: nat)
    requires
        pos <= end <= s.len(),
        forall|i: int| pos <= i < end ==> is_digit_char(#[trigger] s[i]),
        end < s.len() ==> !is_digit_char(s[end as int]),
    ensures
        digit_run_end(s, pos) == end,
    decreases end - pos,
{
    if pos < end {
        lemma_digit_run_to(s, pos + 1, end);
    }
}

/// The printed form of a fraction of two non-negative numbers tokenizes
/// as the numerator, the division operator, and the denominator.
pub proof fn lemma_fraction_text_lexes(o: i64, u: i64)
    requires
        0 <= o,
        0 <= u,
    ensures
        lex_spec(
            crate::parsing::pretty::int_decimal(o as int) + seq!['/']
                + crate::parsing::pretty::int_decimal(u as int),
            0,
        ) =~= seq![
            TokenV::INT(o),
            TokenV::OPE(Operator::DIVIDE),
            TokenV::INT(u),
        ],
{
    let d1 = crate::parsing::pretty::digits_of(o as nat);
    let d2 = crate::parsing::pretty::digits_of(u as nat);
    let s = crate::parsing::pretty::int_decimal(o as int) + seq!['/']
        + crate::parsing::pretty::int_decimal(u as int);
    lemma_digits_of_are_digits(o as nat);
    lemma_digits_of_are_digits(u as nat);
    lemma_decimal_round_trip(o as nat);
    lemma_decimal_round_trip(u as nat);
    assert(s =~= d1 + seq!['/'] + d2);
    let m = d1.len() as int;
    assert(forall|i: int| 0 <= i < m ==> s[i] == d1[i]);
    assert(s[m] == '/');
    assert(forall|i: int| m + 1 <= i < s.len() ==> s[i] == d2[i - (m + 1)]);
    lemma_digit_run_to(s, 0, d1.len());
    let e = digit_run_end(s, 0);
    assert(e == d1.len());
    assert(s.subrange(0, e as int) =~= d1);
    assert(int_tok_val(s, 0) == o);
    assert(is_digit_char(s[0]));
    assert(!(s[0] == '+') && !(s[0] == '-'));
    assert(spec_allowed_char(s[0]));
    assert(s[e as int] == '/');
    assert(spec_allowed_char('/'));
    lemma_digit_run_to(s, e + 1, s.len());
    let e2 = digit_run_end(s, e + 1);
    assert(e2 == s.len());
    assert(s.subrange(e as int + 1, e2 as int) =~= d2);
    assert(int_tok_val(s, e + 1) == u);
    assert(is_digit_char(s[e as int + 1]));
    assert(!(s[e as int + 1] == '+') && !(s[e as int + 1] == '-'));
    assert(spec_allowed_char(s[e as int + 1]));
    assert(lex_spec(s, e2) =~= Seq::<TokenV>::empty());
    assert(lex_spec(s, e + 1) =~= seq![TokenV::INT(u)]);
    assert(lex_spec(s, e) =~= seq![TokenV::OPE(Operator::DIVIDE), TokenV::INT(u)]);
    assert(lex_spec(s, 0) =~= seq![TokenV::INT(o)] + lex_spec(s, e));
}

/// A digit run over an all-digit sequence reaches its end.
pub proof fn lemma_digit_run_all(s: Seq<char>, pos: nat)
    requires
        pos <= s.len(),
        forall|i: int| 0 <= i < s.len() ==> is_digit_char(#[trigger] s[i]),
    ensures
        digit_run_end(s, pos) == s.len(),
    decreases s.len() - pos,
{
    if pos < s.len() {
        lemma_digit_run_all(s, pos + 1);
    }
}

/// A canonical numeric literal survives the print-and-read-again round
/// trip: tokenizing the decimal rendering of a whole number yields
/// exactly that number's integer token, so re-parsing it evaluates back
/// to the same value.
pub proof fn lemma_numeric_literal_round_trip(n: nat)
    requires
        n <= i64::MAX,
    ensures
        lex_spec(crate::parsing::pretty::digits_of(n), 0) =~= seq![TokenV::INT(n as i64)],
{
    let ds = crate::parsing::pretty::digits_of(n);
    lemma_digits_of_are_digits(n);
    lemma_decimal_round_trip(n);
    lemma_digit_run_all(ds, 0);
    assert(is_digit_char(ds[0]));
    assert(!(ds[0] == '+') && !(ds[0] == '-'));
    assert(spec_allowed_char(ds[0]));
    assert(digit_run_end(ds, 0) == ds.len());
    assert(ds.subrange(0, ds.len() as int) =~= ds);
    assert(int_tok_val(ds, 0) == n as i64);
    assert(lex_spec(ds, ds.len()) =~= Seq::<TokenV>::empty());
}

} // verus!
