use vstd::prelude::*;

use crate::token::{Kind, keyword_kind};

verus! {

/// Whitespace that separates tokens: space, tab, newline, carriage return.
pub open spec fn is_space(c: char) -> bool {
    c == ' ' || c == '\t' || c == '\n' || c == '\r'
}

/// ASCII letters and the underscore start and continue an identifier.
pub open spec fn is_letter_char(c: char) -> bool {
    ('a' <= c && c <= 'z') || ('A' <= c && c <= 'Z') || c == '_'
}

pub open spec fn is_digit_char(c: char) -> bool {
    '0' <= c && c <= '9'
}

pub open spec fn digit_of(c: char) -> int {
    (c as u32) as int - ('0' as u32) as int
}

/// The kind of a character that is a token on its own, if it is one.
pub open spec fn single_kind(c: char) -> Option<Kind> {
    if c == '=' {
        Some(Kind::Assign)
    } else if c == '!' {
        Some(Kind::Bang)
    } else if c == '+' {
        Some(Kind::Plus)
    } else if c == '-' {
        Some(Kind::Minus)
    } else if c == '*' {
        Some(Kind::Asterisk)
    } else if c == '/' {
        Some(Kind::Slash)
    } else if c == '<' {
        Some(Kind::Lt)
    } else if c == '>' {
        Some(Kind::Gt)
    } else if c == '(' {
        Some(Kind::LParen)
    } else if c == ')' {
        Some(Kind::RParen)
    } else if c == '{' {
        Some(Kind::LBrace)
    } else if c == '}' {
        Some(Kind::RBrace)
    } else if c == '[' {
        Some(Kind::LBracket)
    } else if c == ']' {
        Some(Kind::RBracket)
    } else if c == ',' {
        Some(Kind::Comma)
    } else if c == ';' {
        Some(Kind::Semicolon)
    } else if c == ':' {
        Some(Kind::Colon)
    } else {
        None
    }
}

/// The first offset at or after `p` that is not whitespace (or the end of `s`).
pub open spec fn skip_space(s: Seq<char>, p: int) -> int
    decreases s.len() - p,
{
    if 0 <= p < s.len() && is_space(s[p]) {
        skip_space(s, p + 1)
    } else {
        p
    }
}

/// The end of the run of letters that starts at `p`.
pub open spec fn letters_end(s: Seq<char>, p: int) -> int
    decreases s.len() - p,
{
    if 0 <= p < s.len() && is_letter_char(s[p]) {
        letters_end(s, p + 1)
    } else {
        p
    }
}

/// The end of the run of digits that starts at `p`.
pub open spec fn digits_end(s: Seq<char>, p: int) -> int
    decreases s.len() - p,
{
    if 0 <= p < s.len() && is_digit_char(s[p]) {
        digits_end(s, p + 1)
    } else {
        p
    }
}

/// The first offset at or after `p` that holds a double quote (or the end of `s`).
pub open spec fn quote_end(s: Seq<char>, p: int) -> int
    decreases s.len() - p,
{
    if 0 <= p < s.len() && s[p] != '"' {
        quote_end(s, p + 1)
    } else {
        p
    }
}

/// The decimal value of a run of digits.
pub open spec fn digits_value(d: Seq<char>) -> int
    decreases d.len(),
{
    if d.len() == 0 {
        0
    } else {
        digits_value(d.drop_last()) * 10 + digit_of(d.last())
    }
}

/// One step of the scanner on text `s` with its cursor at `pos`: the kind of the
/// token found, and the start and end of its span (where the cursor goes next).
pub open spec fn scan(s: Seq<char>, pos: int) -> (Kind, int, int) {
    let p = skip_space(s, pos);
    if p >= s.len() {
        (Kind::Eof, p, p)
    } else {
        let c = s[p];
        let two = p + 1 < s.len() && s[p + 1] == '=';
        if c == '=' && two {
            (Kind::Eq, p, p + 2)
        } else if c == '!' && two {
            (Kind::NotEq, p, p + 2)
        } else if c == '"' {
            let q = quote_end(s, p + 1);
            (Kind::Str(s.subrange(p + 1, q)), p, if q < s.len() { q + 1 } else { q })
        } else if is_letter_char(c) {
            let q = letters_end(s, p);
            (keyword_kind(s.subrange(p, q)), p, q)
        } else if is_digit_char(c) {
            let q = digits_end(s, p);
            (Kind::Int(digits_value(s.subrange(p, q))), p, q)
        } else {
            match single_kind(c) {
                Some(k) => (k, p, p + 1),
                None => (Kind::Illegal, p, p + 1),
            }
        }
    }
}

/// The integer token that the next step would read, if any, fits in an `i64`.
pub open spec fn next_int_fits(s: Seq<char>, pos: int) -> bool {
    let p = skip_space(s, pos);
    (0 <= p < s.len() && is_digit_char(s[p])) ==> digits_value(s.subrange(p, digits_end(s, p)))
        <= i64::MAX
}

/// The kinds that successive steps produce from `pos`, up to and including the first `Eof`.
pub open spec fn scan_kinds(s: Seq<char>, pos: int) -> Seq<Kind>
    decreases s.len() - pos,
{
    let (k, _, e) = scan(s, pos);
    if k == Kind::Eof {
        seq![Kind::Eof]
    } else if pos < e <= s.len() {
        seq![k].add(scan_kinds(s, e))
    } else {
        seq![k]
    }
}

/// A character that is an operator or a punctuation mark.
pub open spec fn is_punct(c: char) -> bool {
    single_kind(c) is Some
}

/// The kinds that a text of operators and punctuation stands for, read from its front:
/// `==` and `!=` are one token each, every other character is its own token.
pub open spec fn punct_kinds(t: Seq<char>) -> Seq<Kind>
    decreases t.len(),
{
    if t.len() == 0 {
        Seq::empty()
    } else if t.len() >= 2 && t[0] == '=' && t[1] == '=' {
        seq![Kind::Eq].add(punct_kinds(t.drop_first().drop_first()))
    } else if t.len() >= 2 && t[0] == '!' && t[1] == '=' {
        seq![Kind::NotEq].add(punct_kinds(t.drop_first().drop_first()))
    } else {
        seq![single_kind(t[0])->0].add(punct_kinds(t.drop_first()))
    }
}

pub fn is_whitespace(c: char) -> (r: bool)
    ensures
        r == is_space(c),
{
    c == ' ' || c == '\t' || c == '\n' || c == '\r'
}

pub fn is_letter(c: char) -> (r: bool)
    ensures
        r == is_letter_char(c),
{
    ('a' <= c && c <= 'z') || ('A' <= c && c <= 'Z') || c == '_'
}

pub fn is_digit(c: char) -> (r: bool)
    ensures
        r == is_digit_char(c),
{
    c >= '0' && c <= '9'
}

} // verus!
