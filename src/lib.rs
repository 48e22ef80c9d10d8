use vstd::prelude::*;

pub mod grammar;
pub mod laws;
pub mod token;

use crate::grammar::{
    digits_end, digits_value, is_digit, is_digit_char, is_letter, is_whitespace, letters_end,
    next_int_fits, quote_end, scan, skip_space,
};
use crate::token::{lookup_identifier, Span, Token, TokenKind};

verus! {

/// A scanner over a text: each call of `next_token` returns the next token.
pub struct Lexer<'a> {
    input: &'a str,
    chars: Vec<char>,
    position: usize,
    read_position: usize,
    ch: Option<char>,
}

impl<'a> Lexer<'a> {
    /// The text being scanned, as characters.
    pub closed spec fn text(&self) -> Seq<char> {
        self.chars@
    }

    /// The cursor: the offset of the current character.
    pub closed spec fn pos(&self) -> int {
        self.position as int
    }

    pub closed spec fn wf(&self) -> bool {
        &&& self.chars@ == self.input@
        &&& self.position <= self.chars.len()
        &&& self.read_position == if self.position < self.chars.len() {
            self.position + 1
        } else {
            self.position as int
        }
        &&& self.ch == if self.position < self.chars.len() {
            Some(self.chars@[self.position as int])
        } else {
            None
        }
    }

    /// A scanner whose cursor stands on the first character of `input`.
    pub fn new(input: &'a str) -> (l: Self)
        ensures
            l.wf(),
            l.text() == input@,
            l.pos() == 0,
    {
        let mut chars: Vec<char> = Vec::new();
        for c in it: input.chars()
            invariant
                chars@ == it.seq().take(it.index() as int),
        {
            chars.push(c);
        }
        proof {
            broadcast use vstd::string::group_string_axioms;

            assert(chars@ =~= input@);
        }
        let (ch, read_position) = if chars.len() > 0 {
            (Some(chars[0]), 1)
        } else {
            (None, 0)
        };
        Lexer { input, chars, position: 0, read_position, ch }
    }

    /// Moves the cursor one character on, unless it is at the end already.
    fn read_char(&mut self)
        requires
            old(self).wf(),
        ensures
            final(self).wf(),
            final(self).text() == old(self).text(),
            final(self).pos() == if old(self).pos() < old(self).text().len() {
                old(self).pos() + 1
            } else {
                old(self).pos()
            },
    {
        if self.position < self.chars.len() {
            self.position = self.read_position;
            if self.position < self.chars.len() {
                self.ch = Some(self.chars[self.position]);
                self.read_position = self.position + 1;
            } else {
                self.ch = None;
            }
        }
    }

    /// The character after the current one, if there is one.
    fn peek_char(&self) -> (r: Option<char>)
        requires
            self.wf(),
        ensures
            r == if self.pos() + 1 < self.text().len() {
                Some(self.text()[self.pos() + 1])
            } else {
                None::<char>
            },
    {
        if self.read_position < self.chars.len() {
            Some(self.chars[self.read_position])
        } else {
            None
        }
    }

    /// Skips whitespace, then reads one token and moves the cursor to the end of its span.
    /// At the end of the text it returns `Eof` with an empty span and leaves the cursor
    /// there. The integer literal it may read must fit in an `i64`.
    pub fn next_token(&mut self) -> (t: Token)
        requires
            old(self).wf(),
            next_int_fits(old(self).text(), old(self).pos()),
        ensures
            final(self).wf(),
            final(self).text() == old(self).text(),
            t.kind@ == scan(old(self).text(), old(self).pos()).0,
            t.span.start == scan(old(self).text(), old(self).pos()).1,
            t.span.end == scan(old(self).text(), old(self).pos()).2,
            final(self).pos() == t.span.end,
            old(self).pos() <= t.span.start <= t.span.end <= old(self).text().len(),
    {
        self.skip_whitespace();
        let start = self.position;
        let c = match self.ch {
            Some(c) => c,
            None => {
                return Token { kind: TokenKind::Eof, span: Span { start, end: start } };
            },
        };
        let eq_next = match self.peek_char() {
            Some(n) => n == '=',
            None => false,
        };
        let kind = match c {
            '=' => {
                if eq_next {
                    self.read_char();
                    TokenKind::Eq
                } else {
                    TokenKind::Assign
                }
            },
            '!' => {
                if eq_next {
                    self.read_char();
                    TokenKind::NotEq
                } else {
                    TokenKind::Bang
                }
            },
            '+' => TokenKind::Plus,
            '-' => TokenKind::Minus,
            '*' => TokenKind::Asterisk,
            '/' => TokenKind::Slash,
            '<' => TokenKind::Lt,
            '>' => TokenKind::Gt,
            '(' => TokenKind::LParen,
            ')' => TokenKind::RParen,
            '{' => TokenKind::LBrace,
            '}' => TokenKind::RBrace,
            '[' => TokenKind::LBracket,
            ']' => TokenKind::RBracket,
            ',' => TokenKind::Comma,
            ';' => TokenKind::Semicolon,
            ':' => TokenKind::Colon,
            '"' => {
                let (start, end, text) = self.read_string();
                return Token { kind: TokenKind::Str(text), span: Span { start, end } };
            },
            _ => {
                if is_letter(c) {
                    let (start, end, word) = self.read_identifier();
                    return Token { kind: lookup_identifier(word), span: Span { start, end } };
                } else if is_digit(c) {
                    let (start, end, value) = self.read_number();
                    return Token { kind: TokenKind::Int(value), span: Span { start, end } };
                } else {
                    TokenKind::Illegal
                }
            },
        };
        self.read_char();
        Token { kind, span: Span { start, end: self.position } }
    }

    fn skip_whitespace(&mut self)
        requires
            old(self).wf(),
        ensures
            final(self).wf(),
            final(self).text() == old(self).text(),
            final(self).pos() == skip_space(old(self).text(), old(self).pos()),
            old(self).pos() <= final(self).pos(),
    {
        let ghost s = self.text();
        let ghost from = self.pos();
        loop
            invariant
                self.wf(),
                self.text() == s,
                skip_space(s, self.pos()) == skip_space(s, from),
                from <= self.pos(),
            ensures
                self.wf(),
                self.text() == s,
                self.pos() == skip_space(s, from),
                from <= self.pos(),
            decreases s.len() - self.pos(),
        {
            let more = match self.ch {
                Some(c) => is_whitespace(c),
                None => false,
            };
            if !more {
                break;
            }
            self.read_char();
        }
    }

    /// Reads the run of letters at the cursor: its span and its text.
    fn read_identifier(&mut self) -> (r: (usize, usize, String))
        requires
            old(self).wf(),
            old(self).pos() < old(self).text().len(),
        ensures
            final(self).wf(),
            final(self).text() == old(self).text(),
            r.0 == old(self).pos(),
            r.1 == letters_end(old(self).text(), old(self).pos()),
            r.2@ == old(self).text().subrange(r.0 as int, r.1 as int),
            final(self).pos() == r.1,
            r.0 <= r.1,
    {
        let ghost s = self.text();
        let start = self.position;
        loop
            invariant
                self.wf(),
                self.text() == s,
                start <= self.pos(),
                letters_end(s, self.pos()) == letters_end(s, start as int),
            ensures
                self.wf(),
                self.text() == s,
                start <= self.pos(),
                self.pos() == letters_end(s, start as int),
            decreases s.len() - self.pos(),
        {
            let more = match self.ch {
                Some(c) => is_letter(c),
                None => false,
            };
            if !more {
                break;
            }
            self.read_char();
        }
        let word = self.input.substring_char(start, self.position).to_owned();
        (start, self.position, word)
    }

    /// Reads the run of digits at the cursor: its span and its value.
    fn read_number(&mut self) -> (r: (usize, usize, i64))
        requires
            old(self).wf(),
            old(self).pos() < old(self).text().len(),
            digits_value(
                old(self).text().subrange(
                    old(self).pos(),
                    digits_end(old(self).text(), old(self).pos()),
                ),
            ) <= i64::MAX,
        ensures
            final(self).wf(),
            final(self).text() == old(self).text(),
            r.0 == old(self).pos(),
            r.1 == digits_end(old(self).text(), old(self).pos()),
            r.2 == digits_value(old(self).text().subrange(r.0 as int, r.1 as int)),
            final(self).pos() == r.1,
            r.0 <= r.1,
    {
        let ghost s = self.text();
        let start = self.position;
        let ghost end = digits_end(s, start as int);
        proof {
            lemma_digits_end_bounds(s, start as int);
        }
        let mut value: i64 = 0;
        loop
            invariant
                self.wf(),
                self.text() == s,
                start <= self.pos() <= end,
                end <= s.len(),
                digits_end(s, self.pos()) == end,
                forall|i: int| start <= i < end ==> is_digit_char(#[trigger] s[i]),
                value == digits_value(s.subrange(start as int, self.pos())),
                digits_value(s.subrange(start as int, end)) <= i64::MAX,
            ensures
                self.wf(),
                self.text() == s,
                self.pos() == end,
                value == digits_value(s.subrange(start as int, end)),
            decreases s.len() - self.pos(),
        {
            let c = match self.ch {
                Some(c) => c,
                None => {
                    break;
                },
            };
            if !is_digit(c) {
                break;
            }
            let ghost p = self.pos();
            proof {
                lemma_digits_end_bounds(s, p + 1);
                assert(p < end);
                let d = s.subrange(start as int, p + 1);
                assert(d.drop_last() =~= s.subrange(start as int, p));
                lemma_digits_prefix(s.subrange(start as int, end), p + 1 - start);
                assert(s.subrange(start as int, end).subrange(0, p + 1 - start) =~= d);
            }
            let d = (c as u32 - '0' as u32) as i64;
            value = value * 10 + d;
            self.read_char();
        }
        (start, self.position, value)
    }

    /// Reads a string literal whose opening quote is at the cursor: its span (quotes
    /// included) and the text between the quotes.
    fn read_string(&mut self) -> (r: (usize, usize, String))
        requires
            old(self).wf(),
            old(self).pos() < old(self).text().len(),
        ensures
            final(self).wf(),
            final(self).text() == old(self).text(),
            ({
                let s = old(self).text();
                let q = quote_end(s, old(self).pos() + 1);
                &&& r.0 == old(self).pos()
                &&& r.1 == if q < s.len() { q + 1 } else { q }
                &&& r.2@ == s.subrange(old(self).pos() + 1, q)
            }),
            final(self).pos() == r.1,
            r.0 <= r.1,
    {
        let ghost s = self.text();
        let start = self.position;
        self.read_char();
        let body = self.position;
        loop
            invariant
                self.wf(),
                self.text() == s,
                body <= self.pos(),
                body == start + 1,
                quote_end(s, self.pos()) == quote_end(s, body as int),
            ensures
                self.wf(),
                self.text() == s,
                body <= self.pos(),
                self.pos() == quote_end(s, body as int),
            decreases s.len() - self.pos(),
        {
            let more = match self.ch {
                Some(c) => c != '"',
                None => false,
            };
            if !more {
                break;
            }
            self.read_char();
        }
        let text = self.input.substring_char(body, self.position).to_owned();
        self.read_char();
        (start, self.position, text)
    }
}

/// A run of digits reaches no further than the text.
proof fn lemma_digits_end_bounds(s: Seq<char>, p: int)
    requires
        0 <= p <= s.len(),
    ensures
        p <= digits_end(s, p) <= s.len(),
        forall|i: int| p <= i < digits_end(s, p) ==> is_digit_char(#[trigger] s[i]),
    decreases s.len() - p,
{
    if p < s.len() && is_digit_char(s[p]) {
        lemma_digits_end_bounds(s, p + 1);
    }
}

/// The value of a prefix of a run of digits is no more than the value of the run.
proof fn lemma_digits_prefix(d: Seq<char>, k: int)
    requires
        0 <= k <= d.len(),
        forall|i: int| 0 <= i < d.len() ==> is_digit_char(#[trigger] d[i]),
    ensures
        0 <= digits_value(d.subrange(0, k)) <= digits_value(d),
    decreases d.len() - k,
{
    lemma_digits_nonneg(d);
    if k < d.len() {
        lemma_digits_prefix(d, k + 1);
        let a = d.subrange(0, k + 1);
        assert(a.drop_last() =~= d.subrange(0, k));
        lemma_digits_nonneg(d.subrange(0, k));
    } else {
        assert(d.subrange(0, k) =~= d);
    }
}

proof fn lemma_digits_nonneg(d: Seq<char>)
    requires
        forall|i: int| 0 <= i < d.len() ==> is_digit_char(#[trigger] d[i]),
    ensures
        digits_value(d) >= 0,
    decreases d.len(),
{
    if d.len() > 0 {
        lemma_digits_nonneg(d.drop_last());
    }
}

} // verus!
