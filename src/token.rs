use vstd::prelude::*;

verus! {

/// A half-open range `[start, end)` of character offsets into the scanned text.
#[derive(Debug, Clone, Copy, PartialEq, Eq)]
pub struct Span {
    pub start: usize,
    pub end: usize,
}

/// The classification of a token. Data-carrying variants own their payload.
#[derive(Debug, Clone, PartialEq, Eq)]
pub enum TokenKind {
    Illegal,
    Eof,
    Ident(String),
    Int(i64),
    Str(String),
    Assign,
    Plus,
    Minus,
    Bang,
    Asterisk,
    Slash,
    Lt,
    Gt,
    Eq,
    NotEq,
    Comma,
    Semicolon,
    Colon,
    LParen,
    RParen,
    LBrace,
    RBrace,
    LBracket,
    RBracket,
    Function,
    Let,
    True,
    False,
    If,
    Else,
    Return,
}

/// One scanned token: its kind and where its text was found.
#[derive(Debug, Clone, PartialEq, Eq)]
pub struct Token {
    pub kind: TokenKind,
    pub span: Span,
}

/// The mathematical value of a `TokenKind`: payloads become sequences and integers.
pub enum Kind {
    Illegal,
    Eof,
    Ident(Seq<char>),
    Int(int),
    Str(Seq<char>),
    Assign,
    Plus,
    Minus,
    Bang,
    Asterisk,
    Slash,
    Lt,
    Gt,
    Eq,
    NotEq,
    Comma,
    Semicolon,
    Colon,
    LParen,
    RParen,
    LBrace,
    RBrace,
    LBracket,
    RBracket,
    Function,
    Let,
    True,
    False,
    If,
    Else,
    Return,
}

impl View for TokenKind {
    type V = Kind;

    open spec fn view(&self) -> Kind {
        match self {
            TokenKind::Illegal => Kind::Illegal,
            TokenKind::Eof => Kind::Eof,
            TokenKind::Ident(s) => Kind::Ident(s@),
            TokenKind::Int(n) => Kind::Int(*n as int),
            TokenKind::Str(s) => Kind::Str(s@),
            TokenKind::Assign => Kind::Assign,
            TokenKind::Plus => Kind::Plus,
            TokenKind::Minus => Kind::Minus,
            TokenKind::Bang => Kind::Bang,
            TokenKind::Asterisk => Kind::Asterisk,
            TokenKind::Slash => Kind::Slash,
            TokenKind::Lt => Kind::Lt,
            TokenKind::Gt => Kind::Gt,
            TokenKind::Eq => Kind::Eq,
            TokenKind::NotEq => Kind::NotEq,
            TokenKind::Comma => Kind::Comma,
            TokenKind::Semicolon => Kind::Semicolon,
            TokenKind::Colon => Kind::Colon,
            TokenKind::LParen => Kind::LParen,
            TokenKind::RParen => Kind::RParen,
            TokenKind::LBrace => Kind::LBrace,
            TokenKind::RBrace => Kind::RBrace,
            TokenKind::LBracket => Kind::LBracket,
            TokenKind::RBracket => Kind::RBracket,
            TokenKind::Function => Kind::Function,
            TokenKind::Let => Kind::Let,
            TokenKind::True => Kind::True,
            TokenKind::False => Kind::False,
            TokenKind::If => Kind::If,
            TokenKind::Else => Kind::Else,
            TokenKind::Return => Kind::Return,
        }
    }
}

/// The kind that a scanned word stands for: a keyword if it is one, else an identifier.
pub open spec fn keyword_kind(w: Seq<char>) -> Kind {
    if w == seq!['l', 'e', 't'] {
        Kind::Let
    } else if w == seq!['f', 'n'] {
        Kind::Function
    } else if w == seq!['t', 'r', 'u', 'e'] {
        Kind::True
    } else if w == seq!['f', 'a', 'l', 's', 'e'] {
        Kind::False
    } else if w == seq!['i', 'f'] {
        Kind::If
    } else if w == seq!['e', 'l', 's', 'e'] {
        Kind::Else
    } else if w == seq!['r', 'e', 't', 'u', 'r', 'n'] {
        Kind::Return
    } else {
        Kind::Ident(w)
    }
}

/// Is `w` the same text as the literal `lit`?
fn is_word(w: &String, lit: &str) -> (r: bool)
    ensures
        r == (w@ == lit@),
{
    let k = String::from_str(lit);
    *w == k
}

/// Maps a scanned word to its keyword kind, or to `Ident` holding the word.
pub fn lookup_identifier(ident: String) -> (k: TokenKind)
    ensures
        k@ == keyword_kind(ident@),
{
    proof {
        reveal_strlit("let");
        reveal_strlit("fn");
        reveal_strlit("true");
        reveal_strlit("false");
        reveal_strlit("if");
        reveal_strlit("else");
        reveal_strlit("return");
        assert("let"@ =~= seq!['l', 'e', 't']);
        assert("fn"@ =~= seq!['f', 'n']);
        assert("true"@ =~= seq!['t', 'r', 'u', 'e']);
        assert("false"@ =~= seq!['f', 'a', 'l', 's', 'e']);
        assert("if"@ =~= seq!['i', 'f']);
        assert("else"@ =~= seq!['e', 'l', 's', 'e']);
        assert("return"@ =~= seq!['r', 'e', 't', 'u', 'r', 'n']);
    }
    if is_word(&ident, "let") {
        TokenKind::Let
    } else if is_word(&ident, "fn") {
        TokenKind::Function
    } else if is_word(&ident, "true") {
        TokenKind::True
    } else if is_word(&ident, "false") {
        TokenKind::False
    } else if is_word(&ident, "if") {
        TokenKind::If
    } else if is_word(&ident, "else") {
        TokenKind::Else
    } else if is_word(&ident, "return") {
        TokenKind::Return
    } else {
        TokenKind::Ident(ident)
    }
}

} // verus!
