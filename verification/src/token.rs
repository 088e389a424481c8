//! Tokens of the surface language and the single error type of the front
//! end. The lexer turns a source string into an `Eof`-terminated token
//! stream; every later stage reports failures as a `SyntaxError`.

use vstd::prelude::*;

verus! {

/// A syntactic failure: the character position (for lexical errors) or the
/// position of the offending token (for grammatical errors), and a
/// human-readable message.
#[derive(Debug, PartialEq)]
pub struct SyntaxError {
    pub pos: usize,
    pub msg: &'static str,
}

/// The kind of one token. Keyword variants are the reserved words, which
/// are never valid identifiers. `IntLit` holds the literal's magnitude,
/// at most `2^63` so that a preceding minus sign can still reach the most
/// negative 64-bit value; `FloatLit` holds the literal text unchanged.
#[derive(Debug, PartialEq)]
pub enum TokKind {
    LParen,
    RParen,
    Colon,
    Assign,
    Arrow,
    Plus,
    Minus,
    Star,
    Slash,
    Bang,
    AmpAmp,
    PipePipe,
    EqEq,
    NotEq,
    Lt,
    Gt,
    Le,
    Ge,
    If,
    Then,
    Else,
    Let,
    Rec,
    In,
    Fun,
    True,
    False,
    IntLit(u64),
    FloatLit(String),
    Ident(String),
    Eof,
}

/// One token with the character position where it starts. The `Eof` token
/// carries the length of the source string.
#[derive(Debug, PartialEq)]
pub struct Token {
    pub kind: TokKind,
    pub pos: usize,
}

/// Mathematical view of `TokKind`.
pub enum TokKindV {
    LParen,
    RParen,
    Colon,
    Assign,
    Arrow,
    Plus,
    Minus,
    Star,
    Slash,
    Bang,
    AmpAmp,
    PipePipe,
    EqEq,
    NotEq,
    Lt,
    Gt,
    Le,
    Ge,
    If,
    Then,
    Else,
    Let,
    Rec,
    In,
    Fun,
    True,
    False,
    IntLit(int),
    FloatLit(Seq<char>),
    Ident(Seq<char>),
    Eof,
}

/// Mathematical view of `Token`.
pub struct TokV {
    pub kind: TokKindV,
    pub pos: int,
}

pub open spec fn kind_view(k: TokKind) -> TokKindV {
    match k {
        TokKind::LParen => TokKindV::LParen,
        TokKind::RParen => TokKindV::RParen,
        TokKind::Colon => TokKindV::Colon,
        TokKind::Assign => TokKindV::Assign,
        TokKind::Arrow => TokKindV::Arrow,
        TokKind::Plus => TokKindV::Plus,
        TokKind::Minus => TokKindV::Minus,
        TokKind::Star => TokKindV::Star,
        TokKind::Slash => TokKindV::Slash,
        TokKind::Bang => TokKindV::Bang,
        TokKind::AmpAmp => TokKindV::AmpAmp,
        TokKind::PipePipe => TokKindV::PipePipe,
        TokKind::EqEq => TokKindV::EqEq,
        TokKind::NotEq => TokKindV::NotEq,
        TokKind::Lt => TokKindV::Lt,
        TokKind::Gt => TokKindV::Gt,
        TokKind::Le => TokKindV::Le,
        TokKind::Ge => TokKindV::Ge,
        TokKind::If => TokKindV::If,
        TokKind::Then => TokKindV::Then,
        TokKind::Else => TokKindV::Else,
        TokKind::Let => TokKindV::Let,
        TokKind::Rec => TokKindV::Rec,
        TokKind::In => TokKindV::In,
        TokKind::Fun => TokKindV::Fun,
        TokKind::True => TokKindV::True,
        TokKind::False => TokKindV::False,
        TokKind::IntLit(v) => TokKindV::IntLit(v as int),
        TokKind::FloatLit(s) => TokKindV::FloatLit(s@),
        TokKind::Ident(s) => TokKindV::Ident(s@),
        TokKind::Eof => TokKindV::Eof,
    }
}

pub open spec fn tok_view(t: Token) -> TokV {
    TokV { kind: kind_view(t.kind), pos: t.pos as int }
}

pub open spec fn toks_view(ts: Seq<Token>) -> Seq<TokV> {
    Seq::new(ts.len(), |k: int| tok_view(ts[k]))
}

/// Well-formedness of a lexed token stream: it ends with exactly one `Eof`
/// token, and every integer literal fits the magnitude bound. The parser
/// relies on this to read one token ahead without running off the end.
pub open spec fn wf_toks(ts: Seq<Token>) -> bool {
    &&& ts.len() >= 1
    &&& forall|k: int|
        0 <= k < ts.len() ==> ((#[trigger] ts[k].kind matches TokKind::Eof) <==> k == ts.len()
            - 1)
    &&& forall|k: int|
        0 <= k < ts.len() ==> (#[trigger] ts[k].kind matches TokKind::IntLit(v) ==> v
            <= 0x8000000000000000)
}

} // verus!
