//! The lexical rules: a specification-level tokenizer that defines, for
//! every source string, either its `Eof`-terminated token stream or the
//! position and message of the first lexical fault, and an executable
//! lexer proved to return exactly that.

use vstd::prelude::*;
use vstd::string::*;

use crate::token::{kind_view, tok_view, toks_view, wf_toks, SyntaxError, TokKind, TokKindV, TokV,
    Token};

verus! {

/// Result of lexing a whole suffix of the source: the tokens, or the first
/// fault with its character position and message.
pub enum LexRes {
    Toks(Seq<TokV>),
    Fail(int, Seq<char>),
}

/// Result of one bounded scan inside the lexer.
pub enum Scan {
    At(int),
    Bad(int, Seq<char>),
}

pub open spec fn is_space(c: char) -> bool {
    c == ' ' || c == '\t' || c == '\r' || c == '\n'
}

pub open spec fn is_digit(c: char) -> bool {
    48 <= c as u32 <= 57
}

pub open spec fn digit_val(c: char) -> int {
    c as u32 - 48
}

pub open spec fn is_ident_start(c: char) -> bool {
    (65 <= c as u32 <= 90) || (97 <= c as u32 <= 122) || c == '_'
}

pub open spec fn is_ident_char(c: char) -> bool {
    is_ident_start(c) || is_digit(c)
}

/// The next strictly advancing cursor: a successful scan from `i` always
/// moves past at least one character or token, so this is the identity on
/// every result an executable scan can produce; it only records that fact
/// where the definitions alone do not show it, keeping recursion well
/// founded.
pub open spec fn step(i: int, j: int, n: int) -> int {
    if i < j && j <= n {
        j
    } else if i < n {
        i + 1
    } else {
        n
    }
}

/// First position at or after `i` that does not hold a decimal digit.
pub open spec fn digits_end(s: Seq<char>, i: int) -> int
    decreases s.len() - i,
{
    if 0 <= i < s.len() && is_digit(s[i]) {
        digits_end(s, i + 1)
    } else {
        i
    }
}

/// First position at or after `i` that does not hold an identifier
/// character.
pub open spec fn ident_end(s: Seq<char>, i: int) -> int
    decreases s.len() - i,
{
    if 0 <= i < s.len() && is_ident_char(s[i]) {
        ident_end(s, i + 1)
    } else {
        i
    }
}

/// Value of the digit run `s[a..b]`, most significant digit first.
pub open spec fn digits_val(s: Seq<char>, a: int, b: int) -> int
    decreases b - a,
{
    if b <= a {
        0
    } else {
        digits_val(s, a, b - 1) * 10 + digit_val(s[b - 1])
    }
}

/// End of an optional exponent part starting at `i`: `e` or `E`, an
/// optional sign, then at least one digit; absent if `i` does not hold an
/// exponent marker.
pub open spec fn exp_end(s: Seq<char>, i: int) -> Scan {
    if 0 <= i < s.len() && (s[i] == 'e' || s[i] == 'E') {
        let k = if i + 1 < s.len() && (s[i + 1] == '+' || s[i + 1] == '-') {
            i + 2
        } else {
            i + 1
        };
        let m = digits_end(s, k);
        if m == k {
            Scan::Bad(k, "malformed numeric literal"@)
        } else {
            Scan::At(m)
        }
    } else {
        Scan::At(i)
    }
}

/// End of the fractional and exponent parts of a float literal whose
/// integer digits end at `j`: a `.` must be followed by at least one digit,
/// then an optional exponent.
pub open spec fn float_end(s: Seq<char>, j: int) -> Scan {
    if 0 <= j < s.len() && s[j] == '.' {
        let f = digits_end(s, j + 1);
        if f == j + 1 {
            Scan::Bad(j + 1, "malformed numeric literal"@)
        } else {
            exp_end(s, f)
        }
    } else {
        exp_end(s, j)
    }
}

/// A digit run continues as a float literal exactly when a decimal point
/// or exponent marker follows it.
pub open spec fn is_float_start(s: Seq<char>, j: int) -> bool {
    0 <= j < s.len() && (s[j] == '.' || s[j] == 'e' || s[j] == 'E')
}

/// The token an identifier-shaped word stands for: a reserved keyword is
/// never an identifier.
pub open spec fn word_kind(w: Seq<char>) -> TokKindV {
    if w == "if"@ {
        TokKindV::If
    } else if w == "then"@ {
        TokKindV::Then
    } else if w == "else"@ {
        TokKindV::Else
    } else if w == "let"@ {
        TokKindV::Let
    } else if w == "rec"@ {
        TokKindV::Rec
    } else if w == "in"@ {
        TokKindV::In
    } else if w == "fun"@ {
        TokKindV::Fun
    } else if w == "true"@ {
        TokKindV::True
    } else if w == "false"@ {
        TokKindV::False
    } else {
        TokKindV::Ident(w)
    }
}

pub open spec fn lex_cons(t: TokV, rest: LexRes) -> LexRes {
    match rest {
        LexRes::Toks(ts) => LexRes::Toks(seq![t] + ts),
        LexRes::Fail(p, m) => LexRes::Fail(p, m),
    }
}

/// The lexical rules of the language: the token stream of the source
/// suffix starting at `i`, or its first fault. Whitespace is skipped; a
/// digit run is an integer literal unless a decimal point or exponent
/// marker follows, and an integer literal above `2^63` cannot fit a 64-bit
/// signed value even when negated; identifier-shaped words are keywords or
/// identifiers; the remaining characters are the operators and punctuation.
pub open spec fn sp_lex(s: Seq<char>, i: int) -> LexRes
    decreases s.len() - i,
{
    let n = s.len() as int;
    if !(0 <= i < n) {
        LexRes::Toks(seq![TokV { kind: TokKindV::Eof, pos: n }])
    } else {
        let c = s[i];
        if is_space(c) {
            sp_lex(s, i + 1)
        } else if is_digit(c) {
            let j = digits_end(s, i);
            if is_float_start(s, j) {
                match float_end(s, j) {
                    Scan::Bad(p, m) => LexRes::Fail(p, m),
                    Scan::At(k) => {
                        let k2 = step(i, k, n);
                        lex_cons(
                            TokV { kind: TokKindV::FloatLit(s.subrange(i, k2)), pos: i },
                            sp_lex(s, k2),
                        )
                    },
                }
            } else {
                let v = digits_val(s, i, j);
                if v > 0x8000000000000000 {
                    LexRes::Fail(i, "integer literal overflow"@)
                } else {
                    let j2 = step(i, j, n);
                    lex_cons(TokV { kind: TokKindV::IntLit(v), pos: i }, sp_lex(s, j2))
                }
            }
        } else if is_ident_start(c) {
            let j = step(i, ident_end(s, i), n);
            lex_cons(TokV { kind: word_kind(s.subrange(i, j)), pos: i }, sp_lex(s, j))
        } else if c == '&' {
            if i + 1 < n && s[i + 1] == '&' {
                lex_cons(TokV { kind: TokKindV::AmpAmp, pos: i }, sp_lex(s, i + 2))
            } else {
                LexRes::Fail(i, "unrecognized character"@)
            }
        } else if c == '|' {
            if i + 1 < n && s[i + 1] == '|' {
                lex_cons(TokV { kind: TokKindV::PipePipe, pos: i }, sp_lex(s, i + 2))
            } else {
                LexRes::Fail(i, "unrecognized character"@)
            }
        } else if c == '=' {
            if i + 1 < n && s[i + 1] == '=' {
                lex_cons(TokV { kind: TokKindV::EqEq, pos: i }, sp_lex(s, i + 2))
            } else {
                lex_cons(TokV { kind: TokKindV::Assign, pos: i }, sp_lex(s, i + 1))
            }
        } else if c == '!' {
            if i + 1 < n && s[i + 1] == '=' {
                lex_cons(TokV { kind: TokKindV::NotEq, pos: i }, sp_lex(s, i + 2))
            } else {
                lex_cons(TokV { kind: TokKindV::Bang, pos: i }, sp_lex(s, i + 1))
            }
        } else if c == '<' {
            if i + 1 < n && s[i + 1] == '=' {
                lex_cons(TokV { kind: TokKindV::Le, pos: i }, sp_lex(s, i + 2))
            } else {
                lex_cons(TokV { kind: TokKindV::Lt, pos: i }, sp_lex(s, i + 1))
            }
        } else if c == '>' {
            if i + 1 < n && s[i + 1] == '=' {
                lex_cons(TokV { kind: TokKindV::Ge, pos: i }, sp_lex(s, i + 2))
            } else {
                lex_cons(TokV { kind: TokKindV::Gt, pos: i }, sp_lex(s, i + 1))
            }
        } else if c == '-' {
            if i + 1 < n && s[i + 1] == '>' {
                lex_cons(TokV { kind: TokKindV::Arrow, pos: i }, sp_lex(s, i + 2))
            } else {
                lex_cons(TokV { kind: TokKindV::Minus, pos: i }, sp_lex(s, i + 1))
            }
        } else if c == '+' {
            lex_cons(TokV { kind: TokKindV::Plus, pos: i }, sp_lex(s, i + 1))
        } else if c == '*' {
            lex_cons(TokV { kind: TokKindV::Star, pos: i }, sp_lex(s, i + 1))
        } else if c == '/' {
            lex_cons(TokV { kind: TokKindV::Slash, pos: i }, sp_lex(s, i + 1))
        } else if c == '(' {
            lex_cons(TokV { kind: TokKindV::LParen, pos: i }, sp_lex(s, i + 1))
        } else if c == ')' {
            lex_cons(TokV { kind: TokKindV::RParen, pos: i }, sp_lex(s, i + 1))
        } else if c == ':' {
            lex_cons(TokV { kind: TokKindV::Colon, pos: i }, sp_lex(s, i + 1))
        } else {
            LexRes::Fail(i, "unrecognized character"@)
        }
    }
}

/// How an executable lexing result realizes a specification-level one:
/// same tokens (with a well-formed stream) or the same fault.
pub open spec fn lex_matches(r: Result<Vec<Token>, SyntaxError>, l: LexRes) -> bool {
    match r {
        Result::Ok(ts) => l matches LexRes::Toks(vs) && toks_view(ts@) == vs && wf_toks(ts@),
        Result::Err(e) => l matches LexRes::Fail(p, m) && e.pos == p && e.msg@ == m,
    }
}

fn is_space_x(c: char) -> (b: bool)
    ensures
        b == is_space(c),
{
    c == ' ' || c == '\t' || c == '\r' || c == '\n'
}

fn is_digit_x(c: char) -> (b: bool)
    ensures
        b == is_digit(c),
{
    let u = c as u32;
    48 <= u && u <= 57
}

fn is_ident_start_x(c: char) -> (b: bool)
    ensures
        b == is_ident_start(c),
{
    let u = c as u32;
    (65 <= u && u <= 90) || (97 <= u && u <= 122) || c == '_'
}

fn is_ident_char_x(c: char) -> (b: bool)
    ensures
        b == is_ident_char(c),
{
    is_ident_start_x(c) || is_digit_x(c)
}

fn digits_end_x(s: &str, n: usize, i: usize) -> (j: usize)
    requires
        n == s@.len(),
        i <= n,
    ensures
        j == digits_end(s@, i as int),
        i <= j <= n,
        forall|k: int| i <= k < j ==> is_digit(s@[k]),
        i < n && is_digit(s@[i as int]) ==> j > i,
    decreases n - i,
{
    if i < n {
        let c = s.get_char(i);
        if is_digit_x(c) {
            digits_end_x(s, n, i + 1)
        } else {
            i
        }
    } else {
        i
    }
}

fn ident_end_x(s: &str, n: usize, i: usize) -> (j: usize)
    requires
        n == s@.len(),
        i <= n,
    ensures
        j == ident_end(s@, i as int),
        i <= j <= n,
        i < n && is_ident_char(s@[i as int]) ==> j > i,
    decreases n - i,
{
    if i < n {
        let c = s.get_char(i);
        if is_ident_char_x(c) {
            ident_end_x(s, n, i + 1)
        } else {
            i
        }
    } else {
        i
    }
}

proof fn lemma_digits_val_nonneg(s: Seq<char>, a: int, b: int)
    requires
        a <= b,
        forall|k: int| a <= k < b ==> is_digit(s[k]),
    ensures
        digits_val(s, a, b) >= 0,
    decreases b - a,
{
    if a < b {
        lemma_digits_val_nonneg(s, a, b - 1);
    }
}

/// Appending digits never shrinks the value of a digit run.
proof fn lemma_digits_val_grows(s: Seq<char>, a: int, m: int, b: int)
    requires
        a <= m <= b,
        forall|k: int| a <= k < b ==> is_digit(s[k]),
    ensures
        digits_val(s, a, b) >= digits_val(s, a, m),
    decreases b - m,
{
    if m < b {
        lemma_digits_val_grows(s, a, m, b - 1);
        lemma_digits_val_nonneg(s, a, b - 1);
    }
}

/// Value of the digit run `s[a..b]`, or `None` when it exceeds `2^63`, the
/// largest magnitude a 64-bit signed literal (possibly negated) can carry.
fn digits_value_x(s: &str, n: usize, a: usize, b: usize) -> (r: Option<u64>)
    requires
        n == s@.len(),
        a <= b <= n,
        forall|k: int| a <= k < b ==> is_digit(s@[k]),
    ensures
        match r {
            Some(v) => v == digits_val(s@, a as int, b as int) && v <= 0x8000000000000000,
            None => digits_val(s@, a as int, b as int) > 0x8000000000000000,
        },
{
    let mut acc: u64 = 0;
    let mut k: usize = a;
    while k < b
        invariant
            a <= k <= b <= n,
            n == s@.len(),
            forall|m: int| a <= m < b ==> is_digit(s@[m]),
            acc == digits_val(s@, a as int, k as int),
            acc <= 0x8000000000000000,
        decreases b - k,
    {
        let c = s.get_char(k);
        let d = (c as u32 - 48) as u64;
        if acc > 922337203685477580 || (acc == 922337203685477580 && d > 8) {
            proof {
                lemma_digits_val_grows(s@, a as int, k + 1 as int, b as int);
            }
            return None;
        }
        acc = acc * 10 + d;
        k = k + 1;
    }
    Some(acc)
}

fn exp_scan_x(s: &str, n: usize, i: usize) -> (r: Result<usize, SyntaxError>)
    requires
        n == s@.len(),
        i <= n,
    ensures
        match r {
            Result::Ok(k) => exp_end(s@, i as int) == Scan::At(k as int) && i <= k <= n && (i < n
                && (s@[i as int] == 'e' || s@[i as int] == 'E') ==> k > i),
            Result::Err(e) => exp_end(s@, i as int) matches Scan::Bad(p, m) && e.pos == p && e.msg@
                == m,
        },
{
    if i < n {
        let c = s.get_char(i);
        if c == 'e' || c == 'E' {
            let k0 = if i + 1 < n {
                let d = s.get_char(i + 1);
                if d == '+' || d == '-' {
                    i + 2
                } else {
                    i + 1
                }
            } else {
                i + 1
            };
            let m = digits_end_x(s, n, k0);
            if m == k0 {
                Err(SyntaxError { pos: k0, msg: "malformed numeric literal" })
            } else {
                Ok(m)
            }
        } else {
            Ok(i)
        }
    } else {
        Ok(i)
    }
}

fn float_scan_x(s: &str, n: usize, j: usize) -> (r: Result<usize, SyntaxError>)
    requires
        n == s@.len(),
        is_float_start(s@, j as int),
        j < n,
    ensures
        match r {
            Result::Ok(k) => float_end(s@, j as int) == Scan::At(k as int) && j < k <= n,
            Result::Err(e) => float_end(s@, j as int) matches Scan::Bad(p, m) && e.pos == p
                && e.msg@ == m,
        },
{
    let c = s.get_char(j);
    if c == '.' {
        let f = digits_end_x(s, n, j + 1);
        if f == j + 1 {
            Err(SyntaxError { pos: j + 1, msg: "malformed numeric literal" })
        } else {
            exp_scan_x(s, n, f)
        }
    } else {
        exp_scan_x(s, n, j)
    }
}

pub(crate) fn str_eq(a: &str, b: &str) -> (r: bool)
    ensures
        r == (a@ == b@),
{
    let na = a.unicode_len();
    let nb = b.unicode_len();
    if na != nb {
        return false;
    }
    let mut k: usize = 0;
    while k < na
        invariant
            0 <= k <= na,
            na == a@.len(),
            nb == b@.len(),
            na == nb,
            forall|m: int| 0 <= m < k ==> a@[m] == b@[m],
        decreases na - k,
    {
        let ca = a.get_char(k);
        let cb = b.get_char(k);
        if ca != cb {
            return false;
        }
        k = k + 1;
    }
    proof {
        assert(a@ =~= b@);
    }
    true
}

fn classify_word(w: &str) -> (k: TokKind)
    ensures
        kind_view(k) == word_kind(w@),
        !(k matches TokKind::Eof),
        !(k matches TokKind::IntLit(_)),
{
    if str_eq(w, "if") {
        TokKind::If
    } else if str_eq(w, "then") {
        TokKind::Then
    } else if str_eq(w, "else") {
        TokKind::Else
    } else if str_eq(w, "let") {
        TokKind::Let
    } else if str_eq(w, "rec") {
        TokKind::Rec
    } else if str_eq(w, "in") {
        TokKind::In
    } else if str_eq(w, "fun") {
        TokKind::Fun
    } else if str_eq(w, "true") {
        TokKind::True
    } else if str_eq(w, "false") {
        TokKind::False
    } else {
        TokKind::Ident(String::from_str(w))
    }
}

/// Prepending a non-`Eof` token keeps a stream well formed and maps the
/// views pointwise.
proof fn lemma_cons(t: Token, rest: Seq<Token>)
    requires
        wf_toks(rest),
        !(t.kind matches TokKind::Eof),
        t.kind matches TokKind::IntLit(v) ==> v <= 0x8000000000000000,
    ensures
        wf_toks(seq![t] + rest),
        toks_view(seq![t] + rest) == seq![tok_view(t)] + toks_view(rest),
{
    let c = seq![t] + rest;
    assert forall|k: int| 0 <= k < c.len() implies ((#[trigger] c[k].kind matches TokKind::Eof)
        <==> k == c.len() - 1) by {
        if k > 0 {
            assert(c[k] == rest[k - 1]);
        }
    }
    assert forall|k: int| 0 <= k < c.len() implies (#[trigger] c[k].kind matches
    TokKind::IntLit(v) ==> v <= 0x8000000000000000) by {
        if k > 0 {
            assert(c[k] == rest[k - 1]);
        }
    }
    assert(toks_view(c) =~= seq![tok_view(t)] + toks_view(rest)) by {
        assert forall|k: int| 0 <= k < c.len() implies #[trigger] toks_view(c)[k] == (seq![
            tok_view(t),
        ] + toks_view(rest))[k] by {
            if k > 0 {
                assert(c[k] == rest[k - 1]);
            }
        }
    }
}

/// Emits the token `kind` starting at `i` and lexes on from `k`.
fn lex_tok(s: &str, n: usize, i: usize, k: usize, kind: TokKind) -> (r: Result<
    Vec<Token>,
    SyntaxError,
>)
    requires
        n == s@.len(),
        i < k <= n,
        !(kind matches TokKind::Eof),
        kind matches TokKind::IntLit(v) ==> v <= 0x8000000000000000,
    ensures
        lex_matches(r, lex_cons(TokV { kind: kind_view(kind), pos: i as int }, sp_lex(s@, k as int))),
    decreases n - k, 1int,
{
    let ghost tv = TokV { kind: kind_view(kind), pos: i as int };
    match lex_from(s, n, k) {
        Err(e) => Err(e),
        Ok(rest) => {
            let tok = Token { kind, pos: i };
            proof {
                assert(tok_view(tok) == tv);
                lemma_cons(tok, rest@);
            }
            let mut out: Vec<Token> = Vec::new();
            out.push(tok);
            let mut rest = rest;
            out.append(&mut rest);
            Ok(out)
        },
    }
}

/// Lexes the source suffix starting at `i`, realizing `sp_lex` exactly.
pub fn lex_from(s: &str, n: usize, i: usize) -> (r: Result<Vec<Token>, SyntaxError>)
    requires
        n == s@.len(),
        i <= n,
    ensures
        lex_matches(r, sp_lex(s@, i as int)),
    decreases n - i, 0int,
{
    if i >= n {
        let mut out: Vec<Token> = Vec::new();
        out.push(Token { kind: TokKind::Eof, pos: n });
        proof {
            assert(toks_view(out@) =~= seq![TokV { kind: TokKindV::Eof, pos: n as int }]);
        }
        Ok(out)
    } else {
        let c = s.get_char(i);
        if is_space_x(c) {
            lex_from(s, n, i + 1)
        } else if is_digit_x(c) {
            let j = digits_end_x(s, n, i);
            let isf = if j < n {
                let d = s.get_char(j);
                d == '.' || d == 'e' || d == 'E'
            } else {
                false
            };
            if isf {
                match float_scan_x(s, n, j) {
                    Err(e) => Err(e),
                    Ok(k) => {
                        let sub = s.substring_char(i, k);
                        let lit = String::from_str(sub);
                        lex_tok(s, n, i, k, TokKind::FloatLit(lit))
                    },
                }
            } else {
                match digits_value_x(s, n, i, j) {
                    None => Err(SyntaxError { pos: i, msg: "integer literal overflow" }),
                    Some(v) => lex_tok(s, n, i, j, TokKind::IntLit(v)),
                }
            }
        } else if is_ident_start_x(c) {
            let j = ident_end_x(s, n, i);
            let sub = s.substring_char(i, j);
            let kind = classify_word(sub);
            lex_tok(s, n, i, j, kind)
        } else if c == '&' {
            if i + 1 < n && s.get_char(i + 1) == '&' {
                lex_tok(s, n, i, i + 2, TokKind::AmpAmp)
            } else {
                Err(SyntaxError { pos: i, msg: "unrecognized character" })
            }
        } else if c == '|' {
            if i + 1 < n && s.get_char(i + 1) == '|' {
                lex_tok(s, n, i, i + 2, TokKind::PipePipe)
            } else {
                Err(SyntaxError { pos: i, msg: "unrecognized character" })
            }
        } else if c == '=' {
            if i + 1 < n && s.get_char(i + 1) == '=' {
                lex_tok(s, n, i, i + 2, TokKind::EqEq)
            } else {
                lex_tok(s, n, i, i + 1, TokKind::Assign)
            }
        } else if c == '!' {
            if i + 1 < n && s.get_char(i + 1) == '=' {
                lex_tok(s, n, i, i + 2, TokKind::NotEq)
            } else {
                lex_tok(s, n, i, i + 1, TokKind::Bang)
            }
        } else if c == '<' {
            if i + 1 < n && s.get_char(i + 1) == '=' {
                lex_tok(s, n, i, i + 2, TokKind::Le)
            } else {
                lex_tok(s, n, i, i + 1, TokKind::Lt)
            }
        } else if c == '>' {
            if i + 1 < n && s.get_char(i + 1) == '=' {
                lex_tok(s, n, i, i + 2, TokKind::Ge)
            } else {
                lex_tok(s, n, i, i + 1, TokKind::Gt)
            }
        } else if c == '-' {
            if i + 1 < n && s.get_char(i + 1) == '>' {
                lex_tok(s, n, i, i + 2, TokKind::Arrow)
            } else {
                lex_tok(s, n, i, i + 1, TokKind::Minus)
            }
        } else if c == '+' {
            lex_tok(s, n, i, i + 1, TokKind::Plus)
        } else if c == '*' {
            lex_tok(s, n, i, i + 1, TokKind::Star)
        } else if c == '/' {
            lex_tok(s, n, i, i + 1, TokKind::Slash)
        } else if c == '(' {
            lex_tok(s, n, i, i + 1, TokKind::LParen)
        } else if c == ')' {
            lex_tok(s, n, i, i + 1, TokKind::RParen)
        } else if c == ':' {
            lex_tok(s, n, i, i + 1, TokKind::Colon)
        } else {
            Err(SyntaxError { pos: i, msg: "unrecognized character" })
        }
    }
}

} // verus!
