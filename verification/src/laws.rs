//! Laws of the grammar engine, proved once and for all over the grammar
//! itself: parsing is deterministic, and the canonical decimal text of any
//! 64-bit signed integer parses back to exactly that integer literal.

use vstd::prelude::*;

use crate::ast::ExprV;
use crate::grammar::{sp_app, sp_args, sp_atom, sp_bin, sp_bin_tail, sp_expr, sp_parse, sp_unary,
    PRes};
use crate::lexer::{digit_val, digits_end, digits_val, is_digit, sp_lex, LexRes};
use crate::token::{TokKindV, TokV};

verus! {

/// The character of one decimal digit.
pub open spec fn digit_char(d: int) -> char {
    if d == 0 {
        '0'
    } else if d == 1 {
        '1'
    } else if d == 2 {
        '2'
    } else if d == 3 {
        '3'
    } else if d == 4 {
        '4'
    } else if d == 5 {
        '5'
    } else if d == 6 {
        '6'
    } else if d == 7 {
        '7'
    } else if d == 8 {
        '8'
    } else {
        '9'
    }
}

/// The canonical decimal digits of `m`, most significant first, with no
/// leading zeros.
pub open spec fn dec_digits(m: nat) -> Seq<char>
    decreases m,
{
    if m < 10 {
        seq![digit_char(m as int)]
    } else {
        dec_digits(m / 10) + seq![digit_char((m % 10) as int)]
    }
}

/// The canonical decimal text of `n`: a minus sign for negative values,
/// then the digits of the magnitude.
pub open spec fn dec_str(n: int) -> Seq<char> {
    if n < 0 {
        seq!['-'] + dec_digits((-n) as nat)
    } else {
        dec_digits(n as nat)
    }
}

proof fn lemma_dec_digits_are_digits(m: nat)
    ensures
        dec_digits(m).len() >= 1,
        forall|k: int| 0 <= k < dec_digits(m).len() ==> is_digit(#[trigger] dec_digits(m)[k]),
    decreases m,
{
    if m >= 10 {
        lemma_dec_digits_are_digits(m / 10);
        assert forall|k: int| 0 <= k < dec_digits(m).len() implies is_digit(
            #[trigger] dec_digits(m)[k],
        ) by {
            if k < dec_digits(m / 10).len() {
                assert(dec_digits(m)[k] == dec_digits(m / 10)[k]);
            } else {
                assert(dec_digits(m)[k] == digit_char((m % 10) as int));
            }
        }
    }
}

/// A digit run read at an offset has the value of the same digits read in
/// place.
proof fn lemma_digits_val_shift(s: Seq<char>, t: Seq<char>, d: int, a: int, b: int)
    requires
        a <= b,
        forall|k: int| a <= k < b ==> s[k + d] == #[trigger] t[k],
    ensures
        digits_val(s, a + d, b + d) == digits_val(t, a, b),
    decreases b - a,
{
    if a < b {
        lemma_digits_val_shift(s, t, d, a, b - 1);
        assert(s[(b - 1) + d] == t[b - 1]);
    }
}

proof fn lemma_digits_val_of_dec(m: nat)
    ensures
        digits_val(dec_digits(m), 0, dec_digits(m).len() as int) == m,
    decreases m,
{
    let s = dec_digits(m);
    if m < 10 {
        assert(digits_val(s, 0, 1) == digits_val(s, 0, 0) * 10 + digit_val(s[0]));
        assert(digit_val(digit_char(m as int)) == m);
    } else {
        lemma_digits_val_of_dec(m / 10);
        let a = dec_digits(m / 10);
        let l = s.len() as int;
        assert(s[l - 1] == digit_char((m % 10) as int));
        assert forall|k: int| 0 <= k < a.len() implies s[k + 0] == #[trigger] a[k] by {
            assert(s[k] == a[k]);
        }
        lemma_digits_val_shift(s, a, 0, 0, a.len() as int);
        assert(digits_val(s, 0, l) == digits_val(s, 0, l - 1) * 10 + digit_val(s[l - 1]));
        assert(digit_val(digit_char((m % 10) as int)) == m % 10);
        assert(m == (m / 10) * 10 + m % 10);
    }
}

/// A run of digits reaching the end of the string scans to the end.
proof fn lemma_digits_end_all(s: Seq<char>, i: int)
    requires
        0 <= i <= s.len(),
        forall|k: int| i <= k < s.len() ==> is_digit(#[trigger] s[k]),
    ensures
        digits_end(s, i) == s.len(),
    decreases s.len() - i,
{
    if i < s.len() {
        lemma_digits_end_all(s, i + 1);
    }
}

/// Lexing the canonical digits of `m` yields exactly one integer literal
/// token.
proof fn lemma_lex_dec_at(s: Seq<char>, i: int, m: nat)
    requires
        0 <= i,
        s.len() == i + dec_digits(m).len(),
        forall|k: int| 0 <= k < dec_digits(m).len() ==> s[k + i] == #[trigger] dec_digits(m)[k],
        m <= 0x8000000000000000,
    ensures
        sp_lex(s, i) == LexRes::Toks(
            seq![
                TokV { kind: TokKindV::IntLit(m as int), pos: i },
                TokV { kind: TokKindV::Eof, pos: s.len() as int },
            ],
        ),
{
    let d = dec_digits(m);
    lemma_dec_digits_are_digits(m);
    assert forall|k: int| i <= k < s.len() implies is_digit(#[trigger] s[k]) by {
        assert(s[(k - i) + i] == d[k - i]);
    }
    assert(is_digit(s[i]));
    lemma_digits_end_all(s, i);
    lemma_digits_val_shift(s, d, i, 0, d.len() as int);
    lemma_digits_val_of_dec(m);
    assert(digits_val(s, i, s.len() as int) == m);
    assert(sp_lex(s, s.len() as int) == LexRes::Toks(
        seq![TokV { kind: TokKindV::Eof, pos: s.len() as int }],
    ));
    assert(seq![TokV { kind: TokKindV::IntLit(m as int), pos: i }] + seq![
        TokV { kind: TokKindV::Eof, pos: s.len() as int },
    ] =~= seq![
        TokV { kind: TokKindV::IntLit(m as int), pos: i },
        TokV { kind: TokKindV::Eof, pos: s.len() as int },
    ]);
}

/// A two-token stream holding one integer literal within signed 64-bit
/// range parses to that literal.
proof fn lemma_parse_int_tokens(ts: Seq<TokV>, v: int)
    requires
        ts.len() == 2,
        ts[0].kind == TokKindV::IntLit(v),
        ts[1].kind matches TokKindV::Eof,
        0 <= v <= 0x7fffffffffffffff,
    ensures
        sp_expr(ts, 0) == PRes::<ExprV>::Parsed(ExprV::Int(v), 1),
{
    let e = ExprV::Int(v);
    assert(sp_atom(ts, 0) == PRes::<ExprV>::Parsed(e, 1));
    assert(sp_args(ts, 1, Seq::<ExprV>::empty()) == PRes::<Seq<ExprV>>::Parsed(
        Seq::<ExprV>::empty(),
        1,
    ));
    assert(sp_app(ts, 0) == PRes::<ExprV>::Parsed(e, 1));
    assert(sp_unary(ts, 0) == PRes::<ExprV>::Parsed(e, 1));
    assert forall|l: int| 0 <= l < 6 implies sp_bin_tail(ts, 1, l, e) == PRes::<ExprV>::Parsed(
        e,
        1,
    ) by {
        reveal_with_fuel(sp_bin_tail, 1);
    }
    reveal_with_fuel(sp_bin, 8);
    assert(sp_bin(ts, 0, 6) == PRes::<ExprV>::Parsed(e, 1));
    assert(sp_bin(ts, 0, 5) == PRes::<ExprV>::Parsed(e, 1));
    assert(sp_bin(ts, 0, 4) == PRes::<ExprV>::Parsed(e, 1));
    assert(sp_bin(ts, 0, 3) == PRes::<ExprV>::Parsed(e, 1));
    assert(sp_bin(ts, 0, 2) == PRes::<ExprV>::Parsed(e, 1));
    assert(sp_bin(ts, 0, 1) == PRes::<ExprV>::Parsed(e, 1));
    assert(sp_bin(ts, 0, 0) == PRes::<ExprV>::Parsed(e, 1));
}

/// A three-token stream holding a minus sign and an integer literal parses
/// to the negative literal.
proof fn lemma_parse_neg_int_tokens(ts: Seq<TokV>, v: int)
    requires
        ts.len() == 3,
        ts[0].kind matches TokKindV::Minus,
        ts[1].kind == TokKindV::IntLit(v),
        ts[2].kind matches TokKindV::Eof,
        0 <= v <= 0x8000000000000000,
    ensures
        sp_expr(ts, 0) == PRes::<ExprV>::Parsed(ExprV::Int(-v), 2),
{
    let e = ExprV::Int(-v);
    assert(sp_unary(ts, 0) == PRes::<ExprV>::Parsed(e, 2));
    assert forall|l: int| 0 <= l < 6 implies sp_bin_tail(ts, 2, l, e) == PRes::<ExprV>::Parsed(
        e,
        2,
    ) by {
        reveal_with_fuel(sp_bin_tail, 1);
    }
    reveal_with_fuel(sp_bin, 8);
    assert(sp_bin(ts, 0, 6) == PRes::<ExprV>::Parsed(e, 2));
    assert(sp_bin(ts, 0, 5) == PRes::<ExprV>::Parsed(e, 2));
    assert(sp_bin(ts, 0, 4) == PRes::<ExprV>::Parsed(e, 2));
    assert(sp_bin(ts, 0, 3) == PRes::<ExprV>::Parsed(e, 2));
    assert(sp_bin(ts, 0, 2) == PRes::<ExprV>::Parsed(e, 2));
    assert(sp_bin(ts, 0, 1) == PRes::<ExprV>::Parsed(e, 2));
    assert(sp_bin(ts, 0, 0) == PRes::<ExprV>::Parsed(e, 2));
}

/// For every integer within 64-bit signed range, parsing its canonical
/// decimal text yields exactly the integer literal with that value:
/// the grammar round-trips every `i64`.
#[verifier::rlimit(100)]
pub proof fn lemma_parse_int_round_trip(n: int)
    requires
        -0x8000000000000000 <= n <= 0x7fffffffffffffff,
    ensures
        sp_parse(dec_str(n)) matches PRes::Parsed(e, _) && e == ExprV::Int(n),
{
    if n >= 0 {
        let m = n as nat;
        let s = dec_str(n);
        assert(s == dec_digits(m));
        lemma_dec_digits_are_digits(m);
        assert forall|k: int| 0 <= k < dec_digits(m).len() implies s[k + 0] == #[trigger] dec_digits(
            m,
        )[k] by {
            assert(s[k] == dec_digits(m)[k]);
        }
        lemma_lex_dec_at(s, 0, m);
        let ts = seq![
            TokV { kind: TokKindV::IntLit(m as int), pos: 0 },
            TokV { kind: TokKindV::Eof, pos: s.len() as int },
        ];
        lemma_parse_int_tokens(ts, n);
        assert(sp_parse(s) == PRes::<ExprV>::Parsed(ExprV::Int(n), 1));
    } else {
        let m = (-n) as nat;
        let s = dec_str(n);
        let d = dec_digits(m);
        lemma_dec_digits_are_digits(m);
        assert(s.len() == 1 + d.len());
        assert(s[0] == '-');
        // The character after the minus sign is a digit, so the sign is a
        // minus token, not the start of an arrow.
        assert(s[1] == d[0]);
        assert(is_digit(s[1]));
        assert forall|k: int| 0 <= k < d.len() implies s[k + 1] == #[trigger] d[k] by {
            assert(s[k + 1] == d[k]);
        }
        lemma_lex_dec_at(s, 1, m);
        assert(sp_lex(s, 0) == LexRes::Toks(
            seq![TokV { kind: TokKindV::Minus, pos: 0 }] + seq![
                TokV { kind: TokKindV::IntLit(m as int), pos: 1 },
                TokV { kind: TokKindV::Eof, pos: s.len() as int },
            ],
        ));
        let ts = seq![
            TokV { kind: TokKindV::Minus, pos: 0 },
            TokV { kind: TokKindV::IntLit(m as int), pos: 1 },
            TokV { kind: TokKindV::Eof, pos: s.len() as int },
        ];
        assert(seq![TokV { kind: TokKindV::Minus, pos: 0 }] + seq![
            TokV { kind: TokKindV::IntLit(m as int), pos: 1 },
            TokV { kind: TokKindV::Eof, pos: s.len() as int },
        ] =~= ts);
        lemma_parse_neg_int_tokens(ts, m as int);
        assert(sp_parse(s) == PRes::<ExprV>::Parsed(ExprV::Int(n), 2));
    }
}

/// Parsing is a pure function of the source text: two parses of the same
/// string always agree, so parsing the same source twice yields trees that
/// compare equal, and the executable parser — proved to realize
/// `sp_parse` — inherits this determinism.
pub proof fn lemma_parse_deterministic(s: Seq<char>, r1: PRes<ExprV>, r2: PRes<ExprV>)
    requires
        r1 == sp_parse(s),
        r2 == sp_parse(s),
    ensures
        r1 == r2,
{
}

} // verus!
