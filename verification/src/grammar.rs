//! The grammar, as a total function from an `Eof`-terminated token stream
//! to a parse result. The precedence ladder runs from the binder forms
//! (`if`, `let`, `let rec`, `fun`, each extending as far right as
//! possible), through the left-associative binary levels (`||`, `&&`,
//! equality, relational, additive, multiplicative), unary prefix
//! operators, then application by juxtaposition, down to the atoms.
//! The executable parser is proved to return exactly these results.

use vstd::prelude::*;

use crate::ast::{BinOp, ExprV, FundefV, TypeV, UnaryOp};
use crate::lexer::{sp_lex, step, LexRes};
use crate::token::{TokKindV, TokV};

verus! {

/// A specification-level parse result: the parsed value together with the
/// index of the first token after it, or the offending token's position
/// and a message.
pub enum PRes<T> {
    Parsed(T, int),
    Fail(int, Seq<char>),
}

pub open spec fn tok_pos(ts: Seq<TokV>, p: int) -> int {
    if 0 <= p < ts.len() {
        ts[p].pos
    } else {
        0
    }
}

pub open spec fn perr<T>(ts: Seq<TokV>, p: int, m: Seq<char>) -> PRes<T> {
    PRes::Fail(tok_pos(ts, p), m)
}

/// The binary operator that token `k` stands for on precedence level
/// `lvl`, from loosest (`0`: logical or) to tightest (`5`:
/// multiplicative).
pub open spec fn level_op(lvl: int, k: TokKindV) -> Option<BinOp> {
    match k {
        TokKindV::PipePipe => if lvl == 0 {
            Some(BinOp::Or)
        } else {
            None
        },
        TokKindV::AmpAmp => if lvl == 1 {
            Some(BinOp::And)
        } else {
            None
        },
        TokKindV::EqEq => if lvl == 2 {
            Some(BinOp::Eq)
        } else {
            None
        },
        TokKindV::NotEq => if lvl == 2 {
            Some(BinOp::Neq)
        } else {
            None
        },
        TokKindV::Lt => if lvl == 3 {
            Some(BinOp::Lt)
        } else {
            None
        },
        TokKindV::Gt => if lvl == 3 {
            Some(BinOp::Gt)
        } else {
            None
        },
        TokKindV::Le => if lvl == 3 {
            Some(BinOp::Leq)
        } else {
            None
        },
        TokKindV::Ge => if lvl == 3 {
            Some(BinOp::Geq)
        } else {
            None
        },
        TokKindV::Plus => if lvl == 4 {
            Some(BinOp::Add)
        } else {
            None
        },
        TokKindV::Minus => if lvl == 4 {
            Some(BinOp::Sub)
        } else {
            None
        },
        TokKindV::Star => if lvl == 5 {
            Some(BinOp::Mul)
        } else {
            None
        },
        TokKindV::Slash => if lvl == 5 {
            Some(BinOp::Div)
        } else {
            None
        },
        _ => None,
    }
}

/// Whether a token can begin an atom, and hence extend an application.
pub open spec fn atom_start(k: TokKindV) -> bool {
    match k {
        TokKindV::LParen => true,
        TokKindV::True => true,
        TokKindV::False => true,
        TokKindV::IntLit(_) => true,
        TokKindV::FloatLit(_) => true,
        TokKindV::Ident(_) => true,
        _ => false,
    }
}

/// The type a type-level name denotes: the built-in names, or a free type
/// variable.
pub open spec fn builtin_type(w: Seq<char>) -> TypeV {
    if w == "Unit"@ {
        TypeV::Unit
    } else if w == "Bool"@ {
        TypeV::Bool
    } else if w == "Float"@ {
        TypeV::Float
    } else if w == "Int"@ {
        TypeV::Int
    } else {
        TypeV::Var(w)
    }
}

/// A full expression: a binder form if one starts here, else the operator
/// ladder.
pub open spec fn sp_expr(ts: Seq<TokV>, i: int) -> PRes<ExprV>
    decreases ts.len() - i, 20int,
{
    if !(0 <= i < ts.len()) {
        perr(ts, i, "unexpected end of input"@)
    } else {
        match ts[i].kind {
            TokKindV::If => sp_if(ts, i),
            TokKindV::Let => sp_let(ts, i),
            TokKindV::Fun => sp_fun(ts, i),
            _ => sp_bin(ts, i, 0),
        }
    }
}

/// `if e then e else e`; both branches are mandatory and each
/// sub-expression extends as far right as possible.
pub open spec fn sp_if(ts: Seq<TokV>, i: int) -> PRes<ExprV>
    decreases ts.len() - i, 19int,
{
    let n = ts.len() as int;
    if !(0 <= i < n) {
        perr(ts, i, "unexpected end of input"@)
    } else {
        match sp_expr(ts, i + 1) {
            PRes::Fail(p, m) => PRes::Fail(p, m),
            PRes::Parsed(c, a1) => {
                let p = step(i + 1, a1, n);
                if p < n && (ts[p].kind matches TokKindV::Then) {
                    match sp_expr(ts, p + 1) {
                        PRes::Fail(p2, m) => PRes::Fail(p2, m),
                        PRes::Parsed(t, a2) => {
                            let q = step(p + 1, a2, n);
                            if q < n && (ts[q].kind matches TokKindV::Else) {
                                match sp_expr(ts, q + 1) {
                                    PRes::Fail(p3, m) => PRes::Fail(p3, m),
                                    PRes::Parsed(e, a3) => PRes::Parsed(
                                        ExprV::If(Box::new(c), Box::new(t), Box::new(e)),
                                        a3,
                                    ),
                                }
                            } else {
                                perr(ts, q, "expected 'else'"@)
                            }
                        },
                    }
                } else {
                    perr(ts, p, "expected 'then'"@)
                }
            },
        }
    }
}

/// Zero or more parameter groups `( name : Type )`, collected in order.
pub open spec fn sp_params(ts: Seq<TokV>, i: int, acc: Seq<(Seq<char>, TypeV)>) -> PRes<
    Seq<(Seq<char>, TypeV)>,
>
    decreases ts.len() - i, 18int,
{
    let n = ts.len() as int;
    if !(0 <= i < n) {
        PRes::Parsed(acc, i)
    } else if (ts[i].kind matches TokKindV::LParen) {
        if i + 1 < n {
            match ts[i + 1].kind {
                TokKindV::Ident(x) => if i + 2 < n && (ts[i + 2].kind matches TokKindV::Colon) {
                    match sp_type(ts, i + 3) {
                        PRes::Fail(p, m) => PRes::Fail(p, m),
                        PRes::Parsed(t, a) => {
                            let p = step(i + 3, a, n);
                            if p < n && (ts[p].kind matches TokKindV::RParen) {
                                sp_params(ts, p + 1, acc.push((x, t)))
                            } else {
                                perr(ts, p, "expected closing parenthesis"@)
                            }
                        },
                    }
                } else {
                    perr(ts, i + 2, "expected ':'"@)
                },
                _ => perr(ts, i + 1, "expected parameter name"@),
            }
        } else {
            perr(ts, i + 1, "expected parameter name"@)
        }
    } else {
        PRes::Parsed(acc, i)
    }
}

/// `fun (x: T) ... -> e`: at least one typed parameter group, then a body
/// extending as far right as possible.
pub open spec fn sp_fun(ts: Seq<TokV>, i: int) -> PRes<ExprV>
    decreases ts.len() - i, 19int,
{
    let n = ts.len() as int;
    if !(0 <= i < n) {
        perr(ts, i, "unexpected end of input"@)
    } else if i + 1 < n && (ts[i + 1].kind matches TokKindV::LParen) {
        match sp_params(ts, i + 1, Seq::empty()) {
            PRes::Fail(p, m) => PRes::Fail(p, m),
            PRes::Parsed(ps, a) => {
                let p = step(i + 1, a, n);
                if p < n && (ts[p].kind matches TokKindV::Arrow) {
                    match sp_expr(ts, p + 1) {
                        PRes::Fail(p2, m) => PRes::Fail(p2, m),
                        PRes::Parsed(b, a2) => PRes::Parsed(ExprV::Lambda(ps, Box::new(b)), a2),
                    }
                } else {
                    perr(ts, p, "expected '->'"@)
                }
            },
        }
    } else {
        perr(ts, i + 1, "expected parameter list"@)
    }
}

/// The tail of a non-recursive `let`, from the `=` sign on:
/// `= e in e`.
pub open spec fn sp_let_body(ts: Seq<TokV>, i: int, x: Seq<char>, ot: Option<TypeV>) -> PRes<ExprV>
    decreases ts.len() - i, 18int,
{
    let n = ts.len() as int;
    if !(0 <= i < n) {
        perr(ts, i, "unexpected end of input"@)
    } else if (ts[i].kind matches TokKindV::Assign) {
        match sp_expr(ts, i + 1) {
            PRes::Fail(p, m) => PRes::Fail(p, m),
            PRes::Parsed(v, a) => {
                let q = step(i + 1, a, n);
                if q < n && (ts[q].kind matches TokKindV::In) {
                    match sp_expr(ts, q + 1) {
                        PRes::Fail(p2, m) => PRes::Fail(p2, m),
                        PRes::Parsed(b, a2) => PRes::Parsed(
                            ExprV::Let(x, ot, Box::new(v), Box::new(b)),
                            a2,
                        ),
                    }
                } else {
                    perr(ts, q, "expected 'in'"@)
                }
            },
        }
    } else {
        perr(ts, i, "expected '='"@)
    }
}

/// `let x = e in e`, `let x : T = e in e`, or
/// `let rec f (x: T) ... : T = e in e`.
pub open spec fn sp_let(ts: Seq<TokV>, i: int) -> PRes<ExprV>
    decreases ts.len() - i, 19int,
{
    let n = ts.len() as int;
    if !(0 <= i < n) {
        perr(ts, i, "unexpected end of input"@)
    } else if i + 1 < n && (ts[i + 1].kind matches TokKindV::Rec) {
        if i + 2 < n && (ts[i + 2].kind matches TokKindV::Ident(_)) {
            let f = ts[i + 2].kind->Ident_0;
            if i + 3 < n && (ts[i + 3].kind matches TokKindV::LParen) {
                match sp_params(ts, i + 3, Seq::empty()) {
                    PRes::Fail(p, m) => PRes::Fail(p, m),
                    PRes::Parsed(ps, a) => {
                        let p = step(i + 3, a, n);
                        if p < n && (ts[p].kind matches TokKindV::Colon) {
                            match sp_type(ts, p + 1) {
                                PRes::Fail(p2, m) => PRes::Fail(p2, m),
                                PRes::Parsed(rt, a2) => {
                                    let q = step(p + 1, a2, n);
                                    if q < n && (ts[q].kind matches TokKindV::Assign) {
                                        match sp_expr(ts, q + 1) {
                                            PRes::Fail(p3, m) => PRes::Fail(p3, m),
                                            PRes::Parsed(body, a3) => {
                                                let r = step(q + 1, a3, n);
                                                if r < n && (ts[r].kind matches TokKindV::In) {
                                                    match sp_expr(ts, r + 1) {
                                                        PRes::Fail(p4, m) => PRes::Fail(p4, m),
                                                        PRes::Parsed(rest, a4) => PRes::Parsed(
                                                            ExprV::LetRec(
                                                                FundefV {
                                                                    name: f,
                                                                    args: ps,
                                                                    ret_type: rt,
                                                                    body: Box::new(body),
                                                                },
                                                                Box::new(rest),
                                                            ),
                                                            a4,
                                                        ),
                                                    }
                                                } else {
                                                    perr(ts, r, "expected 'in'"@)
                                                }
                                            },
                                        }
                                    } else {
                                        perr(ts, q, "expected '='"@)
                                    }
                                },
                            }
                        } else {
                            perr(ts, p, "expected ':'"@)
                        }
                    },
                }
            } else {
                perr(ts, i + 3, "expected parameter list"@)
            }
        } else {
            perr(ts, i + 2, "expected function name"@)
        }
    } else if i + 1 < n && (ts[i + 1].kind matches TokKindV::Ident(_)) {
        let x = ts[i + 1].kind->Ident_0;
        if i + 2 < n && (ts[i + 2].kind matches TokKindV::Colon) {
            match sp_type(ts, i + 3) {
                PRes::Fail(p, m) => PRes::Fail(p, m),
                PRes::Parsed(t, a) => sp_let_body(ts, step(i + 3, a, n), x, Some(t)),
            }
        } else {
            sp_let_body(ts, i + 2, x, None)
        }
    } else {
        perr(ts, i + 1, "expected binding name"@)
    }
}

/// One left-associative binary level: the next-tighter level, then a tail
/// of `op` plus next-tighter level, folded to the left. Level `6` is the
/// unary level.
pub open spec fn sp_bin(ts: Seq<TokV>, i: int, lvl: int) -> PRes<ExprV>
    decreases ts.len() - i, (if 0 <= lvl < 6 { 13 - lvl } else { 7int }),
{
    if !(0 <= i < ts.len()) {
        perr(ts, i, "unexpected end of input"@)
    } else if !(0 <= lvl < 6) {
        sp_unary(ts, i)
    } else {
        match sp_bin(ts, i, lvl + 1) {
            PRes::Fail(p, m) => PRes::Fail(p, m),
            PRes::Parsed(e, a) => sp_bin_tail(ts, step(i, a, ts.len() as int), lvl, e),
        }
    }
}

/// The left fold of one binary level: while the next token is an operator
/// of this level, combine with the following next-tighter operand.
pub open spec fn sp_bin_tail(ts: Seq<TokV>, i: int, lvl: int, acc: ExprV) -> PRes<ExprV>
    decreases ts.len() - i, 0int,
{
    let n = ts.len() as int;
    if !(0 <= i < n) {
        PRes::Parsed(acc, i)
    } else {
        match level_op(lvl, ts[i].kind) {
            Option::None => PRes::Parsed(acc, i),
            Option::Some(op) => match sp_bin(ts, i + 1, lvl + 1) {
                PRes::Fail(p, m) => PRes::Fail(p, m),
                PRes::Parsed(r, a) => sp_bin_tail(
                    ts,
                    step(i + 1, a, n),
                    lvl,
                    ExprV::BinOp(op, Box::new(acc), Box::new(r)),
                ),
            },
        }
    }
}

/// Unary prefix `-` and `!`. A minus sign directly before an integer
/// literal is a negative literal, which is how the most negative 64-bit
/// value is written; otherwise the operand is parsed at this same level.
pub open spec fn sp_unary(ts: Seq<TokV>, i: int) -> PRes<ExprV>
    decreases ts.len() - i, 5int,
{
    let n = ts.len() as int;
    if !(0 <= i < n) {
        perr(ts, i, "unexpected end of input"@)
    } else {
        match ts[i].kind {
            TokKindV::Minus => {
                if i + 1 < n && (ts[i + 1].kind matches TokKindV::IntLit(_)) {
                    PRes::Parsed(ExprV::Int(-ts[i + 1].kind->IntLit_0), i + 2)
                } else {
                    match sp_unary(ts, i + 1) {
                        PRes::Fail(p, m) => PRes::Fail(p, m),
                        PRes::Parsed(e, a) => PRes::Parsed(
                            ExprV::UnaryOp(UnaryOp::Neg, Box::new(e)),
                            a,
                        ),
                    }
                }
            },
            TokKindV::Bang => {
                match sp_unary(ts, i + 1) {
                    PRes::Fail(p, m) => PRes::Fail(p, m),
                    PRes::Parsed(e, a) => PRes::Parsed(ExprV::UnaryOp(UnaryOp::Not, Box::new(e)), a),
                }
            },
            _ => sp_app(ts, i),
        }
    }
}

/// Application by juxtaposition: an atom followed by every atom that
/// directly follows it. One or more following atoms make a single `App`
/// node with the whole argument list; none leaves the atom alone.
pub open spec fn sp_app(ts: Seq<TokV>, i: int) -> PRes<ExprV>
    decreases ts.len() - i, 4int,
{
    if !(0 <= i < ts.len()) {
        perr(ts, i, "unexpected end of input"@)
    } else {
        match sp_atom(ts, i) {
            PRes::Fail(p, m) => PRes::Fail(p, m),
            PRes::Parsed(f, a) => {
                match sp_args(ts, step(i, a, ts.len() as int), Seq::empty()) {
                    PRes::Fail(p, m) => PRes::Fail(p, m),
                    PRes::Parsed(args, a2) => if args.len() == 0 {
                        PRes::Parsed(f, a2)
                    } else {
                        PRes::Parsed(ExprV::App(Box::new(f), args), a2)
                    },
                }
            },
        }
    }
}

/// The arguments of an application: atoms for as long as a token that can
/// begin an atom follows.
pub open spec fn sp_args(ts: Seq<TokV>, i: int, acc: Seq<ExprV>) -> PRes<Seq<ExprV>>
    decreases ts.len() - i, 4int,
{
    let n = ts.len() as int;
    if !(0 <= i < n) {
        PRes::Parsed(acc, i)
    } else if atom_start(ts[i].kind) {
        match sp_atom(ts, i) {
            PRes::Fail(p, m) => PRes::Fail(p, m),
            PRes::Parsed(e, a) => sp_args(ts, step(i, a, n), acc.push(e)),
        }
    } else {
        PRes::Parsed(acc, i)
    }
}

/// An atom: a literal, an identifier, `()`, a parenthesized expression, or
/// an annotated expression `( e : T )`. A bare integer literal above the
/// largest 64-bit signed value is rejected here; the negative-literal case
/// is handled one level up.
pub open spec fn sp_atom(ts: Seq<TokV>, i: int) -> PRes<ExprV>
    decreases ts.len() - i, 3int,
{
    let n = ts.len() as int;
    if !(0 <= i < n) {
        perr(ts, i, "unexpected end of input"@)
    } else {
        match ts[i].kind {
            TokKindV::True => PRes::Parsed(ExprV::Bool(true), i + 1),
            TokKindV::False => PRes::Parsed(ExprV::Bool(false), i + 1),
            TokKindV::IntLit(v) => if v > 0x7fffffffffffffff {
                perr(ts, i, "integer literal overflow"@)
            } else {
                PRes::Parsed(ExprV::Int(v), i + 1)
            },
            TokKindV::FloatLit(s) => PRes::Parsed(ExprV::Float(s), i + 1),
            TokKindV::Ident(x) => PRes::Parsed(ExprV::Var(x), i + 1),
            TokKindV::LParen => {
                if i + 1 < n && (ts[i + 1].kind matches TokKindV::RParen) {
                    PRes::Parsed(ExprV::Unit, i + 2)
                } else {
                    match sp_expr(ts, i + 1) {
                        PRes::Fail(p, m) => PRes::Fail(p, m),
                        PRes::Parsed(e, a) => {
                            let p = step(i + 1, a, n);
                            if p < n && (ts[p].kind matches TokKindV::RParen) {
                                PRes::Parsed(e, p + 1)
                            } else if p < n && (ts[p].kind matches TokKindV::Colon) {
                                match sp_type(ts, p + 1) {
                                    PRes::Fail(p2, m) => PRes::Fail(p2, m),
                                    PRes::Parsed(t, a2) => {
                                        let q = step(p + 1, a2, n);
                                        if q < n && (ts[q].kind matches TokKindV::RParen) {
                                            PRes::Parsed(
                                                ExprV::Ann(Box::new(e), Box::new(t)),
                                                q + 1,
                                            )
                                        } else {
                                            perr(ts, q, "expected closing parenthesis"@)
                                        }
                                    },
                                }
                            } else {
                                perr(ts, p, "expected closing parenthesis"@)
                            }
                        },
                    }
                }
            },
            TokKindV::Eof => perr(ts, i, "unexpected end of input"@),
            _ => perr(ts, i, "unexpected token"@),
        }
    }
}

/// A type: a type atom, then a right-associative arrow.
pub open spec fn sp_type(ts: Seq<TokV>, i: int) -> PRes<TypeV>
    decreases ts.len() - i, 2int,
{
    let n = ts.len() as int;
    match sp_tatom(ts, i) {
        PRes::Fail(p, m) => PRes::Fail(p, m),
        PRes::Parsed(t, a) => {
            let p = step(i, a, n);
            if p < n && (ts[p].kind matches TokKindV::Arrow) {
                match sp_type(ts, p + 1) {
                    PRes::Fail(p2, m) => PRes::Fail(p2, m),
                    PRes::Parsed(t2, a2) => PRes::Parsed(TypeV::Arrow(Box::new(t), Box::new(t2)), a2),
                }
            } else {
                PRes::Parsed(t, a)
            }
        },
    }
}

/// A type atom: a type name or a parenthesized type.
pub open spec fn sp_tatom(ts: Seq<TokV>, i: int) -> PRes<TypeV>
    decreases ts.len() - i, 1int,
{
    let n = ts.len() as int;
    if !(0 <= i < n) {
        perr(ts, i, "unexpected end of input"@)
    } else {
        match ts[i].kind {
            TokKindV::Ident(w) => PRes::Parsed(builtin_type(w), i + 1),
            TokKindV::LParen => match sp_type(ts, i + 1) {
                PRes::Fail(p, m) => PRes::Fail(p, m),
                PRes::Parsed(t, a) => {
                    let p = step(i + 1, a, n);
                    if p < n && (ts[p].kind matches TokKindV::RParen) {
                        PRes::Parsed(t, p + 1)
                    } else {
                        perr(ts, p, "expected closing parenthesis"@)
                    }
                },
            },
            _ => perr(ts, i, "expected a type"@),
        }
    }
}

/// What parsing a whole source string means: lex it, parse one full
/// expression, and demand that nothing but the end of input follows.
pub open spec fn sp_parse(s: Seq<char>) -> PRes<ExprV> {
    match sp_lex(s, 0) {
        LexRes::Fail(p, m) => PRes::Fail(p, m),
        LexRes::Toks(ts) => match sp_expr(ts, 0) {
            PRes::Fail(p, m) => PRes::Fail(p, m),
            PRes::Parsed(e, a) => {
                let p = step(0, a, ts.len() as int);
                if p < ts.len() && (ts[p].kind matches TokKindV::Eof) {
                    PRes::Parsed(e, p)
                } else {
                    perr(ts, p, "unexpected token after expression"@)
                }
            },
        },
    }
}

} // verus!
