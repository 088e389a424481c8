//! The executable grammar engine: a recursive-descent parser over the
//! lexed token stream, each function proved to return exactly what the
//! corresponding grammar function of `crate::grammar` defines, and the
//! public `parse` entry point from source text to a tree or a
//! `SyntaxError`.

use vstd::prelude::*;

use crate::ast::{expr_view, exprs_view, fundef_view, params_view, type_view, BinOp, Expr, ExprV, Fundef,
    Ident, Type, TypeV, UnaryOp};
use crate::grammar::{atom_start, builtin_type, level_op, sp_app, sp_args, sp_atom, sp_bin,
    sp_bin_tail, sp_expr, sp_fun, sp_if, sp_let, sp_let_body, sp_params, sp_parse, sp_tatom,
    sp_type, sp_unary, PRes};
use crate::lexer::{lex_from, str_eq};
use crate::token::{kind_view, toks_view, wf_toks, SyntaxError, TokKind, Token};

verus! {

/// How an executable expression result realizes a grammar result: the same
/// tree (through the views) and cursor, or the same fault.
pub open spec fn pe_match(r: Result<(Expr, usize), SyntaxError>, s: PRes<ExprV>) -> bool {
    match r {
        Result::Ok(v) => s matches PRes::Parsed(ev, a) && expr_view(v.0) == ev && v.1 == a,
        Result::Err(er) => s matches PRes::Fail(p, m) && er.pos == p && er.msg@ == m,
    }
}

pub open spec fn pt_match(r: Result<(Type, usize), SyntaxError>, s: PRes<TypeV>) -> bool {
    match r {
        Result::Ok(v) => s matches PRes::Parsed(tv, a) && type_view(v.0) == tv && v.1 == a,
        Result::Err(er) => s matches PRes::Fail(p, m) && er.pos == p && er.msg@ == m,
    }
}

pub open spec fn ppar_match(
    r: Result<(Vec<(Ident, Type)>, usize), SyntaxError>,
    s: PRes<Seq<(Seq<char>, TypeV)>>,
) -> bool {
    match r {
        Result::Ok(v) => s matches PRes::Parsed(ps, a) && params_view(v.0@) == ps && v.1 == a,
        Result::Err(er) => s matches PRes::Fail(p, m) && er.pos == p && er.msg@ == m,
    }
}

pub open spec fn pargs_match(
    r: Result<(Vec<Expr>, usize), SyntaxError>,
    s: PRes<Seq<ExprV>>,
) -> bool {
    match r {
        Result::Ok(v) => s matches PRes::Parsed(es, a) && exprs_view(v.0@) == es && v.1 == a,
        Result::Err(er) => s matches PRes::Fail(p, m) && er.pos == p && er.msg@ == m,
    }
}

/// A sequence that views a `Vec` fits the machine's size type, so cursor
/// arithmetic below the length cannot overflow.
proof fn lemma_len_bound(ts: &Vec<Token>)
    ensures
        ts@.len() <= usize::MAX,
{
    broadcast use vstd::std_specs::vec::axiom_spec_len;

    assert(vstd::std_specs::vec::spec_vec_len(ts) == ts@.len());
}

proof fn lemma_params_view_push(s: Seq<(Ident, Type)>, x: Ident, t: Type)
    ensures
        params_view(s.push((x, t))) == params_view(s).push((x@, type_view(t))),
{
    assert(params_view(s.push((x, t))) =~= params_view(s).push((x@, type_view(t))));
}

proof fn lemma_exprs_view_push(s: Seq<Expr>, e: Expr)
    ensures
        exprs_view(s.push(e)) == exprs_view(s).push(expr_view(e)),
    decreases s.len(),
{
    let sp = s.push(e);
    if s.len() == 0 {
        assert(sp.subrange(1, sp.len() as int) =~= Seq::<Expr>::empty());
        assert(exprs_view(sp.subrange(1, sp.len() as int)) == Seq::<ExprV>::empty());
        assert(sp[0] == e);
        assert(exprs_view(s) == Seq::<ExprV>::empty());
        assert(exprs_view(sp) =~= exprs_view(s).push(expr_view(e)));
    } else {
        assert(sp.subrange(1, sp.len() as int) =~= s.subrange(1, s.len() as int).push(e));
        lemma_exprs_view_push(s.subrange(1, s.len() as int), e);
        assert(sp[0] == s[0]);
        assert(exprs_view(sp) == seq![expr_view(s[0])] + exprs_view(s.subrange(1, s.len() as int)).push(
            expr_view(e),
        ));
        assert(exprs_view(sp) =~= exprs_view(s).push(expr_view(e)));
    }
}

proof fn lemma_exprs_view_len(s: Seq<Expr>)
    ensures
        exprs_view(s).len() == s.len(),
    decreases s.len(),
{
    if s.len() > 0 {
        lemma_exprs_view_len(s.subrange(1, s.len() as int));
    }
}

fn level_op_x(lvl: u8, k: &TokKind) -> (r: Option<BinOp>)
    ensures
        r == level_op(lvl as int, kind_view(*k)),
{
    match k {
        TokKind::PipePipe => if lvl == 0 {
            Some(BinOp::Or)
        } else {
            None
        },
        TokKind::AmpAmp => if lvl == 1 {
            Some(BinOp::And)
        } else {
            None
        },
        TokKind::EqEq => if lvl == 2 {
            Some(BinOp::Eq)
        } else {
            None
        },
        TokKind::NotEq => if lvl == 2 {
            Some(BinOp::Neq)
        } else {
            None
        },
        TokKind::Lt => if lvl == 3 {
            Some(BinOp::Lt)
        } else {
            None
        },
        TokKind::Gt => if lvl == 3 {
            Some(BinOp::Gt)
        } else {
            None
        },
        TokKind::Le => if lvl == 3 {
            Some(BinOp::Leq)
        } else {
            None
        },
        TokKind::Ge => if lvl == 3 {
            Some(BinOp::Geq)
        } else {
            None
        },
        TokKind::Plus => if lvl == 4 {
            Some(BinOp::Add)
        } else {
            None
        },
        TokKind::Minus => if lvl == 4 {
            Some(BinOp::Sub)
        } else {
            None
        },
        TokKind::Star => if lvl == 5 {
            Some(BinOp::Mul)
        } else {
            None
        },
        TokKind::Slash => if lvl == 5 {
            Some(BinOp::Div)
        } else {
            None
        },
        _ => None,
    }
}

fn atom_start_x(k: &TokKind) -> (b: bool)
    ensures
        b == atom_start(kind_view(*k)),
{
    match k {
        TokKind::LParen => true,
        TokKind::True => true,
        TokKind::False => true,
        TokKind::IntLit(_) => true,
        TokKind::FloatLit(_) => true,
        TokKind::Ident(_) => true,
        _ => false,
    }
}

fn builtin_type_x(w: &Ident) -> (t: Type)
    ensures
        type_view(t) == builtin_type(w@),
{
    if str_eq(w.as_str(), "Unit") {
        Type::Unit
    } else if str_eq(w.as_str(), "Bool") {
        Type::Bool
    } else if str_eq(w.as_str(), "Float") {
        Type::Float
    } else if str_eq(w.as_str(), "Int") {
        Type::Int
    } else {
        Type::Var(w.clone())
    }
}

fn p_expr(ts: &Vec<Token>, i: usize) -> (r: Result<(Expr, usize), SyntaxError>)
    requires
        wf_toks(ts@),
        i < ts@.len(),
    ensures
        pe_match(r, sp_expr(toks_view(ts@), i as int)),
        r matches Ok(v) ==> i < v.1 < ts@.len(),
    decreases ts@.len() - i, 20int,
{
    proof {
        lemma_len_bound(ts);
    }
    match &ts[i].kind {
        TokKind::If => p_if(ts, i),
        TokKind::Let => p_let(ts, i),
        TokKind::Fun => p_fun(ts, i),
        _ => p_bin(ts, i, 0),
    }
}

fn p_if(ts: &Vec<Token>, i: usize) -> (r: Result<(Expr, usize), SyntaxError>)
    requires
        wf_toks(ts@),
        i < ts@.len(),
        ts@[i as int].kind matches TokKind::If,
    ensures
        pe_match(r, sp_if(toks_view(ts@), i as int)),
        r matches Ok(v) ==> i < v.1 < ts@.len(),
    decreases ts@.len() - i, 19int,
{
    proof {
        lemma_len_bound(ts);
    }
    let (c, p) = match p_expr(ts, i + 1) {
        Ok(v) => v,
        Err(e) => {
            return Err(e);
        },
    };
    match &ts[p].kind {
        TokKind::Then => {
            let (t, q) = match p_expr(ts, p + 1) {
                Ok(v) => v,
                Err(e) => {
                    return Err(e);
                },
            };
            match &ts[q].kind {
                TokKind::Else => {
                    let (e, a) = match p_expr(ts, q + 1) {
                        Ok(v) => v,
                        Err(e) => {
                            return Err(e);
                        },
                    };
                    Ok((Expr::If(Box::new(c), Box::new(t), Box::new(e)), a))
                },
                _ => Err(SyntaxError { pos: ts[q].pos, msg: "expected 'else'" }),
            }
        },
        _ => Err(SyntaxError { pos: ts[p].pos, msg: "expected 'then'" }),
    }
}

fn p_params(ts: &Vec<Token>, i: usize, acc: Vec<(Ident, Type)>) -> (r: Result<
    (Vec<(Ident, Type)>, usize),
    SyntaxError,
>)
    requires
        wf_toks(ts@),
        i < ts@.len(),
    ensures
        ppar_match(r, sp_params(toks_view(ts@), i as int, params_view(acc@))),
        r matches Ok(v) ==> i <= v.1 < ts@.len(),
        r matches Ok(v) ==> (ts@[i as int].kind matches TokKind::LParen ==> i < v.1),
    decreases ts@.len() - i, 18int,
{
    proof {
        lemma_len_bound(ts);
    }
    match &ts[i].kind {
        TokKind::LParen => {
            match &ts[i + 1].kind {
                TokKind::Ident(x) => {
                    match &ts[i + 2].kind {
                        TokKind::Colon => {
                            let (t, a) = match p_type(ts, i + 3) {
                                Ok(v) => v,
                                Err(e) => {
                                    return Err(e);
                                },
                            };
                            match &ts[a].kind {
                                TokKind::RParen => {
                                    let name = x.clone();
                                    proof {
                                        lemma_params_view_push(acc@, name, t);
                                    }
                                    let mut acc = acc;
                                    acc.push((name, t));
                                    p_params(ts, a + 1, acc)
                                },
                                _ => Err(
                                    SyntaxError {
                                        pos: ts[a].pos,
                                        msg: "expected closing parenthesis",
                                    },
                                ),
                            }
                        },
                        _ => Err(SyntaxError { pos: ts[i + 2].pos, msg: "expected ':'" }),
                    }
                },
                _ => Err(SyntaxError { pos: ts[i + 1].pos, msg: "expected parameter name" }),
            }
        },
        _ => Ok((acc, i)),
    }
}

fn p_fun(ts: &Vec<Token>, i: usize) -> (r: Result<(Expr, usize), SyntaxError>)
    requires
        wf_toks(ts@),
        i < ts@.len(),
        ts@[i as int].kind matches TokKind::Fun,
    ensures
        pe_match(r, sp_fun(toks_view(ts@), i as int)),
        r matches Ok(v) ==> i < v.1 < ts@.len(),
    decreases ts@.len() - i, 19int,
{
    proof {
        lemma_len_bound(ts);
        assert(params_view(Seq::<(Ident, Type)>::empty()) =~= Seq::<(Seq<char>, TypeV)>::empty());
    }
    match &ts[i + 1].kind {
        TokKind::LParen => {
            let (ps, a) = match p_params(ts, i + 1, Vec::new()) {
                Ok(v) => v,
                Err(e) => {
                    return Err(e);
                },
            };
            match &ts[a].kind {
                TokKind::Arrow => {
                    let (b, a2) = match p_expr(ts, a + 1) {
                        Ok(v) => v,
                        Err(e) => {
                            return Err(e);
                        },
                    };
                    Ok((Expr::Lambda(ps, Box::new(b)), a2))
                },
                _ => Err(SyntaxError { pos: ts[a].pos, msg: "expected '->'" }),
            }
        },
        _ => Err(SyntaxError { pos: ts[i + 1].pos, msg: "expected parameter list" }),
    }
}

fn p_let_body(ts: &Vec<Token>, i: usize, x: Ident, ot: Option<Type>) -> (r: Result<
    (Expr, usize),
    SyntaxError,
>)
    requires
        wf_toks(ts@),
        i < ts@.len(),
    ensures
        pe_match(
            r,
            sp_let_body(
                toks_view(ts@),
                i as int,
                x@,
                match ot {
                    Some(t) => Some(type_view(t)),
                    None => None,
                },
            ),
        ),
        r matches Ok(v) ==> i < v.1 < ts@.len(),
    decreases ts@.len() - i, 18int,
{
    proof {
        lemma_len_bound(ts);
    }
    match &ts[i].kind {
        TokKind::Assign => {
            let (v, a) = match p_expr(ts, i + 1) {
                Ok(v) => v,
                Err(e) => {
                    return Err(e);
                },
            };
            match &ts[a].kind {
                TokKind::In => {
                    let (b, a2) = match p_expr(ts, a + 1) {
                        Ok(v) => v,
                        Err(e) => {
                            return Err(e);
                        },
                    };
                    Ok((Expr::Let(x, ot, Box::new(v), Box::new(b)), a2))
                },
                _ => Err(SyntaxError { pos: ts[a].pos, msg: "expected 'in'" }),
            }
        },
        _ => Err(SyntaxError { pos: ts[i].pos, msg: "expected '='" }),
    }
}

#[verifier::rlimit(100)]
fn p_let(ts: &Vec<Token>, i: usize) -> (r: Result<(Expr, usize), SyntaxError>)
    requires
        wf_toks(ts@),
        i < ts@.len(),
        ts@[i as int].kind matches TokKind::Let,
    ensures
        pe_match(r, sp_let(toks_view(ts@), i as int)),
        r matches Ok(v) ==> i < v.1 < ts@.len(),
    decreases ts@.len() - i, 19int,
{
    proof {
        lemma_len_bound(ts);
        assert(params_view(Seq::<(Ident, Type)>::empty()) =~= Seq::<(Seq<char>, TypeV)>::empty());
    }
    match &ts[i + 1].kind {
        TokKind::Rec => {
            match &ts[i + 2].kind {
                TokKind::Ident(f) => {
                    match &ts[i + 3].kind {
                        TokKind::LParen => {
                            let (ps, a) = match p_params(ts, i + 3, Vec::new()) {
                                Ok(v) => v,
                                Err(e) => {
                                    return Err(e);
                                },
                            };
                            match &ts[a].kind {
                                TokKind::Colon => {
                                    let (rt, a2) = match p_type(ts, a + 1) {
                                        Ok(v) => v,
                                        Err(e) => {
                                            return Err(e);
                                        },
                                    };
                                    match &ts[a2].kind {
                                        TokKind::Assign => {
                                            let (body, a3) = match p_expr(ts, a2 + 1) {
                                                Ok(v) => v,
                                                Err(e) => {
                                                    return Err(e);
                                                },
                                            };
                                            match &ts[a3].kind {
                                                TokKind::In => {
                                                    let (rest, a4) = match p_expr(ts, a3 + 1) {
                                                        Ok(v) => v,
                                                        Err(e) => {
                                                            return Err(e);
                                                        },
                                                    };
                                                    let def = Fundef {
                                                        name: f.clone(),
                                                        args: ps,
                                                        ret_type: rt,
                                                        body: Box::new(body),
                                                    };
                                                    let out = Expr::LetRec(def, Box::new(rest));
                                                    proof {
                                                        let tv = toks_view(ts@);
                                                        let sres = sp_let(tv, i as int);
                                                        assert(sres is Parsed);
                                                        assert(fundef_view(def)
                                                            == sres->Parsed_0->LetRec_0);
                                                        assert(expr_view(out) == sres->Parsed_0);
                                                    }
                                                    Ok((out, a4))
                                                },
                                                _ => Err(
                                                    SyntaxError {
                                                        pos: ts[a3].pos,
                                                        msg: "expected 'in'",
                                                    },
                                                ),
                                            }
                                        },
                                        _ => Err(
                                            SyntaxError { pos: ts[a2].pos, msg: "expected '='" },
                                        ),
                                    }
                                },
                                _ => Err(SyntaxError { pos: ts[a].pos, msg: "expected ':'" }),
                            }
                        },
                        _ => Err(
                            SyntaxError { pos: ts[i + 3].pos, msg: "expected parameter list" },
                        ),
                    }
                },
                _ => Err(SyntaxError { pos: ts[i + 2].pos, msg: "expected function name" }),
            }
        },
        TokKind::Ident(x) => {
            let name = x.clone();
            match &ts[i + 2].kind {
                TokKind::Colon => {
                    let (t, a) = match p_type(ts, i + 3) {
                        Ok(v) => v,
                        Err(e) => {
                            return Err(e);
                        },
                    };
                    p_let_body(ts, a, name, Some(t))
                },
                _ => p_let_body(ts, i + 2, name, None),
            }
        },
        _ => Err(SyntaxError { pos: ts[i + 1].pos, msg: "expected binding name" }),
    }
}

fn p_bin(ts: &Vec<Token>, i: usize, lvl: u8) -> (r: Result<(Expr, usize), SyntaxError>)
    requires
        wf_toks(ts@),
        i < ts@.len(),
        lvl <= 6,
    ensures
        pe_match(r, sp_bin(toks_view(ts@), i as int, lvl as int)),
        r matches Ok(v) ==> i < v.1 < ts@.len(),
    decreases ts@.len() - i, (if 0 <= lvl < 6 { 13 - lvl as int } else { 7int }),
{
    proof {
        lemma_len_bound(ts);
    }
    if lvl >= 6 {
        p_unary(ts, i)
    } else {
        let (e, a) = match p_bin(ts, i, lvl + 1) {
            Ok(v) => v,
            Err(e) => {
                return Err(e);
            },
        };
        p_bin_tail(ts, a, lvl, e)
    }
}

fn p_bin_tail(ts: &Vec<Token>, i: usize, lvl: u8, acc: Expr) -> (r: Result<
    (Expr, usize),
    SyntaxError,
>)
    requires
        wf_toks(ts@),
        i < ts@.len(),
        lvl < 6,
    ensures
        pe_match(r, sp_bin_tail(toks_view(ts@), i as int, lvl as int, expr_view(acc))),
        r matches Ok(v) ==> i <= v.1 < ts@.len(),
    decreases ts@.len() - i, 0int,
{
    proof {
        lemma_len_bound(ts);
    }
    match level_op_x(lvl, &ts[i].kind) {
        None => Ok((acc, i)),
        Some(op) => {
            let (rhs, a) = match p_bin(ts, i + 1, lvl + 1) {
                Ok(v) => v,
                Err(e) => {
                    return Err(e);
                },
            };
            p_bin_tail(ts, a, lvl, Expr::BinOp(op, Box::new(acc), Box::new(rhs)))
        },
    }
}

fn p_unary(ts: &Vec<Token>, i: usize) -> (r: Result<(Expr, usize), SyntaxError>)
    requires
        wf_toks(ts@),
        i < ts@.len(),
    ensures
        pe_match(r, sp_unary(toks_view(ts@), i as int)),
        r matches Ok(v) ==> i < v.1 < ts@.len(),
    decreases ts@.len() - i, 5int,
{
    proof {
        lemma_len_bound(ts);
    }
    match &ts[i].kind {
        TokKind::Minus => {
            match &ts[i + 1].kind {
                TokKind::IntLit(v) => {
                    let v = *v;
                    let val: i64 = if v == 9223372036854775808u64 {
                        i64::MIN
                    } else {
                        -(v as i64)
                    };
                    Ok((Expr::Int(val), i + 2))
                },
                _ => {
                    let (e, a) = match p_unary(ts, i + 1) {
                        Ok(v) => v,
                        Err(e) => {
                            return Err(e);
                        },
                    };
                    Ok((Expr::UnaryOp(UnaryOp::Neg, Box::new(e)), a))
                },
            }
        },
        TokKind::Bang => {
            let (e, a) = match p_unary(ts, i + 1) {
                Ok(v) => v,
                Err(e) => {
                    return Err(e);
                },
            };
            Ok((Expr::UnaryOp(UnaryOp::Not, Box::new(e)), a))
        },
        _ => p_app(ts, i),
    }
}

fn p_app(ts: &Vec<Token>, i: usize) -> (r: Result<(Expr, usize), SyntaxError>)
    requires
        wf_toks(ts@),
        i < ts@.len(),
    ensures
        pe_match(r, sp_app(toks_view(ts@), i as int)),
        r matches Ok(v) ==> i < v.1 < ts@.len(),
    decreases ts@.len() - i, 4int,
{
    proof {
        lemma_len_bound(ts);
        assert(exprs_view(Seq::<Expr>::empty()) == Seq::<ExprV>::empty());
    }
    let (f, a) = match p_atom(ts, i) {
        Ok(v) => v,
        Err(e) => {
            return Err(e);
        },
    };
    let (args, a2) = match p_args(ts, a, Vec::new()) {
        Ok(v) => v,
        Err(e) => {
            return Err(e);
        },
    };
    proof {
        lemma_exprs_view_len(args@);
    }
    if args.len() == 0 {
        Ok((f, a2))
    } else {
        Ok((Expr::App(Box::new(f), args), a2))
    }
}

fn p_args(ts: &Vec<Token>, i: usize, acc: Vec<Expr>) -> (r: Result<(Vec<Expr>, usize), SyntaxError>)
    requires
        wf_toks(ts@),
        i < ts@.len(),
    ensures
        pargs_match(r, sp_args(toks_view(ts@), i as int, exprs_view(acc@))),
        r matches Ok(v) ==> i <= v.1 < ts@.len(),
    decreases ts@.len() - i, 4int,
{
    proof {
        lemma_len_bound(ts);
    }
    if atom_start_x(&ts[i].kind) {
        let (e, a) = match p_atom(ts, i) {
            Ok(v) => v,
            Err(e) => {
                return Err(e);
            },
        };
        proof {
            lemma_exprs_view_push(acc@, e);
        }
        let mut acc = acc;
        acc.push(e);
        p_args(ts, a, acc)
    } else {
        Ok((acc, i))
    }
}

#[verifier::rlimit(50)]
fn p_atom(ts: &Vec<Token>, i: usize) -> (r: Result<(Expr, usize), SyntaxError>)
    requires
        wf_toks(ts@),
        i < ts@.len(),
    ensures
        pe_match(r, sp_atom(toks_view(ts@), i as int)),
        r matches Ok(v) ==> i < v.1 < ts@.len(),
    decreases ts@.len() - i, 3int,
{
    proof {
        lemma_len_bound(ts);
    }
    match &ts[i].kind {
        TokKind::True => Ok((Expr::Bool(true), i + 1)),
        TokKind::False => Ok((Expr::Bool(false), i + 1)),
        TokKind::IntLit(v) => {
            let v = *v;
            if v > 0x7fffffffffffffffu64 {
                Err(SyntaxError { pos: ts[i].pos, msg: "integer literal overflow" })
            } else {
                Ok((Expr::Int(v as i64), i + 1))
            }
        },
        TokKind::FloatLit(s) => Ok((Expr::Float(s.clone()), i + 1)),
        TokKind::Ident(x) => Ok((Expr::Var(x.clone()), i + 1)),
        TokKind::LParen => {
            if matches!(&ts[i + 1].kind, TokKind::RParen) {
                Ok((Expr::Unit, i + 2))
            } else {
                let (e, p) = match p_expr(ts, i + 1) {
                    Ok(v) => v,
                    Err(e) => {
                        return Err(e);
                    },
                };
                match &ts[p].kind {
                    TokKind::RParen => Ok((e, p + 1)),
                    TokKind::Colon => {
                        let (t, q) = match p_type(ts, p + 1) {
                            Ok(v) => v,
                            Err(e) => {
                                return Err(e);
                            },
                        };
                        match &ts[q].kind {
                            TokKind::RParen => Ok((Expr::Ann(Box::new(e), Box::new(t)), q + 1)),
                            _ => Err(
                                SyntaxError { pos: ts[q].pos, msg: "expected closing parenthesis" },
                            ),
                        }
                    },
                    _ => Err(SyntaxError { pos: ts[p].pos, msg: "expected closing parenthesis" }),
                }
            }
        },
        TokKind::Eof => Err(SyntaxError { pos: ts[i].pos, msg: "unexpected end of input" }),
        _ => Err(SyntaxError { pos: ts[i].pos, msg: "unexpected token" }),
    }
}

fn p_type(ts: &Vec<Token>, i: usize) -> (r: Result<(Type, usize), SyntaxError>)
    requires
        wf_toks(ts@),
        i < ts@.len(),
    ensures
        pt_match(r, sp_type(toks_view(ts@), i as int)),
        r matches Ok(v) ==> i < v.1 < ts@.len(),
    decreases ts@.len() - i, 2int,
{
    proof {
        lemma_len_bound(ts);
    }
    let (t, a) = match p_tatom(ts, i) {
        Ok(v) => v,
        Err(e) => {
            return Err(e);
        },
    };
    match &ts[a].kind {
        TokKind::Arrow => {
            let (t2, a2) = match p_type(ts, a + 1) {
                Ok(v) => v,
                Err(e) => {
                    return Err(e);
                },
            };
            Ok((Type::Arrow(Box::new(t), Box::new(t2)), a2))
        },
        _ => Ok((t, a)),
    }
}

fn p_tatom(ts: &Vec<Token>, i: usize) -> (r: Result<(Type, usize), SyntaxError>)
    requires
        wf_toks(ts@),
        i < ts@.len(),
    ensures
        pt_match(r, sp_tatom(toks_view(ts@), i as int)),
        r matches Ok(v) ==> i < v.1 < ts@.len(),
    decreases ts@.len() - i, 1int,
{
    proof {
        lemma_len_bound(ts);
    }
    match &ts[i].kind {
        TokKind::Ident(w) => Ok((builtin_type_x(w), i + 1)),
        TokKind::LParen => {
            let (t, a) = match p_type(ts, i + 1) {
                Ok(v) => v,
                Err(e) => {
                    return Err(e);
                },
            };
            match &ts[a].kind {
                TokKind::RParen => Ok((t, a + 1)),
                _ => Err(SyntaxError { pos: ts[a].pos, msg: "expected closing parenthesis" }),
            }
        },
        _ => Err(SyntaxError { pos: ts[i].pos, msg: "expected a type" }),
    }
}

/// How a result of `parse` realizes the grammar's verdict on the whole
/// source string: the same tree, or the same fault.
pub open spec fn parse_matches(r: Result<Expr, SyntaxError>, s: PRes<ExprV>) -> bool {
    match r {
        Result::Ok(e) => s matches PRes::Parsed(v, _) && expr_view(e) == v,
        Result::Err(er) => s matches PRes::Fail(p, m) && er.pos == p && er.msg@ == m,
    }
}

/// Parses one source line (or one whole program) into an expression tree.
///
/// Every call is independent, performs no input or output, and returns on
/// every input: a complete tree exactly as the grammar defines it, or the
/// first syntactic fault with its position and message — never a partial
/// tree and never a panic. Leading and trailing whitespace is ignored;
/// empty input and leftover input after a complete expression are faults.
pub fn parse(source: &str) -> (r: Result<Expr, SyntaxError>)
    ensures
        parse_matches(r, sp_parse(source@)),
{
    let n = source.unicode_len();
    let toks = match lex_from(source, n, 0) {
        Ok(t) => t,
        Err(e) => {
            return Err(e);
        },
    };
    let (e, j) = match p_expr(&toks, 0) {
        Ok(v) => v,
        Err(e) => {
            return Err(e);
        },
    };
    if matches!(&toks[j].kind, TokKind::Eof) {
        Ok(e)
    } else {
        Err(SyntaxError { pos: toks[j].pos, msg: "unexpected token after expression" })
    }
}

} // verus!
