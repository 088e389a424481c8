//! The abstract syntax tree: the tagged-variant types the grammar engine
//! produces, together with their mathematical views. Every node exclusively
//! owns its children, so the tree is acyclic and safe to traverse or drop
//! recursively. Nodes are built only during parsing and never mutated.

use vstd::prelude::*;

verus! {

/// A variable, parameter or type name.
pub type Ident = String;

/// A type expression of the surface language.
#[derive(Debug, PartialEq)]
pub enum Type {
    Unit,
    Bool,
    Float,
    Int,
    /// Function type; right-associative, so `A -> B -> C` is
    /// `Arrow(A, Arrow(B, C))`.
    Arrow(Box<Type>, Box<Type>),
    /// A free type name, kept for future generics.
    Var(Ident),
}

/// A parsed term. `Float` carries the literal text exactly as written;
/// its numeric interpretation is left to consumers of the tree.
#[derive(Debug, PartialEq)]
pub enum Expr {
    Unit,
    Bool(bool),
    Int(i64),
    Float(Ident),
    BinOp(BinOp, Box<Expr>, Box<Expr>),
    UnaryOp(UnaryOp, Box<Expr>),
    /// Explicit type annotation on a subterm, written `(e : T)`.
    Ann(Box<Expr>, Box<Type>),
    /// Both branches are mandatory.
    If(Box<Expr>, Box<Expr>, Box<Expr>),
    /// Non-recursive binding with an optional declared type; the last
    /// field is the continuation in scope.
    Let(Ident, Option<Type>, Box<Expr>, Box<Expr>),
    Var(Ident),
    /// Recursive function binding; the second field is the continuation.
    LetRec(Fundef, Box<Expr>),
    /// Application with the argument list already flattened: `f x y` is
    /// one node with two arguments, and the list is never empty.
    App(Box<Expr>, Vec<Expr>),
    /// Anonymous function; the parameter list is never empty and every
    /// parameter is explicitly typed.
    Lambda(Vec<(Ident, Type)>, Box<Expr>),
}

/// The binary operators, loosest group to tightest: logical, equality,
/// relational, additive, multiplicative.
#[derive(Debug, PartialEq)]
pub enum BinOp {
    Add,
    Sub,
    Mul,
    Div,
    And,
    Or,
    Eq,
    Neq,
    Lt,
    Gt,
    Leq,
    Geq,
}

#[derive(Debug, PartialEq)]
pub enum UnaryOp {
    Neg,
    Not,
}

/// A recursive function definition, owned exclusively by the enclosing
/// `Expr::LetRec`.
#[derive(Debug, PartialEq)]
pub struct Fundef {
    pub name: Ident,
    pub args: Vec<(Ident, Type)>,
    pub ret_type: Type,
    pub body: Box<Expr>,
}

/// Mathematical view of `Type`: names become character sequences.
pub enum TypeV {
    Unit,
    Bool,
    Float,
    Int,
    Arrow(Box<TypeV>, Box<TypeV>),
    Var(Seq<char>),
}

/// Mathematical view of `Expr`. Operator tags are shared with the
/// executable tree; names, literals and child lists become sequences.
pub enum ExprV {
    Unit,
    Bool(bool),
    Int(int),
    Float(Seq<char>),
    BinOp(BinOp, Box<ExprV>, Box<ExprV>),
    UnaryOp(UnaryOp, Box<ExprV>),
    Ann(Box<ExprV>, Box<TypeV>),
    If(Box<ExprV>, Box<ExprV>, Box<ExprV>),
    Let(Seq<char>, Option<TypeV>, Box<ExprV>, Box<ExprV>),
    Var(Seq<char>),
    LetRec(FundefV, Box<ExprV>),
    App(Box<ExprV>, Seq<ExprV>),
    Lambda(Seq<(Seq<char>, TypeV)>, Box<ExprV>),
}

/// Mathematical view of `Fundef`.
pub struct FundefV {
    pub name: Seq<char>,
    pub args: Seq<(Seq<char>, TypeV)>,
    pub ret_type: TypeV,
    pub body: Box<ExprV>,
}

pub open spec fn type_view(t: Type) -> TypeV
    decreases t,
{
    match t {
        Type::Unit => TypeV::Unit,
        Type::Bool => TypeV::Bool,
        Type::Float => TypeV::Float,
        Type::Int => TypeV::Int,
        Type::Arrow(a, b) => TypeV::Arrow(Box::new(type_view(*a)), Box::new(type_view(*b))),
        Type::Var(x) => TypeV::Var(x@),
    }
}

/// View of a parameter list: each `(name, type)` pair viewed pointwise.
pub open spec fn params_view(ps: Seq<(Ident, Type)>) -> Seq<(Seq<char>, TypeV)> {
    Seq::new(ps.len(), |k: int| (ps[k].0@, type_view(ps[k].1)))
}

pub open spec fn expr_view(e: Expr) -> ExprV
    decreases e,
{
    match e {
        Expr::Unit => ExprV::Unit,
        Expr::Bool(b) => ExprV::Bool(b),
        Expr::Int(n) => ExprV::Int(n as int),
        Expr::Float(s) => ExprV::Float(s@),
        Expr::BinOp(op, l, r) => ExprV::BinOp(
            op,
            Box::new(expr_view(*l)),
            Box::new(expr_view(*r)),
        ),
        Expr::UnaryOp(op, x) => ExprV::UnaryOp(op, Box::new(expr_view(*x))),
        Expr::Ann(x, t) => ExprV::Ann(Box::new(expr_view(*x)), Box::new(type_view(*t))),
        Expr::If(c, a, b) => ExprV::If(
            Box::new(expr_view(*c)),
            Box::new(expr_view(*a)),
            Box::new(expr_view(*b)),
        ),
        Expr::Let(x, ot, v, b) => ExprV::Let(
            x@,
            match ot {
                Some(t) => Some(type_view(t)),
                None => None,
            },
            Box::new(expr_view(*v)),
            Box::new(expr_view(*b)),
        ),
        Expr::Var(x) => ExprV::Var(x@),
        Expr::LetRec(f, b) => ExprV::LetRec(fundef_view(f), Box::new(expr_view(*b))),
        Expr::App(f, args) => ExprV::App(Box::new(expr_view(*f)), exprs_view(args@)),
        Expr::Lambda(ps, b) => ExprV::Lambda(params_view(ps@), Box::new(expr_view(*b))),
    }
}

/// Pointwise view of a sequence of expressions.
pub open spec fn exprs_view(s: Seq<Expr>) -> Seq<ExprV>
    decreases s,
{
    if s.len() == 0 {
        Seq::empty()
    } else {
        seq![expr_view(s[0])] + exprs_view(s.subrange(1, s.len() as int))
    }
}

pub open spec fn fundef_view(f: Fundef) -> FundefV
    decreases f,
{
    FundefV {
        name: f.name@,
        args: params_view(f.args@),
        ret_type: type_view(f.ret_type),
        body: Box::new(expr_view(*f.body)),
    }
}

} // verus!
