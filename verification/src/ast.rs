//! Abstract syntax produced by the parser.

use vstd::prelude::*;
use crate::lexer::token::{FloatSuffix, IntegerSuffix, Span};
use crate::ops::{BinOp, UnOp};
use crate::ty::{Type, TypeV};
use crate::typeck_spec::{FieldsV, fields_view};
use crate::hir::{DecoratorV, decorators_view};

verus! {

/// A route decorator such as `@Get("/path")` on a function.
#[derive(Debug)]
pub struct Decorator {
    pub name: String,
    pub arg: Option<String>,
    pub span: Span,
}

#[derive(Debug)]
pub enum Stmt {
    Let(String, Option<Type>, Option<Expr>, Span),
    Expr(Expr),
    If(Expr, Vec<Stmt>, Option<Vec<Stmt>>, Span),
    While(Expr, Vec<Stmt>, Span),
    For(String, Expr, Expr, Vec<Stmt>, Span),
    Break(Span),
    Continue(Span),
    Return(Option<Expr>, Span),
    Fn(String, Vec<(String, Type)>, Option<Type>, Vec<Stmt>, Vec<Decorator>, Span),
    ExternFn(String, Vec<(String, Type)>, Option<Type>, Span),
    Struct(String, Vec<(String, Type)>, Span),
}

/// An expression. A float literal holds its source text.
#[derive(Debug)]
pub enum Expr {
    Int(i64, IntegerSuffix, Span),
    String(String, Span),
    Float(String, FloatSuffix, Span),
    Bool(bool, Span),
    Ident(String, Span),
    Struct(String, Vec<(String, Expr)>, Span),
    Call(String, Vec<Expr>, Span),
    FieldAccess(Box<Expr>, String, Span),
    ArrayIndex(Box<Expr>, Box<Expr>, Span),
    ArrayLiteral(Box<Type>, Vec<Expr>, Span),
    Unary(UnOp, Box<Expr>, Span),
    Binary(Box<Expr>, BinOp, Box<Expr>, Span),
    Assign(Box<Expr>, Box<Expr>, Span),
    Paren(Box<Expr>, Span),
    AddressOf(Box<Expr>, Span),
    Dereference(Box<Expr>, Span),
    SizeOf(Type, Span),
    Cast(Box<Expr>, Type, Span),
}

#[derive(Debug)]
pub struct ParseError {
    pub message: String,
    pub span: Span,
}

impl Expr {
    /// The span recorded in the expression node.
    pub open spec fn spec_span(self) -> Span {
        match self {
            Expr::Int(_, _, s) => s,
            Expr::String(_, s) => s,
            Expr::Float(_, _, s) => s,
            Expr::Bool(_, s) => s,
            Expr::Ident(_, s) => s,
            Expr::Struct(_, _, s) => s,
            Expr::Call(_, _, s) => s,
            Expr::FieldAccess(_, _, s) => s,
            Expr::ArrayIndex(_, _, s) => s,
            Expr::ArrayLiteral(_, _, s) => s,
            Expr::Unary(_, _, s) => s,
            Expr::Binary(_, _, _, s) => s,
            Expr::Assign(_, _, s) => s,
            Expr::Paren(_, s) => s,
            Expr::AddressOf(_, s) => s,
            Expr::Dereference(_, s) => s,
            Expr::SizeOf(_, s) => s,
            Expr::Cast(_, _, s) => s,
        }
    }

    pub fn span(&self) -> (s: Span)
        ensures
            s == self.spec_span(),
    {
        match self {
            Expr::Int(_, _, s) => *s,
            Expr::String(_, s) => *s,
            Expr::Float(_, _, s) => *s,
            Expr::Bool(_, s) => *s,
            Expr::Ident(_, s) => *s,
            Expr::Struct(_, _, s) => *s,
            Expr::Call(_, _, s) => *s,
            Expr::FieldAccess(_, _, s) => *s,
            Expr::ArrayIndex(_, _, s) => *s,
            Expr::ArrayLiteral(_, _, s) => *s,
            Expr::Unary(_, _, s) => *s,
            Expr::Binary(_, _, _, s) => *s,
            Expr::Assign(_, _, s) => *s,
            Expr::Paren(_, s) => *s,
            Expr::AddressOf(_, s) => *s,
            Expr::Dereference(_, s) => *s,
            Expr::SizeOf(_, s) => *s,
            Expr::Cast(_, _, s) => *s,
        }
    }

    /// Whether the expression denotes a place that can be assigned to: a
    /// variable, an element, a dereference, or a field of a place (a field of
    /// a temporary value is none).
    pub open spec fn spec_is_place(self) -> bool
        decreases self,
    {
        match self {
            Expr::Ident(..) | Expr::ArrayIndex(..) | Expr::Dereference(..) => true,
            Expr::FieldAccess(base, _, _) => (*base).spec_is_place(),
            _ => false,
        }
    }

    pub fn is_place(&self) -> (r: bool)
        ensures
            r == self.spec_is_place(),
        decreases self,
    {
        match self {
            Expr::Ident(..) | Expr::ArrayIndex(..) | Expr::Dereference(..) => true,
            Expr::FieldAccess(base, _, _) => base.is_place(),
            _ => false,
        }
    }
}

/// An expression by value: names and texts as characters, types by value.
pub enum ExprV {
    Int(i64, IntegerSuffix, Span),
    Str(Seq<char>, Span),
    Float(Seq<char>, FloatSuffix, Span),
    Bool(bool, Span),
    Ident(Seq<char>, Span),
    Struct(Seq<char>, Seq<(Seq<char>, ExprV)>, Span),
    Call(Seq<char>, Seq<ExprV>, Span),
    FieldAccess(Box<ExprV>, Seq<char>, Span),
    ArrayIndex(Box<ExprV>, Box<ExprV>, Span),
    ArrayLiteral(TypeV, Seq<ExprV>, Span),
    Unary(UnOp, Box<ExprV>, Span),
    Binary(Box<ExprV>, BinOp, Box<ExprV>, Span),
    Assign(Box<ExprV>, Box<ExprV>, Span),
    Paren(Box<ExprV>, Span),
    AddressOf(Box<ExprV>, Span),
    Dereference(Box<ExprV>, Span),
    SizeOf(TypeV, Span),
    Cast(Box<ExprV>, TypeV, Span),
}

/// A statement by value.
pub enum StmtV {
    Let(Seq<char>, Option<TypeV>, Option<ExprV>, Span),
    Expr(ExprV),
    If(ExprV, Seq<StmtV>, Option<Seq<StmtV>>, Span),
    While(ExprV, Seq<StmtV>, Span),
    For(Seq<char>, ExprV, ExprV, Seq<StmtV>, Span),
    Break(Span),
    Continue(Span),
    Return(Option<ExprV>, Span),
    Fn(Seq<char>, FieldsV, Option<TypeV>, Seq<StmtV>, Seq<DecoratorV>, Span),
    ExternFn(Seq<char>, FieldsV, Option<TypeV>, Span),
    Struct(Seq<char>, FieldsV, Span),
}

pub open spec fn no_span() -> Span {
    Span { start: 0, end: 0, line: 0, col: 0 }
}

/// The value of an expression, by structure.
pub open spec fn expr_view(e: Expr) -> ExprV
    decreases e,
{
    match e {
        Expr::Int(v, s, sp) => ExprV::Int(v, s, sp),
        Expr::String(t, sp) => ExprV::Str(t@, sp),
        Expr::Float(t, s, sp) => ExprV::Float(t@, s, sp),
        Expr::Bool(b, sp) => ExprV::Bool(b, sp),
        Expr::Ident(n, sp) => ExprV::Ident(n@, sp),
        Expr::Struct(n, fs, sp) => ExprV::Struct(
            n@,
            Seq::new(fs@.len(), |i: int| if 0 <= i < fs@.len() {
                (fs@[i].0@, expr_view(fs@[i].1))
            } else {
                (Seq::empty(), ExprV::Bool(false, no_span()))
            }),
            sp,
        ),
        Expr::Call(n, args, sp) => ExprV::Call(
            n@,
            Seq::new(args@.len(), |i: int| if 0 <= i < args@.len() {
                expr_view(args@[i])
            } else {
                ExprV::Bool(false, no_span())
            }),
            sp,
        ),
        Expr::FieldAccess(x, f, sp) => ExprV::FieldAccess(Box::new(expr_view(*x)), f@, sp),
        Expr::ArrayIndex(a, i, sp) => ExprV::ArrayIndex(Box::new(expr_view(*a)), Box::new(expr_view(*i)), sp),
        Expr::ArrayLiteral(t, es, sp) => ExprV::ArrayLiteral(
            (*t)@,
            Seq::new(es@.len(), |i: int| if 0 <= i < es@.len() {
                expr_view(es@[i])
            } else {
                ExprV::Bool(false, no_span())
            }),
            sp,
        ),
        Expr::Unary(op, x, sp) => ExprV::Unary(op, Box::new(expr_view(*x)), sp),
        Expr::Binary(l, op, r, sp) => ExprV::Binary(Box::new(expr_view(*l)), op, Box::new(expr_view(*r)), sp),
        Expr::Assign(l, r, sp) => ExprV::Assign(Box::new(expr_view(*l)), Box::new(expr_view(*r)), sp),
        Expr::Paren(x, sp) => ExprV::Paren(Box::new(expr_view(*x)), sp),
        Expr::AddressOf(x, sp) => ExprV::AddressOf(Box::new(expr_view(*x)), sp),
        Expr::Dereference(x, sp) => ExprV::Dereference(Box::new(expr_view(*x)), sp),
        Expr::SizeOf(t, sp) => ExprV::SizeOf(t@, sp),
        Expr::Cast(x, t, sp) => ExprV::Cast(Box::new(expr_view(*x)), t@, sp),
    }
}

pub open spec fn opt_type_v(t: Option<Type>) -> Option<TypeV> {
    match t {
        Some(x) => Some(x@),
        None => None,
    }
}

/// The value of a statement, by structure.
pub open spec fn stmt_view(s: Stmt) -> StmtV
    decreases s,
{
    match s {
        Stmt::Let(n, t, init, sp) => StmtV::Let(n@, opt_type_v(t), match init {
            Some(e) => Some(expr_view(e)),
            None => None,
        }, sp),
        Stmt::Expr(e) => StmtV::Expr(expr_view(e)),
        Stmt::If(c, t, e, sp) => StmtV::If(
            expr_view(c),
            Seq::new(t@.len(), |i: int| if 0 <= i < t@.len() { stmt_view(t@[i]) } else { StmtV::Break(no_span()) }),
            match e {
                Some(es) => Some(Seq::new(es@.len(), |i: int| if 0 <= i < es@.len() {
                    stmt_view(es@[i])
                } else {
                    StmtV::Break(no_span())
                })),
                None => None,
            },
            sp,
        ),
        Stmt::While(c, b, sp) => StmtV::While(
            expr_view(c),
            Seq::new(b@.len(), |i: int| if 0 <= i < b@.len() { stmt_view(b@[i]) } else { StmtV::Break(no_span()) }),
            sp,
        ),
        Stmt::For(v, lo, hi, b, sp) => StmtV::For(
            v@,
            expr_view(lo),
            expr_view(hi),
            Seq::new(b@.len(), |i: int| if 0 <= i < b@.len() { stmt_view(b@[i]) } else { StmtV::Break(no_span()) }),
            sp,
        ),
        Stmt::Break(sp) => StmtV::Break(sp),
        Stmt::Continue(sp) => StmtV::Continue(sp),
        Stmt::Return(v, sp) => StmtV::Return(match v {
            Some(e) => Some(expr_view(e)),
            None => None,
        }, sp),
        Stmt::Fn(n, ps, r, b, ds, sp) => StmtV::Fn(
            n@,
            fields_view(ps@),
            opt_type_v(r),
            Seq::new(b@.len(), |i: int| if 0 <= i < b@.len() { stmt_view(b@[i]) } else { StmtV::Break(no_span()) }),
            decorators_view(ds@),
            sp,
        ),
        Stmt::ExternFn(n, ps, r, sp) => StmtV::ExternFn(n@, fields_view(ps@), opt_type_v(r), sp),
        Stmt::Struct(n, fs, sp) => StmtV::Struct(n@, fields_view(fs@), sp),
    }
}

impl View for Expr {
    type V = ExprV;

    open spec fn view(&self) -> ExprV {
        expr_view(*self)
    }
}

impl View for Stmt {
    type V = StmtV;

    open spec fn view(&self) -> StmtV {
        stmt_view(*self)
    }
}

pub open spec fn exprs_view(es: Seq<Expr>) -> Seq<ExprV> {
    Seq::new(es.len(), |i: int| es[i]@)
}

pub open spec fn stmts_view(ss: Seq<Stmt>) -> Seq<StmtV> {
    Seq::new(ss.len(), |i: int| ss[i]@)
}

pub open spec fn efields_view(fs: Seq<(String, Expr)>) -> Seq<(Seq<char>, ExprV)> {
    Seq::new(fs.len(), |i: int| (fs[i].0@, fs[i].1@))
}

impl ExprV {
    pub open spec fn span(self) -> Span {
        match self {
            ExprV::Int(_, _, s) => s,
            ExprV::Str(_, s) => s,
            ExprV::Float(_, _, s) => s,
            ExprV::Bool(_, s) => s,
            ExprV::Ident(_, s) => s,
            ExprV::Struct(_, _, s) => s,
            ExprV::Call(_, _, s) => s,
            ExprV::FieldAccess(_, _, s) => s,
            ExprV::ArrayIndex(_, _, s) => s,
            ExprV::ArrayLiteral(_, _, s) => s,
            ExprV::Unary(_, _, s) => s,
            ExprV::Binary(_, _, _, s) => s,
            ExprV::Assign(_, _, s) => s,
            ExprV::Paren(_, s) => s,
            ExprV::AddressOf(_, s) => s,
            ExprV::Dereference(_, s) => s,
            ExprV::SizeOf(_, s) => s,
            ExprV::Cast(_, _, s) => s,
        }
    }
}

pub proof fn lemma_span_view(e: Expr)
    ensures
        e@.span() == e.spec_span(),
{
}

impl Expr {
    /// A fresh copy of the expression.
    pub fn deep_copy(&self) -> (r: Expr)
        ensures
            r@ == self@,
        decreases self, 1nat,
    {
        match self {
            Expr::Int(v, s, sp) => Expr::Int(*v, *s, *sp),
            Expr::String(t, sp) => Expr::String(t.clone(), *sp),
            Expr::Float(t, s, sp) => Expr::Float(t.clone(), *s, *sp),
            Expr::Bool(b, sp) => Expr::Bool(*b, *sp),
            Expr::Ident(n, sp) => Expr::Ident(n.clone(), *sp),
            Expr::Struct(n, fs, sp) => {
                assert(decreases_to!(*self => fs@)) by {
                    assert(decreases_to!(*self => *fs));
                }
                let out = copy_field_inits(fs);
                let r = Expr::Struct(n.clone(), out, *sp);
                assert(r@ matches ExprV::Struct(_, v, _) && v =~= efields_view(fs@));
                assert(self@ matches ExprV::Struct(_, v, _) && v =~= efields_view(fs@));
                r
            },
            Expr::Call(n, args, sp) => {
                assert(decreases_to!(*self => args@)) by {
                    assert(decreases_to!(*self => *args));
                }
                let out = copy_exprs(args);
                let r = Expr::Call(n.clone(), out, *sp);
                assert(r@ matches ExprV::Call(_, v, _) && v =~= exprs_view(args@));
                assert(self@ matches ExprV::Call(_, v, _) && v =~= exprs_view(args@));
                r
            },
            Expr::FieldAccess(x, f, sp) => Expr::FieldAccess(Box::new(x.deep_copy()), f.clone(), *sp),
            Expr::ArrayIndex(a, i, sp) => Expr::ArrayIndex(Box::new(a.deep_copy()), Box::new(i.deep_copy()), *sp),
            Expr::ArrayLiteral(t, es, sp) => {
                assert(decreases_to!(*self => es@)) by {
                    assert(decreases_to!(*self => *es));
                }
                let out = copy_exprs(es);
                let r = Expr::ArrayLiteral(Box::new(t.deep_copy()), out, *sp);
                assert(r@ matches ExprV::ArrayLiteral(_, v, _) && v =~= exprs_view(es@));
                assert(self@ matches ExprV::ArrayLiteral(_, v, _) && v =~= exprs_view(es@));
                r
            },
            Expr::Unary(op, x, sp) => Expr::Unary(*op, Box::new(x.deep_copy()), *sp),
            Expr::Binary(l, op, r, sp) => Expr::Binary(Box::new(l.deep_copy()), *op, Box::new(r.deep_copy()), *sp),
            Expr::Assign(l, r, sp) => Expr::Assign(Box::new(l.deep_copy()), Box::new(r.deep_copy()), *sp),
            Expr::Paren(x, sp) => Expr::Paren(Box::new(x.deep_copy()), *sp),
            Expr::AddressOf(x, sp) => Expr::AddressOf(Box::new(x.deep_copy()), *sp),
            Expr::Dereference(x, sp) => Expr::Dereference(Box::new(x.deep_copy()), *sp),
            Expr::SizeOf(t, sp) => Expr::SizeOf(t.deep_copy(), *sp),
            Expr::Cast(x, t, sp) => Expr::Cast(Box::new(x.deep_copy()), t.deep_copy(), *sp),
        }
    }
}

/// Copies a list of expressions.
pub fn copy_exprs(es: &Vec<Expr>) -> (r: Vec<Expr>)
    ensures
        exprs_view(r@) == exprs_view(es@),
    decreases es@, 0nat,
{
    let mut out: Vec<Expr> = Vec::new();
    let mut i: usize = 0;
    while i < es.len()
        invariant
            i <= es@.len(),
            out@.len() == i,
            forall|j: int| 0 <= j < i ==> #[trigger] out@[j]@ == es@[j]@,
        decreases es@.len() - i,
    {
        assert(decreases_to!(es@ => es@[i as int]));
        out.push(es[i].deep_copy());
        i += 1;
    }
    assert(exprs_view(out@) =~= exprs_view(es@));
    out
}

/// Copies the field initializers of a struct literal.
pub fn copy_field_inits(fs: &Vec<(String, Expr)>) -> (r: Vec<(String, Expr)>)
    ensures
        efields_view(r@) == efields_view(fs@),
    decreases fs@, 0nat,
{
    let mut out: Vec<(String, Expr)> = Vec::new();
    let mut i: usize = 0;
    while i < fs.len()
        invariant
            i <= fs@.len(),
            out@.len() == i,
            forall|j: int| 0 <= j < i ==> #[trigger] out@[j].0@ == fs@[j].0@ && out@[j].1@ == fs@[j].1@,
        decreases fs@.len() - i,
    {
        assert(decreases_to!(fs@ => fs@[i as int].1)) by {
            assert(decreases_to!(fs@ => fs@[i as int]));
        }
        out.push((fs[i].0.clone(), fs[i].1.deep_copy()));
        i += 1;
    }
    assert(efields_view(out@) =~= efields_view(fs@));
    out
}

} // verus!
