//! High-level intermediate representation: the typed, desugared program that
//! the code generator consumes.

use vstd::prelude::*;
use crate::ast::Decorator;
use crate::lexer::token::Span;
use crate::ops::{BinOp, UnOp};
use crate::ty::{Type, TypeV};
use crate::typeck_spec::{FieldsV, fields_view};

verus! {

#[derive(Debug)]
pub enum HirStmt {
    /// `owner` is set when the variable owns a heap struct that must be released.
    Let { name: String, ty: Type, init: HirExpr, owner: bool, span: Span },
    Expr(HirExpr, Span),
    Fn {
        name: String,
        params: Vec<(String, Type)>,
        ret: Type,
        body: Vec<HirStmt>,
        decorators: Vec<Decorator>,
        span: Span,
    },
    ExternFn { name: String, params: Vec<(String, Type)>, ret: Type, span: Span },
    Struct { name: String, span: Span },
    If { cond: HirExpr, then: Vec<HirStmt>, else_: Option<Vec<HirStmt>>, span: Span },
    While { cond: HirExpr, body: Vec<HirStmt>, span: Span },
    For { var: String, var_ty: Type, lo: HirExpr, hi: HirExpr, body: Vec<HirStmt>, span: Span },
    Break(Span),
    Continue(Span),
    Return(Option<HirExpr>, Span),
}

/// An expression of the intermediate representation. A float literal holds its source text.
#[derive(Debug)]
pub enum HirExpr {
    Int(i64, Type, Span),
    Float(String, Type, Span),
    String(String, Span),
    Bool(bool, Span),
    /// A variable reference with the type the checker inferred for it.
    Ident { name: String, ty: Type, span: Span },
    /// A struct literal whose fields are in declaration order.
    AllocStruct(String, Vec<(String, HirExpr)>, Span),
    Call(String, Vec<HirExpr>, Span),
    /// Field `index` (its declaration position) of a struct value.
    FieldLoad { object: Box<HirExpr>, index: usize, struct_name: String, span: Span },
    ArrayIndex { object: Box<HirExpr>, index: Box<HirExpr>, span: Span },
    ArrayLiteral(Box<Type>, Vec<HirExpr>, Span),
    Unary(UnOp, Box<HirExpr>, Span),
    Binary { lhs: Box<HirExpr>, op: BinOp, rhs: Box<HirExpr>, ty: Type, span: Span },
    Assign { lhs: Box<HirExpr>, rhs: Box<HirExpr>, span: Span },
    Print(Box<HirExpr>, Span),
    AddressOf(Box<HirExpr>, Span),
    Dereference(Box<HirExpr>, Span),
    SizeOf(Type, Span),
    Cast { expr: Box<HirExpr>, target_ty: Type, span: Span },
}

/// A decorator by value: name, optional argument, span.
pub type DecoratorV = (Seq<char>, Option<Seq<char>>, Span);

/// An intermediate-representation expression by value.
pub enum HExpr {
    Int(i64, TypeV, Span),
    Float(Seq<char>, TypeV, Span),
    Str(Seq<char>, Span),
    Bool(bool, Span),
    Ident(Seq<char>, TypeV, Span),
    AllocStruct(Seq<char>, Seq<(Seq<char>, HExpr)>, Span),
    Call(Seq<char>, Seq<HExpr>, Span),
    FieldLoad(Box<HExpr>, nat, Seq<char>, Span),
    ArrayIndex(Box<HExpr>, Box<HExpr>, Span),
    ArrayLiteral(TypeV, Seq<HExpr>, Span),
    Unary(UnOp, Box<HExpr>, Span),
    Binary(Box<HExpr>, BinOp, Box<HExpr>, TypeV, Span),
    Assign(Box<HExpr>, Box<HExpr>, Span),
    Print(Box<HExpr>, Span),
    AddressOf(Box<HExpr>, Span),
    Dereference(Box<HExpr>, Span),
    SizeOf(TypeV, Span),
    Cast(Box<HExpr>, TypeV, Span),
}

/// An intermediate-representation statement by value.
pub enum HStmt {
    Let(Seq<char>, TypeV, HExpr, bool, Span),
    Expr(HExpr, Span),
    Fn(Seq<char>, FieldsV, TypeV, Seq<HStmt>, Seq<DecoratorV>, Span),
    ExternFn(Seq<char>, FieldsV, TypeV, Span),
    Struct(Seq<char>, Span),
    If(HExpr, Seq<HStmt>, Option<Seq<HStmt>>, Span),
    While(HExpr, Seq<HStmt>, Span),
    For(Seq<char>, TypeV, HExpr, HExpr, Seq<HStmt>, Span),
    Break(Span),
    Continue(Span),
    Return(Option<HExpr>, Span),
}

pub open spec fn zero_span() -> Span {
    Span { start: 0, end: 0, line: 0, col: 0 }
}

pub open spec fn decorator_view(d: Decorator) -> DecoratorV {
    (d.name@, match d.arg { Some(a) => Some(a@), None => None }, d.span)
}

pub open spec fn decorators_view(ds: Seq<Decorator>) -> Seq<DecoratorV> {
    Seq::new(ds.len(), |i: int| decorator_view(ds[i]))
}

/// The value of an expression, by structure.
pub open spec fn hexpr_view(e: HirExpr) -> HExpr
    decreases e,
{
    match e {
        HirExpr::Int(v, t, s) => HExpr::Int(v, t@, s),
        HirExpr::Float(v, t, s) => HExpr::Float(v@, t@, s),
        HirExpr::String(v, s) => HExpr::Str(v@, s),
        HirExpr::Bool(b, s) => HExpr::Bool(b, s),
        HirExpr::Ident { name, ty, span } => HExpr::Ident(name@, ty@, span),
        HirExpr::AllocStruct(name, fs, s) => HExpr::AllocStruct(
            name@,
            Seq::new(fs@.len(), |i: int| if 0 <= i < fs@.len() {
                (fs@[i].0@, hexpr_view(fs@[i].1))
            } else {
                (Seq::empty(), HExpr::Bool(false, zero_span()))
            }),
            s,
        ),
        HirExpr::Call(name, args, s) => HExpr::Call(
            name@,
            Seq::new(args@.len(), |i: int| if 0 <= i < args@.len() {
                hexpr_view(args@[i])
            } else {
                HExpr::Bool(false, zero_span())
            }),
            s,
        ),
        HirExpr::FieldLoad { object, index, struct_name, span } =>
            HExpr::FieldLoad(Box::new(hexpr_view(*object)), index as nat, struct_name@, span),
        HirExpr::ArrayIndex { object, index, span } =>
            HExpr::ArrayIndex(Box::new(hexpr_view(*object)), Box::new(hexpr_view(*index)), span),
        HirExpr::ArrayLiteral(t, es, s) => HExpr::ArrayLiteral(
            (*t)@,
            Seq::new(es@.len(), |i: int| if 0 <= i < es@.len() {
                hexpr_view(es@[i])
            } else {
                HExpr::Bool(false, zero_span())
            }),
            s,
        ),
        HirExpr::Unary(op, x, s) => HExpr::Unary(op, Box::new(hexpr_view(*x)), s),
        HirExpr::Binary { lhs, op, rhs, ty, span } =>
            HExpr::Binary(Box::new(hexpr_view(*lhs)), op, Box::new(hexpr_view(*rhs)), ty@, span),
        HirExpr::Assign { lhs, rhs, span } =>
            HExpr::Assign(Box::new(hexpr_view(*lhs)), Box::new(hexpr_view(*rhs)), span),
        HirExpr::Print(x, s) => HExpr::Print(Box::new(hexpr_view(*x)), s),
        HirExpr::AddressOf(x, s) => HExpr::AddressOf(Box::new(hexpr_view(*x)), s),
        HirExpr::Dereference(x, s) => HExpr::Dereference(Box::new(hexpr_view(*x)), s),
        HirExpr::SizeOf(t, s) => HExpr::SizeOf(t@, s),
        HirExpr::Cast { expr, target_ty, span } => HExpr::Cast(Box::new(hexpr_view(*expr)), target_ty@, span),
    }
}

/// The value of a statement, by structure.
pub open spec fn hstmt_view(s: HirStmt) -> HStmt
    decreases s,
{
    match s {
        HirStmt::Let { name, ty, init, owner, span } => HStmt::Let(name@, ty@, hexpr_view(init), owner, span),
        HirStmt::Expr(e, sp) => HStmt::Expr(hexpr_view(e), sp),
        HirStmt::Fn { name, params, ret, body, decorators, span } => HStmt::Fn(
            name@,
            fields_view(params@),
            ret@,
            Seq::new(body@.len(), |i: int| if 0 <= i < body@.len() {
                hstmt_view(body@[i])
            } else {
                HStmt::Break(zero_span())
            }),
            decorators_view(decorators@),
            span,
        ),
        HirStmt::ExternFn { name, params, ret, span } => HStmt::ExternFn(name@, fields_view(params@), ret@, span),
        HirStmt::Struct { name, span } => HStmt::Struct(name@, span),
        HirStmt::If { cond, then, else_, span } => HStmt::If(
            hexpr_view(cond),
            Seq::new(then@.len(), |i: int| if 0 <= i < then@.len() {
                hstmt_view(then@[i])
            } else {
                HStmt::Break(zero_span())
            }),
            match else_ {
                Some(es) => Some(Seq::new(es@.len(), |i: int| if 0 <= i < es@.len() {
                    hstmt_view(es@[i])
                } else {
                    HStmt::Break(zero_span())
                })),
                None => None,
            },
            span,
        ),
        HirStmt::While { cond, body, span } => HStmt::While(
            hexpr_view(cond),
            Seq::new(body@.len(), |i: int| if 0 <= i < body@.len() {
                hstmt_view(body@[i])
            } else {
                HStmt::Break(zero_span())
            }),
            span,
        ),
        HirStmt::For { var, var_ty, lo, hi, body, span } => HStmt::For(
            var@,
            var_ty@,
            hexpr_view(lo),
            hexpr_view(hi),
            Seq::new(body@.len(), |i: int| if 0 <= i < body@.len() {
                hstmt_view(body@[i])
            } else {
                HStmt::Break(zero_span())
            }),
            span,
        ),
        HirStmt::Break(sp) => HStmt::Break(sp),
        HirStmt::Continue(sp) => HStmt::Continue(sp),
        HirStmt::Return(v, sp) => HStmt::Return(
            match v {
                Some(e) => Some(hexpr_view(e)),
                None => None,
            },
            sp,
        ),
    }
}

impl View for HirExpr {
    type V = HExpr;

    open spec fn view(&self) -> HExpr {
        hexpr_view(*self)
    }
}

impl View for HirStmt {
    type V = HStmt;

    open spec fn view(&self) -> HStmt {
        hstmt_view(*self)
    }
}

pub open spec fn hexprs_view(es: Seq<HirExpr>) -> Seq<HExpr> {
    Seq::new(es.len(), |i: int| es[i]@)
}

pub open spec fn hstmts_view(ss: Seq<HirStmt>) -> Seq<HStmt> {
    Seq::new(ss.len(), |i: int| ss[i]@)
}

impl HExpr {
    pub open spec fn spec_span(self) -> Span {
        match self {
            HExpr::Int(_, _, s) => s,
            HExpr::Float(_, _, s) => s,
            HExpr::Str(_, s) => s,
            HExpr::Bool(_, s) => s,
            HExpr::Ident(_, _, s) => s,
            HExpr::AllocStruct(_, _, s) => s,
            HExpr::Call(_, _, s) => s,
            HExpr::FieldLoad(_, _, _, s) => s,
            HExpr::ArrayIndex(_, _, s) => s,
            HExpr::ArrayLiteral(_, _, s) => s,
            HExpr::Unary(_, _, s) => s,
            HExpr::Binary(_, _, _, _, s) => s,
            HExpr::Assign(_, _, s) => s,
            HExpr::Print(_, s) => s,
            HExpr::AddressOf(_, s) => s,
            HExpr::Dereference(_, s) => s,
            HExpr::SizeOf(_, s) => s,
            HExpr::Cast(_, _, s) => s,
        }
    }
}

impl HirExpr {
    /// The span recorded in the expression node.
    pub fn span(&self) -> (s: Span)
        ensures
            s == self@.spec_span(),
    {
        match self {
            HirExpr::Int(_, _, s) => *s,
            HirExpr::Float(_, _, s) => *s,
            HirExpr::String(_, s) => *s,
            HirExpr::Bool(_, s) => *s,
            HirExpr::Ident { span, .. } => *span,
            HirExpr::AllocStruct(_, _, s) => *s,
            HirExpr::Call(_, _, s) => *s,
            HirExpr::FieldLoad { span, .. } => *span,
            HirExpr::ArrayIndex { span, .. } => *span,
            HirExpr::ArrayLiteral(_, _, s) => *s,
            HirExpr::Unary(_, _, s) => *s,
            HirExpr::Binary { span, .. } => *span,
            HirExpr::Assign { span, .. } => *span,
            HirExpr::Print(_, s) => *s,
            HirExpr::AddressOf(_, s) => *s,
            HirExpr::Dereference(_, s) => *s,
            HirExpr::SizeOf(_, s) => *s,
            HirExpr::Cast { span, .. } => *span,
        }
    }
}

} // verus!
