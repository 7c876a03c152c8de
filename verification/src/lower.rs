//! Lowering of the checked syntax tree to the intermediate representation.
//!
//! Struct literals are put into declaration order, field accesses become field
//! positions, `print(x)` becomes a dedicated node, and every expression that
//! needs a type gets the one the checker recorded for its span.

use vstd::prelude::*;
use crate::ast::{Decorator, Expr, Stmt};
use crate::hir::{
    HirExpr, HirStmt, HExpr, HStmt, DecoratorV, decorators_view, hexprs_view, hstmts_view,
};
use crate::lexer::token::Span;
use crate::ops::{BinOp, UnOp};
use crate::text::{push_str, push_u64, nat_decimal};
use crate::ty::{Type, TypeV, suffix_to_type, float_suffix_to_type, spec_suffix_to_type,
    spec_float_suffix_to_type, type_text, push_type};
use crate::typeck::{TypeContext, structs_view, expr_types_view, field_pos, find_field, copy_fields, opt_ty};
use crate::typeck_spec::{FieldsV, struct_lookup, fields_view, ret_type_view, seen_through};

verus! {

/// What the lowering reads: struct field lists and the recorded expression types.
pub struct LCtx {
    pub structs: Seq<(Seq<char>, FieldsV)>,
    pub expr_types: Seq<(Span, TypeV)>,
}

/// A lowering error, by value.
pub struct LErr {
    pub message: Seq<char>,
    pub span: Span,
}

#[derive(Debug)]
pub struct LowerError {
    pub message: String,
    pub span: Span,
}

impl View for LowerError {
    type V = LErr;

    open spec fn view(&self) -> LErr {
        LErr { message: self.message@, span: self.span }
    }
}

pub open spec fn lres<T: View>(r: Result<T, LowerError>) -> Result<T::V, LErr> {
    match r {
        Ok(t) => Ok(t@),
        Err(e) => Err(e@),
    }
}

pub open spec fn lerr(message: Seq<char>, span: Span) -> LErr {
    LErr { message, span }
}

/// The type recorded for a span; a later record wins.
pub open spec fn recorded_type(et: Seq<(Span, TypeV)>, span: Span) -> Option<TypeV>
    decreases et.len(),
{
    if et.len() == 0 {
        None
    } else if et.last().0 == span {
        Some(et.last().1)
    } else {
        recorded_type(et.drop_last(), span)
    }
}

/// The recorded type of an expression, or the error for a missing one.
pub open spec fn expr_type(ctx: LCtx, e: Expr) -> Result<TypeV, LErr> {
    match recorded_type(ctx.expr_types, e.spec_span()) {
        Some(t) => Ok(t),
        None => Err(lerr("cannot infer expression type"@, e.spec_span())),
    }
}

/// Whether `e` was typed as a reference.
pub open spec fn is_reference(ctx: LCtx, e: Expr) -> bool {
    recorded_type(ctx.expr_types, e.spec_span()) matches Some(TypeV::Pointer(_))
}

/// The lowered value `h` of `e`, read through the reference where `e` was
/// typed as a reference to `target`.
pub open spec fn deref_if_refers_to(ctx: LCtx, e: Expr, h: HExpr, target: TypeV) -> HExpr {
    if recorded_type(ctx.expr_types, e.spec_span()) == Some(TypeV::Pointer(Box::new(target))) {
        HExpr::Dereference(Box::new(h), e.spec_span())
    } else {
        h
    }
}

/// Index of the last field initializer called `name` in a struct literal.
pub open spec fn last_field_index(fs: Seq<(String, Expr)>, name: Seq<char>) -> Option<nat>
    decreases fs.len(),
{
    if fs.len() == 0 {
        None
    } else if fs.last().0@ == name {
        Some((fs.len() - 1) as nat)
    } else {
        last_field_index(fs.drop_last(), name)
    }
}

pub proof fn lemma_last_field_index(fs: Seq<(String, Expr)>, name: Seq<char>)
    ensures
        match last_field_index(fs, name) {
            Some(j) => j < fs.len() && fs[j as int].0@ == name
                && forall|k: int| j < k < fs.len() ==> fs[k].0@ != name,
            None => forall|k: int| 0 <= k < fs.len() ==> fs[k].0@ != name,
        },
    decreases fs.len(),
{
    if fs.len() > 0 && fs.last().0@ != name {
        lemma_last_field_index(fs.drop_last(), name);
        assert forall|k: int| 0 <= k < fs.len() - 1 implies fs[k] == fs.drop_last()[k] by {}
    }
}

pub open spec fn field_names(order: FieldsV) -> Seq<Seq<char>> {
    Seq::new(order.len(), |i: int| order[i].0)
}

/// Whether a struct literal gives every declared field: each declared name has
/// an initializer, and no declared name repeats (a repeat would find its
/// initializer already taken).
pub open spec fn fields_complete(fs: Seq<(String, Expr)>, order: FieldsV) -> bool {
    forall|k: int| 0 <= k < order.len() ==> {
        &&& last_field_index(fs, #[trigger] order[k].0) is Some
        &&& !field_names(order).take(k).contains(order[k].0)
    }
}

/// The value a declaration without initializer starts with.
pub open spec fn spec_default_init(t: TypeV, span: Span) -> Result<HExpr, LErr> {
    match t {
        TypeV::I8 | TypeV::I16 | TypeV::I32 | TypeV::I64 | TypeV::U8 | TypeV::U16 | TypeV::U32
        | TypeV::U64 => Ok(HExpr::Int(0, t, span)),
        TypeV::F32 | TypeV::F64 => Ok(HExpr::Float("0.0"@, t, span)),
        TypeV::Bool => Ok(HExpr::Bool(false, span)),
        TypeV::String => Ok(HExpr::Str(Seq::empty(), span)),
        TypeV::Pointer(_) => Ok(HExpr::Int(0, TypeV::I64, span)),
        _ => Err(lerr(
            "type `"@ + type_text(t) + "` cannot be default-initialized; provide an explicit value"@,
            span,
        )),
    }
}

/// Lowering of one expression.
pub open spec fn spec_lower_expr(ctx: LCtx, e: Expr) -> Result<HExpr, LErr>
    decreases e, 1int,
{
    match e {
        Expr::Int(v, suffix, span) => Ok(HExpr::Int(v, spec_suffix_to_type(suffix), span)),
        Expr::Float(text, suffix, span) => Ok(HExpr::Float(text@, spec_float_suffix_to_type(suffix), span)),
        Expr::String(s, span) => Ok(HExpr::Str(s@, span)),
        Expr::Bool(b, span) => Ok(HExpr::Bool(b, span)),
        Expr::Ident(name, span) => Ok(HExpr::Ident(
            name@,
            match recorded_type(ctx.expr_types, span) {
                Some(t) => t,
                None => TypeV::Void,
            },
            span,
        )),
        Expr::Struct(name, fields, span) => match struct_lookup(ctx.structs, name@) {
            Some(order) => if !fields_complete(fields@, order) {
                Err(lerr("missing fields in struct `"@ + name@ + "`"@, span))
            } else {
                match spec_lower_ordered(ctx, fields@, order, 0) {
                    Ok(v) => Ok(HExpr::AllocStruct(name@, v, span)),
                    Err(x) => Err(x),
                }
            },
            None => match spec_lower_fields(ctx, fields@) {
                Ok(v) => Ok(HExpr::AllocStruct(name@, v, span)),
                Err(x) => Err(x),
            },
        },
        Expr::Call(callee, args, span) => if callee@ == "print"@ {
            if args@.len() != 1 {
                Err(lerr("print() expected 1 argument, found "@ + nat_decimal(args@.len()), span))
            } else {
                match spec_lower_expr(ctx, args@[0]) {
                    Ok(h) => Ok(HExpr::Print(Box::new(h), span)),
                    Err(x) => Err(x),
                }
            }
        } else {
            match spec_lower_list(ctx, args@) {
                Ok(v) => Ok(HExpr::Call(callee@, v, span)),
                Err(x) => Err(x),
            }
        },
        Expr::FieldAccess(inner, field, span) => match spec_lower_expr(ctx, *inner) {
            Err(x) => Err(x),
            Ok(obj) => match expr_type(ctx, *inner) {
                Err(x) => Err(x),
                Ok(t) => if let TypeV::Struct(name) = seen_through(t) {
                    let missing = lerr("no field `"@ + field@ + "` on struct `"@ + name + "`"@, span);
                    let object = if t is Pointer { HExpr::Dereference(Box::new(obj), span) } else { obj };
                    match struct_lookup(ctx.structs, name) {
                        Some(fs) => match field_pos(fs, field@) {
                            Some(i) => Ok(HExpr::FieldLoad(Box::new(object), i, name, span)),
                            None => Err(missing),
                        },
                        None => Err(missing),
                    }
                } else {
                    Err(lerr(
                    "cannot access field `"@ + field@ + "` on non-struct type `"@ + type_text(t) + "`"@,
                    span,
                    ))
                },
            },
        },
        Expr::ArrayIndex(arr, idx, span) => match spec_lower_expr(ctx, *arr) {
            Err(x) => Err(x),
            Ok(a) => match spec_lower_expr(ctx, *idx) {
                Err(x) => Err(x),
                Ok(i) => Ok(HExpr::ArrayIndex(
                    Box::new(if is_reference(ctx, *arr) { HExpr::Dereference(Box::new(a), span) } else { a }),
                    Box::new(i),
                    span,
                )),
            },
        },
        Expr::ArrayLiteral(_, elems, span) => match expr_type(ctx, e) {
            Err(x) => Err(x),
            Ok(t) => match spec_lower_list(ctx, elems@) {
                Err(x) => Err(x),
                Ok(v) => Ok(HExpr::ArrayLiteral(
                    match t {
                        TypeV::Array(el, _) => *el,
                        other => other,
                    },
                    v,
                    span,
                )),
            },
        },
        Expr::Unary(op, x, span) => match spec_lower_expr(ctx, *x) {
            Err(err) => Err(err),
            Ok(h) => Ok(HExpr::Unary(op, Box::new(h), span)),
        },
        Expr::Binary(l, op, r, span) => match spec_lower_expr(ctx, *l) {
            Err(x) => Err(x),
            Ok(hl) => match spec_lower_expr(ctx, *r) {
                Err(x) => Err(x),
                Ok(hr) => match expr_type(ctx, e) {
                    Err(x) => Err(x),
                    Ok(t) => Ok(HExpr::Binary(Box::new(hl), op, Box::new(hr), t, span)),
                },
            },
        },
        Expr::Assign(l, r, span) => match spec_lower_expr(ctx, *l) {
            Err(x) => Err(x),
            Ok(hl) => match spec_lower_expr(ctx, *r) {
                Err(x) => Err(x),
                Ok(hr) => Ok(HExpr::Assign(Box::new(hl), Box::new(hr), span)),
            },
        },
        Expr::Paren(inner, _) => spec_lower_expr(ctx, *inner),
        Expr::AddressOf(x, span) => match spec_lower_expr(ctx, *x) {
            Err(err) => Err(err),
            Ok(h) => Ok(HExpr::AddressOf(Box::new(h), span)),
        },
        Expr::Dereference(x, span) => match spec_lower_expr(ctx, *x) {
            Err(err) => Err(err),
            Ok(h) => Ok(HExpr::Dereference(Box::new(h), span)),
        },
        Expr::SizeOf(t, span) => Ok(HExpr::SizeOf(t@, span)),
        Expr::Cast(x, t, span) => match spec_lower_expr(ctx, *x) {
            Err(err) => Err(err),
            Ok(h) => Ok(HExpr::Cast(Box::new(h), t@, span)),
        },
    }
}

/// Lowering of a list of expressions, in order, stopping at the first error.
pub open spec fn spec_lower_list(ctx: LCtx, es: Seq<Expr>) -> Result<Seq<HExpr>, LErr>
    decreases es, 0int,
{
    if es.len() == 0 {
        Ok(Seq::empty())
    } else {
        match spec_lower_expr(ctx, es[0]) {
            Err(x) => Err(x),
            Ok(h) => match spec_lower_list(ctx, es.drop_first()) {
                Err(x) => Err(x),
                Ok(rest) => Ok(seq![h] + rest),
            },
        }
    }
}

/// Lowering of the fields of a literal of an undeclared struct, as written.
pub open spec fn spec_lower_fields(ctx: LCtx, fs: Seq<(String, Expr)>) -> Result<Seq<(Seq<char>, HExpr)>, LErr>
    decreases fs, 0int,
{
    if fs.len() == 0 {
        Ok(Seq::empty())
    } else {
        match spec_lower_expr(ctx, fs[0].1) {
            Err(x) => Err(x),
            Ok(h) => match spec_lower_fields(ctx, fs.drop_first()) {
                Err(x) => Err(x),
                Ok(rest) => Ok(seq![(fs[0].0@, h)] + rest),
            },
        }
    }
}

/// Lowering of the fields of a literal of a declared struct, in declaration
/// order from position `k` on; each takes the last initializer of its name.
pub open spec fn spec_lower_ordered(ctx: LCtx, fs: Seq<(String, Expr)>, order: FieldsV, k: int) -> Result<
    Seq<(Seq<char>, HExpr)>,
    LErr,
>
    decreases fs, 0int, order.len() - k,
{
    if k < 0 || k >= order.len() {
        Ok(Seq::empty())
    } else {
        match last_field_index(fs, order[k].0) {
            None => Ok(Seq::empty()),
            Some(j) => {
                proof {
                    lemma_last_field_index(fs, order[k].0);
                }
                match spec_lower_expr(ctx, fs[j as int].1) {
                    Err(x) => Err(x),
                    Ok(h) => match spec_lower_ordered(ctx, fs, order, k + 1) {
                        Err(x) => Err(x),
                        Ok(rest) => Ok(seq![(order[k].0, deref_if_refers_to(ctx, fs[j as int].1, h, order[k].1))] + rest),
                    },
                }
            },
        }
    }
}

/// The declared or inferred type of a `let`.
pub open spec fn let_type(ctx: LCtx, annot: Option<Type>, init: Option<Expr>, span: Span) -> Result<TypeV, LErr> {
    match annot {
        Some(a) => Ok(a@),
        None => match init {
            Some(e) => expr_type(ctx, e),
            None => Err(lerr("variable declaration requires a type annotation or an initializer"@, span)),
        },
    }
}

/// Lowering of one statement.
pub open spec fn spec_lower_stmt(ctx: LCtx, s: Stmt) -> Result<HStmt, LErr>
    decreases s, 1int,
{
    match s {
        Stmt::Let(name, annot, init, span) => match let_type(ctx, annot, init, span) {
            Err(x) => Err(x),
            Ok(ty) => {
                let lowered = match init {
                    Some(e) => spec_lower_expr(ctx, e),
                    None => spec_default_init(ty, span),
                };
                match lowered {
                    Err(x) => Err(x),
                    Ok(h) => Ok(HStmt::Let(name@, ty, h, ty is Struct, span)),
                }
            },
        },
        Stmt::Expr(e) => match spec_lower_expr(ctx, e) {
            Err(x) => Err(x),
            Ok(h) => Ok(HStmt::Expr(h, e.spec_span())),
        },
        Stmt::Fn(name, params, ret, body, decorators, span) => match spec_lower_stmts(ctx, body@) {
            Err(x) => Err(x),
            Ok(b) => Ok(HStmt::Fn(name@, fields_view(params@), ret_type_view(ret), b, decorators_view(decorators@), span)),
        },
        Stmt::ExternFn(name, params, ret, span) => Ok(HStmt::ExternFn(name@, fields_view(params@), ret_type_view(ret), span)),
        Stmt::Struct(name, _, span) => Ok(HStmt::Struct(name@, span)),
        Stmt::If(cond, then_s, else_s, span) => match spec_lower_expr(ctx, cond) {
            Err(x) => Err(x),
            Ok(c) => match spec_lower_stmts(ctx, then_s@) {
                Err(x) => Err(x),
                Ok(t) => match else_s {
                    None => Ok(HStmt::If(c, t, None, span)),
                    Some(es) => match spec_lower_stmts(ctx, es@) {
                        Err(x) => Err(x),
                        Ok(e) => Ok(HStmt::If(c, t, Some(e), span)),
                    },
                },
            },
        },
        Stmt::While(cond, body, span) => match spec_lower_expr(ctx, cond) {
            Err(x) => Err(x),
            Ok(c) => match spec_lower_stmts(ctx, body@) {
                Err(x) => Err(x),
                Ok(b) => Ok(HStmt::While(c, b, span)),
            },
        },
        Stmt::For(var, lo, hi, body, span) => match spec_lower_expr(ctx, lo) {
            Err(x) => Err(x),
            Ok(l) => match spec_lower_expr(ctx, hi) {
                Err(x) => Err(x),
                Ok(h) => match expr_type(ctx, lo) {
                    Err(x) => Err(x),
                    Ok(t) => match spec_lower_stmts(ctx, body@) {
                        Err(x) => Err(x),
                        Ok(b) => Ok(HStmt::For(var@, t, l, h, b, span)),
                    },
                },
            },
        },
        Stmt::Break(span) => Ok(HStmt::Break(span)),
        Stmt::Continue(span) => Ok(HStmt::Continue(span)),
        Stmt::Return(v, span) => match v {
            None => Ok(HStmt::Return(None, span)),
            Some(e) => match spec_lower_expr(ctx, e) {
                Err(x) => Err(x),
                Ok(h) => Ok(HStmt::Return(Some(h), span)),
            },
        },
    }
}

/// Lowering of a statement list, in order, stopping at the first error.
pub open spec fn spec_lower_stmts(ctx: LCtx, ss: Seq<Stmt>) -> Result<Seq<HStmt>, LErr>
    decreases ss, 0int,
{
    if ss.len() == 0 {
        Ok(Seq::empty())
    } else {
        match spec_lower_stmt(ctx, ss[0]) {
            Err(x) => Err(x),
            Ok(h) => match spec_lower_stmts(ctx, ss.drop_first()) {
                Err(x) => Err(x),
                Ok(rest) => Ok(seq![h] + rest),
            },
        }
    }
}

pub open spec fn hfields_view(fs: Seq<(String, HirExpr)>) -> Seq<(Seq<char>, HExpr)> {
    Seq::new(fs.len(), |i: int| (fs[i].0@, fs[i].1@))
}

/// Copies a decorator list.
pub fn copy_decorators(ds: &Vec<Decorator>) -> (r: Vec<Decorator>)
    ensures
        decorators_view(r@) == decorators_view(ds@),
{
    let mut out: Vec<Decorator> = Vec::new();
    let mut i: usize = 0;
    while i < ds.len()
        invariant
            i <= ds@.len(),
            out@.len() == i,
            decorators_view(out@) == decorators_view(ds@).take(i as int),
        decreases ds@.len() - i,
    {
        let arg = match &ds[i].arg {
            Some(a) => Some(a.clone()),
            None => None,
        };
        let ghost before = out@;
        out.push(Decorator { name: ds[i].name.clone(), arg, span: ds[i].span });
        assert(decorators_view(out@) =~= decorators_view(ds@).take(i + 1)) by {
            assert forall|j: int| 0 <= j < i implies out@[j] == before[j] by {}
        }
        i += 1;
    }
    assert(decorators_view(ds@).take(i as int) =~= decorators_view(ds@));
    out
}

/// Index of the last initializer called `name` in a struct literal.
fn last_field_init(fs: &Vec<(String, Expr)>, name: &String) -> (r: Option<usize>)
    ensures
        match r {
            Some(j) => last_field_index(fs@, name@) == Some(j as nat),
            None => last_field_index(fs@, name@) is None,
        },
{
    let mut i = fs.len();
    assert(fs@.take(i as int) =~= fs@);
    while i > 0
        invariant
            i <= fs@.len(),
            last_field_index(fs@, name@) == last_field_index(fs@.take(i as int), name@),
        decreases i,
    {
        if fs[i - 1].0 == *name {
            assert(fs@.take(i as int).last() == fs@[i - 1]);
            return Some(i - 1);
        }
        assert(fs@.take(i as int).drop_last() =~= fs@.take(i - 1));
        i -= 1;
    }
    None
}

/// Whether a struct literal gives every field of the declaration `order`.
fn all_fields_given(fs: &Vec<(String, Expr)>, order: &Vec<(String, Type)>) -> (r: bool)
    ensures
        r == fields_complete(fs@, fields_view(order@)),
{
    let ghost ov = fields_view(order@);
    let ghost names = field_names(ov);
    let mut k: usize = 0;
    while k < order.len()
        invariant
            k <= order@.len(),
            ov == fields_view(order@),
            names == field_names(ov),
            forall|m: int| 0 <= m < k ==> {
                &&& last_field_index(fs@, #[trigger] ov[m].0) is Some
                &&& !names.take(m).contains(ov[m].0)
            },
        decreases order@.len() - k,
    {
        assert(ov[k as int].0 == order@[k as int].0@);
        if last_field_init(fs, &order[k].0).is_none() {
            assert(!(last_field_index(fs@, ov[k as int].0) is Some));
            return false;
        }
        let mut m: usize = 0;
        while m < k
            invariant
                m <= k < order@.len(),
                ov == fields_view(order@),
                names == field_names(ov),
                !names.take(m as int).contains(ov[k as int].0),
            decreases k - m,
        {
            if order[m].0 == order[k].0 {
                assert(names.take(k as int)[m as int] == ov[k as int].0);
                return false;
            }
            assert(names.take(m + 1) =~= names.take(m as int).push(names[m as int]));
            m += 1;
        }
        assert(names.take(m as int) =~= names.take(k as int));
        k += 1;
    }
    true
}

/// Lowers the checked program, using what the checker recorded.
pub struct Lowerer {
    ctx: TypeContext,
}

impl View for Lowerer {
    type V = LCtx;

    closed spec fn view(&self) -> LCtx {
        LCtx { structs: structs_view(self.ctx.struct_types@), expr_types: expr_types_view(self.ctx.expr_types@) }
    }
}

impl Lowerer {
    pub fn new(ctx: TypeContext) -> (l: Self)
        ensures
            l@ == (LCtx { structs: structs_view(ctx.struct_types@), expr_types: expr_types_view(ctx.expr_types@) }),
    {
        Lowerer { ctx }
    }

    /// The struct declarations the lowering works with.
    pub fn struct_types(&self) -> (r: &Vec<(String, Vec<(String, Type)>)>)
        ensures
            structs_view(r@) == self@.structs,
    {
        &self.ctx.struct_types
    }

    /// Whether a call names a built-in function rather than a declared one.
    pub fn is_builtin(name: &str) -> (r: bool)
        ensures
            r == (name@ == "print"@),
    {
        let n = String::from_str(name);
        let p = String::from_str("print");
        n == p
    }

    fn recorded(&self, span: Span) -> (r: Option<Type>)
        ensures
            opt_ty(r) == recorded_type(self@.expr_types, span),
    {
        let ghost et = self@.expr_types;
        let mut i = self.ctx.expr_types.len();
        assert(et.take(i as int) =~= et);
        while i > 0
            invariant
                i <= self.ctx.expr_types@.len(),
                et == self@.expr_types,
                recorded_type(et, span) == recorded_type(et.take(i as int), span),
            decreases i,
        {
            if self.ctx.expr_types[i - 1].0 == span {
                assert(et.take(i as int).last() == et[i - 1]);
                return Some(self.ctx.expr_types[i - 1].1.deep_copy());
            }
            assert(et.take(i as int).drop_last() =~= et.take(i - 1));
            i -= 1;
        }
        None
    }

    fn get_expr_type(&self, e: &Expr) -> (r: Result<Type, LowerError>)
        ensures
            lres(r) == expr_type(self@, *e),
    {
        match self.recorded(e.span()) {
            Some(t) => Ok(t),
            None => Err(LowerError { message: String::from_str("cannot infer expression type"), span: e.span() }),
        }
    }

    fn find_struct(&self, name: &String) -> (r: Option<usize>)
        ensures
            match r {
                Some(i) => i < self.ctx.struct_types@.len() && struct_lookup(self@.structs, name@)
                    == Some(fields_view(self.ctx.struct_types@[i as int].1@)),
                None => struct_lookup(self@.structs, name@) is None,
            },
    {
        let ghost sv = self@.structs;
        let mut i = self.ctx.struct_types.len();
        assert(sv.take(i as int) =~= sv);
        while i > 0
            invariant
                i <= self.ctx.struct_types@.len(),
                sv == self@.structs,
                struct_lookup(sv, name@) == struct_lookup(sv.take(i as int), name@),
            decreases i,
        {
            if self.ctx.struct_types[i - 1].0 == *name {
                assert(sv.take(i as int).last() == sv[i - 1]);
                return Some(i - 1);
            }
            assert(sv.take(i as int).drop_last() =~= sv.take(i - 1));
            i -= 1;
        }
        None
    }

    /// The value a declaration without initializer starts with.
    pub fn default_init(ty: &Type, span: Span) -> (r: Result<HirExpr, LowerError>)
        ensures
            lres(r) == spec_default_init(ty@, span),
    {
        match ty {
            Type::I8 => Ok(HirExpr::Int(0, Type::I8, span)),
            Type::U8 => Ok(HirExpr::Int(0, Type::U8, span)),
            Type::I16 => Ok(HirExpr::Int(0, Type::I16, span)),
            Type::U16 => Ok(HirExpr::Int(0, Type::U16, span)),
            Type::I32 => Ok(HirExpr::Int(0, Type::I32, span)),
            Type::U32 => Ok(HirExpr::Int(0, Type::U32, span)),
            Type::I64 => Ok(HirExpr::Int(0, Type::I64, span)),
            Type::U64 => Ok(HirExpr::Int(0, Type::U64, span)),
            Type::F32 => Ok(HirExpr::Float(String::from_str("0.0"), Type::F32, span)),
            Type::F64 => Ok(HirExpr::Float(String::from_str("0.0"), Type::F64, span)),
            Type::Bool => Ok(HirExpr::Bool(false, span)),
            Type::String => Ok(HirExpr::String(String::new(), span)),
            Type::Pointer(_) => Ok(HirExpr::Int(0, Type::I64, span)),
            _ => {
                let mut m = String::new();
                push_str(&mut m, "type `");
                push_type(&mut m, ty);
                push_str(&mut m, "` cannot be default-initialized; provide an explicit value");
                assert(m@ =~= "type `"@ + type_text(ty@) + "` cannot be default-initialized; provide an explicit value"@);
                Err(LowerError { message: m, span })
            },
        }
    }
}

fn lower_error_with(message: String, span: Span) -> (r: LowerError)
    ensures
        r@ == lerr(message@, span),
{
    LowerError { message, span }
}

impl Lowerer {
    /// Lowers one expression.
    pub fn lower_expr(&self, e: &Expr) -> (r: Result<HirExpr, LowerError>)
        ensures
            lres(r) == spec_lower_expr(self@, *e),
        decreases e, 1nat, 0nat,
    {
        match e {
            Expr::Int(v, suffix, span) => Ok(HirExpr::Int(*v, suffix_to_type(suffix), *span)),
            Expr::Float(text, suffix, span) => Ok(HirExpr::Float(text.clone(), float_suffix_to_type(suffix), *span)),
            Expr::String(text, span) => Ok(HirExpr::String(text.clone(), *span)),
            Expr::Bool(b, span) => Ok(HirExpr::Bool(*b, *span)),
            Expr::Ident(name, span) => {
                let ty = match self.recorded(*span) {
                    Some(t) => t,
                    None => Type::Void,
                };
                Ok(HirExpr::Ident { name: name.clone(), ty, span: *span })
            },
            Expr::Struct(name, fields, span) => {
                assert(decreases_to!(*e => fields@)) by {
                    assert(decreases_to!(*e => *fields));
                }
                let mut out: Vec<(String, HirExpr)> = Vec::new();
                match self.find_struct(name) {
                    Some(si) => {
                        let order = &self.ctx.struct_types[si].1;
                        if !all_fields_given(fields, order) {
                            let mut m = String::new();
                            push_str(&mut m, "missing fields in struct `");
                            push_str(&mut m, name.as_str());
                            push_str(&mut m, "`");
                            assert(m@ =~= "missing fields in struct `"@ + name@ + "`"@);
                            return Err(lower_error_with(m, *span));
                        }
                        self.lower_ordered(fields, order, 0, &mut out)?;
                    },
                    None => {
                        assert(fields@.skip(0) =~= fields@);
                        self.lower_fields(fields, 0, &mut out)?;
                    },
                }
                let ghost ov = out@;
                let r = HirExpr::AllocStruct(name.clone(), out, *span);
                assert(r@ == HExpr::AllocStruct(name@, hfields_view(ov), *span)) by {
                    if let HExpr::AllocStruct(_, v, _) = r@ {
                        assert(v =~= hfields_view(ov));
                    }
                }
                Ok(r)
            },
            Expr::Call(callee, args, span) => {
                assert(decreases_to!(*e => args@)) by {
                    assert(decreases_to!(*e => *args));
                }
                if Self::is_builtin(callee.as_str()) {
                    if args.len() != 1 {
                        let mut m = String::new();
                        push_str(&mut m, "print() expected 1 argument, found ");
                        push_u64(&mut m, args.len() as u64);
                        assert(m@ =~= "print() expected 1 argument, found "@ + nat_decimal(args@.len()));
                        return Err(lower_error_with(m, *span));
                    }
                    assert(decreases_to!(args@ => args@[0]));
                    let a = self.lower_expr(&args[0])?;
                    return Ok(HirExpr::Print(Box::new(a), *span));
                }
                let mut out: Vec<HirExpr> = Vec::new();
                assert(args@.skip(0) =~= args@);
                self.lower_list(args, 0, &mut out)?;
                let ghost ov = out@;
                let r = HirExpr::Call(callee.clone(), out, *span);
                assert(r@ == HExpr::Call(callee@, hexprs_view(ov), *span)) by {
                    if let HExpr::Call(_, v, _) = r@ {
                        assert(v =~= hexprs_view(ov));
                    }
                }
                Ok(r)
            },
            Expr::FieldAccess(inner, field, span) => {
                let obj = self.lower_expr(inner)?;
                let ty = self.get_expr_type(inner)?;
                let (seen, through) = match &ty {
                    Type::Pointer(t) => (&**t, true),
                    _ => (&ty, false),
                };
                assert(seen@ == seen_through(ty@) && through == (ty@ is Pointer));
                match seen {
                    Type::Struct(name) => {
                        let mut m = String::new();
                        push_str(&mut m, "no field `");
                        push_str(&mut m, field.as_str());
                        push_str(&mut m, "` on struct `");
                        push_str(&mut m, name.as_str());
                        push_str(&mut m, "`");
                        assert(m@ =~= "no field `"@ + field@ + "` on struct `"@ + name@ + "`"@);
                        let ghost ov = obj@;
                        let object = if through { HirExpr::Dereference(Box::new(obj), *span) } else { obj };
                        assert(object@ == (if ty@ is Pointer { HExpr::Dereference(Box::new(ov), *span) } else { ov }));
                        match self.find_struct(name) {
                            Some(si) => match find_field(&self.ctx.struct_types[si].1, field) {
                                Some(idx) => {
                                    let r = HirExpr::FieldLoad {
                                        object: Box::new(object),
                                        index: idx,
                                        struct_name: name.clone(),
                                        span: *span,
                                    };
                                    assert(seen_through(ty@) == TypeV::Struct(name@));
                                    assert(lres::<HirExpr>(Ok(r)) == spec_lower_expr(self@, *e));
                                    Ok(r)
                                },
                                None => Err(lower_error_with(m, *span)),
                            },
                            None => Err(lower_error_with(m, *span)),
                        }
                    },
                    _ => {
                        let mut m = String::new();
                        push_str(&mut m, "cannot access field `");
                        push_str(&mut m, field.as_str());
                        push_str(&mut m, "` on non-struct type `");
                        push_type(&mut m, &ty);
                        push_str(&mut m, "`");
                        assert(m@ =~= "cannot access field `"@ + field@ + "` on non-struct type `"@ + type_text(ty@) + "`"@);
                        Err(lower_error_with(m, *span))
                    },
                }
            },
            Expr::ArrayIndex(arr, idx, span) => {
                let a = self.lower_expr(arr)?;
                let i = self.lower_expr(idx)?;
                let ghost av = a@;
                let object = match self.recorded(arr.span()) {
                    Some(Type::Pointer(_)) => HirExpr::Dereference(Box::new(a), *span),
                    _ => a,
                };
                assert(object@ == (if is_reference(self@, **arr) { HExpr::Dereference(Box::new(av), *span) } else { av }));
                Ok(HirExpr::ArrayIndex { object: Box::new(object), index: Box::new(i), span: *span })
            },
            Expr::ArrayLiteral(_, elems, span) => {
                assert(decreases_to!(*e => elems@)) by {
                    assert(decreases_to!(*e => *elems));
                }
                let t = self.get_expr_type(e)?;
                let mut out: Vec<HirExpr> = Vec::new();
                assert(elems@.skip(0) =~= elems@);
                self.lower_list(elems, 0, &mut out)?;
                let elem_ty = match t {
                    Type::Array(el, _) => *el,
                    other => other,
                };
                let ghost ov = out@;
                let r = HirExpr::ArrayLiteral(Box::new(elem_ty), out, *span);
                assert(r@ == HExpr::ArrayLiteral(elem_ty@, hexprs_view(ov), *span)) by {
                    if let HExpr::ArrayLiteral(_, v, _) = r@ {
                        assert(v =~= hexprs_view(ov));
                    }
                }
                Ok(r)
            },
            Expr::Unary(op, x, span) => {
                let h = self.lower_expr(x)?;
                Ok(HirExpr::Unary(*op, Box::new(h), *span))
            },
            Expr::Binary(l, op, r, span) => {
                let hl = self.lower_expr(l)?;
                let hr = self.lower_expr(r)?;
                let ty = self.get_expr_type(e)?;
                Ok(HirExpr::Binary { lhs: Box::new(hl), op: *op, rhs: Box::new(hr), ty, span: *span })
            },
            Expr::Assign(l, r, span) => {
                let hl = self.lower_expr(l)?;
                let hr = self.lower_expr(r)?;
                Ok(HirExpr::Assign { lhs: Box::new(hl), rhs: Box::new(hr), span: *span })
            },
            Expr::Paren(inner, _) => self.lower_expr(inner),
            Expr::AddressOf(x, span) => {
                let h = self.lower_expr(x)?;
                Ok(HirExpr::AddressOf(Box::new(h), *span))
            },
            Expr::Dereference(x, span) => {
                let h = self.lower_expr(x)?;
                Ok(HirExpr::Dereference(Box::new(h), *span))
            },
            Expr::SizeOf(t, span) => Ok(HirExpr::SizeOf(t.deep_copy(), *span)),
            Expr::Cast(x, t, span) => {
                let h = self.lower_expr(x)?;
                Ok(HirExpr::Cast { expr: Box::new(h), target_ty: t.deep_copy(), span: *span })
            },
        }
    }

    /// Lowers `es[i..]` onto the end of `out`.
    fn lower_list(&self, es: &Vec<Expr>, i: usize, out: &mut Vec<HirExpr>) -> (r: Result<(), LowerError>)
        requires
            i <= es@.len(),
        ensures
            match spec_lower_list(self@, es@.skip(i as int)) {
                Ok(v) => r is Ok && hexprs_view(final(out)@) == hexprs_view(old(out)@) + v,
                Err(x) => r matches Err(err) && err@ == x,
            },
        decreases es@, 0nat, es@.len() - i,
    {
        if i >= es.len() {
            assert(es@.skip(i as int).len() == 0);
            assert(hexprs_view(out@) =~= hexprs_view(out@) + Seq::<HExpr>::empty());
            return Ok(());
        }
        assert(es@.skip(i as int)[0] == es@[i as int]);
        assert(es@.skip(i as int).drop_first() =~= es@.skip(i + 1));
        assert(decreases_to!(es@ => es@[i as int]));
        let h = self.lower_expr(&es[i])?;
        let ghost before = out@;
        let ghost hv = h@;
        out.push(h);
        assert(hexprs_view(out@) =~= hexprs_view(before).push(hv));
        let r = self.lower_list(es, i + 1, out);
        proof {
            if let Ok(rest) = spec_lower_list(self@, es@.skip(i + 1)) {
                assert(hexprs_view(before).push(hv) + rest =~= hexprs_view(before) + (seq![hv] + rest));
            }
        }
        r
    }

    /// Lowers the fields `fs[i..]` of a literal of an undeclared struct onto the end of `out`.
    fn lower_fields(&self, fs: &Vec<(String, Expr)>, i: usize, out: &mut Vec<(String, HirExpr)>) -> (r: Result<(), LowerError>)
        requires
            i <= fs@.len(),
        ensures
            match spec_lower_fields(self@, fs@.skip(i as int)) {
                Ok(v) => r is Ok && hfields_view(final(out)@) == hfields_view(old(out)@) + v,
                Err(x) => r matches Err(err) && err@ == x,
            },
        decreases fs@, 0nat, fs@.len() - i,
    {
        if i >= fs.len() {
            assert(fs@.skip(i as int).len() == 0);
            assert(hfields_view(out@) =~= hfields_view(out@) + Seq::<(Seq<char>, HExpr)>::empty());
            return Ok(());
        }
        assert(fs@.skip(i as int)[0] == fs@[i as int]);
        assert(fs@.skip(i as int).drop_first() =~= fs@.skip(i + 1));
        assert(decreases_to!(fs@ => fs@[i as int].1)) by {
            assert(decreases_to!(fs@ => fs@[i as int]));
        }
        let h = self.lower_expr(&fs[i].1)?;
        let ghost before = out@;
        let ghost item = (fs@[i as int].0@, h@);
        out.push((fs[i].0.clone(), h));
        assert(hfields_view(out@) =~= hfields_view(before).push(item));
        let r = self.lower_fields(fs, i + 1, out);
        proof {
            if let Ok(rest) = spec_lower_fields(self@, fs@.skip(i + 1)) {
                assert(hfields_view(before).push(item) + rest =~= hfields_view(before) + (seq![item] + rest));
            }
        }
        r
    }

    /// Lowers the fields of a literal of a declared struct, in declaration order
    /// from position `k` on, onto the end of `out`.
    fn lower_ordered(
        &self,
        fs: &Vec<(String, Expr)>,
        order: &Vec<(String, Type)>,
        k: usize,
        out: &mut Vec<(String, HirExpr)>,
    ) -> (r: Result<(), LowerError>)
        requires
            k <= order@.len(),
        ensures
            match spec_lower_ordered(self@, fs@, fields_view(order@), k as int) {
                Ok(v) => r is Ok && hfields_view(final(out)@) == hfields_view(old(out)@) + v,
                Err(x) => r matches Err(err) && err@ == x,
            },
        decreases fs@, 0nat, order@.len() - k,
    {
        let ghost ov = fields_view(order@);
        if k >= order.len() {
            assert(hfields_view(out@) =~= hfields_view(out@) + Seq::<(Seq<char>, HExpr)>::empty());
            return Ok(());
        }
        assert(ov[k as int].0 == order@[k as int].0@);
        match last_field_init(fs, &order[k].0) {
            None => {
                assert(hfields_view(out@) =~= hfields_view(out@) + Seq::<(Seq<char>, HExpr)>::empty());
                Ok(())
            },
            Some(j) => {
                proof {
                    lemma_last_field_index(fs@, ov[k as int].0);
                }
                assert(decreases_to!(fs@ => fs@[j as int].1)) by {
                    assert(decreases_to!(fs@ => fs@[j as int]));
                }
                let h0 = self.lower_expr(&fs[j].1)?;
                let vspan = fs[j].1.span();
                let h = match self.recorded(vspan) {
                    Some(Type::Pointer(t)) => if t.same(&order[k].1) {
                        HirExpr::Dereference(Box::new(h0), vspan)
                    } else {
                        h0
                    },
                    _ => h0,
                };
                assert(ov[k as int].1 == order@[k as int].1@);
                assert(h@ == deref_if_refers_to(self@, fs@[j as int].1, h0@, ov[k as int].1));
                let ghost before = out@;
                let ghost item = (ov[k as int].0, h@);
                out.push((order[k].0.clone(), h));
                assert(hfields_view(out@) =~= hfields_view(before).push(item));
                let r = self.lower_ordered(fs, order, k + 1, out);
                proof {
                    if let Ok(rest) = spec_lower_ordered(self@, fs@, ov, k + 1) {
                        assert(hfields_view(before).push(item) + rest =~= hfields_view(before) + (seq![item] + rest));
                    }
                }
                r
            },
        }
    }
}

impl Lowerer {
    /// Lowers one statement.
    pub fn lower_stmt(&self, s: &Stmt) -> (r: Result<HirStmt, LowerError>)
        ensures
            lres(r) == spec_lower_stmt(self@, *s),
        decreases s, 1nat, 0nat,
    {
        match s {
            Stmt::Let(name, annot, init, span) => {
                let ty = match annot {
                    Some(a) => a.deep_copy(),
                    None => match init {
                        Some(e) => self.get_expr_type(e)?,
                        None => {
                            return Err(LowerError {
                                message: String::from_str("variable declaration requires a type annotation or an initializer"),
                                span: *span,
                            });
                        },
                    },
                };
                let h = match init {
                    Some(e) => self.lower_expr(e)?,
                    None => Self::default_init(&ty, *span)?,
                };
                let owner = match &ty {
                    Type::Struct(_) => true,
                    _ => false,
                };
                Ok(HirStmt::Let { name: name.clone(), ty, init: h, owner, span: *span })
            },
            Stmt::Expr(e) => {
                let h = self.lower_expr(e)?;
                Ok(HirStmt::Expr(h, e.span()))
            },
            Stmt::Fn(name, params, ret, body, decorators, span) => {
                assert(decreases_to!(*s => body@)) by {
                    assert(decreases_to!(*s => *body));
                }
                let b = self.lower_block(body)?;
                let rt = match ret {
                    Some(t) => t.deep_copy(),
                    None => Type::Void,
                };
                let ghost bv = b@;
                let r = HirStmt::Fn {
                    name: name.clone(),
                    params: copy_fields(params),
                    ret: rt,
                    body: b,
                    decorators: copy_decorators(decorators),
                    span: *span,
                };
                assert(r@ == HStmt::Fn(name@, fields_view(params@), ret_type_view(*ret), hstmts_view(bv),
                    decorators_view(decorators@), *span)) by {
                    if let HStmt::Fn(_, _, _, v, _, _) = r@ {
                        assert(v =~= hstmts_view(bv));
                    }
                }
                Ok(r)
            },
            Stmt::ExternFn(name, params, ret, span) => {
                let rt = match ret {
                    Some(t) => t.deep_copy(),
                    None => Type::Void,
                };
                Ok(HirStmt::ExternFn { name: name.clone(), params: copy_fields(params), ret: rt, span: *span })
            },
            Stmt::Struct(name, _, span) => Ok(HirStmt::Struct { name: name.clone(), span: *span }),
            Stmt::If(cond, then_s, else_s, span) => {
                assert(decreases_to!(*s => then_s@)) by {
                    assert(decreases_to!(*s => *then_s));
                }
                let c = self.lower_expr(cond)?;
                let t = self.lower_block(then_s)?;
                let ghost tv = t@;
                match else_s {
                    None => {
                        let r = HirStmt::If { cond: c, then: t, else_: None, span: *span };
                        assert(r@ == HStmt::If(c@, hstmts_view(tv), None, *span)) by {
                            if let HStmt::If(_, v, _, _) = r@ {
                                assert(v =~= hstmts_view(tv));
                            }
                        }
                        Ok(r)
                    },
                    Some(es) => {
                        assert(decreases_to!(*s => es@)) by {
                            assert(decreases_to!(*s => *else_s));
                            assert(decreases_to!(*else_s => *es));
                        }
                        let eb = self.lower_block(es)?;
                        let ghost ev = eb@;
                        let r = HirStmt::If { cond: c, then: t, else_: Some(eb), span: *span };
                        assert(r@ == HStmt::If(c@, hstmts_view(tv), Some(hstmts_view(ev)), *span)) by {
                            if let HStmt::If(_, v, Some(w), _) = r@ {
                                assert(v =~= hstmts_view(tv));
                                assert(w =~= hstmts_view(ev));
                            }
                        }
                        Ok(r)
                    },
                }
            },
            Stmt::While(cond, body, span) => {
                assert(decreases_to!(*s => body@)) by {
                    assert(decreases_to!(*s => *body));
                }
                let c = self.lower_expr(cond)?;
                let b = self.lower_block(body)?;
                let ghost bv = b@;
                let r = HirStmt::While { cond: c, body: b, span: *span };
                assert(r@ == HStmt::While(c@, hstmts_view(bv), *span)) by {
                    if let HStmt::While(_, v, _) = r@ {
                        assert(v =~= hstmts_view(bv));
                    }
                }
                Ok(r)
            },
            Stmt::For(var, lo, hi, body, span) => {
                assert(decreases_to!(*s => body@)) by {
                    assert(decreases_to!(*s => *body));
                }
                let l = self.lower_expr(lo)?;
                let h = self.lower_expr(hi)?;
                let t = self.get_expr_type(lo)?;
                let b = self.lower_block(body)?;
                let ghost bv = b@;
                let r = HirStmt::For { var: var.clone(), var_ty: t, lo: l, hi: h, body: b, span: *span };
                assert(r@ == HStmt::For(var@, t@, l@, h@, hstmts_view(bv), *span)) by {
                    if let HStmt::For(_, _, _, _, v, _) = r@ {
                        assert(v =~= hstmts_view(bv));
                    }
                }
                Ok(r)
            },
            Stmt::Break(span) => Ok(HirStmt::Break(*span)),
            Stmt::Continue(span) => Ok(HirStmt::Continue(*span)),
            Stmt::Return(v, span) => match v {
                None => Ok(HirStmt::Return(None, *span)),
                Some(e) => {
                    let h = self.lower_expr(e)?;
                    Ok(HirStmt::Return(Some(h), *span))
                },
            },
        }
    }

    /// Lowers a statement list.
    fn lower_block(&self, ss: &Vec<Stmt>) -> (r: Result<Vec<HirStmt>, LowerError>)
        ensures
            match spec_lower_stmts(self@, ss@) {
                Ok(v) => r matches Ok(out) && hstmts_view(out@) == v,
                Err(x) => r matches Err(err) && err@ == x,
            },
        decreases ss@, 1nat, 0nat,
    {
        let mut out: Vec<HirStmt> = Vec::new();
        assert(ss@.skip(0) =~= ss@);
        self.lower_stmts_into(ss, 0, &mut out)?;
        assert(hstmts_view(Seq::<HirStmt>::empty()) =~= Seq::<HStmt>::empty());
        proof {
            if let Ok(v) = spec_lower_stmts(self@, ss@) {
                assert(Seq::<HStmt>::empty() + v =~= v);
            }
        }
        Ok(out)
    }

    /// Lowers `ss[i..]` onto the end of `out`.
    fn lower_stmts_into(&self, ss: &Vec<Stmt>, i: usize, out: &mut Vec<HirStmt>) -> (r: Result<(), LowerError>)
        requires
            i <= ss@.len(),
        ensures
            match spec_lower_stmts(self@, ss@.skip(i as int)) {
                Ok(v) => r is Ok && hstmts_view(final(out)@) == hstmts_view(old(out)@) + v,
                Err(x) => r matches Err(err) && err@ == x,
            },
        decreases ss@, 0nat, ss@.len() - i,
    {
        if i >= ss.len() {
            assert(ss@.skip(i as int).len() == 0);
            assert(hstmts_view(out@) =~= hstmts_view(out@) + Seq::<HStmt>::empty());
            return Ok(());
        }
        assert(ss@.skip(i as int)[0] == ss@[i as int]);
        assert(ss@.skip(i as int).drop_first() =~= ss@.skip(i + 1));
        assert(decreases_to!(ss@ => ss@[i as int]));
        let h = self.lower_stmt(&ss[i])?;
        let ghost before = out@;
        let ghost hv = h@;
        out.push(h);
        assert(hstmts_view(out@) =~= hstmts_view(before).push(hv));
        let r = self.lower_stmts_into(ss, i + 1, out);
        proof {
            if let Ok(rest) = spec_lower_stmts(self@, ss@.skip(i + 1)) {
                assert(hstmts_view(before).push(hv) + rest =~= hstmts_view(before) + (seq![hv] + rest));
            }
        }
        r
    }

    /// Lowers a whole program, stopping at the first error.
    pub fn lower(&mut self, stmts: &Vec<Stmt>) -> (r: Result<Vec<HirStmt>, LowerError>)
        ensures
            *final(self) == *old(self),
            match spec_lower_stmts(old(self)@, stmts@) {
                Ok(v) => r matches Ok(out) && hstmts_view(out@) == v,
                Err(x) => r matches Err(err) && err@ == x,
            },
    {
        self.lower_block(stmts)
    }
}

impl LowerError {
    /// The message the error is reported with: `lower error at LINE:COL: MESSAGE`.
    pub fn text(&self) -> (s: String)
        ensures
            s@ == "lower error at "@ + nat_decimal(self.span.line as nat) + ":"@
                + nat_decimal(self.span.col as nat) + ": "@ + self.message@,
    {
        let mut out = String::new();
        push_str(&mut out, "lower error at ");
        push_u64(&mut out, self.span.line as u64);
        push_str(&mut out, ":");
        push_u64(&mut out, self.span.col as u64);
        push_str(&mut out, ": ");
        push_str(&mut out, self.message.as_str());
        assert(out@ =~= "lower error at "@ + nat_decimal(self.span.line as nat) + ":"@
            + nat_decimal(self.span.col as nat) + ": "@ + self.message@);
        out
    }
}

proof fn lemma_ordered_names(ctx: LCtx, fs: Seq<(String, Expr)>, order: FieldsV, k: int)
    requires
        0 <= k <= order.len(),
        fields_complete(fs, order),
    ensures
        spec_lower_ordered(ctx, fs, order, k) matches Ok(v) ==> v.len() == order.len() - k
            && forall|i: int| 0 <= i < v.len() ==> #[trigger] v[i].0 == order[k + i].0,
    decreases order.len() - k,
{
    if k < order.len() {
        assert(last_field_index(fs, order[k].0) is Some);
        lemma_ordered_names(ctx, fs, order, k + 1);
    }
}

/// A struct literal of a declared struct lowers to its fields in
/// declaration order, each under its declared name.
pub proof fn law_struct_fields_in_declaration_order(ctx: LCtx, name: String, fs: Vec<(String, Expr)>, span: Span)
    requires
        struct_lookup(ctx.structs, name@) is Some,
        spec_lower_expr(ctx, Expr::Struct(name, fs, span)) is Ok,
    ensures
        ({
            let order = struct_lookup(ctx.structs, name@)->0;
            spec_lower_expr(ctx, Expr::Struct(name, fs, span))->Ok_0 matches HExpr::AllocStruct(n, v, _)
                && n == name@ && v.len() == order.len()
                && forall|i: int| 0 <= i < v.len() ==> #[trigger] v[i].0 == order[i].0
        }),
{
    let order = struct_lookup(ctx.structs, name@)->0;
    lemma_ordered_names(ctx, fs@, order, 0);
}

/// Lowering keeps the operands of a binary operation where they stand: the
/// left operand's lowering on the left, the right one's on the right, the
/// operator unchanged and the type the checker recorded for the whole. It
/// succeeds exactly when both operands lower and that type was recorded.
pub proof fn law_binary_operands_keep_their_places(ctx: LCtx, l: Expr, op: BinOp, r: Expr, span: Span)
    ensures
        ({
            let e = Expr::Binary(Box::new(l), op, Box::new(r), span);
            &&& spec_lower_expr(ctx, e) is Ok <==> (spec_lower_expr(ctx, l) is Ok && spec_lower_expr(ctx, r) is Ok
                && recorded_type(ctx.expr_types, span) is Some)
            &&& spec_lower_expr(ctx, e) is Ok ==> spec_lower_expr(ctx, e)->Ok_0 == HExpr::Binary(
                Box::new(spec_lower_expr(ctx, l)->Ok_0),
                op,
                Box::new(spec_lower_expr(ctx, r)->Ok_0),
                recorded_type(ctx.expr_types, span)->0,
                span,
            )
        }),
{
}

/// Lowering keeps the target of an assignment on the left and the value on
/// the right; it succeeds exactly when both lower.
pub proof fn law_assignment_sides_keep_their_places(ctx: LCtx, l: Expr, r: Expr, span: Span)
    ensures
        ({
            let e = Expr::Assign(Box::new(l), Box::new(r), span);
            &&& spec_lower_expr(ctx, e) is Ok <==> (spec_lower_expr(ctx, l) is Ok && spec_lower_expr(ctx, r) is Ok)
            &&& spec_lower_expr(ctx, e) is Ok ==> spec_lower_expr(ctx, e)->Ok_0 == HExpr::Assign(
                Box::new(spec_lower_expr(ctx, l)->Ok_0),
                Box::new(spec_lower_expr(ctx, r)->Ok_0),
                span,
            )
        }),
{
}

/// A list of expressions (a call's arguments, an array's elements) lowers
/// element by element, in order: when it lowers, the i-th result is the
/// lowering of the i-th expression; it fails exactly when one of them does.
pub proof fn law_lists_lower_in_order(ctx: LCtx, es: Seq<Expr>)
    ensures
        spec_lower_list(ctx, es) is Ok <==> forall|i: int| 0 <= i < es.len() ==> #[trigger] spec_lower_expr(ctx, es[i]) is Ok,
        spec_lower_list(ctx, es) matches Ok(v) ==> v.len() == es.len()
            && forall|i: int| 0 <= i < es.len() ==> spec_lower_expr(ctx, #[trigger] es[i]) == Ok::<HExpr, LErr>(v[i]),
    decreases es.len(),
{
    if es.len() > 0 {
        law_lists_lower_in_order(ctx, es.drop_first());
        assert forall|i: int| 0 < i < es.len() implies es[i] == es.drop_first()[i - 1] by {}
        if spec_lower_list(ctx, es) is Ok {
            let v = spec_lower_list(ctx, es)->Ok_0;
            let rest = spec_lower_list(ctx, es.drop_first())->Ok_0;
            assert(v == seq![spec_lower_expr(ctx, es[0])->Ok_0] + rest);
            assert forall|i: int| 0 <= i < es.len() implies spec_lower_expr(ctx, #[trigger] es[i]) == Ok::<HExpr, LErr>(v[i]) by {
                if i > 0 {
                    assert(es[i] == es.drop_first()[i - 1]);
                    assert(v[i] == rest[i - 1]);
                }
            }
        } else if spec_lower_expr(ctx, es[0]) is Ok {
            let j = choose|j: int| 0 <= j < es.drop_first().len() && !(#[trigger] spec_lower_expr(ctx, es.drop_first()[j]) is Ok);
            assert(es.drop_first()[j] == es[j + 1]);
        }
    }
}

/// Lowering keeps a unary operator and lowers its operand; parentheses
/// disappear, leaving the lowering of what they enclose.
pub proof fn law_unary_and_parentheses(ctx: LCtx, op: UnOp, x: Expr, span: Span)
    ensures
        spec_lower_expr(ctx, Expr::Unary(op, Box::new(x), span)) == match spec_lower_expr(ctx, x) {
            Ok(h) => Ok(HExpr::Unary(op, Box::new(h), span)),
            Err(e) => Err(e),
        },
        spec_lower_expr(ctx, Expr::Paren(Box::new(x), span)) == spec_lower_expr(ctx, x),
{
}

} // verus!
