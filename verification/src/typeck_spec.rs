//! The typing rules, as functions from checker state and syntax to the next
//! state and the verdict.

use vstd::prelude::*;
use crate::ast::{Decorator, Expr, Stmt};
use crate::lexer::token::{IntegerSuffix, Span};
use crate::ops::BinOp;
use crate::scope_stack::{ScopeV, stack_lookup};
use crate::ty::{TypeV, Type, spec_suffix_to_type, spec_float_suffix_to_type, type_text};
use crate::text::{nat_decimal, int_decimal};

verus! {

/// A type error, by value.
pub enum TErr {
    UndefinedVariable(Seq<char>, Span),
    UndefinedFunction(Seq<char>, Span),
    InvalidDecorator { message: Seq<char>, span: Span },
    NotAStruct { name: Seq<char>, span: Span },
    DuplicateField { field: Seq<char>, span: Span },
    DuplicateDefinition { name: Seq<char>, kind: Seq<char>, span: Span },
    WrongArgCount { expected: nat, actual: nat, span: Span },
    TypeMismatch { expected: TypeV, found: TypeV, span: Span },
    MissingTypeAnnotation { name: Seq<char>, span: Span },
    MissingReturn { span: Span },
    UnexpectedReturnValue { span: Span },
    NoSuchField { name: Seq<char>, field: Seq<char>, span: Span },
    LiteralOutOfRange { value: int, ty: TypeV, span: Span },
    BreakOutsideLoop { span: Span },
    ContinueOutsideLoop { span: Span },
    ReturnOutsideFunction { span: Span },
    NotAFunction { name: Seq<char>, span: Span },
    VoidVariable { name: Seq<char>, span: Span },
    Unassignable { span: Span },
    AssignToReference { span: Span },
    NotABool { context: Seq<char>, span: Span },
    IndexNotInteger { span: Span },
    BinaryTypeMismatch { op: Seq<char>, expected: TypeV, found: TypeV, span: Span },
}

pub type FieldsV = Seq<(Seq<char>, TypeV)>;

/// The checker's state, by value.
pub struct TcState {
    /// Variable and function bindings, innermost scope last.
    pub scopes: Seq<ScopeV<TypeV>>,
    /// Struct field lists in declaration order; a later entry of a name hides an earlier one.
    pub structs: Seq<(Seq<char>, FieldsV)>,
    pub loop_depth: nat,
    pub fn_depth: nat,
    /// Return type of the function being checked.
    pub ret: Option<TypeV>,
    /// Type recorded for each checked expression, keyed by span; later entries win.
    pub expr_types: Seq<(Span, TypeV)>,
}

pub type TcOut<T> = (TcState, Result<T, TErr>);

pub open spec fn struct_lookup(structs: Seq<(Seq<char>, FieldsV)>, name: Seq<char>) -> Option<FieldsV>
    decreases structs.len(),
{
    if structs.len() == 0 {
        None
    } else if structs.last().0 == name {
        Some(structs.last().1)
    } else {
        struct_lookup(structs.drop_last(), name)
    }
}

/// The type of the first field called `f`.
pub open spec fn field_lookup(fields: FieldsV, f: Seq<char>) -> Option<TypeV>
    decreases fields.len(),
{
    if fields.len() == 0 {
        None
    } else if fields[0].0 == f {
        Some(fields[0].1)
    } else {
        field_lookup(fields.drop_first(), f)
    }
}

/// The first name in the list that already occurred earlier in it.
pub open spec fn first_dup_from(names: Seq<Seq<char>>, j: int) -> Option<Seq<char>>
    decreases names.len() - j,
{
    if j < 0 || j >= names.len() {
        None
    } else if names.take(j).contains(names[j]) {
        Some(names[j])
    } else {
        first_dup_from(names, j + 1)
    }
}

pub open spec fn first_dup(names: Seq<Seq<char>>) -> Option<Seq<char>> {
    first_dup_from(names, 0)
}

pub open spec fn expr_field_names(fs: Seq<(String, Expr)>) -> Seq<Seq<char>> {
    Seq::new(fs.len(), |i: int| fs[i].0@)
}

pub open spec fn type_field_names(fs: Seq<(String, Type)>) -> Seq<Seq<char>> {
    Seq::new(fs.len(), |i: int| fs[i].0@)
}

pub open spec fn fields_view(fs: Seq<(String, Type)>) -> FieldsV {
    Seq::new(fs.len(), |i: int| (fs[i].0@, fs[i].1@))
}

pub open spec fn types_view(ts: Seq<Type>) -> Seq<TypeV> {
    Seq::new(ts.len(), |i: int| ts[i]@)
}

/// Whether an integer literal's value lies in the range of `t`.
pub open spec fn int_fits(v: int, t: TypeV) -> bool {
    match t {
        TypeV::I8 => -128 <= v <= 127,
        TypeV::I16 => -32768 <= v <= 32767,
        TypeV::I32 => -2147483648 <= v <= 2147483647,
        TypeV::U8 => 0 <= v <= 255,
        TypeV::U16 => 0 <= v <= 65535,
        TypeV::U32 => 0 <= v <= 4294967295,
        TypeV::U64 => 0 <= v,
        _ => true,
    }
}

/// The type of an integer literal: its suffix, else an integer type hint, else `i32`.
pub open spec fn literal_type(suffix: IntegerSuffix, hint: Option<TypeV>) -> TypeV {
    if suffix == IntegerSuffix::Unsuffixed && hint is Some && hint.unwrap().is_integer() {
        hint.unwrap()
    } else {
        spec_suffix_to_type(suffix)
    }
}

/// Which conversions an explicit cast allows.
pub open spec fn cast_ok(from: TypeV, to: TypeV) -> bool {
    ||| (from.is_integer() || from.is_float()) && (to.is_integer() || to.is_float())
    ||| from is Pointer && to is Pointer
    ||| from == TypeV::String && to is Pointer
    ||| from is Struct && to is Pointer
    ||| from is Pointer && to.is_integer()
    ||| from.is_integer() && to is Pointer
}

pub open spec fn record(st: TcState, span: Span, t: TypeV) -> TcState {
    TcState { expr_types: st.expr_types.push((span, t)), ..st }
}

pub open spec fn lookup(st: TcState, name: Seq<char>) -> Option<TypeV> {
    stack_lookup(st.scopes, name)
}

pub open spec fn define(st: TcState, name: Seq<char>, t: TypeV) -> TcState {
    TcState {
        scopes: st.scopes.update(st.scopes.len() - 1, st.scopes.last().push((name, t))),
        ..st
    }
}

pub open spec fn enter(st: TcState) -> TcState {
    TcState { scopes: st.scopes.push(Seq::empty()), ..st }
}

pub open spec fn exit(st: TcState) -> TcState {
    TcState { scopes: if st.scopes.len() == 0 { st.scopes } else { st.scopes.drop_last() }, ..st }
}

/// Typing of a binary operation whose operands have types `l` and `r`.
pub open spec fn binary_type(op: BinOp, l: TypeV, r: TypeV, span: Span) -> Result<TypeV, TErr> {
    if op == BinOp::Add && l == TypeV::String {
        if l != r {
            Err(TErr::TypeMismatch { expected: l, found: r, span })
        } else {
            Ok(l)
        }
    } else if l is Struct || r is Struct {
        Err(TErr::BinaryTypeMismatch { op: op.spec_symbol(), expected: TypeV::I32, found: l, span })
    } else if op.is_logical() {
        if l != TypeV::Bool {
            Err(TErr::BinaryTypeMismatch { op: op.spec_symbol(), expected: TypeV::Bool, found: l, span })
        } else if r != TypeV::Bool {
            Err(TErr::BinaryTypeMismatch { op: op.spec_symbol(), expected: TypeV::Bool, found: r, span })
        } else {
            Ok(TypeV::Bool)
        }
    } else if op.is_bitwise() {
        if !l.is_integer() {
            Err(TErr::BinaryTypeMismatch { op: op.spec_symbol(), expected: TypeV::I32, found: l, span })
        } else if !r.is_integer() {
            Err(TErr::BinaryTypeMismatch { op: op.spec_symbol(), expected: TypeV::I32, found: r, span })
        } else if !op.is_shift() && l != r {
            Err(TErr::TypeMismatch { expected: l, found: r, span })
        } else {
            Ok(l)
        }
    } else if l != r {
        Err(TErr::TypeMismatch { expected: l, found: r, span })
    } else if op.is_comparison() {
        Ok(TypeV::Bool)
    } else {
        Ok(l)
    }
}

/// The type that field access and indexing see: a reference is looked
/// through to the value it refers to.
pub open spec fn seen_through(t: TypeV) -> TypeV {
    match t {
        TypeV::Pointer(inner) => *inner,
        _ => t,
    }
}

/// Type of `e` (not recorded) in state `st`, with an optional integer-literal hint.
pub open spec fn spec_infer(st: TcState, e: Expr, hint: Option<TypeV>) -> TcOut<TypeV>
    decreases e, 0nat,
{
    match e {
        Expr::Int(v, suffix, span) => {
            let t = literal_type(suffix, hint);
            if int_fits(v as int, t) {
                (st, Ok(t))
            } else {
                (st, Err(TErr::LiteralOutOfRange { value: v as int, ty: t, span }))
            }
        },
        Expr::String(..) => (st, Ok(TypeV::String)),
        Expr::Float(_, suffix, _) => (st, Ok(spec_float_suffix_to_type(suffix))),
        Expr::Bool(..) => (st, Ok(TypeV::Bool)),
        Expr::Ident(name, span) => match lookup(st, name@) {
            Some(t) => (st, Ok(t)),
            None => (st, Err(TErr::UndefinedVariable(name@, span))),
        },
        Expr::Struct(name, fields, span) => {
            match first_dup(expr_field_names(fields@)) {
                Some(f) => (st, Err(TErr::DuplicateField { field: f, span })),
                None => match struct_lookup(st.structs, name@) {
                    None => {
                        let (s1, r) = spec_infer_new_fields(st, fields@);
                        match r {
                            Err(x) => (s1, Err(x)),
                            Ok(fv) => (
                                TcState { structs: s1.structs.push((name@, fv)), ..s1 },
                                Ok(TypeV::Struct(name@)),
                            ),
                        }
                    },
                    Some(def) => {
                        let (s1, r) = spec_check_decl_fields(st, name@, def, fields@, span);
                        match r {
                            Err(x) => (s1, Err(x)),
                            Ok(_) => (s1, Ok(TypeV::Struct(name@))),
                        }
                    },
                },
            }
        },
        Expr::Call(callee, args, span) => {
            if callee@ == "print"@ {
                if args@.len() != 1 {
                    (st, Err(TErr::WrongArgCount { expected: 1, actual: args@.len(), span }))
                } else {
                    let (s1, r) = spec_infer_rec(st, args@[0], None);
                    match r {
                        Err(x) => (s1, Err(x)),
                        Ok(_) => (s1, Ok(TypeV::Void)),
                    }
                }
            } else {
                match lookup(st, callee@) {
                    None => (st, Err(TErr::UndefinedFunction(callee@, span))),
                    Some(TypeV::Fn(params, ret)) => {
                        if args@.len() != params.len() {
                            (st, Err(TErr::WrongArgCount { expected: params.len(), actual: args@.len(), span }))
                        } else {
                            let (s1, r) = spec_check_args(st, args@, params, span);
                            match r {
                                Err(x) => (s1, Err(x)),
                                Ok(_) => (s1, Ok(*ret)),
                            }
                        }
                    },
                    Some(_) => (st, Err(TErr::NotAFunction { name: callee@, span })),
                }
            }
        },
        Expr::FieldAccess(inner, field, span) => {
            let (s1, r) = spec_infer_rec(st, *inner, None);
            match r {
                Err(x) => (s1, Err(x)),
                Ok(t) => match seen_through(t) {
                    TypeV::Struct(name) => match struct_lookup(s1.structs, name) {
                        None => (s1, Err(TErr::NotAStruct { name, span })),
                        Some(fs) => match field_lookup(fs, field@) {
                            Some(ft) => (s1, Ok(ft)),
                            None => (s1, Err(TErr::NoSuchField { name, field: field@, span })),
                        },
                    },
                    _ => (s1, Err(TErr::NotAStruct { name: type_text(t), span })),
                },
            }
        },
        Expr::ArrayIndex(arr, idx, span) => {
            let (s1, ra) = spec_infer_rec(st, *arr, None);
            match ra {
                Err(x) => (s1, Err(x)),
                Ok(at) => {
                    let (s2, ri) = spec_infer_rec(s1, *idx, None);
                    match ri {
                        Err(x) => (s2, Err(x)),
                        Ok(it) => if !it.is_integer() {
                            (s2, Err(TErr::IndexNotInteger { span }))
                        } else {
                            match seen_through(at) {
                                TypeV::Array(elem, _) => (s2, Ok(*elem)),
                                _ => (s2, Err(TErr::NotAStruct { name: type_text(at), span })),
                            }
                        },
                    }
                },
            }
        },
        Expr::ArrayLiteral(ty, elems, span) => {
            if elems@.len() == 0 {
                (st, Err(TErr::TypeMismatch {
                    expected: TypeV::Array(Box::new(TypeV::Void), 0),
                    found: TypeV::Void,
                    span,
                }))
            } else {
                let (s1, r0) = spec_infer_rec(st, elems@[0], None);
                match r0 {
                    Err(x) => (s1, Err(x)),
                    Ok(first) => {
                        let declared = (*ty)@;
                        if declared != TypeV::Void && first != declared {
                            (s1, Err(TErr::TypeMismatch { expected: declared, found: first, span: elems@[0].spec_span() }))
                        } else {
                            let expected = if declared != TypeV::Void { declared } else { first };
                            let (s2, r) = spec_check_elems(s1, elems@.drop_first(), expected);
                            match r {
                                Err(x) => (s2, Err(x)),
                                Ok(_) => (s2, Ok(TypeV::Array(Box::new(expected), elems@.len()))),
                            }
                        }
                    },
                }
            }
        },
        Expr::Unary(_, inner, _) => spec_infer_rec(st, *inner, None),
        Expr::Binary(lhs, op, rhs, span) => {
            let (s1, rl) = spec_infer_rec(st, *lhs, None);
            match rl {
                Err(x) => (s1, Err(x)),
                Ok(l) => {
                    let (s2, rr) = spec_infer_rec(s1, *rhs, None);
                    match rr {
                        Err(x) => (s2, Err(x)),
                        Ok(r) => (s2, binary_type(op, l, r, span)),
                    }
                },
            }
        },
        Expr::Assign(lhs, rhs, span) => {
            if *lhs is AddressOf {
                (st, Err(TErr::AssignToReference { span }))
            } else if !(*lhs).spec_is_place() {
                (st, Err(TErr::Unassignable { span }))
            } else {
                let (s1, rl) = spec_infer_rec(st, *lhs, None);
                match rl {
                    Err(x) => (s1, Err(x)),
                    Ok(l) => {
                        let (s2, rr) = spec_infer_rec(s1, *rhs, None);
                        match rr {
                            Err(x) => (s2, Err(x)),
                            Ok(r) => if l != r {
                                (s2, Err(TErr::TypeMismatch { expected: l, found: r, span }))
                            } else {
                                (s2, Ok(TypeV::Void))
                            },
                        }
                    },
                }
            }
        },
        Expr::Paren(inner, _) => spec_infer_rec(st, *inner, None),
        Expr::AddressOf(inner, span) => {
            let (s1, r) = spec_infer_rec(st, *inner, None);
            match r {
                Err(x) => (s1, Err(x)),
                Ok(t) => if !((*inner).spec_is_place() || *inner is AddressOf) {
                    (s1, Err(TErr::Unassignable { span }))
                } else {
                    (s1, Ok(TypeV::Pointer(Box::new(t))))
                },
            }
        },
        Expr::Dereference(inner, span) => {
            let (s1, r) = spec_infer_rec(st, *inner, None);
            match r {
                Err(x) => (s1, Err(x)),
                Ok(TypeV::Pointer(t)) => (s1, Ok(*t)),
                Ok(t) => (s1, Err(TErr::TypeMismatch {
                    expected: TypeV::Pointer(Box::new(TypeV::Void)),
                    found: t,
                    span,
                })),
            }
        },
        Expr::SizeOf(..) => (st, Ok(TypeV::I64)),
        Expr::Cast(inner, target, span) => {
            let (s1, r) = spec_infer_rec(st, *inner, None);
            match r {
                Err(x) => (s1, Err(x)),
                Ok(t) => if cast_ok(t, target@) {
                    (s1, Ok(target@))
                } else {
                    (s1, Err(TErr::TypeMismatch { expected: target@, found: t, span }))
                },
            }
        },
    }
}

/// Type of `e`, recorded under its span when it has one.
pub open spec fn spec_infer_rec(st: TcState, e: Expr, hint: Option<TypeV>) -> TcOut<TypeV>
    decreases e, 1nat,
{
    let (s1, r) = spec_infer(st, e, hint);
    match r {
        Ok(t) => (record(s1, e.spec_span(), t), Ok(t)),
        Err(x) => (s1, Err(x)),
    }
}

/// Field values of a literal of a struct not declared yet, in order.
pub open spec fn spec_infer_new_fields(st: TcState, fs: Seq<(String, Expr)>) -> TcOut<FieldsV>
    decreases fs, 0nat,
{
    if fs.len() == 0 {
        (st, Ok(Seq::empty()))
    } else {
        let (s1, r) = spec_infer_rec(st, fs[0].1, None);
        match r {
            Err(x) => (s1, Err(x)),
            Ok(t) => {
                let (s2, rest) = spec_infer_new_fields(s1, fs.drop_first());
                match rest {
                    Err(x) => (s2, Err(x)),
                    Ok(tail) => (s2, Ok(seq![(fs[0].0@, t)] + tail)),
                }
            },
        }
    }
}

/// Field values of a literal of a declared struct with fields `def`.
pub open spec fn spec_check_decl_fields(
    st: TcState,
    name: Seq<char>,
    def: FieldsV,
    fs: Seq<(String, Expr)>,
    span: Span,
) -> TcOut<()>
    decreases fs, 0nat,
{
    if fs.len() == 0 {
        (st, Ok(()))
    } else {
        let (s1, r) = spec_infer_rec(st, fs[0].1, None);
        match r {
            Err(x) => (s1, Err(x)),
            Ok(t) => match field_lookup(def, fs[0].0@) {
                Some(expected) => if t != expected && t != TypeV::Pointer(Box::new(expected)) {
                    (s1, Err(TErr::TypeMismatch { expected, found: t, span }))
                } else {
                    spec_check_decl_fields(s1, name, def, fs.drop_first(), span)
                },
                None => (s1, Err(TErr::NoSuchField { name, field: fs[0].0@, span })),
            },
        }
    }
}

/// Arguments of a call against the parameter types.
pub open spec fn spec_check_args(st: TcState, args: Seq<Expr>, params: Seq<TypeV>, span: Span) -> TcOut<()>
    decreases args, 0nat,
{
    if args.len() == 0 || params.len() == 0 {
        (st, Ok(()))
    } else {
        let (s1, r) = spec_infer_rec(st, args[0], None);
        match r {
            Err(x) => (s1, Err(x)),
            Ok(t) => if t != params[0] {
                (s1, Err(TErr::TypeMismatch { expected: params[0], found: t, span }))
            } else {
                spec_check_args(s1, args.drop_first(), params.drop_first(), span)
            },
        }
    }
}

/// Remaining elements of an array literal against the element type.
pub open spec fn spec_check_elems(st: TcState, es: Seq<Expr>, expected: TypeV) -> TcOut<()>
    decreases es, 0nat,
{
    if es.len() == 0 {
        (st, Ok(()))
    } else {
        let (s1, r) = spec_infer_rec(st, es[0], None);
        match r {
            Err(x) => (s1, Err(x)),
            Ok(t) => if t != expected {
                (s1, Err(TErr::TypeMismatch { expected, found: t, span: es[0].spec_span() }))
            } else {
                spec_check_elems(s1, es.drop_first(), expected)
            },
        }
    }
}

/// Whether a statement returns a value on every path through it.
pub open spec fn stmt_returns_value(s: Stmt) -> bool
    decreases s, 0nat,
{
    match s {
        Stmt::Return(Some(_), _) => true,
        Stmt::If(_, then_s, else_s, _) => stmts_return_value(then_s@) && match else_s {
            Some(es) => stmts_return_value(es@),
            None => false,
        },
        Stmt::While(_, body, _) => stmts_return_value(body@),
        Stmt::For(_, _, _, body, _) => stmts_return_value(body@),
        _ => false,
    }
}

/// Whether some statement of the list returns a value on every path.
pub open spec fn stmts_return_value(ss: Seq<Stmt>) -> bool
    decreases ss, 0nat,
{
    if ss.len() == 0 {
        false
    } else {
        stmt_returns_value(ss[0]) || stmts_return_value(ss.drop_first())
    }
}

/// The span of the first `return` with a value inside a statement.
pub open spec fn stmt_value_return_span(s: Stmt) -> Option<Span>
    decreases s, 0nat,
{
    match s {
        Stmt::Return(Some(_), span) => Some(span),
        Stmt::If(_, then_s, else_s, _) => match stmts_value_return_span(then_s@) {
            Some(sp) => Some(sp),
            None => match else_s {
                Some(es) => stmts_value_return_span(es@),
                None => None,
            },
        },
        Stmt::While(_, body, _) => stmts_value_return_span(body@),
        Stmt::For(_, _, _, body, _) => stmts_value_return_span(body@),
        _ => None,
    }
}

pub open spec fn stmts_value_return_span(ss: Seq<Stmt>) -> Option<Span>
    decreases ss, 0nat,
{
    if ss.len() == 0 {
        None
    } else {
        match stmt_value_return_span(ss[0]) {
            Some(sp) => Some(sp),
            None => stmts_value_return_span(ss.drop_first()),
        }
    }
}

pub open spec fn is_route_method(name: Seq<char>) -> bool {
    name == "Get"@ || name == "Post"@ || name == "Put"@ || name == "Delete"@
}

/// The first problem with a list of decorators.
pub open spec fn decorator_error(ds: Seq<Decorator>) -> Option<TErr>
    decreases ds.len(),
{
    if ds.len() == 0 {
        None
    } else if !is_route_method(ds[0].name@) {
        Some(TErr::InvalidDecorator {
            message: "unknown decorator `@"@ + ds[0].name@
                + "`. Expected @Get, @Post, @Put, or @Delete"@,
            span: ds[0].span,
        })
    } else if ds[0].arg is None {
        Some(TErr::InvalidDecorator {
            message: "decorator `@"@ + ds[0].name@
                + "` requires a path argument (e.g. `(\"/path\")`)"@,
            span: ds[0].span,
        })
    } else {
        decorator_error(ds.drop_first())
    }
}

/// Binds the parameters of a function, rejecting `void` ones.
pub open spec fn spec_define_params(st: TcState, ps: Seq<(String, Type)>, span: Span) -> TcOut<()>
    decreases ps.len(),
{
    if ps.len() == 0 {
        (st, Ok(()))
    } else if ps[0].1@ == TypeV::Void {
        (st, Err(TErr::VoidVariable { name: ps[0].0@, span }))
    } else {
        spec_define_params(define(st, ps[0].0@, ps[0].1@), ps.drop_first(), span)
    }
}

pub open spec fn opt_type_view(t: Option<Type>) -> Option<TypeV> {
    match t {
        Some(x) => Some(x@),
        None => None,
    }
}

pub open spec fn ret_type_view(t: Option<Type>) -> TypeV {
    match t {
        Some(x) => x@,
        None => TypeV::Void,
    }
}

pub open spec fn with_loop_depth(st: TcState, d: nat) -> TcState {
    TcState { loop_depth: d, ..st }
}

/// Checks one statement.
pub open spec fn spec_check_stmt(st: TcState, s: Stmt) -> TcOut<()>
    decreases s, 1nat,
{
    match s {
        Stmt::Let(name, annot, init, span) => {
            if annot is Some && annot.unwrap()@ == TypeV::Void {
                (st, Err(TErr::VoidVariable { name: name@, span }))
            } else {
                match init {
                    Some(e) => {
                        let (s1, r) = spec_infer_rec(st, e, opt_type_view(annot));
                        match r {
                            Err(x) => (s1, Err(x)),
                            Ok(t) => if t == TypeV::Void {
                                (s1, Err(TErr::VoidVariable { name: name@, span }))
                            } else if annot is Some && t != annot.unwrap()@ {
                                (s1, Err(TErr::TypeMismatch { expected: annot.unwrap()@, found: t, span }))
                            } else {
                                (define(s1, name@, t), Ok(()))
                            },
                        }
                    },
                    None => match annot {
                        Some(a) => (define(st, name@, a@), Ok(())),
                        None => (st, Err(TErr::MissingTypeAnnotation { name: name@, span })),
                    },
                }
            }
        },
        Stmt::Expr(e) => {
            let (s1, r) = spec_infer_rec(st, e, None);
            match r {
                Err(x) => (s1, Err(x)),
                Ok(_) => (s1, Ok(())),
            }
        },
        Stmt::If(cond, then_s, else_s, _) => {
            let (s1, r) = spec_infer_rec(st, cond, None);
            match r {
                Err(x) => (s1, Err(x)),
                Ok(t) => if t != TypeV::Bool {
                    (s1, Err(TErr::NotABool { context: "`if` condition"@, span: cond.spec_span() }))
                } else {
                    let (s2, r2) = spec_check_stmts(enter(s1), then_s@);
                    match r2 {
                        Err(x) => (s2, Err(x)),
                        Ok(_) => {
                            let s3 = exit(s2);
                            match else_s {
                                None => (s3, Ok(())),
                                Some(es) => {
                                    let (s4, r4) = spec_check_stmts(enter(s3), es@);
                                    match r4 {
                                        Err(x) => (s4, Err(x)),
                                        Ok(_) => (exit(s4), Ok(())),
                                    }
                                },
                            }
                        },
                    }
                },
            }
        },
        Stmt::While(cond, body, _) => {
            let (s1, r) = spec_infer_rec(st, cond, None);
            match r {
                Err(x) => (s1, Err(x)),
                Ok(t) => if t != TypeV::Bool {
                    (s1, Err(TErr::NotABool { context: "`while` condition"@, span: cond.spec_span() }))
                } else {
                    let s2 = enter(with_loop_depth(s1, s1.loop_depth + 1));
                    let (s3, r3) = spec_check_stmts(s2, body@);
                    match r3 {
                        Err(x) => (s3, Err(x)),
                        Ok(_) => {
                            let s4 = exit(s3);
                            (with_loop_depth(s4, (s4.loop_depth - 1) as nat), Ok(()))
                        },
                    }
                },
            }
        },
        Stmt::For(var, lo, hi, body, _) => {
            let (s1, rl) = spec_infer_rec(st, lo, None);
            match rl {
                Err(x) => (s1, Err(x)),
                Ok(l) => {
                    let (s2, rh) = spec_infer_rec(s1, hi, None);
                    match rh {
                        Err(x) => (s2, Err(x)),
                        Ok(h) => if !l.is_integer() {
                            (s2, Err(TErr::BinaryTypeMismatch { op: "for range"@, expected: TypeV::I32, found: l, span: lo.spec_span() }))
                        } else if !h.is_integer() {
                            (s2, Err(TErr::BinaryTypeMismatch { op: "for range"@, expected: TypeV::I32, found: h, span: hi.spec_span() }))
                        } else if l != h {
                            (s2, Err(TErr::TypeMismatch { expected: l, found: h, span: hi.spec_span() }))
                        } else {
                            let s3 = define(enter(with_loop_depth(s2, s2.loop_depth + 1)), var@, l);
                            let (s4, r4) = spec_check_stmts(s3, body@);
                            match r4 {
                                Err(x) => (s4, Err(x)),
                                Ok(_) => {
                                    let s5 = exit(s4);
                                    (with_loop_depth(s5, (s5.loop_depth - 1) as nat), Ok(()))
                                },
                            }
                        },
                    }
                },
            }
        },
        Stmt::Fn(_, params, ret, body, decorators, span) => {
            match decorator_error(decorators@) {
                Some(x) => (st, Err(x)),
                None => {
                    let rt = ret_type_view(ret);
                    let s1 = enter(TcState { fn_depth: st.fn_depth + 1, ret: Some(rt), ..st });
                    let (s2, rp) = spec_define_params(s1, params@, span);
                    match rp {
                        Err(x) => (s2, Err(x)),
                        Ok(_) => {
                            let (s3, rb) = spec_check_stmts(s2, body@);
                            match rb {
                                Err(x) => (s3, Err(x)),
                                Ok(_) => {
                                    let s4x = exit(s3);
                                    let s4 = TcState { ret: st.ret, fn_depth: (s4x.fn_depth - 1) as nat, ..s4x };
                                    if rt != TypeV::Void && !stmts_return_value(body@) {
                                        (s4, Err(TErr::MissingReturn { span }))
                                    } else if rt == TypeV::Void && stmts_value_return_span(body@) is Some {
                                        (s4, Err(TErr::UnexpectedReturnValue { span: stmts_value_return_span(body@).unwrap() }))
                                    } else {
                                        (s4, Ok(()))
                                    }
                                },
                            }
                        },
                    }
                },
            }
        },
        Stmt::ExternFn(..) => (st, Ok(())),
        Stmt::Struct(..) => (st, Ok(())),
        Stmt::Break(span) => if st.loop_depth == 0 {
            (st, Err(TErr::BreakOutsideLoop { span }))
        } else {
            (st, Ok(()))
        },
        Stmt::Continue(span) => if st.loop_depth == 0 {
            (st, Err(TErr::ContinueOutsideLoop { span }))
        } else {
            (st, Ok(()))
        },
        Stmt::Return(value, span) => if st.fn_depth == 0 {
            (st, Err(TErr::ReturnOutsideFunction { span }))
        } else {
            match value {
                None => (st, Ok(())),
                Some(e) => {
                    let (s1, r) = spec_infer_rec(st, e, None);
                    match r {
                        Err(x) => (s1, Err(x)),
                        Ok(t) => match s1.ret {
                            Some(rt) => if rt != TypeV::Void && t != rt {
                                (s1, Err(TErr::TypeMismatch { expected: rt, found: t, span }))
                            } else {
                                (s1, Ok(()))
                            },
                            None => (s1, Ok(())),
                        },
                    }
                },
            }
        },
    }
}

/// Checks statements in order, stopping at the first error.
pub open spec fn spec_check_stmts(st: TcState, ss: Seq<Stmt>) -> TcOut<()>
    decreases ss, 0nat,
{
    if ss.len() == 0 {
        (st, Ok(()))
    } else {
        let (s1, r) = spec_check_stmt(st, ss[0]);
        match r {
            Err(x) => (s1, Err(x)),
            Ok(_) => spec_check_stmts(s1, ss.drop_first()),
        }
    }
}

/// The first problem with the field list of a struct declaration, from field `j` on.
pub open spec fn struct_field_error(fields: Seq<(String, Type)>, j: int, span: Span) -> Option<TErr>
    decreases fields.len() - j,
{
    if j < 0 || j >= fields.len() {
        None
    } else if type_field_names(fields).take(j).contains(fields[j].0@) {
        Some(TErr::DuplicateField { field: fields[j].0@, span })
    } else if fields[j].1@ == TypeV::Void {
        Some(TErr::VoidVariable { name: fields[j].0@, span })
    } else {
        struct_field_error(fields, j + 1, span)
    }
}

pub open spec fn fn_type_view(params: Seq<(String, Type)>, ret: Option<Type>) -> TypeV {
    TypeV::Fn(Seq::new(params.len(), |i: int| params[i].1@), Box::new(ret_type_view(ret)))
}

/// The first pass over a program: functions and structs become known.
pub open spec fn spec_declare(st: TcState, s: Stmt) -> TcOut<()> {
    match s {
        Stmt::Fn(name, params, ret, _, _, span) => match lookup(st, name@) {
            Some(_) => (st, Err(TErr::DuplicateDefinition { name: name@, kind: "function"@, span })),
            None => (define(st, name@, fn_type_view(params@, ret)), Ok(())),
        },
        Stmt::ExternFn(name, params, ret, span) => match lookup(st, name@) {
            Some(_) => (st, Err(TErr::DuplicateDefinition { name: name@, kind: "function"@, span })),
            None => (define(st, name@, fn_type_view(params@, ret)), Ok(())),
        },
        Stmt::Struct(name, fields, span) => match struct_lookup(st.structs, name@) {
            Some(_) => (st, Err(TErr::DuplicateDefinition { name: name@, kind: "struct"@, span })),
            None => match struct_field_error(fields@, 0, span) {
                Some(x) => (st, Err(x)),
                None => (TcState { structs: st.structs.push((name@, fields_view(fields@))), ..st }, Ok(())),
            },
        },
        _ => (st, Ok(())),
    }
}

pub open spec fn spec_declare_all(st: TcState, ss: Seq<Stmt>) -> TcOut<()>
    decreases ss.len(),
{
    if ss.len() == 0 {
        (st, Ok(()))
    } else {
        let (s1, r) = spec_declare(st, ss[0]);
        match r {
            Err(x) => (s1, Err(x)),
            Ok(_) => spec_declare_all(s1, ss.drop_first()),
        }
    }
}

/// Checks a whole program: declarations first, then every statement.
pub open spec fn spec_check_program(st: TcState, ss: Seq<Stmt>) -> TcOut<()> {
    let (s1, r) = spec_declare_all(st, ss);
    match r {
        Err(x) => (s1, Err(x)),
        Ok(_) => spec_check_stmts(s1, ss),
    }
}

/// The position prefix of every type error message.
pub open spec fn error_prefix(span: Span) -> Seq<char> {
    "type error at "@ + nat_decimal(span.line as nat) + ":"@ + nat_decimal(span.col as nat) + ": "@
}

/// The message a type error is reported with.
pub open spec fn terr_text(e: TErr) -> Seq<char> {
    match e {
        TErr::UndefinedVariable(n, s) => error_prefix(s) + "undefined variable `"@ + n + "`"@,
        TErr::UndefinedFunction(n, s) => error_prefix(s) + "undefined function `"@ + n + "`"@,
        TErr::InvalidDecorator { message, span } => error_prefix(span) + message,
        TErr::NotAStruct { name, span } => error_prefix(span) + "`"@ + name + "` is not a struct"@,
        TErr::DuplicateField { field, span } => error_prefix(span) + "duplicate field `"@ + field + "`"@,
        TErr::DuplicateDefinition { name, kind, span } =>
            error_prefix(span) + "duplicate "@ + kind + " `"@ + name + "`"@,
        TErr::WrongArgCount { expected, actual, span } =>
            error_prefix(span) + "expected "@ + nat_decimal(expected) + " arguments, found "@ + nat_decimal(actual),
        TErr::TypeMismatch { expected, found, span } =>
            error_prefix(span) + "expected `"@ + type_text(expected) + "`, found `"@ + type_text(found) + "`"@,
        TErr::MissingTypeAnnotation { name, span } =>
            error_prefix(span) + "type annotation required for `"@ + name + "`"@,
        TErr::MissingReturn { span } =>
            error_prefix(span) + "missing return statement in function with return type"@,
        TErr::UnexpectedReturnValue { span } =>
            error_prefix(span) + "unexpected return value in void function"@,
        TErr::NoSuchField { name, field, span } =>
            error_prefix(span) + "no field `"@ + field + "` on struct `"@ + name + "`"@,
        TErr::LiteralOutOfRange { value, ty, span } =>
            error_prefix(span) + "literal `"@ + int_decimal(value) + "` does not fit in type `"@ + type_text(ty) + "`"@,
        TErr::BreakOutsideLoop { span } => error_prefix(span) + "break outside loop"@,
        TErr::ContinueOutsideLoop { span } => error_prefix(span) + "continue outside loop"@,
        TErr::ReturnOutsideFunction { span } => error_prefix(span) + "return outside function"@,
        TErr::NotAFunction { name, span } => error_prefix(span) + "`"@ + name + "` is not a function"@,
        TErr::VoidVariable { name, span } =>
            error_prefix(span) + "variable `"@ + name + "` cannot have type `void`"@,
        TErr::Unassignable { span } => error_prefix(span) + "expression is not assignable"@,
        TErr::AssignToReference { span } => error_prefix(span) + "cannot assign to a reference"@,
        TErr::NotABool { context, span } =>
            error_prefix(span) + context + " requires `bool`, found non-bool expression"@,
        TErr::IndexNotInteger { span } => error_prefix(span) + "array index must be an integer"@,
        TErr::BinaryTypeMismatch { op, expected, found, span } =>
            error_prefix(span) + "operator `"@ + op + "` requires operands of type `"@ + type_text(expected)
                + "`, found `"@ + type_text(found) + "`"@,
    }
}

/// A binary operation that type-checks yields `bool` for comparisons and
/// logical operators, and the left operand's type otherwise; logical
/// operators accept only `bool` operands and arithmetic and comparison
/// operators only operands of one type.
pub proof fn law_binary_result_type(op: BinOp, l: TypeV, r: TypeV, span: Span)
    requires
        binary_type(op, l, r, span) is Ok,
    ensures
        ({
            let t = binary_type(op, l, r, span)->Ok_0;
            &&& (op.is_comparison() || op.is_logical()) ==> t == TypeV::Bool
            &&& !(op.is_comparison() || op.is_logical()) ==> t == l
            &&& op.is_logical() ==> l == TypeV::Bool && r == TypeV::Bool
            &&& !op.is_logical() && !op.is_shift() ==> l == r
            &&& op.is_bitwise() ==> l.is_integer() && r.is_integer()
        }),
{
}

/// A shift of one integer by another type-checks to the type of the value
/// shifted, whatever integer type the amount has.
pub proof fn law_shift_takes_left_type(op: BinOp, l: TypeV, r: TypeV, span: Span)
    requires
        op.is_shift(),
        l.is_integer(),
        r.is_integer(),
    ensures
        binary_type(op, l, r, span) == Ok::<TypeV, TErr>(l),
{
}

/// The same, for a whole shift expression: when the value shifted and the
/// amount both type-check as integers, the expression has the type of the
/// value shifted.
pub proof fn law_shift_expression_type(st: TcState, lhs: Expr, op: BinOp, rhs: Expr, span: Span)
    requires
        op.is_shift(),
    ensures
        ({
            let (s1, rl) = spec_infer_rec(st, lhs, None);
            let rr = spec_infer_rec(s1, rhs, None).1;
            (rl is Ok && rl->Ok_0.is_integer() && rr is Ok && rr->Ok_0.is_integer())
                ==> spec_infer(st, Expr::Binary(Box::new(lhs), op, Box::new(rhs), span), None).1 == rl
        }),
{
}

/// Integer operands of one type are accepted by every operator but the
/// logical ones: comparisons give `bool`, the others that integer type.
pub proof fn law_integer_operands_of_one_type(op: BinOp, t: TypeV, span: Span)
    requires
        t.is_integer(),
        !op.is_logical(),
    ensures
        binary_type(op, t, t, span) == Ok::<TypeV, TErr>(if op.is_comparison() { TypeV::Bool } else { t }),
{
}

/// An integer literal that type-checks fits in the range of its type.
pub proof fn law_literal_fits(st: TcState, v: i64, suffix: IntegerSuffix, span: Span, hint: Option<TypeV>)
    requires
        spec_infer(st, Expr::Int(v, suffix, span), hint).1 is Ok,
    ensures
        int_fits(v as int, spec_infer(st, Expr::Int(v, suffix, span), hint).1->Ok_0),
{
}

} // verus!
