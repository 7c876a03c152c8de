//! The type checker.

use vstd::prelude::*;
use crate::ast::{Decorator, Expr, Stmt};
use crate::lexer::token::{IntegerSuffix, Span};
use crate::ops::BinOp;
use crate::scope_stack::{ScopeStack, ScopeV, scope_lookup, stack_lookup};
use crate::ty::{Type, TypeV, fn_params, suffix_to_type, float_suffix_to_type, render_type, type_text};
use crate::typeck_spec::{seen_through, 
    TErr, TcState, FieldsV, struct_lookup, field_lookup, first_dup, first_dup_from, expr_field_names,
    type_field_names, fields_view, types_view, int_fits, literal_type, cast_ok, record, lookup, define,
    enter, exit, binary_type, spec_infer, spec_infer_rec, spec_infer_new_fields, spec_check_decl_fields,
    spec_check_args, spec_check_elems, stmt_returns_value, stmts_return_value, stmt_value_return_span,
    stmts_value_return_span, is_route_method, decorator_error, spec_define_params, opt_type_view,
    ret_type_view, with_loop_depth, spec_check_stmt, spec_check_stmts, struct_field_error, fn_type_view,
    spec_declare, spec_declare_all, spec_check_program, error_prefix, terr_text,
};
use crate::text::{push_str, push_u64, push_i64};
use crate::ty::push_type;

verus! {

#[derive(Debug)]
pub enum TypeckError {
    UndefinedVariable(String, Span),
    UndefinedFunction(String, Span),
    InvalidDecorator { message: String, span: Span },
    NotAStruct { name: String, span: Span },
    DuplicateField { field: String, span: Span },
    DuplicateDefinition { name: String, kind: String, span: Span },
    WrongArgCount { expected: usize, actual: usize, span: Span },
    TypeMismatch { expected: Type, found: Type, span: Span },
    MissingTypeAnnotation { name: String, span: Span },
    MissingReturn { span: Span },
    UnexpectedReturnValue { span: Span },
    NoSuchField { name: String, field: String, span: Span },
    LiteralOutOfRange { value: i64, ty: Type, span: Span },
    BreakOutsideLoop { span: Span },
    ContinueOutsideLoop { span: Span },
    ReturnOutsideFunction { span: Span },
    NotAFunction { name: String, span: Span },
    VoidVariable { name: String, span: Span },
    Unassignable { span: Span },
    AssignToReference { span: Span },
    NotABool { context: String, span: Span },
    IndexNotInteger { span: Span },
    BinaryTypeMismatch { op: String, expected: Type, found: Type, span: Span },
}

impl View for TypeckError {
    type V = TErr;

    open spec fn view(&self) -> TErr {
        match self {
            TypeckError::UndefinedVariable(n, s) => TErr::UndefinedVariable(n@, *s),
            TypeckError::UndefinedFunction(n, s) => TErr::UndefinedFunction(n@, *s),
            TypeckError::InvalidDecorator { message, span } => TErr::InvalidDecorator { message: message@, span: *span },
            TypeckError::NotAStruct { name, span } => TErr::NotAStruct { name: name@, span: *span },
            TypeckError::DuplicateField { field, span } => TErr::DuplicateField { field: field@, span: *span },
            TypeckError::DuplicateDefinition { name, kind, span } => TErr::DuplicateDefinition { name: name@, kind: kind@, span: *span },
            TypeckError::WrongArgCount { expected, actual, span } => TErr::WrongArgCount { expected: *expected as nat, actual: *actual as nat, span: *span },
            TypeckError::TypeMismatch { expected, found, span } => TErr::TypeMismatch { expected: expected@, found: found@, span: *span },
            TypeckError::MissingTypeAnnotation { name, span } => TErr::MissingTypeAnnotation { name: name@, span: *span },
            TypeckError::MissingReturn { span } => TErr::MissingReturn { span: *span },
            TypeckError::UnexpectedReturnValue { span } => TErr::UnexpectedReturnValue { span: *span },
            TypeckError::NoSuchField { name, field, span } => TErr::NoSuchField { name: name@, field: field@, span: *span },
            TypeckError::LiteralOutOfRange { value, ty, span } => TErr::LiteralOutOfRange { value: *value as int, ty: ty@, span: *span },
            TypeckError::BreakOutsideLoop { span } => TErr::BreakOutsideLoop { span: *span },
            TypeckError::ContinueOutsideLoop { span } => TErr::ContinueOutsideLoop { span: *span },
            TypeckError::ReturnOutsideFunction { span } => TErr::ReturnOutsideFunction { span: *span },
            TypeckError::NotAFunction { name, span } => TErr::NotAFunction { name: name@, span: *span },
            TypeckError::VoidVariable { name, span } => TErr::VoidVariable { name: name@, span: *span },
            TypeckError::Unassignable { span } => TErr::Unassignable { span: *span },
            TypeckError::AssignToReference { span } => TErr::AssignToReference { span: *span },
            TypeckError::NotABool { context, span } => TErr::NotABool { context: context@, span: *span },
            TypeckError::IndexNotInteger { span } => TErr::IndexNotInteger { span: *span },
            TypeckError::BinaryTypeMismatch { op, expected, found, span } => TErr::BinaryTypeMismatch { op: op@, expected: expected@, found: found@, span: *span },
        }
    }
}

pub open spec fn result_view<T: View>(r: Result<T, TypeckError>) -> Result<T::V, TErr> {
    match r {
        Ok(t) => Ok(t@),
        Err(e) => Err(e@),
    }
}

pub open spec fn unit_result_view(r: Result<(), TypeckError>) -> Result<(), TErr> {
    match r {
        Ok(_) => Ok(()),
        Err(e) => Err(e@),
    }
}

pub open spec fn hint_view(h: Option<&Type>) -> Option<TypeV> {
    match h {
        Some(t) => Some(t@),
        None => None,
    }
}

pub open spec fn scope_tv(s: ScopeV<Type>) -> ScopeV<TypeV> {
    Seq::new(s.len(), |j: int| (s[j].0, s[j].1@))
}

pub open spec fn scopes_tv(s: Seq<ScopeV<Type>>) -> Seq<ScopeV<TypeV>> {
    Seq::new(s.len(), |i: int| scope_tv(s[i]))
}

pub open spec fn opt_ty(o: Option<Type>) -> Option<TypeV> {
    match o {
        Some(t) => Some(t@),
        None => None,
    }
}

proof fn lemma_scope_tv_lookup(s: ScopeV<Type>, n: Seq<char>)
    ensures
        scope_lookup(scope_tv(s), n) == opt_ty(scope_lookup(s, n)),
    decreases s.len(),
{
    if s.len() > 0 {
        assert(scope_tv(s).drop_last() =~= scope_tv(s.drop_last()));
        lemma_scope_tv_lookup(s.drop_last(), n);
    }
}

proof fn lemma_scopes_tv_lookup(s: Seq<ScopeV<Type>>, n: Seq<char>)
    ensures
        stack_lookup(scopes_tv(s), n) == opt_ty(stack_lookup(s, n)),
    decreases s.len(),
{
    if s.len() > 0 {
        assert(scopes_tv(s).drop_last() =~= scopes_tv(s.drop_last()));
        lemma_scope_tv_lookup(s.last(), n);
        lemma_scopes_tv_lookup(s.drop_last(), n);
    }
}

/// Pre-computed type information produced by the checker and consumed by the lowering.
#[derive(Debug)]
pub struct TypeContext {
    /// Field names with their types for each struct, in declaration order.
    pub struct_types: Vec<(String, Vec<(String, Type)>)>,
    /// Inferred type of each expression, keyed by its span; later entries win.
    pub expr_types: Vec<(Span, Type)>,
}

pub open spec fn structs_view(sf: Seq<(String, Vec<(String, Type)>)>) -> Seq<(Seq<char>, FieldsV)> {
    Seq::new(sf.len(), |i: int| (sf[i].0@, fields_view(sf[i].1@)))
}

pub open spec fn expr_types_view(et: Seq<(Span, Type)>) -> Seq<(Span, TypeV)> {
    Seq::new(et.len(), |i: int| (et[i].0, et[i].1@))
}

pub struct TypeChecker {
    scopes: ScopeStack<Type>,
    struct_fields: Vec<(String, Vec<(String, Type)>)>,
    loop_depth: usize,
    fn_depth: usize,
    fn_ret_ty: Option<Type>,
    expr_types: Vec<(Span, Type)>,
}

impl View for TypeChecker {
    type V = TcState;

    closed spec fn view(&self) -> TcState {
        TcState {
            scopes: scopes_tv(self.scopes@),
            structs: structs_view(self.struct_fields@),
            loop_depth: self.loop_depth as nat,
            fn_depth: self.fn_depth as nat,
            ret: opt_ty(self.fn_ret_ty),
            expr_types: expr_types_view(self.expr_types@),
        }
    }
}

/// Nesting depth of blocks inside a statement.
pub open spec fn stmt_nesting(s: Stmt) -> nat
    decreases s, 1nat,
{
    match s {
        Stmt::If(_, t, e, _) => 1 + if let Some(es) = e {
            if stmts_nesting(t@) >= stmts_nesting(es@) { stmts_nesting(t@) } else { stmts_nesting(es@) }
        } else {
            stmts_nesting(t@)
        },
        Stmt::While(_, b, _) => 1 + stmts_nesting(b@),
        Stmt::For(_, _, _, b, _) => 1 + stmts_nesting(b@),
        Stmt::Fn(_, _, _, b, _, _) => 1 + stmts_nesting(b@),
        _ => 0,
    }
}

pub open spec fn stmts_nesting(ss: Seq<Stmt>) -> nat
    decreases ss, 0nat,
{
    if ss.len() == 0 {
        0
    } else {
        let a = stmt_nesting(ss[0]);
        let b = stmts_nesting(ss.drop_first());
        if a >= b { a } else { b }
    }
}

/// How deeply a statement nests blocks, where that count fits in `usize`.
pub fn stmt_nesting_depth(s: &Stmt) -> (r: Option<usize>)
    ensures
        match r {
            Some(n) => n == stmt_nesting(*s),
            None => stmt_nesting(*s) > usize::MAX,
        },
    decreases s, 1nat, 0nat,
{
    match s {
        Stmt::If(_, t, e, _) => {
            assert(decreases_to!(*s => t@)) by { assert(decreases_to!(*s => *t)); }
            assert(t@.skip(0) =~= t@);
            let a = nesting_from(t, 0)?;
            let m = match e {
                Some(es) => {
                    assert(decreases_to!(*s => es@)) by {
                        assert(decreases_to!(*s => *e));
                        assert(decreases_to!(*e => *es));
                    }
                    assert(es@.skip(0) =~= es@);
                    let b = nesting_from(es, 0)?;
                    if a >= b { a } else { b }
                },
                None => a,
            };
            m.checked_add(1)
        },
        Stmt::While(_, b, _) => {
            assert(decreases_to!(*s => b@)) by { assert(decreases_to!(*s => *b)); }
            assert(b@.skip(0) =~= b@);
            let n = nesting_from(b, 0)?;
            n.checked_add(1)
        },
        Stmt::For(_, _, _, b, _) => {
            assert(decreases_to!(*s => b@)) by { assert(decreases_to!(*s => *b)); }
            assert(b@.skip(0) =~= b@);
            let n = nesting_from(b, 0)?;
            n.checked_add(1)
        },
        Stmt::Fn(_, _, _, b, _, _) => {
            assert(decreases_to!(*s => b@)) by { assert(decreases_to!(*s => *b)); }
            assert(b@.skip(0) =~= b@);
            let n = nesting_from(b, 0)?;
            n.checked_add(1)
        },
        _ => Some(0),
    }
}

fn nesting_from(ss: &Vec<Stmt>, i: usize) -> (r: Option<usize>)
    requires
        i <= ss@.len(),
    ensures
        match r {
            Some(n) => n == stmts_nesting(ss@.skip(i as int)),
            None => stmts_nesting(ss@.skip(i as int)) > usize::MAX,
        },
    decreases ss@, 0nat, ss@.len() - i,
{
    if i >= ss.len() {
        return Some(0);
    }
    assert(ss@.skip(i as int)[0] == ss@[i as int]);
    assert(ss@.skip(i as int).drop_first() =~= ss@.skip(i + 1));
    assert(decreases_to!(ss@ => ss@[i as int]));
    let a = stmt_nesting_depth(&ss[i])?;
    let b = nesting_from(ss, i + 1)?;
    Some(if a >= b { a } else { b })
}

/// How deeply a list of statements nests blocks, where that count fits in
/// `usize`. A program may be checked when it is below `usize::MAX`.
pub fn nesting_depth(ss: &Vec<Stmt>) -> (r: Option<usize>)
    ensures
        match r {
            Some(n) => n == stmts_nesting(ss@),
            None => stmts_nesting(ss@) > usize::MAX,
        },
{
    assert(ss@.skip(0) =~= ss@);
    nesting_from(ss, 0)
}

impl TypeChecker {
    /// The checker's invariant: at least one scope is open.
    pub closed spec fn wf(&self) -> bool {
        self.scopes@.len() >= 1
    }

    pub fn new() -> (tc: Self)
        ensures
            tc.wf(),
            tc@.scopes == seq![Seq::<(Seq<char>, TypeV)>::empty()],
            tc@.structs == Seq::<(Seq<char>, FieldsV)>::empty(),
            tc@.loop_depth == 0,
            tc@.fn_depth == 0,
            tc@.ret is None,
            tc@.expr_types == Seq::<(Span, TypeV)>::empty(),
    {
        let tc = Self {
            scopes: ScopeStack::new(),
            struct_fields: Vec::new(),
            loop_depth: 0,
            fn_depth: 0,
            fn_ret_ty: None,
            expr_types: Vec::new(),
        };
        assert(tc@.scopes =~= seq![Seq::<(Seq<char>, TypeV)>::empty()]) by {
            assert(scope_tv(tc.scopes@[0]) =~= Seq::<(Seq<char>, TypeV)>::empty());
        }
        assert(tc@.structs =~= Seq::<(Seq<char>, FieldsV)>::empty());
        assert(tc@.expr_types =~= Seq::<(Span, TypeV)>::empty());
        tc
    }

    /// Consumes the checker and hands over what it learned.
    pub fn into_context(self) -> (ctx: TypeContext)
        ensures
            structs_view(ctx.struct_types@) == self@.structs,
            expr_types_view(ctx.expr_types@) == self@.expr_types,
    {
        TypeContext { struct_types: self.struct_fields, expr_types: self.expr_types }
    }

    fn enter_scope(&mut self)
        requires
            old(self).wf(),
        ensures
            final(self).wf(),
            final(self)@ == enter(old(self)@),
    {
        self.scopes.enter();
        assert(self@.scopes =~= old(self)@.scopes.push(Seq::empty())) by {
            assert(scope_tv(self.scopes@.last()) =~= Seq::<(Seq<char>, TypeV)>::empty());
            assert forall|i: int| 0 <= i < old(self)@.scopes.len() implies self@.scopes[i] == old(self)@.scopes[i] by {
                assert(self.scopes@[i] == old(self).scopes@[i]);
            }
        }
    }

    fn exit_scope(&mut self)
        requires
            old(self)@.scopes.len() >= 2,
            old(self).wf(),
        ensures
            final(self).wf(),
            final(self)@ == exit(old(self)@),
    {
        self.scopes.exit();
        assert(self@.scopes =~= old(self)@.scopes.drop_last());
    }

    fn lookup(&self, name: &String) -> (r: Option<Type>)
        ensures
            opt_ty(r) == lookup(self@, name@),
    {
        proof {
            lemma_scopes_tv_lookup(self.scopes@, name@);
        }
        match self.scopes.get(name.as_str()) {
            Some(t) => Some(t.deep_copy()),
            None => None,
        }
    }

    fn define(&mut self, name: String, ty: Type)
        requires
            old(self).wf(),
        ensures
            final(self).wf(),
            final(self)@ == define(old(self)@, name@, ty@),
    {
        let ghost nv = name@;
        let ghost tv = ty@;
        self.scopes.define(name, ty);
        assert(self@.scopes =~= define(old(self)@, nv, tv).scopes) by {
            let o = old(self).scopes@;
            assert(scope_tv(self.scopes@.last()) =~= scope_tv(o.last()).push((nv, tv)));
            assert forall|i: int| 0 <= i < o.len() - 1 implies self@.scopes[i] == old(self)@.scopes[i] by {
                assert(self.scopes@[i] == o[i]);
            }
        }
    }

    fn record(&mut self, span: Span, ty: &Type)
        ensures
            final(self)@ == record(old(self)@, span, ty@),
            final(self).wf() == old(self).wf(),
    {
        self.expr_types.push((span, ty.deep_copy()));
        assert(self@.expr_types =~= old(self)@.expr_types.push((span, ty@)));
    }

    /// Index of the struct entry that `struct_lookup` finds.
    fn find_struct(&self, name: &String) -> (r: Option<usize>)
        ensures
            match r {
                Some(i) => i < self.struct_fields@.len() && struct_lookup(self@.structs, name@)
                    == Some(fields_view(self.struct_fields@[i as int].1@)),
                None => struct_lookup(self@.structs, name@) is None,
            },
    {
        let mut i = self.struct_fields.len();
        let ghost sv = self@.structs;
        assert(sv.take(i as int) =~= sv);
        while i > 0
            invariant
                i <= self.struct_fields@.len(),
                sv == self@.structs,
                struct_lookup(sv, name@) == struct_lookup(sv.take(i as int), name@),
            decreases i,
        {
            if self.struct_fields[i - 1].0 == *name {
                assert(sv.take(i as int).last() == sv[i - 1]);
                return Some(i - 1);
            }
            assert(sv.take(i as int).drop_last() =~= sv.take(i - 1));
            i -= 1;
        }
        None
    }
}

/// Position of the first field called `name`.
pub open spec fn field_pos(fs: FieldsV, name: Seq<char>) -> Option<nat>
    decreases fs.len(),
{
    if fs.len() == 0 {
        None
    } else if fs[0].0 == name {
        Some(0)
    } else {
        match field_pos(fs.drop_first(), name) {
            Some(i) => Some(i + 1),
            None => None,
        }
    }
}

pub proof fn lemma_field_pos(fs: FieldsV, name: Seq<char>)
    ensures
        match field_pos(fs, name) {
            Some(i) => i < fs.len() && fs[i as int].0 == name && field_lookup(fs, name) == Some(fs[i as int].1)
                && forall|j: int| 0 <= j < i ==> fs[j].0 != name,
            None => field_lookup(fs, name) is None && forall|j: int| 0 <= j < fs.len() ==> fs[j].0 != name,
        },
    decreases fs.len(),
{
    if fs.len() > 0 {
        lemma_field_pos(fs.drop_first(), name);
        if fs[0].0 != name {
            match field_pos(fs.drop_first(), name) {
                Some(i) => {
                    assert forall|j: int| 0 <= j < i + 1 implies fs[j].0 != name by {
                        if j > 0 {
                            assert(fs[j] == fs.drop_first()[j - 1]);
                        }
                    }
                },
                None => {
                    assert forall|j: int| 0 <= j < fs.len() implies fs[j].0 != name by {
                        if j > 0 {
                            assert(fs[j] == fs.drop_first()[j - 1]);
                        }
                    }
                },
            }
        }
    }
}

/// Position of the first field called `name` in a field list.
pub fn find_field(fs: &Vec<(String, Type)>, name: &String) -> (r: Option<usize>)
    ensures
        match r {
            Some(i) => field_pos(fields_view(fs@), name@) == Some(i as nat),
            None => field_pos(fields_view(fs@), name@) is None,
        },
{
    let ghost fv = fields_view(fs@);
    proof { lemma_field_pos(fv, name@); }
    let mut i: usize = 0;
    while i < fs.len()
        invariant
            i <= fs@.len(),
            fv == fields_view(fs@),
            forall|j: int| 0 <= j < i ==> fv[j].0 != name@,
            match field_pos(fv, name@) {
                Some(k) => k < fv.len() && fv[k as int].0 == name@ && forall|j: int| 0 <= j < k ==> fv[j].0 != name@,
                None => forall|j: int| 0 <= j < fv.len() ==> fv[j].0 != name@,
            },
        decreases fs@.len() - i,
    {
        if fs[i].0 == *name {
            assert(fv[i as int].0 == name@);
            return Some(i);
        }
        i += 1;
    }
    None
}


/// The names of the fields of a struct literal.
pub fn first_dup_expr_field(fs: &Vec<(String, Expr)>) -> (r: Option<usize>)
    ensures
        match r {
            Some(j) => j < fs@.len() && first_dup(expr_field_names(fs@)) == Some(fs@[j as int].0@),
            None => first_dup(expr_field_names(fs@)) is None,
        },
{
    let ghost names = expr_field_names(fs@);
    let mut j: usize = 0;
    while j < fs.len()
        invariant
            j <= fs@.len(),
            names == expr_field_names(fs@),
            first_dup_from(names, 0) == first_dup_from(names, j as int),
        decreases fs@.len() - j,
    {
        let mut k: usize = 0;
        let mut found = false;
        while k < j
            invariant
                k <= j < fs@.len(),
                names == expr_field_names(fs@),
                found == names.take(k as int).contains(names[j as int]),
            decreases j - k,
        {
            if fs[k].0 == fs[j].0 {
                assert(names.take(k + 1).contains(names[j as int])) by {
                    assert(names.take(k + 1)[k as int] == names[j as int]);
                }
                found = true;
            } else {
                assert(names.take(k + 1).contains(names[j as int]) == names.take(k as int).contains(names[j as int])) by {
                    assert(names.take(k + 1) =~= names.take(k as int).push(names[k as int]));
                }
            }
            k += 1;
        }
        if found {
            return Some(j);
        }
        j += 1;
    }
    None
}

/// The first problem with the fields of a struct declaration.
pub fn check_struct_fields(fields: &Vec<(String, Type)>, span: Span) -> (r: Option<TypeckError>)
    ensures
        match r {
            Some(x) => struct_field_error(fields@, 0, span) == Some(x@),
            None => struct_field_error(fields@, 0, span) is None,
        },
{
    let ghost names = type_field_names(fields@);
    let mut j: usize = 0;
    while j < fields.len()
        invariant
            j <= fields@.len(),
            names == type_field_names(fields@),
            struct_field_error(fields@, 0, span) == struct_field_error(fields@, j as int, span),
        decreases fields@.len() - j,
    {
        let mut k: usize = 0;
        let mut found = false;
        while k < j
            invariant
                k <= j < fields@.len(),
                names == type_field_names(fields@),
                found == names.take(k as int).contains(names[j as int]),
            decreases j - k,
        {
            if fields[k].0 == fields[j].0 {
                assert(names.take(k + 1)[k as int] == names[j as int]);
                found = true;
            } else {
                assert(names.take(k + 1) =~= names.take(k as int).push(names[k as int]));
            }
            k += 1;
        }
        if found {
            return Some(TypeckError::DuplicateField { field: fields[j].0.clone(), span });
        }
        if fields[j].1.is_void() {
            return Some(TypeckError::VoidVariable { name: fields[j].0.clone(), span });
        }
        j += 1;
    }
    None
}

pub open spec fn keeps_frame(a: TcState, b: TcState) -> bool {
    &&& b.scopes == a.scopes
    &&& b.loop_depth == a.loop_depth
    &&& b.fn_depth == a.fn_depth
    &&& b.ret == a.ret
}

impl TypeChecker {
    /// Type of `e`, recorded under its span on success.
    pub fn infer_rec(&mut self, e: &Expr, hint: Option<&Type>) -> (r: Result<Type, TypeckError>)
        requires
            old(self).wf(),
        ensures
            final(self).wf(),
            keeps_frame(old(self)@, final(self)@),
            final(self)@ == spec_infer_rec(old(self)@, *e, hint_view(hint)).0,
            result_view(r) == spec_infer_rec(old(self)@, *e, hint_view(hint)).1,
        decreases e, 2nat, 0nat,
    {
        let r = self.infer_impl(e, hint);
        match r {
            Ok(t) => {
                self.record(e.span(), &t);
                Ok(t)
            },
            Err(x) => Err(x),
        }
    }

    /// Type of `e`, not recorded.
    fn infer_impl(&mut self, e: &Expr, hint: Option<&Type>) -> (r: Result<Type, TypeckError>)
        requires
            old(self).wf(),
        ensures
            final(self).wf(),
            keeps_frame(old(self)@, final(self)@),
            final(self)@ == spec_infer(old(self)@, *e, hint_view(hint)).0,
            result_view(r) == spec_infer(old(self)@, *e, hint_view(hint)).1,
        decreases e, 1nat, 0nat,
    {
        match e {
            Expr::Int(v, suffix, span) => {
                let ty = match (suffix, hint) {
                    (IntegerSuffix::Unsuffixed, Some(h)) => if h.is_integer() { h.deep_copy() } else { suffix_to_type(suffix) },
                    _ => suffix_to_type(suffix),
                };
                let v = *v;
                let fits = match &ty {
                    Type::I8 => v >= -128 && v <= 127,
                    Type::I16 => v >= -32768 && v <= 32767,
                    Type::I32 => v >= -2147483648 && v <= 2147483647,
                    Type::I64 => true,
                    Type::U8 => v >= 0 && v <= 255,
                    Type::U16 => v >= 0 && v <= 65535,
                    Type::U32 => v >= 0 && v <= 4294967295,
                    Type::U64 => v >= 0,
                    _ => true,
                };
                if !fits {
                    return Err(TypeckError::LiteralOutOfRange { value: v, ty, span: *span });
                }
                Ok(ty)
            },
            Expr::String(..) => Ok(Type::String),
            Expr::Float(_, suffix, _) => Ok(float_suffix_to_type(suffix)),
            Expr::Bool(..) => Ok(Type::Bool),
            Expr::Ident(name, span) => match self.lookup(name) {
                Some(t) => Ok(t),
                None => Err(TypeckError::UndefinedVariable(name.clone(), *span)),
            },
            Expr::Struct(..) => self.infer_struct_literal(e),
            Expr::Call(..) => self.infer_call(e),
            Expr::FieldAccess(..) => self.infer_field_access(e),
            Expr::ArrayIndex(..) => self.infer_array_index(e),
            Expr::ArrayLiteral(..) => self.infer_array_literal(e),
            Expr::Unary(_, inner, _) => self.infer_rec(inner, None),
            Expr::Binary(..) => self.infer_binary(e),
            Expr::Assign(..) => self.infer_assign(e),
            Expr::Paren(inner, _) => self.infer_rec(inner, None),
            Expr::AddressOf(..) | Expr::Dereference(..) | Expr::Cast(..) => self.infer_pointer_ops(e),
            Expr::SizeOf(..) => Ok(Type::I64),
        }
    }

    fn infer_struct_literal(&mut self, e: &Expr) -> (r: Result<Type, TypeckError>)
        requires
            old(self).wf(),
            e is Struct,
        ensures
            final(self).wf(),
            keeps_frame(old(self)@, final(self)@),
            final(self)@ == spec_infer(old(self)@, *e, None).0,
            result_view(r) == spec_infer(old(self)@, *e, None).1,
        decreases e, 0nat, 0nat,
    {
        let Expr::Struct(name, fields, span) = e else { return Ok(Type::Void) };
        if let Some(j) = first_dup_expr_field(fields) {
            return Err(TypeckError::DuplicateField { field: fields[j].0.clone(), span: *span });
        }
        assert(decreases_to!(*e => fields@)) by {
            assert(decreases_to!(*e => *fields));
        }
        assert(fields@.skip(0) =~= fields@);
        match self.find_struct(name) {
            None => {
                let inferred = self.infer_new_fields(fields, 0)?;
                let ghost fv = fields_view(inferred@);
                let ghost s1 = self@;
                let ghost sf1 = self.struct_fields@;
                self.struct_fields.push((name.clone(), inferred));
                assert(self.struct_fields@.drop_last() == sf1);
                assert(self@.structs =~= s1.structs.push((name@, fv)));
                assert(self@ == TcState { structs: s1.structs.push((name@, fv)), ..s1 });
                Ok(Type::Struct(name.clone()))
            },
            Some(k) => {
                let def = copy_fields(&self.struct_fields[k].1);
                self.check_decl_fields(name, &def, fields, 0, *span)?;
                Ok(Type::Struct(name.clone()))
            },
        }
    }

    fn infer_new_fields(&mut self, fs: &Vec<(String, Expr)>, i: usize) -> (r: Result<Vec<(String, Type)>, TypeckError>)
        requires
            old(self).wf(),
            i <= fs@.len(),
        ensures
            final(self).wf(),
            keeps_frame(old(self)@, final(self)@),
            final(self)@ == spec_infer_new_fields(old(self)@, fs@.skip(i as int)).0,
            match r {
                Ok(v) => spec_infer_new_fields(old(self)@, fs@.skip(i as int)).1 == Ok::<FieldsV, TErr>(fields_view(v@)),
                Err(x) => spec_infer_new_fields(old(self)@, fs@.skip(i as int)).1 == Err::<FieldsV, TErr>(x@),
            },
        decreases fs@, 0nat, fs@.len() - i,
    {
        if i >= fs.len() {
            assert(fs@.skip(i as int) =~= Seq::<(String, Expr)>::empty());
            let v: Vec<(String, Type)> = Vec::new();
            assert(fields_view(v@) =~= Seq::<(Seq<char>, TypeV)>::empty());
            return Ok(v);
        }
        assert(fs@.skip(i as int)[0] == fs@[i as int]);
        assert(fs@.skip(i as int).drop_first() =~= fs@.skip(i + 1));
        assert(decreases_to!(fs@ => fs@[i as int].1)) by {
            assert(decreases_to!(fs@ => fs@[i as int]));
        }
        let t = self.infer_rec(&fs[i].1, None)?;
        let mut rest = self.infer_new_fields(fs, i + 1)?;
        let ghost tail = fields_view(rest@);
        let ghost tv = t@;
        rest.insert(0, (fs[i].0.clone(), t));
        assert(fields_view(rest@) =~= seq![(fs@[i as int].0@, tv)] + tail);
        Ok(rest)
    }

    fn check_decl_fields(
        &mut self,
        name: &String,
        def: &Vec<(String, Type)>,
        fs: &Vec<(String, Expr)>,
        i: usize,
        span: Span,
    ) -> (r: Result<(), TypeckError>)
        requires
            old(self).wf(),
            i <= fs@.len(),
        ensures
            final(self).wf(),
            keeps_frame(old(self)@, final(self)@),
            final(self)@ == spec_check_decl_fields(old(self)@, name@, fields_view(def@), fs@.skip(i as int), span).0,
            unit_result_view(r) == spec_check_decl_fields(old(self)@, name@, fields_view(def@), fs@.skip(i as int), span).1,
        decreases fs@, 0nat, fs@.len() - i,
    {
        if i >= fs.len() {
            assert(fs@.skip(i as int) =~= Seq::<(String, Expr)>::empty());
            return Ok(());
        }
        assert(fs@.skip(i as int)[0] == fs@[i as int]);
        assert(fs@.skip(i as int).drop_first() =~= fs@.skip(i + 1));
        assert(decreases_to!(fs@ => fs@[i as int].1)) by {
            assert(decreases_to!(fs@ => fs@[i as int]));
        }
        let t = self.infer_rec(&fs[i].1, None)?;
        proof { lemma_field_pos(fields_view(def@), fs@[i as int].0@); }
        match find_field(def, &fs[i].0) {
            Some(k) => {
                let through_reference = match &t {
                    Type::Pointer(inner) => inner.same(&def[k].1),
                    _ => false,
                };
                if !t.same(&def[k].1) && !through_reference {
                    return Err(TypeckError::TypeMismatch { expected: def[k].1.deep_copy(), found: t, span });
                }
                self.check_decl_fields(name, def, fs, i + 1, span)
            },
            None => Err(TypeckError::NoSuchField { name: name.clone(), field: fs[i].0.clone(), span }),
        }
    }
}

/// Whether an explicit cast from `t` to `target` is allowed.
pub fn cast_allowed(t: &Type, target: &Type) -> (r: bool)
    ensures
        r == cast_ok(t@, target@),
{
    let numeric_from = t.is_integer() || t.is_float();
    let numeric_to = target.is_integer() || target.is_float();
    let from_ptr = match t { Type::Pointer(_) => true, _ => false };
    let to_ptr = match target { Type::Pointer(_) => true, _ => false };
    let from_struct = match t { Type::Struct(_) => true, _ => false };
    (numeric_from && numeric_to) || (from_ptr && to_ptr) || (t.is_string() && to_ptr)
        || (from_struct && to_ptr) || (from_ptr && target.is_integer()) || (t.is_integer() && to_ptr)
}

/// Copies a field list.
pub fn copy_fields(fs: &Vec<(String, Type)>) -> (r: Vec<(String, Type)>)
    ensures
        fields_view(r@) == fields_view(fs@),
{
    let mut out: Vec<(String, Type)> = Vec::new();
    let mut i: usize = 0;
    while i < fs.len()
        invariant
            i <= fs@.len(),
            out@.len() == i,
            fields_view(out@) == fields_view(fs@).take(i as int),
        decreases fs@.len() - i,
    {
        let ghost before = out@;
        out.push((fs[i].0.clone(), fs[i].1.deep_copy()));
        assert(out@[i as int].0@ == fs@[i as int].0@);
        assert(out@[i as int].1@ == fs@[i as int].1@);
        assert(fields_view(out@) =~= fields_view(fs@).take(i + 1)) by {
            assert forall|j: int| 0 <= j < i implies out@[j] == before[j] by {}
        }
        i += 1;
    }
    assert(fields_view(fs@).take(i as int) =~= fields_view(fs@));
    out
}

impl TypeChecker {
    fn infer_call(&mut self, e: &Expr) -> (r: Result<Type, TypeckError>)
        requires
            old(self).wf(),
            e is Call,
        ensures
            final(self).wf(),
            keeps_frame(old(self)@, final(self)@),
            final(self)@ == spec_infer(old(self)@, *e, None).0,
            result_view(r) == spec_infer(old(self)@, *e, None).1,
        decreases e, 0nat, 0nat,
    {
        let Expr::Call(callee, args, span) = e else { return Ok(Type::Void) };
        assert(decreases_to!(*e => args@)) by {
            assert(decreases_to!(*e => *args));
        }
        let print_name = String::from_str("print");
        if *callee == print_name {
            if args.len() != 1 {
                return Err(TypeckError::WrongArgCount { expected: 1, actual: args.len(), span: *span });
            }
            assert(decreases_to!(*e => args@[0])) by {
                assert(decreases_to!(*args => args[0]));
            }
            self.infer_rec(&args[0], None)?;
            return Ok(Type::Void);
        }
        match self.lookup(callee) {
            None => Err(TypeckError::UndefinedFunction(callee.clone(), *span)),
            Some(Type::Fn(params, ret)) => {
                if args.len() != params.len() {
                    return Err(TypeckError::WrongArgCount { expected: params.len(), actual: args.len(), span: *span });
                }
                assert(args@.skip(0) =~= args@);
                assert(types_view(params@).skip(0) =~= types_view(params@));
                assert(types_view(params@) =~= crate::ty::fn_params(lookup(old(self)@, callee@).unwrap()));
                self.check_args(args, &params, 0, *span)?;
                Ok(*ret)
            },
            Some(_) => Err(TypeckError::NotAFunction { name: callee.clone(), span: *span }),
        }
    }

    fn check_args(&mut self, args: &Vec<Expr>, params: &Vec<Type>, i: usize, span: Span) -> (r: Result<(), TypeckError>)
        requires
            old(self).wf(),
            i <= args@.len(),
            args@.len() == params@.len(),
        ensures
            final(self).wf(),
            keeps_frame(old(self)@, final(self)@),
            final(self)@ == spec_check_args(old(self)@, args@.skip(i as int), types_view(params@).skip(i as int), span).0,
            unit_result_view(r) == spec_check_args(old(self)@, args@.skip(i as int), types_view(params@).skip(i as int), span).1,
        decreases args@, 0nat, args@.len() - i,
    {
        if i >= args.len() {
            assert(args@.skip(i as int).len() == 0);
            return Ok(());
        }
        assert(args@.skip(i as int)[0] == args@[i as int]);
        assert(args@.skip(i as int).drop_first() =~= args@.skip(i + 1));
        assert(types_view(params@).skip(i as int)[0] == params@[i as int]@);
        assert(types_view(params@).skip(i as int).drop_first() =~= types_view(params@).skip(i + 1));
        let t = self.infer_rec(&args[i], None)?;
        if !t.same(&params[i]) {
            return Err(TypeckError::TypeMismatch { expected: params[i].deep_copy(), found: t, span });
        }
        self.check_args(args, params, i + 1, span)
    }

    fn infer_field_access(&mut self, e: &Expr) -> (r: Result<Type, TypeckError>)
        requires
            old(self).wf(),
            e is FieldAccess,
        ensures
            final(self).wf(),
            keeps_frame(old(self)@, final(self)@),
            final(self)@ == spec_infer(old(self)@, *e, None).0,
            result_view(r) == spec_infer(old(self)@, *e, None).1,
        decreases e, 0nat, 0nat,
    {
        let Expr::FieldAccess(inner, field_name, span) = e else { return Ok(Type::Void) };
        let ty = self.infer_rec(inner, None)?;
        let seen = match &ty {
            Type::Pointer(t) => &**t,
            _ => &ty,
        };
        assert(seen@ == seen_through(ty@));
        match seen {
            Type::Struct(name) => {
                match self.find_struct(name) {
                    None => Err(TypeckError::NotAStruct { name: name.clone(), span: *span }),
                    Some(k) => {
                        proof { lemma_field_pos(fields_view(self.struct_fields@[k as int].1@), field_name@); }
                        match find_field(&self.struct_fields[k].1, field_name) {
                            Some(j) => Ok(self.struct_fields[k].1[j].1.deep_copy()),
                            None => Err(TypeckError::NoSuchField { name: name.clone(), field: field_name.clone(), span: *span }),
                        }
                    },
                }
            },
            _ => Err(TypeckError::NotAStruct { name: render_type(&ty), span: *span }),
        }
    }

    fn infer_array_index(&mut self, e: &Expr) -> (r: Result<Type, TypeckError>)
        requires
            old(self).wf(),
            e is ArrayIndex,
        ensures
            final(self).wf(),
            keeps_frame(old(self)@, final(self)@),
            final(self)@ == spec_infer(old(self)@, *e, None).0,
            result_view(r) == spec_infer(old(self)@, *e, None).1,
        decreases e, 0nat, 0nat,
    {
        let Expr::ArrayIndex(arr, idx, span) = e else { return Ok(Type::Void) };
        let arr_ty = self.infer_rec(arr, None)?;
        let idx_ty = self.infer_rec(idx, None)?;
        if !idx_ty.is_integer() {
            return Err(TypeckError::IndexNotInteger { span: *span });
        }
        let seen = match &arr_ty {
            Type::Pointer(t) => &**t,
            _ => &arr_ty,
        };
        assert(seen@ == seen_through(arr_ty@));
        match seen {
            Type::Array(elem, _) => Ok(elem.deep_copy()),
            _ => Err(TypeckError::NotAStruct { name: render_type(&arr_ty), span: *span }),
        }
    }

    fn infer_array_literal(&mut self, e: &Expr) -> (r: Result<Type, TypeckError>)
        requires
            old(self).wf(),
            e is ArrayLiteral,
        ensures
            final(self).wf(),
            keeps_frame(old(self)@, final(self)@),
            final(self)@ == spec_infer(old(self)@, *e, None).0,
            result_view(r) == spec_infer(old(self)@, *e, None).1,
        decreases e, 0nat, 0nat,
    {
        let Expr::ArrayLiteral(ty, elems, span) = e else { return Ok(Type::Void) };
        if elems.len() == 0 {
            return Err(TypeckError::TypeMismatch {
                expected: Type::Array(Box::new(Type::Void), 0),
                found: Type::Void,
                span: *span,
            });
        }
        assert(decreases_to!(*e => elems@)) by {
            assert(decreases_to!(*e => *elems));
        }
        assert(decreases_to!(*e => elems@[0])) by {
            assert(decreases_to!(*elems => elems[0]));
        }
        let first_ty = self.infer_rec(&elems[0], None)?;
        let expected = if !ty.is_void() {
            if !first_ty.same(ty) {
                return Err(TypeckError::TypeMismatch { expected: ty.deep_copy(), found: first_ty, span: elems[0].span() });
            }
            ty.deep_copy()
        } else {
            first_ty
        };
        assert(elems@.skip(1) =~= elems@.drop_first());
        self.check_elems(elems, 1, &expected)?;
        Ok(Type::Array(Box::new(expected), elems.len()))
    }

    fn check_elems(&mut self, es: &Vec<Expr>, i: usize, expected: &Type) -> (r: Result<(), TypeckError>)
        requires
            old(self).wf(),
            i <= es@.len(),
        ensures
            final(self).wf(),
            keeps_frame(old(self)@, final(self)@),
            final(self)@ == spec_check_elems(old(self)@, es@.skip(i as int), expected@).0,
            unit_result_view(r) == spec_check_elems(old(self)@, es@.skip(i as int), expected@).1,
        decreases es@, 0nat, es@.len() - i,
    {
        if i >= es.len() {
            assert(es@.skip(i as int).len() == 0);
            return Ok(());
        }
        assert(es@.skip(i as int)[0] == es@[i as int]);
        assert(es@.skip(i as int).drop_first() =~= es@.skip(i + 1));
        let t = self.infer_rec(&es[i], None)?;
        if !t.same(expected) {
            return Err(TypeckError::TypeMismatch { expected: expected.deep_copy(), found: t, span: es[i].span() });
        }
        self.check_elems(es, i + 1, expected)
    }

    fn infer_binary(&mut self, e: &Expr) -> (r: Result<Type, TypeckError>)
        requires
            old(self).wf(),
            e is Binary,
        ensures
            final(self).wf(),
            keeps_frame(old(self)@, final(self)@),
            final(self)@ == spec_infer(old(self)@, *e, None).0,
            result_view(r) == spec_infer(old(self)@, *e, None).1,
        decreases e, 0nat, 0nat,
    {
        let Expr::Binary(lhs, op, rhs, span) = e else { return Ok(Type::Void) };
        let lty = self.infer_rec(lhs, None)?;
        let rty = self.infer_rec(rhs, None)?;
        let span = *span;
        let op = *op;
        if op == BinOp::Add && lty.is_string() {
            if !lty.same(&rty) {
                return Err(TypeckError::TypeMismatch { expected: lty, found: rty, span });
            }
            return Ok(lty);
        }
        let l_struct = match &lty { Type::Struct(_) => true, _ => false };
        let r_struct = match &rty { Type::Struct(_) => true, _ => false };
        if l_struct || r_struct {
            return Err(TypeckError::BinaryTypeMismatch { op: String::from_str(op.symbol()), expected: Type::I32, found: lty, span });
        }
        if op == BinOp::And || op == BinOp::Or {
            if !lty.is_bool() {
                return Err(TypeckError::BinaryTypeMismatch { op: String::from_str(op.symbol()), expected: Type::Bool, found: lty, span });
            }
            if !rty.is_bool() {
                return Err(TypeckError::BinaryTypeMismatch { op: String::from_str(op.symbol()), expected: Type::Bool, found: rty, span });
            }
            return Ok(Type::Bool);
        }
        let is_shift = op == BinOp::Shl || op == BinOp::Shr;
        if op == BinOp::BitAnd || op == BinOp::BitOr || op == BinOp::BitXor || is_shift {
            if !lty.is_integer() {
                return Err(TypeckError::BinaryTypeMismatch { op: String::from_str(op.symbol()), expected: Type::I32, found: lty, span });
            }
            if !rty.is_integer() {
                return Err(TypeckError::BinaryTypeMismatch { op: String::from_str(op.symbol()), expected: Type::I32, found: rty, span });
            }
            if !is_shift && !lty.same(&rty) {
                return Err(TypeckError::TypeMismatch { expected: lty, found: rty, span });
            }
            return Ok(lty);
        }
        if !lty.same(&rty) {
            return Err(TypeckError::TypeMismatch { expected: lty, found: rty, span });
        }
        if op == BinOp::Eq || op == BinOp::Ne || op == BinOp::Lt || op == BinOp::Le || op == BinOp::Gt || op == BinOp::Ge {
            Ok(Type::Bool)
        } else {
            Ok(lty)
        }
    }

    fn infer_assign(&mut self, e: &Expr) -> (r: Result<Type, TypeckError>)
        requires
            old(self).wf(),
            e is Assign,
        ensures
            final(self).wf(),
            keeps_frame(old(self)@, final(self)@),
            final(self)@ == spec_infer(old(self)@, *e, None).0,
            result_view(r) == spec_infer(old(self)@, *e, None).1,
        decreases e, 0nat, 0nat,
    {
        let Expr::Assign(lhs, rhs, span) = e else { return Ok(Type::Void) };
        if let Expr::AddressOf(..) = &**lhs {
            return Err(TypeckError::AssignToReference { span: *span });
        }
        if !lhs.is_place() {
            return Err(TypeckError::Unassignable { span: *span });
        }
        let lhs_ty = self.infer_rec(lhs, None)?;
        let rhs_ty = self.infer_rec(rhs, None)?;
        if !lhs_ty.same(&rhs_ty) {
            return Err(TypeckError::TypeMismatch { expected: lhs_ty, found: rhs_ty, span: *span });
        }
        Ok(Type::Void)
    }

    fn infer_pointer_ops(&mut self, e: &Expr) -> (r: Result<Type, TypeckError>)
        requires
            old(self).wf(),
            e is AddressOf || e is Dereference || e is Cast,
        ensures
            final(self).wf(),
            keeps_frame(old(self)@, final(self)@),
            final(self)@ == spec_infer(old(self)@, *e, None).0,
            result_view(r) == spec_infer(old(self)@, *e, None).1,
        decreases e, 0nat, 0nat,
    {
        match e {
            Expr::AddressOf(inner, span) => {
                let inner_ty = self.infer_rec(inner, None)?;
                let nested = match &**inner {
                    Expr::AddressOf(..) => true,
                    _ => false,
                };
                if !(inner.is_place() || nested) {
                    return Err(TypeckError::Unassignable { span: *span });
                }
                let ghost itv = inner_ty@;
                let res = Type::Pointer(Box::new(inner_ty));
                assert(res@ == TypeV::Pointer(Box::new(itv)));
                assert(spec_infer(old(self)@, *e, None).1 == Ok::<TypeV, TErr>(TypeV::Pointer(Box::new(itv))));
                Ok(res)
            },
            Expr::Dereference(inner, span) => {
                let inner_ty = self.infer_rec(inner, None)?;
                match inner_ty {
                    Type::Pointer(t) => {
                        assert(spec_infer(old(self)@, *e, None).1 == Ok::<TypeV, TErr>((*t)@));
                        Ok(*t)
                    },
                    _ => Err(TypeckError::TypeMismatch {
                        expected: {
                            let p = Type::Pointer(Box::new(Type::Void));
                            assert(p@ == TypeV::Pointer(Box::new(TypeV::Void))) by {
                                assert(Type::Void@ == TypeV::Void);
                            }
                            p
                        },
                        found: inner_ty,
                        span: *span,
                    }),
                }
            },
            Expr::Cast(inner, target, span) => {
                let t = self.infer_rec(inner, None)?;
                if !cast_allowed(&t, target) {
                    return Err(TypeckError::TypeMismatch { expected: target.deep_copy(), found: t, span: *span });
                }
                assert(spec_infer(old(self)@, *e, None).1 == Ok::<TypeV, TErr>(target@));
                Ok(target.deep_copy())
            },
            _ => Ok(Type::Void),
        }
    }

}

pub proof fn lemma_nesting_elem(ss: Seq<Stmt>, j: int)
    requires
        0 <= j < ss.len(),
    ensures
        stmt_nesting(ss[j]) <= stmts_nesting(ss),
    decreases ss.len(),
{
    if j > 0 {
        lemma_nesting_elem(ss.drop_first(), j - 1);
        assert(ss.drop_first()[j - 1] == ss[j]);
    }
}

pub open spec fn depth_ok(st: TcState, s: Stmt) -> bool {
    st.loop_depth + stmt_nesting(s) < usize::MAX && st.fn_depth + stmt_nesting(s) < usize::MAX
}

/// A statement with blocks of its own, whose bindings end with them.
pub open spec fn is_block_stmt(s: Stmt) -> bool {
    s is If || s is While || s is For || s is Fn
}

pub open spec fn depths_ok(st: TcState, ss: Seq<Stmt>) -> bool {
    forall|j: int| 0 <= j < ss.len() ==> depth_ok(st, #[trigger] ss[j])
}

/// On success a statement leaves the scope count, every scope but the
/// innermost, the depths and the return type as it found them.
pub open spec fn ok_keeps(a: TcState, b: TcState) -> bool {
    &&& b.scopes.len() == a.scopes.len()
    &&& b.scopes.drop_last() == a.scopes.drop_last()
    &&& b.loop_depth == a.loop_depth
    &&& b.fn_depth == a.fn_depth
    &&& b.ret == a.ret
}

/// Whether some statement returns a value on every path.
pub fn has_return_value(stmts: &Vec<Stmt>) -> (r: bool)
    ensures
        r == stmts_return_value(stmts@),
    decreases stmts@, 0nat, 0nat,
{
    let mut i: usize = 0;
    assert(stmts@.skip(0) =~= stmts@);
    while i < stmts.len()
        invariant
            i <= stmts@.len(),
            stmts_return_value(stmts@) == stmts_return_value(stmts@.skip(i as int)),
        decreases stmts@.len() - i,
    {
        assert(stmts@.skip(i as int)[0] == stmts@[i as int]);
        assert(stmts@.skip(i as int).drop_first() =~= stmts@.skip(i + 1));
        assert(decreases_to!(stmts@ => stmts@[i as int]));
        if stmt_has_return_value(&stmts[i]) {
            return true;
        }
        i += 1;
    }
    false
}

fn stmt_has_return_value(s: &Stmt) -> (r: bool)
    ensures
        r == stmt_returns_value(*s),
    decreases s, 1nat, 0nat,
{
    match s {
        Stmt::Return(Some(_), _) => true,
        Stmt::If(_, then_s, else_s, _) => {
            assert(decreases_to!(*s => then_s@)) by { assert(decreases_to!(*s => *then_s)); }
            let t = has_return_value(then_s);
            match else_s {
                Some(es) => {
                    assert(decreases_to!(*s => es@)) by {
                        assert(decreases_to!(*s => *else_s));
                        assert(decreases_to!(*else_s => *es));
                    }
                    t && has_return_value(es)
                },
                None => false,
            }
        },
        Stmt::While(_, body, _) => {
            assert(decreases_to!(*s => body@)) by { assert(decreases_to!(*s => *body)); }
            has_return_value(body)
        },
        Stmt::For(_, _, _, body, _) => {
            assert(decreases_to!(*s => body@)) by { assert(decreases_to!(*s => *body)); }
            has_return_value(body)
        },
        _ => false,
    }
}

/// The span of the first `return` with a value, in source order.
pub fn find_return_value_span(stmts: &Vec<Stmt>) -> (r: Option<Span>)
    ensures
        r == stmts_value_return_span(stmts@),
    decreases stmts@, 0nat, 0nat,
{
    let mut i: usize = 0;
    assert(stmts@.skip(0) =~= stmts@);
    while i < stmts.len()
        invariant
            i <= stmts@.len(),
            stmts_value_return_span(stmts@) == stmts_value_return_span(stmts@.skip(i as int)),
        decreases stmts@.len() - i,
    {
        assert(stmts@.skip(i as int)[0] == stmts@[i as int]);
        assert(stmts@.skip(i as int).drop_first() =~= stmts@.skip(i + 1));
        assert(decreases_to!(stmts@ => stmts@[i as int]));
        if let Some(sp) = stmt_return_value_span(&stmts[i]) {
            return Some(sp);
        }
        i += 1;
    }
    None
}

fn stmt_return_value_span(s: &Stmt) -> (r: Option<Span>)
    ensures
        r == stmt_value_return_span(*s),
    decreases s, 1nat, 0nat,
{
    match s {
        Stmt::Return(Some(_), span) => Some(*span),
        Stmt::If(_, then_s, else_s, _) => {
            assert(decreases_to!(*s => then_s@)) by { assert(decreases_to!(*s => *then_s)); }
            if let Some(sp) = find_return_value_span(then_s) {
                return Some(sp);
            }
            match else_s {
                Some(es) => {
                    assert(decreases_to!(*s => es@)) by {
                        assert(decreases_to!(*s => *else_s));
                        assert(decreases_to!(*else_s => *es));
                    }
                    find_return_value_span(es)
                },
                None => None,
            }
        },
        Stmt::While(_, body, _) => {
            assert(decreases_to!(*s => body@)) by { assert(decreases_to!(*s => *body)); }
            find_return_value_span(body)
        },
        Stmt::For(_, _, _, body, _) => {
            assert(decreases_to!(*s => body@)) by { assert(decreases_to!(*s => *body)); }
            find_return_value_span(body)
        },
        _ => None,
    }
}

/// The first problem with a function's decorators.
pub fn check_decorators(ds: &Vec<Decorator>) -> (r: Option<TypeckError>)
    ensures
        match r {
            Some(x) => decorator_error(ds@) == Some(x@),
            None => decorator_error(ds@) is None,
        },
{
    let get = String::from_str("Get");
    let post = String::from_str("Post");
    let put = String::from_str("Put");
    let delete = String::from_str("Delete");
    let mut i: usize = 0;
    assert(ds@.skip(0) =~= ds@);
    while i < ds.len()
        invariant
            i <= ds@.len(),
            get@ == "Get"@, post@ == "Post"@, put@ == "Put"@, delete@ == "Delete"@,
            decorator_error(ds@) == decorator_error(ds@.skip(i as int)),
        decreases ds@.len() - i,
    {
        assert(ds@.skip(i as int)[0] == ds@[i as int]);
        assert(ds@.skip(i as int).drop_first() =~= ds@.skip(i + 1));
        let d = &ds[i];
        let known = d.name == get || d.name == post || d.name == put || d.name == delete;
        if !known {
            let mut m = String::from_str("unknown decorator `@");
            crate::text::push_str(&mut m, d.name.as_str());
            crate::text::push_str(&mut m, "`. Expected @Get, @Post, @Put, or @Delete");
            return Some(TypeckError::InvalidDecorator { message: m, span: d.span });
        }
        if d.arg.is_none() {
            let mut m = String::from_str("decorator `@");
            crate::text::push_str(&mut m, d.name.as_str());
            crate::text::push_str(&mut m, "` requires a path argument (e.g. `(\"/path\")`)");
            return Some(TypeckError::InvalidDecorator { message: m, span: d.span });
        }
        i += 1;
    }
    None
}

impl TypeChecker {
    fn define_params(&mut self, ps: &Vec<(String, Type)>, i: usize, span: Span) -> (r: Result<(), TypeckError>)
        requires
            old(self).wf(),
            i <= ps@.len(),
        ensures
            final(self).wf(),
            final(self)@ == spec_define_params(old(self)@, ps@.skip(i as int), span).0,
            unit_result_view(r) == spec_define_params(old(self)@, ps@.skip(i as int), span).1,
            final(self)@.scopes.len() == old(self)@.scopes.len(),
            final(self)@.scopes.drop_last() == old(self)@.scopes.drop_last(),
            final(self)@.loop_depth == old(self)@.loop_depth,
            final(self)@.fn_depth == old(self)@.fn_depth,
            final(self)@.ret == old(self)@.ret,
        decreases ps@.len() - i,
    {
        if i >= ps.len() {
            assert(ps@.skip(i as int).len() == 0);
            return Ok(());
        }
        assert(ps@.skip(i as int)[0] == ps@[i as int]);
        assert(ps@.skip(i as int).drop_first() =~= ps@.skip(i + 1));
        if ps[i].1.is_void() {
            return Err(TypeckError::VoidVariable { name: ps[i].0.clone(), span });
        }
        self.define(ps[i].0.clone(), ps[i].1.deep_copy());
        self.define_params(ps, i + 1, span)
    }

    /// Checks statements from index `i` on, stopping at the first error.
    fn check_stmts(&mut self, ss: &Vec<Stmt>, i: usize) -> (r: Result<(), TypeckError>)
        requires
            old(self).wf(),
            i <= ss@.len(),
            depths_ok(old(self)@, ss@),
        ensures
            final(self).wf(),
            final(self)@ == spec_check_stmts(old(self)@, ss@.skip(i as int)).0,
            unit_result_view(r) == spec_check_stmts(old(self)@, ss@.skip(i as int)).1,
            r is Ok ==> ok_keeps(old(self)@, final(self)@),
        decreases ss@, 0nat, ss@.len() - i,
    {
        if i >= ss.len() {
            assert(ss@.skip(i as int).len() == 0);
            return Ok(());
        }
        assert(ss@.skip(i as int)[0] == ss@[i as int]);
        assert(ss@.skip(i as int).drop_first() =~= ss@.skip(i + 1));
        assert(decreases_to!(ss@ => ss@[i as int]));
        assert(depth_ok(old(self)@, ss@[i as int]));
        self.check_stmt(&ss[i])?;
        self.check_stmts(ss, i + 1)
    }

    /// Checks one statement.
    #[verifier::spinoff_prover]
    #[verifier::rlimit(40)]
    pub fn check_stmt(&mut self, s: &Stmt) -> (r: Result<(), TypeckError>)
        requires
            old(self).wf(),
            depth_ok(old(self)@, *s),
        ensures
            final(self).wf(),
            final(self)@ == spec_check_stmt(old(self)@, *s).0,
            unit_result_view(r) == spec_check_stmt(old(self)@, *s).1,
            r is Ok ==> ok_keeps(old(self)@, final(self)@),
            r is Ok && is_block_stmt(*s) ==> final(self)@.scopes == old(self)@.scopes,
        decreases s, 1nat, 0nat,
    {
        match s {
            Stmt::Let(name, ty_annot, init, span) => {
                if let Some(annot) = ty_annot {
                    if annot.is_void() {
                        return Err(TypeckError::VoidVariable { name: name.clone(), span: *span });
                    }
                }
                let ty = match init {
                    Some(e) => {
                        let hint: Option<&Type> = match ty_annot { Some(a) => Some(a), None => None };
                        assert(hint_view(hint) == opt_type_view(*ty_annot));
                        let inferred = self.infer_rec(e, hint)?;
                        if inferred.is_void() {
                            return Err(TypeckError::VoidVariable { name: name.clone(), span: *span });
                        }
                        if let Some(annot) = ty_annot {
                            if !inferred.same(annot) {
                                return Err(TypeckError::TypeMismatch { expected: annot.deep_copy(), found: inferred, span: *span });
                            }
                        }
                        inferred
                    },
                    None => match ty_annot {
                        Some(annot) => annot.deep_copy(),
                        None => return Err(TypeckError::MissingTypeAnnotation { name: name.clone(), span: *span }),
                    },
                };
                let ghost before = self@.scopes;
                self.define(name.clone(), ty);
                assert(self@.scopes.drop_last() =~= before.drop_last());
                Ok(())
            },
            Stmt::Expr(e) => {
                self.infer_rec(e, None)?;
                Ok(())
            },
            Stmt::If(cond, then_stmts, else_stmts, _) => {
                let cond_ty = self.infer_rec(cond, None)?;
                if !cond_ty.is_bool() {
                    return Err(TypeckError::NotABool { context: String::from_str("`if` condition"), span: cond.span() });
                }
                assert(decreases_to!(*s => then_stmts@)) by { assert(decreases_to!(*s => *then_stmts)); }
                proof {
                    assert forall|j: int| 0 <= j < then_stmts@.len() implies depth_ok(enter(self@), #[trigger] then_stmts@[j]) by {
                        lemma_nesting_elem(then_stmts@, j);
                    }
                }
                self.enter_scope();
                assert(then_stmts@.skip(0) =~= then_stmts@);
                self.check_stmts(then_stmts, 0)?;
                self.exit_scope();
                assert(self@.scopes =~= old(self)@.scopes);
                match else_stmts {
                    Some(els) => {
                        assert(decreases_to!(*s => els@)) by {
                            assert(decreases_to!(*s => *else_stmts));
                            assert(decreases_to!(*else_stmts => *els));
                        }
                        proof {
                            assert forall|j: int| 0 <= j < els@.len() implies depth_ok(enter(self@), #[trigger] els@[j]) by {
                                lemma_nesting_elem(els@, j);
                            }
                        }
                        self.enter_scope();
                        assert(els@.skip(0) =~= els@);
                        self.check_stmts(els, 0)?;
                        self.exit_scope();
                        assert(self@.scopes =~= old(self)@.scopes);
                        Ok(())
                    },
                    None => Ok(()),
                }
            },
            Stmt::While(cond, body, _) => {
                let cond_ty = self.infer_rec(cond, None)?;
                if !cond_ty.is_bool() {
                    return Err(TypeckError::NotABool { context: String::from_str("`while` condition"), span: cond.span() });
                }
                assert(decreases_to!(*s => body@)) by { assert(decreases_to!(*s => *body)); }
                self.loop_depth = self.loop_depth + 1;
                self.enter_scope();
                proof {
                    assert forall|j: int| 0 <= j < body@.len() implies depth_ok(self@, #[trigger] body@[j]) by {
                        lemma_nesting_elem(body@, j);
                    }
                }
                assert(body@.skip(0) =~= body@);
                self.check_stmts(body, 0)?;
                self.exit_scope();
                assert(self@.scopes =~= old(self)@.scopes);
                self.loop_depth = self.loop_depth - 1;
                Ok(())
            },
            Stmt::For(var, lo, hi, body, _) => {
                let lo_ty = self.infer_rec(lo, None)?;
                let hi_ty = self.infer_rec(hi, None)?;
                if !lo_ty.is_integer() {
                    return Err(TypeckError::BinaryTypeMismatch { op: String::from_str("for range"), expected: Type::I32, found: lo_ty, span: lo.span() });
                }
                if !hi_ty.is_integer() {
                    return Err(TypeckError::BinaryTypeMismatch { op: String::from_str("for range"), expected: Type::I32, found: hi_ty, span: hi.span() });
                }
                if !lo_ty.same(&hi_ty) {
                    return Err(TypeckError::TypeMismatch { expected: lo_ty, found: hi_ty, span: hi.span() });
                }
                assert(decreases_to!(*s => body@)) by { assert(decreases_to!(*s => *body)); }
                self.loop_depth = self.loop_depth + 1;
                self.enter_scope();
                self.define(var.clone(), lo_ty);
                assert(self@.scopes.drop_last() =~= old(self)@.scopes);
                proof {
                    assert forall|j: int| 0 <= j < body@.len() implies depth_ok(self@, #[trigger] body@[j]) by {
                        lemma_nesting_elem(body@, j);
                    }
                }
                assert(body@.skip(0) =~= body@);
                self.check_stmts(body, 0)?;
                self.exit_scope();
                assert(self@.scopes =~= old(self)@.scopes);
                self.loop_depth = self.loop_depth - 1;
                Ok(())
            },
            Stmt::Fn(_name, params, ret, body, decorators, span) => {
                if let Some(x) = check_decorators(decorators) {
                    return Err(x);
                }
                let ret_ty = match ret { Some(t) => t.deep_copy(), None => Type::Void };
                let ghost prev = self@.ret;
                self.fn_depth = self.fn_depth + 1;
                let mut prev_ret = Some(ret_ty.deep_copy());
                std::mem::swap(&mut prev_ret, &mut self.fn_ret_ty);
                assert(opt_ty(prev_ret) == prev);
                self.enter_scope();
                assert(params@.skip(0) =~= params@);
                self.define_params(params, 0, *span)?;
                assert(self@.scopes.drop_last() =~= old(self)@.scopes);
                assert(decreases_to!(*s => body@)) by { assert(decreases_to!(*s => *body)); }
                proof {
                    assert forall|j: int| 0 <= j < body@.len() implies depth_ok(self@, #[trigger] body@[j]) by {
                        lemma_nesting_elem(body@, j);
                    }
                }
                assert(body@.skip(0) =~= body@);
                self.check_stmts(body, 0)?;
                self.exit_scope();
                assert(self@.scopes =~= old(self)@.scopes);
                self.fn_ret_ty = prev_ret;
                self.fn_depth = self.fn_depth - 1;
                if !ret_ty.is_void() && !has_return_value(body) {
                    return Err(TypeckError::MissingReturn { span: *span });
                }
                if ret_ty.is_void() {
                    if let Some(sp) = find_return_value_span(body) {
                        return Err(TypeckError::UnexpectedReturnValue { span: sp });
                    }
                }
                Ok(())
            },
            Stmt::ExternFn(..) => Ok(()),
            Stmt::Struct(..) => Ok(()),
            Stmt::Break(span) => {
                if self.loop_depth == 0 {
                    return Err(TypeckError::BreakOutsideLoop { span: *span });
                }
                Ok(())
            },
            Stmt::Continue(span) => {
                if self.loop_depth == 0 {
                    return Err(TypeckError::ContinueOutsideLoop { span: *span });
                }
                Ok(())
            },
            Stmt::Return(value, span) => {
                if self.fn_depth == 0 {
                    return Err(TypeckError::ReturnOutsideFunction { span: *span });
                }
                if let Some(v) = value {
                    let val_ty = self.infer_rec(v, None)?;
                    if let Some(expected) = &self.fn_ret_ty {
                        if !expected.is_void() && !val_ty.same(expected) {
                            return Err(TypeckError::TypeMismatch { expected: expected.deep_copy(), found: val_ty, span: *span });
                        }
                    }
                }
                Ok(())
            },
        }
    }
}

/// The type that a function declaration gives its name.
fn fn_type_of(params: &Vec<(String, Type)>, ret: &Option<Type>) -> (t: Type)
    ensures
        t@ == fn_type_view(params@, *ret),
{
    let mut ps: Vec<Type> = Vec::new();
    let mut i: usize = 0;
    while i < params.len()
        invariant
            i <= params@.len(),
            ps@.len() == i,
            forall|j: int| 0 <= j < i ==> #[trigger] ps@[j]@ == params@[j].1@,
        decreases params@.len() - i,
    {
        ps.push(params[i].1.deep_copy());
        i += 1;
    }
    let r = match ret {
        Some(t) => t.deep_copy(),
        None => Type::Void,
    };
    assert(r@ == ret_type_view(*ret));
    let ghost pv = ps@;
    let t = Type::Fn(ps, Box::new(r));
    assert(t@ == TypeV::Fn(fn_params(t@), Box::new(r@)));
    assert(fn_params(t@).len() == params@.len());
    assert forall|j: int| 0 <= j < params@.len() implies fn_params(t@)[j] == fn_params(fn_type_view(params@, *ret))[j] by {
        assert(pv[j]@ == params@[j].1@);
    }
    assert(fn_params(t@) =~= fn_params(fn_type_view(params@, *ret)));
    t
}

impl TypeChecker {
    /// First pass for one statement: functions and structs become known.
    fn declare(&mut self, s: &Stmt) -> (r: Result<(), TypeckError>)
        requires
            old(self).wf(),
        ensures
            final(self).wf(),
            final(self)@ == spec_declare(old(self)@, *s).0,
            unit_result_view(r) == spec_declare(old(self)@, *s).1,
    {
        match s {
            Stmt::Fn(name, params, ret, _, _, span) => {
                if self.lookup(name).is_some() {
                    return Err(TypeckError::DuplicateDefinition {
                        name: name.clone(),
                        kind: String::from_str("function"),
                        span: *span,
                    });
                }
                let t = fn_type_of(params, ret);
                self.define(name.clone(), t);
                Ok(())
            },
            Stmt::ExternFn(name, params, ret, span) => {
                if self.lookup(name).is_some() {
                    return Err(TypeckError::DuplicateDefinition {
                        name: name.clone(),
                        kind: String::from_str("function"),
                        span: *span,
                    });
                }
                let t = fn_type_of(params, ret);
                self.define(name.clone(), t);
                Ok(())
            },
            Stmt::Struct(name, fields, span) => {
                if self.find_struct(name).is_some() {
                    return Err(TypeckError::DuplicateDefinition {
                        name: name.clone(),
                        kind: String::from_str("struct"),
                        span: *span,
                    });
                }
                if let Some(x) = check_struct_fields(fields, *span) {
                    return Err(x);
                }
                let copied = copy_fields(fields);
                let ghost before = self.struct_fields@;
                self.struct_fields.push((name.clone(), copied));
                assert(self@.structs =~= structs_view(before).push((name@, fields_view(fields@))));
                Ok(())
            },
            _ => Ok(()),
        }
    }

    /// First pass over the statements from index `i` on.
    fn declare_from(&mut self, ss: &Vec<Stmt>, i: usize) -> (r: Result<(), TypeckError>)
        requires
            old(self).wf(),
            i <= ss@.len(),
        ensures
            final(self).wf(),
            final(self)@ == spec_declare_all(old(self)@, ss@.skip(i as int)).0,
            unit_result_view(r) == spec_declare_all(old(self)@, ss@.skip(i as int)).1,
            final(self)@.loop_depth == old(self)@.loop_depth,
            final(self)@.fn_depth == old(self)@.fn_depth,
        decreases ss@.len() - i,
    {
        if i >= ss.len() {
            assert(ss@.skip(i as int).len() == 0);
            return Ok(());
        }
        assert(ss@.skip(i as int)[0] == ss@[i as int]);
        assert(ss@.skip(i as int).drop_first() =~= ss@.skip(i + 1));
        self.declare(&ss[i])?;
        self.declare_from(ss, i + 1)
    }

    /// Checks a whole program: functions and structs are declared first, so that
    /// they can be used before the statement that defines them; then every
    /// statement is checked in order. Stops at the first error.
    pub fn check(&mut self, stmts: &Vec<Stmt>) -> (r: Result<(), TypeckError>)
        requires
            old(self).wf(),
            depths_ok(old(self)@, stmts@),
        ensures
            final(self).wf(),
            final(self)@ == spec_check_program(old(self)@, stmts@).0,
            unit_result_view(r) == spec_check_program(old(self)@, stmts@).1,
    {
        assert(stmts@.skip(0) =~= stmts@);
        self.declare_from(stmts, 0)?;
        assert(depths_ok(self@, stmts@)) by {
            assert forall|j: int| 0 <= j < stmts@.len() implies depth_ok(self@, #[trigger] stmts@[j]) by {
                assert(depth_ok(old(self)@, stmts@[j]));
            }
        }
        self.check_stmts(stmts, 0)
    }
}

/// Appends `type error at LINE:COL: `.
fn push_error_prefix(out: &mut String, span: Span)
    ensures
        final(out)@ == old(out)@ + error_prefix(span),
{
    push_str(out, "type error at ");
    push_u64(out, span.line as u64);
    push_str(out, ":");
    push_u64(out, span.col as u64);
    push_str(out, ": ");
    assert(final(out)@ =~= old(out)@ + error_prefix(span));
}

impl TypeckError {
    /// The message the error is reported with.
    pub fn message(&self) -> (s: String)
        ensures
            s@ == terr_text(self@),
    {
        let mut out = String::new();
        match self {
            TypeckError::UndefinedVariable(n, span) => {
                push_error_prefix(&mut out, *span);
                push_str(&mut out, "undefined variable `");
                push_str(&mut out, n.as_str());
                push_str(&mut out, "`");
            },
            TypeckError::UndefinedFunction(n, span) => {
                push_error_prefix(&mut out, *span);
                push_str(&mut out, "undefined function `");
                push_str(&mut out, n.as_str());
                push_str(&mut out, "`");
            },
            TypeckError::InvalidDecorator { message, span } => {
                push_error_prefix(&mut out, *span);
                push_str(&mut out, message.as_str());
            },
            TypeckError::NotAStruct { name, span } => {
                push_error_prefix(&mut out, *span);
                push_str(&mut out, "`");
                push_str(&mut out, name.as_str());
                push_str(&mut out, "` is not a struct");
            },
            TypeckError::DuplicateField { field, span } => {
                push_error_prefix(&mut out, *span);
                push_str(&mut out, "duplicate field `");
                push_str(&mut out, field.as_str());
                push_str(&mut out, "`");
            },
            TypeckError::DuplicateDefinition { name, kind, span } => {
                push_error_prefix(&mut out, *span);
                push_str(&mut out, "duplicate ");
                push_str(&mut out, kind.as_str());
                push_str(&mut out, " `");
                push_str(&mut out, name.as_str());
                push_str(&mut out, "`");
            },
            TypeckError::WrongArgCount { expected, actual, span } => {
                push_error_prefix(&mut out, *span);
                push_str(&mut out, "expected ");
                push_u64(&mut out, *expected as u64);
                push_str(&mut out, " arguments, found ");
                push_u64(&mut out, *actual as u64);
            },
            TypeckError::TypeMismatch { expected, found, span } => {
                push_error_prefix(&mut out, *span);
                push_str(&mut out, "expected `");
                push_type(&mut out, expected);
                push_str(&mut out, "`, found `");
                push_type(&mut out, found);
                push_str(&mut out, "`");
            },
            TypeckError::MissingTypeAnnotation { name, span } => {
                push_error_prefix(&mut out, *span);
                push_str(&mut out, "type annotation required for `");
                push_str(&mut out, name.as_str());
                push_str(&mut out, "`");
            },
            TypeckError::MissingReturn { span } => {
                push_error_prefix(&mut out, *span);
                push_str(&mut out, "missing return statement in function with return type");
            },
            TypeckError::UnexpectedReturnValue { span } => {
                push_error_prefix(&mut out, *span);
                push_str(&mut out, "unexpected return value in void function");
            },
            TypeckError::NoSuchField { name, field, span } => {
                push_error_prefix(&mut out, *span);
                push_str(&mut out, "no field `");
                push_str(&mut out, field.as_str());
                push_str(&mut out, "` on struct `");
                push_str(&mut out, name.as_str());
                push_str(&mut out, "`");
            },
            TypeckError::LiteralOutOfRange { value, ty, span } => {
                push_error_prefix(&mut out, *span);
                push_str(&mut out, "literal `");
                push_i64(&mut out, *value);
                push_str(&mut out, "` does not fit in type `");
                push_type(&mut out, ty);
                push_str(&mut out, "`");
            },
            TypeckError::BreakOutsideLoop { span } => {
                push_error_prefix(&mut out, *span);
                push_str(&mut out, "break outside loop");
            },
            TypeckError::ContinueOutsideLoop { span } => {
                push_error_prefix(&mut out, *span);
                push_str(&mut out, "continue outside loop");
            },
            TypeckError::ReturnOutsideFunction { span } => {
                push_error_prefix(&mut out, *span);
                push_str(&mut out, "return outside function");
            },
            TypeckError::NotAFunction { name, span } => {
                push_error_prefix(&mut out, *span);
                push_str(&mut out, "`");
                push_str(&mut out, name.as_str());
                push_str(&mut out, "` is not a function");
            },
            TypeckError::VoidVariable { name, span } => {
                push_error_prefix(&mut out, *span);
                push_str(&mut out, "variable `");
                push_str(&mut out, name.as_str());
                push_str(&mut out, "` cannot have type `void`");
            },
            TypeckError::Unassignable { span } => {
                push_error_prefix(&mut out, *span);
                push_str(&mut out, "expression is not assignable");
            },
            TypeckError::AssignToReference { span } => {
                push_error_prefix(&mut out, *span);
                push_str(&mut out, "cannot assign to a reference");
            },
            TypeckError::NotABool { context, span } => {
                push_error_prefix(&mut out, *span);
                push_str(&mut out, context.as_str());
                push_str(&mut out, " requires `bool`, found non-bool expression");
            },
            TypeckError::IndexNotInteger { span } => {
                push_error_prefix(&mut out, *span);
                push_str(&mut out, "array index must be an integer");
            },
            TypeckError::BinaryTypeMismatch { op, expected, found, span } => {
                push_error_prefix(&mut out, *span);
                push_str(&mut out, "operator `");
                push_str(&mut out, op.as_str());
                push_str(&mut out, "` requires operands of type `");
                push_type(&mut out, expected);
                push_str(&mut out, "`, found `");
                push_type(&mut out, found);
                push_str(&mut out, "`");
            },
        }
        assert(out@ =~= terr_text(self@));
        out
    }
}

} // verus!
