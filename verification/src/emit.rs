//! Decisions that code generation takes from the intermediate representation
//! alone: the type an expression is emitted at, and how integers are printed.

use vstd::prelude::*;
use crate::ast::Decorator;
use crate::hir::{DecoratorV, HExpr, HStmt, HirExpr, HirStmt, decorators_view, hstmts_view};
use crate::ops::BinOp;
use crate::ty::{Type, TypeV};
use crate::typeck::structs_view;
use crate::typeck_spec::{FieldsV, struct_lookup};

verus! {

/// The type an expression is emitted at. Integer literals and unary results
/// are 64-bit, float literals double precision; a field, element or pointee
/// whose type cannot be found is taken as a 64-bit integer.
pub open spec fn expr_type_of(e: HExpr, structs: Seq<(Seq<char>, FieldsV)>) -> TypeV
    decreases e,
{
    match e {
        HExpr::Int(..) => TypeV::I64,
        HExpr::Float(..) => TypeV::F64,
        HExpr::Str(..) => TypeV::String,
        HExpr::Bool(..) => TypeV::Bool,
        HExpr::Ident(_, t, _) => t,
        HExpr::AllocStruct(n, _, _) => TypeV::Struct(n),
        HExpr::FieldLoad(_, index, sname, _) => match struct_lookup(structs, sname) {
            Some(fs) => if index < fs.len() { fs[index as int].1 } else { TypeV::I64 },
            None => TypeV::I64,
        },
        HExpr::ArrayIndex(object, _, _) => match expr_type_of(*object, structs) {
            TypeV::Array(inner, _) => *inner,
            _ => TypeV::I64,
        },
        HExpr::ArrayLiteral(t, _, _) => TypeV::Array(Box::new(t), 0),
        HExpr::Unary(..) => TypeV::I64,
        HExpr::Binary(_, _, _, t, _) => t,
        HExpr::AddressOf(inner, _) => TypeV::Pointer(Box::new(expr_type_of(*inner, structs))),
        HExpr::Dereference(inner, _) => match expr_type_of(*inner, structs) {
            TypeV::Pointer(t) => *t,
            _ => TypeV::I64,
        },
        HExpr::SizeOf(..) => TypeV::I64,
        HExpr::Cast(_, t, _) => t,
        _ => TypeV::I64,
    }
}

/// The position of the struct called `name`, the latest one where names repeat.
pub(crate) fn find_struct_fields(sf: &Vec<(String, Vec<(String, Type)>)>, name: &String) -> (r: Option<usize>)
    ensures
        match r {
            Some(i) => i < sf@.len() && struct_lookup(structs_view(sf@), name@) == Some(
                structs_view(sf@)[i as int].1,
            ),
            None => struct_lookup(structs_view(sf@), name@) is None,
        },
{
    let ghost sv = structs_view(sf@);
    let mut i = sf.len();
    assert(sv.take(i as int) =~= sv);
    while i > 0
        invariant
            i <= sf@.len(),
            sv == structs_view(sf@),
            struct_lookup(sv, name@) == struct_lookup(sv.take(i as int), name@),
        decreases i,
    {
        if sf[i - 1].0 == *name {
            assert(sv.take(i as int).last() == sv[i - 1]);
            return Some(i - 1);
        }
        assert(sv.take(i as int).drop_last() =~= sv.take(i - 1));
        i -= 1;
    }
    None
}

/// The type `expr` is emitted at, given the fields of every struct.
pub fn type_of_expr(expr: &HirExpr, struct_field_types: &Vec<(String, Vec<(String, Type)>)>) -> (t: Type)
    ensures
        t@ == expr_type_of(expr@, structs_view(struct_field_types@)),
    decreases expr,
{
    let ghost structs = structs_view(struct_field_types@);
    match expr {
        HirExpr::Int(..) => Type::I64,
        HirExpr::Float(..) => Type::F64,
        HirExpr::String(..) => Type::String,
        HirExpr::Bool(..) => Type::Bool,
        HirExpr::Ident { ty, .. } => ty.deep_copy(),
        HirExpr::AllocStruct(name, _, _) => Type::Struct(name.clone()),
        HirExpr::FieldLoad { index, struct_name, .. } => {
            match find_struct_fields(struct_field_types, struct_name) {
                Some(i) => {
                    let fields = &struct_field_types[i].1;
                    if *index < fields.len() {
                        fields[*index].1.deep_copy()
                    } else {
                        Type::I64
                    }
                },
                None => Type::I64,
            }
        },
        HirExpr::ArrayIndex { object, .. } => {
            match type_of_expr(object, struct_field_types) {
                Type::Array(inner, _) => *inner,
                _ => Type::I64,
            }
        },
        HirExpr::ArrayLiteral(ty, _, _) => Type::Array(Box::new(ty.deep_copy()), 0),
        HirExpr::Unary(..) => Type::I64,
        HirExpr::Binary { ty, .. } => ty.deep_copy(),
        HirExpr::AddressOf(inner, _) => Type::Pointer(Box::new(type_of_expr(inner, struct_field_types))),
        HirExpr::Dereference(inner, _) => {
            match type_of_expr(inner, struct_field_types) {
                Type::Pointer(t) => *t,
                _ => Type::I64,
            }
        },
        HirExpr::SizeOf(..) => Type::I64,
        HirExpr::Cast { target_ty, .. } => target_ty.deep_copy(),
        _ => Type::I64,
    }
}

/// Whether the type is one of the unsigned integer types.
pub fn is_unsigned_type(ty: &Type) -> (r: bool)
    ensures
        r == (ty@ is U8 || ty@ is U16 || ty@ is U32 || ty@ is U64),
{
    match ty {
        Type::U8 | Type::U16 | Type::U32 | Type::U64 => true,
        _ => false,
    }
}

/// The printf conversion for an integer of `width` bits; one narrower than
/// 32 bits is printed after widening to 32.
pub open spec fn spec_int_print_format(width: u32, is_unsigned: bool) -> Seq<char> {
    if width <= 32 {
        if is_unsigned { "%u\n"@ } else { "%d\n"@ }
    } else {
        if is_unsigned { "%lu\n"@ } else { "%ld\n"@ }
    }
}

/// The printf conversion for an integer of `width` bits.
pub fn int_print_format(width: u32, is_unsigned: bool) -> (f: &'static str)
    ensures
        f@ == spec_int_print_format(width, is_unsigned),
{
    if width <= 32 {
        if is_unsigned { "%u\n" } else { "%d\n" }
    } else {
        if is_unsigned { "%lu\n" } else { "%ld\n" }
    }
}

/// How the two operands of a binary operator arrived: both as pointers, with
/// a float on the left, or otherwise as integers.
#[derive(Debug, Clone, Copy, PartialEq, Eq, Structural)]
pub enum Operands {
    Pointers,
    Floats,
    Ints,
}

/// An ordered comparison.
#[derive(Debug, Clone, Copy, PartialEq, Eq, Structural)]
pub enum Compare {
    Eq,
    Ne,
    Lt,
    Le,
    Gt,
    Ge,
}

/// What a binary operator compiles to.
#[derive(Debug, Clone, Copy, PartialEq, Eq, Structural)]
pub enum BinaryPlan {
    /// `&&`: the right operand runs only when the left one holds.
    ShortCircuitAnd,
    /// `||`: the right operand runs only when the left one fails.
    ShortCircuitOr,
    /// String concatenation through the runtime.
    Concat,
    /// String comparison through the runtime; `negate` for `!=`.
    StringEquals { negate: bool },
    /// Address comparison; `equal` for `==`.
    PointerEquals { equal: bool },
    /// Float add, sub, mul, div or rem.
    FloatArith(BinOp),
    /// Ordered float comparison, widened to a 32-bit integer.
    FloatCompare(Compare),
    /// An operator that floats do not have.
    FloatUnsupported,
    /// Integer add, sub, mul, and, or, xor.
    IntArith(BinOp),
    /// Division or remainder that aborts on a zero divisor.
    CheckedDivide { remainder: bool, unsigned: bool },
    /// Integer comparison, widened to a 32-bit integer.
    IntCompare(Compare, bool),
    /// Left shift, the amount resized to the value's width.
    ShiftLeft,
    /// Right shift, with the signedness of the result type.
    ShiftRight { unsigned: bool },
    /// No integer instruction; yields zero.
    NoOp,
}

impl Compare {
    /// Whether the comparison instruction holds of the values `a` and `b`.
    pub open spec fn holds(self, a: int, b: int) -> bool {
        match self {
            Compare::Eq => a == b,
            Compare::Ne => a != b,
            Compare::Lt => a < b,
            Compare::Le => a <= b,
            Compare::Gt => a > b,
            Compare::Ge => a >= b,
        }
    }
}

/// The comparison an operator stands for, if it is one.
pub open spec fn compare_of(op: BinOp) -> Option<Compare> {
    match op {
        BinOp::Eq => Some(Compare::Eq),
        BinOp::Ne => Some(Compare::Ne),
        BinOp::Lt => Some(Compare::Lt),
        BinOp::Le => Some(Compare::Le),
        BinOp::Gt => Some(Compare::Gt),
        BinOp::Ge => Some(Compare::Ge),
        _ => None,
    }
}

/// What `lhs op rhs` compiles to: `operands` says how the operands arrived,
/// `lhs_is_string` whether the left one has the string type, and `unsigned`
/// whether the result type is unsigned.
pub open spec fn spec_binary_plan(op: BinOp, operands: Operands, lhs_is_string: bool, unsigned: bool) -> BinaryPlan {
    if op == BinOp::And {
        BinaryPlan::ShortCircuitAnd
    } else if op == BinOp::Or {
        BinaryPlan::ShortCircuitOr
    } else if op == BinOp::Add && operands == Operands::Pointers {
        BinaryPlan::Concat
    } else if (op == BinOp::Eq || op == BinOp::Ne) && operands == Operands::Pointers {
        if lhs_is_string {
            BinaryPlan::StringEquals { negate: op == BinOp::Ne }
        } else {
            BinaryPlan::PointerEquals { equal: op == BinOp::Eq }
        }
    } else if operands == Operands::Floats {
        match op {
            BinOp::Add | BinOp::Sub | BinOp::Mul | BinOp::Div | BinOp::Rem => BinaryPlan::FloatArith(op),
            _ => match compare_of(op) {
                Some(c) => BinaryPlan::FloatCompare(c),
                None => BinaryPlan::FloatUnsupported,
            },
        }
    } else {
        match op {
            BinOp::Add | BinOp::Sub | BinOp::Mul | BinOp::BitAnd | BinOp::BitOr | BinOp::BitXor => BinaryPlan::IntArith(op),
            BinOp::Div => BinaryPlan::CheckedDivide { remainder: false, unsigned },
            BinOp::Rem => BinaryPlan::CheckedDivide { remainder: true, unsigned },
            BinOp::Shl => BinaryPlan::ShiftLeft,
            BinOp::Shr => BinaryPlan::ShiftRight { unsigned },
            _ => match compare_of(op) {
                Some(c) => BinaryPlan::IntCompare(c, unsigned),
                None => BinaryPlan::NoOp,
            },
        }
    }
}

/// A comparison of integers, or of floats, compiles to the comparison
/// instruction that holds of exactly the values of which the operator holds,
/// with the signedness of the operands' type.
pub proof fn law_comparisons_keep_their_meaning(op: BinOp, lhs_is_string: bool, unsigned: bool)
    requires
        op.is_comparison(),
    ensures
        spec_binary_plan(op, Operands::Ints, lhs_is_string, unsigned) matches BinaryPlan::IntCompare(c, u)
            && u == unsigned && forall|a: int, b: int| #[trigger] c.holds(a, b) == op.compares(a, b),
        spec_binary_plan(op, Operands::Floats, lhs_is_string, unsigned) matches BinaryPlan::FloatCompare(c)
            && forall|a: int, b: int| #[trigger] c.holds(a, b) == op.compares(a, b),
{
}

/// Equality of strings compiles to the runtime's string comparison, negated
/// exactly for `!=`; equality of other pointers compares addresses, equal
/// exactly for `==`.
pub proof fn law_pointer_equality_keeps_its_meaning(op: BinOp, lhs_is_string: bool, unsigned: bool)
    requires
        op == BinOp::Eq || op == BinOp::Ne,
    ensures
        lhs_is_string ==> spec_binary_plan(op, Operands::Pointers, lhs_is_string, unsigned)
            == (BinaryPlan::StringEquals { negate: !op.compares(0, 0) }),
        !lhs_is_string ==> spec_binary_plan(op, Operands::Pointers, lhs_is_string, unsigned)
            == (BinaryPlan::PointerEquals { equal: op.compares(0, 0) }),
{
}

/// Integer arithmetic compiles to the instruction of the same operator:
/// `/` and `%` to a checked division (a remainder exactly for `%`), the
/// shifts to shifts in their direction, with the signedness of the result
/// type where it matters; float arithmetic keeps its operator too.
pub proof fn law_arithmetic_keeps_its_operator(op: BinOp, lhs_is_string: bool, unsigned: bool)
    requires
        !op.is_comparison(),
        !op.is_logical(),
    ensures
        (op == BinOp::Add || op == BinOp::Sub || op == BinOp::Mul || op == BinOp::BitAnd || op == BinOp::BitOr
            || op == BinOp::BitXor) ==> spec_binary_plan(op, Operands::Ints, lhs_is_string, unsigned) == BinaryPlan::IntArith(op),
        (op == BinOp::Div || op == BinOp::Rem) ==> spec_binary_plan(op, Operands::Ints, lhs_is_string, unsigned)
            == (BinaryPlan::CheckedDivide { remainder: op == BinOp::Rem, unsigned }),
        op == BinOp::Shl ==> spec_binary_plan(op, Operands::Ints, lhs_is_string, unsigned) == BinaryPlan::ShiftLeft,
        op == BinOp::Shr ==> spec_binary_plan(op, Operands::Ints, lhs_is_string, unsigned)
            == (BinaryPlan::ShiftRight { unsigned }),
        (op == BinOp::Add || op == BinOp::Sub || op == BinOp::Mul || op == BinOp::Div || op == BinOp::Rem)
            ==> spec_binary_plan(op, Operands::Floats, lhs_is_string, unsigned) == BinaryPlan::FloatArith(op),
        op == BinOp::Add ==> spec_binary_plan(op, Operands::Pointers, lhs_is_string, unsigned) == BinaryPlan::Concat,
{
}

/// `&&` and `||` always compile to short-circuit code, whatever the
/// operands: the right operand runs only when the left one does not decide.
pub proof fn law_logical_operators_short_circuit(operands: Operands, lhs_is_string: bool, unsigned: bool)
    ensures
        spec_binary_plan(BinOp::And, operands, lhs_is_string, unsigned) == BinaryPlan::ShortCircuitAnd,
        spec_binary_plan(BinOp::Or, operands, lhs_is_string, unsigned) == BinaryPlan::ShortCircuitOr,
{
}

fn compare_for(op: BinOp) -> (r: Option<Compare>)
    ensures
        r == compare_of(op),
{
    match op {
        BinOp::Eq => Some(Compare::Eq),
        BinOp::Ne => Some(Compare::Ne),
        BinOp::Lt => Some(Compare::Lt),
        BinOp::Le => Some(Compare::Le),
        BinOp::Gt => Some(Compare::Gt),
        BinOp::Ge => Some(Compare::Ge),
        _ => None,
    }
}

/// What `lhs op rhs` compiles to.
pub fn binary_plan(op: BinOp, operands: Operands, lhs_is_string: bool, unsigned: bool) -> (r: BinaryPlan)
    ensures
        r == spec_binary_plan(op, operands, lhs_is_string, unsigned),
{
    match op {
        BinOp::And => return BinaryPlan::ShortCircuitAnd,
        BinOp::Or => return BinaryPlan::ShortCircuitOr,
        _ => {},
    }
    let pointers = match operands {
        Operands::Pointers => true,
        _ => false,
    };
    if pointers {
        match op {
            BinOp::Add => return BinaryPlan::Concat,
            BinOp::Eq => return if lhs_is_string {
                BinaryPlan::StringEquals { negate: false }
            } else {
                BinaryPlan::PointerEquals { equal: true }
            },
            BinOp::Ne => return if lhs_is_string {
                BinaryPlan::StringEquals { negate: true }
            } else {
                BinaryPlan::PointerEquals { equal: false }
            },
            _ => {},
        }
    }
    match operands {
        Operands::Floats => match op {
            BinOp::Add | BinOp::Sub | BinOp::Mul | BinOp::Div | BinOp::Rem => BinaryPlan::FloatArith(op),
            _ => match compare_for(op) {
                Some(c) => BinaryPlan::FloatCompare(c),
                None => BinaryPlan::FloatUnsupported,
            },
        },
        _ => match op {
            BinOp::Add | BinOp::Sub | BinOp::Mul | BinOp::BitAnd | BinOp::BitOr | BinOp::BitXor => BinaryPlan::IntArith(op),
            BinOp::Div => BinaryPlan::CheckedDivide { remainder: false, unsigned },
            BinOp::Rem => BinaryPlan::CheckedDivide { remainder: true, unsigned },
            BinOp::Shl => BinaryPlan::ShiftLeft,
            BinOp::Shr => BinaryPlan::ShiftRight { unsigned },
            _ => match compare_for(op) {
                Some(c) => BinaryPlan::IntCompare(c, unsigned),
                None => BinaryPlan::NoOp,
            },
        },
    }
}

/// How a value is converted by `as`.
#[derive(Debug, Clone, Copy, PartialEq, Eq, Structural)]
pub enum CastPlan {
    /// The value passes through unchanged.
    Keep,
    /// Integer narrowing.
    Truncate,
    /// Integer widening with zeros.
    ZeroExtend,
    /// Integer widening with the sign bit.
    SignExtend,
    /// A string becomes a pointer to its character payload.
    StringPayload,
    /// A pointer or struct reference becomes another pointer type.
    PointerCast,
    /// A pointer becomes an integer.
    PointerToInt,
    /// An integer becomes a pointer.
    IntToPointer,
}

/// How a value of type `src` (an integer of `src_width` bits when it is
/// one) converts to `target` (of `target_width` bits when an integer).
pub open spec fn spec_cast_plan(src: TypeV, target: TypeV, src_width: u32, target_width: u32) -> CastPlan {
    if src.is_integer() && target.is_integer() {
        if src_width == target_width {
            CastPlan::Keep
        } else if src_width > target_width {
            CastPlan::Truncate
        } else if src is U8 || src is U16 || src is U32 || src is U64 {
            CastPlan::ZeroExtend
        } else {
            CastPlan::SignExtend
        }
    } else if src is String && target is Pointer {
        CastPlan::StringPayload
    } else if (src is Pointer || src is Struct) && target is Pointer {
        CastPlan::PointerCast
    } else if src is Pointer && target.is_integer() {
        CastPlan::PointerToInt
    } else if src.is_integer() && target is Pointer {
        CastPlan::IntToPointer
    } else {
        CastPlan::Keep
    }
}

/// How a value of type `src` converts to `target`.
pub fn cast_plan(src: &Type, target: &Type, src_width: u32, target_width: u32) -> (r: CastPlan)
    ensures
        r == spec_cast_plan(src@, target@, src_width, target_width),
{
    let target_ptr = match target {
        Type::Pointer(_) => true,
        _ => false,
    };
    if src.is_integer() && target.is_integer() {
        if src_width == target_width {
            CastPlan::Keep
        } else if src_width > target_width {
            CastPlan::Truncate
        } else if is_unsigned_type(src) {
            CastPlan::ZeroExtend
        } else {
            CastPlan::SignExtend
        }
    } else {
        match src {
            Type::String => if target_ptr { CastPlan::StringPayload } else { CastPlan::Keep },
            Type::Struct(_) => if target_ptr { CastPlan::PointerCast } else { CastPlan::Keep },
            Type::Pointer(_) => if target_ptr {
                CastPlan::PointerCast
            } else if target.is_integer() {
                CastPlan::PointerToInt
            } else {
                CastPlan::Keep
            },
            _ => if src.is_integer() && target_ptr { CastPlan::IntToPointer } else { CastPlan::Keep },
        }
    }
}

/// A route of the generated server: HTTP method (the decorator's name),
/// path (its argument) and the function that serves it.
pub struct Route {
    pub method: String,
    pub path: String,
    pub function: String,
}

/// The routes that a function's decorators declare, in order; a decorator
/// without an argument declares none.
pub open spec fn decorator_routes(f: Seq<char>, ds: Seq<DecoratorV>) -> Seq<(Seq<char>, Seq<char>, Seq<char>)>
    decreases ds.len(),
{
    if ds.len() == 0 {
        Seq::empty()
    } else {
        let r = decorator_routes(f, ds.drop_last());
        match ds.last().1 {
            Some(p) => r.push((ds.last().0, p, f)),
            None => r,
        }
    }
}

/// The routes of a program, function by function in order.
pub open spec fn program_routes(ss: Seq<HStmt>) -> Seq<(Seq<char>, Seq<char>, Seq<char>)>
    decreases ss.len(),
{
    if ss.len() == 0 {
        Seq::empty()
    } else {
        program_routes(ss.drop_last()) + match ss.last() {
            HStmt::Fn(n, _, _, _, ds, _) => decorator_routes(n, ds),
            _ => Seq::empty(),
        }
    }
}

/// Whether some function of the program carries a decorator, so that the
/// program becomes a server.
pub open spec fn spec_serves_routes(ss: Seq<HStmt>) -> bool {
    exists|i: int| 0 <= i < ss.len() && is_decorated(#[trigger] ss[i])
}

/// Whether a statement is a function with at least one decorator.
pub open spec fn is_decorated(s: HStmt) -> bool {
    s matches HStmt::Fn(_, _, _, _, ds, _) && ds.len() > 0
}

pub open spec fn routes_view(rs: Seq<Route>) -> Seq<(Seq<char>, Seq<char>, Seq<char>)> {
    Seq::new(rs.len(), |i: int| (rs[i].method@, rs[i].path@, rs[i].function@))
}

fn push_decorator_routes(f: &String, ds: &Vec<Decorator>, out: &mut Vec<Route>)
    ensures
        routes_view(final(out)@) == routes_view(old(out)@) + decorator_routes(f@, decorators_view(ds@)),
{
    let ghost dv = decorators_view(ds@);
    let ghost start = routes_view(out@);
    let mut i: usize = 0;
    assert(dv.take(0) =~= Seq::<DecoratorV>::empty());
    assert(start + decorator_routes(f@, dv.take(0)) =~= start);
    while i < ds.len()
        invariant
            i <= ds@.len(),
            dv == decorators_view(ds@),
            routes_view(out@) == start + decorator_routes(f@, dv.take(i as int)),
        decreases ds@.len() - i,
    {
        assert(dv.take(i + 1).drop_last() =~= dv.take(i as int));
        assert(dv.take(i + 1).last() == dv[i as int]);
        match &ds[i].arg {
            Some(p) => {
                let ghost before = routes_view(out@);
                out.push(Route { method: ds[i].name.clone(), path: p.clone(), function: f.clone() });
                assert(routes_view(out@) =~= before.push((ds@[i as int].name@, p@, f@)));
                assert(start + decorator_routes(f@, dv.take(i + 1)) =~= (start + decorator_routes(f@, dv.take(i as int))).push(
                    (ds@[i as int].name@, p@, f@),
                ));
            },
            None => {},
        }
        i += 1;
    }
    assert(dv.take(ds@.len() as int) =~= dv);
}

/// The routes that the decorators of a program declare.
pub fn collect_routes(hir: &Vec<HirStmt>) -> (r: Vec<Route>)
    ensures
        routes_view(r@) == program_routes(hstmts_view(hir@)),
{
    let ghost sv = hstmts_view(hir@);
    let mut out: Vec<Route> = Vec::new();
    let mut i: usize = 0;
    assert(sv.take(0) =~= Seq::<HStmt>::empty());
    assert(routes_view(out@) =~= Seq::<(Seq<char>, Seq<char>, Seq<char>)>::empty());
    while i < hir.len()
        invariant
            i <= hir@.len(),
            sv == hstmts_view(hir@),
            routes_view(out@) == program_routes(sv.take(i as int)),
        decreases hir@.len() - i,
    {
        assert(sv.take(i + 1).drop_last() =~= sv.take(i as int));
        assert(sv.take(i + 1).last() == hir@[i as int]@);
        match &hir[i] {
            HirStmt::Fn { name, decorators, .. } => {
                push_decorator_routes(name, decorators, &mut out);
            },
            _ => {
                assert(routes_view(out@) + Seq::<(Seq<char>, Seq<char>, Seq<char>)>::empty() =~= routes_view(out@));
            },
        }
        i += 1;
    }
    assert(sv.take(hir@.len() as int) =~= sv);
    out
}

/// Whether some function of the program carries a decorator.
pub fn serves_routes(hir: &Vec<HirStmt>) -> (r: bool)
    ensures
        r == spec_serves_routes(hstmts_view(hir@)),
{
    let ghost sv = hstmts_view(hir@);
    let mut i: usize = 0;
    while i < hir.len()
        invariant
            i <= hir@.len(),
            sv == hstmts_view(hir@),
            forall|j: int| 0 <= j < i ==> !is_decorated(#[trigger] sv[j]),
        decreases hir@.len() - i,
    {
        assert(sv[i as int] == hir@[i as int]@);
        match &hir[i] {
            HirStmt::Fn { decorators, .. } => {
                if decorators.len() > 0 {
                    return true;
                }
            },
            _ => {},
        }
        i += 1;
    }
    false
}

/// Whether a route handler receives the request body: it takes exactly one
/// parameter, a string.
pub open spec fn spec_handler_takes_body(params: Seq<(Seq<char>, TypeV)>) -> bool {
    params.len() == 1 && params[0].1 is String
}

/// Whether a route handler receives the request body.
pub fn handler_takes_body(params: &Vec<(String, Type)>) -> (r: bool)
    ensures
        r == spec_handler_takes_body(crate::typeck_spec::fields_view(params@)),
{
    params.len() == 1 && params[0].1.is_string()
}

/// How a shift amount is brought to the width of the value it shifts.
#[derive(Debug, Clone, Copy, PartialEq, Eq, Structural)]
pub enum Resize {
    Keep,
    ZeroExtend,
    Truncate,
}

/// A shift amount of `amount_width` bits for a value of `value_width` bits:
/// kept at equal widths, zero-extended when narrower, truncated when wider.
pub open spec fn spec_shift_resize(value_width: u32, amount_width: u32) -> Resize {
    if value_width == amount_width {
        Resize::Keep
    } else if value_width > amount_width {
        Resize::ZeroExtend
    } else {
        Resize::Truncate
    }
}

/// How a shift amount is brought to the width of the value it shifts.
pub fn shift_resize(value_width: u32, amount_width: u32) -> (r: Resize)
    ensures
        r == spec_shift_resize(value_width, amount_width),
{
    if value_width == amount_width {
        Resize::Keep
    } else if value_width > amount_width {
        Resize::ZeroExtend
    } else {
        Resize::Truncate
    }
}

} // verus!
