//! Types of the surface language.

use vstd::prelude::*;
use crate::lexer::token::{FloatSuffix, IntegerSuffix};
use crate::text::{push_str, push_u64, nat_decimal};

verus! {

#[derive(Debug)]
pub enum Type {
    I8,
    I16,
    I32,
    I64,
    U8,
    U16,
    U32,
    U64,
    F32,
    F64,
    String,
    Bool,
    Array(Box<Type>, usize),
    Struct(String),
    Fn(Vec<Type>, Box<Type>),
    Pointer(Box<Type>),
    Void,
}

/// The mathematical value of a type: names are character sequences.
pub enum TypeV {
    I8,
    I16,
    I32,
    I64,
    U8,
    U16,
    U32,
    U64,
    F32,
    F64,
    String,
    Bool,
    Array(Box<TypeV>, nat),
    Struct(Seq<char>),
    Fn(Seq<TypeV>, Box<TypeV>),
    Pointer(Box<TypeV>),
    Void,
}

impl View for Type {
    type V = TypeV;

    open spec fn view(&self) -> TypeV {
        type_view(*self)
    }
}

/// The value of a type, by structure.
pub open spec fn type_view(t: Type) -> TypeV
    decreases t,
{
        match t {
            Type::I8 => TypeV::I8,
            Type::I16 => TypeV::I16,
            Type::I32 => TypeV::I32,
            Type::I64 => TypeV::I64,
            Type::U8 => TypeV::U8,
            Type::U16 => TypeV::U16,
            Type::U32 => TypeV::U32,
            Type::U64 => TypeV::U64,
            Type::F32 => TypeV::F32,
            Type::F64 => TypeV::F64,
            Type::String => TypeV::String,
            Type::Bool => TypeV::Bool,
            Type::Array(e, n) => TypeV::Array(Box::new(type_view(*e)), n as nat),
            Type::Struct(name) => TypeV::Struct(name@),
            Type::Fn(ps, r) => TypeV::Fn(
                Seq::new(ps@.len(), |i: int| if 0 <= i < ps@.len() { type_view(ps@[i]) } else { TypeV::Void }),
                Box::new(type_view(*r)),
            ),
            Type::Pointer(e) => TypeV::Pointer(Box::new(type_view(*e))),
            Type::Void => TypeV::Void,
        }
}

/// Parameter types of a function type (empty for other types).
pub open spec fn fn_params(t: TypeV) -> Seq<TypeV> {
    match t {
        TypeV::Fn(ps, _) => ps,
        _ => Seq::empty(),
    }
}

impl Type {
    /// A fresh copy of the type.
    pub fn deep_copy(&self) -> (r: Type)
        ensures
            r@ == self@,
        decreases self,
    {
        match self {
            Type::I8 => Type::I8,
            Type::I16 => Type::I16,
            Type::I32 => Type::I32,
            Type::I64 => Type::I64,
            Type::U8 => Type::U8,
            Type::U16 => Type::U16,
            Type::U32 => Type::U32,
            Type::U64 => Type::U64,
            Type::F32 => Type::F32,
            Type::F64 => Type::F64,
            Type::String => Type::String,
            Type::Bool => Type::Bool,
            Type::Array(e, n) => Type::Array(Box::new(e.deep_copy()), *n),
            Type::Struct(name) => Type::Struct(name.clone()),
            Type::Fn(ps, r) => {
                let out = copy_types(ps);
                let rc = r.deep_copy();
                let res = Type::Fn(out, Box::new(rc));
                assert(fn_params(self@).len() == ps@.len());
                assert(fn_params(res@).len() == ps@.len());
                assert forall|j: int| 0 <= j < ps@.len() implies fn_params(res@)[j] == fn_params(self@)[j] by {
                    assert(out@[j]@ == ps@[j]@);
                }
                assert(fn_params(res@) =~= fn_params(self@));
                res
            },
            Type::Pointer(e) => Type::Pointer(Box::new(e.deep_copy())),
            Type::Void => Type::Void,
        }
    }
}

/// Copies a list of types.
pub fn copy_types(ps: &Vec<Type>) -> (out: Vec<Type>)
    ensures
        out@.len() == ps@.len(),
        forall|j: int| 0 <= j < ps@.len() ==> #[trigger] out@[j]@ == ps@[j]@,
    decreases ps,
{
    let mut out: Vec<Type> = Vec::new();
    let mut i: usize = 0;
    while i < ps.len()
        invariant
            i <= ps@.len(),
            out@.len() == i,
            forall|j: int| 0 <= j < i ==> #[trigger] out@[j]@ == ps@[j]@,
        decreases ps@.len() - i,
    {
        assert(decreases_to!(*ps => ps[i as int]));
        out.push(ps[i].deep_copy());
        i += 1;
    }
    out
}

impl TypeV {
    pub open spec fn is_integer(self) -> bool {
        match self {
            TypeV::I8 | TypeV::I16 | TypeV::I32 | TypeV::I64 | TypeV::U8 | TypeV::U16
            | TypeV::U32 | TypeV::U64 => true,
            _ => false,
        }
    }

    /// Values of a copy type are duplicated bit for bit on assignment, so
    /// `let y = x;` leaves `x` usable.
    pub open spec fn is_copy(self) -> bool {
        self.is_integer() || self == TypeV::F32 || self == TypeV::F64 || self == TypeV::Bool
    }

    pub open spec fn is_float(self) -> bool {
        self == TypeV::F32 || self == TypeV::F64
    }
}

impl Type {
    pub fn is_integer(&self) -> (r: bool)
        ensures
            r == self@.is_integer(),
    {
        match self {
            Type::I8 | Type::I16 | Type::I32 | Type::I64 | Type::U8 | Type::U16 | Type::U32
            | Type::U64 => true,
            _ => false,
        }
    }

    /// Whether values of this type are `Copy`. Copy types are bitwise
    /// duplicated on assignment, so `let y = x;` does not move `x`.
    pub fn is_copy(&self) -> (r: bool)
        ensures
            r == self@.is_copy(),
    {
        match self {
            Type::I8 | Type::I16 | Type::I32 | Type::I64 | Type::U8 | Type::U16 | Type::U32
            | Type::U64 | Type::F32 | Type::F64 | Type::Bool => true,
            _ => false,
        }
    }

    pub fn is_float(&self) -> (r: bool)
        ensures
            r == self@.is_float(),
    {
        match self {
            Type::F32 | Type::F64 => true,
            _ => false,
        }
    }

    pub fn is_void(&self) -> (r: bool)
        ensures
            r == (self@ == TypeV::Void),
    {
        match self {
            Type::Void => true,
            _ => false,
        }
    }

    pub fn is_bool(&self) -> (r: bool)
        ensures
            r == (self@ == TypeV::Bool),
    {
        match self {
            Type::Bool => true,
            _ => false,
        }
    }

    pub fn is_string(&self) -> (r: bool)
        ensures
            r == (self@ == TypeV::String),
    {
        match self {
            Type::String => true,
            _ => false,
        }
    }

    /// Structural equality of types.
    pub fn same(&self, other: &Type) -> (r: bool)
        ensures
            r == (self@ == other@),
        decreases self,
    {
        match (self, other) {
            (Type::I8, Type::I8) | (Type::I16, Type::I16) | (Type::I32, Type::I32)
            | (Type::I64, Type::I64) | (Type::U8, Type::U8) | (Type::U16, Type::U16)
            | (Type::U32, Type::U32) | (Type::U64, Type::U64) | (Type::F32, Type::F32)
            | (Type::F64, Type::F64) | (Type::String, Type::String) | (Type::Bool, Type::Bool)
            | (Type::Void, Type::Void) => true,
            (Type::Array(e1, n1), Type::Array(e2, n2)) => *n1 == *n2 && e1.same(e2),
            (Type::Struct(a), Type::Struct(b)) => *a == *b,
            (Type::Pointer(e1), Type::Pointer(e2)) => e1.same(e2),
            (Type::Fn(p1, r1), Type::Fn(p2, r2)) => {
                if p1.len() != p2.len() {
                    assert(fn_params(self@).len() != fn_params(other@).len());
                    return false;
                }
                let mut i: usize = 0;
                while i < p1.len()
                    invariant
                        *self == Type::Fn(*p1, *r1),
                        *other == Type::Fn(*p2, *r2),
                        p1@.len() == p2@.len(),
                        i <= p1@.len(),
                        forall|j: int| 0 <= j < i ==> #[trigger] p1@[j]@ == p2@[j]@,
                    decreases p1@.len() - i,
                {
                    assert(decreases_to!(*self => p1@[i as int])) by {
                        assert(decreases_to!(*p1 => p1[i as int]));
                    }
                    if !p1[i].same(&p2[i]) {
                        assert(fn_params(self@)[i as int] != fn_params(other@)[i as int]);
                        return false;
                    }
                    i += 1;
                }
                assert(fn_params(self@) =~= fn_params(other@)) by {
                    assert forall|j: int| 0 <= j < p1@.len() implies fn_params(self@)[j] == fn_params(other@)[j] by {
                        assert(p1@[j]@ == p2@[j]@);
                    }
                }
                r1.same(r2)
            },
            _ => false,
        }
    }
}

/// The type of an integer literal with the given suffix (unsuffixed is `i32`).
pub open spec fn spec_suffix_to_type(suffix: IntegerSuffix) -> TypeV {
    match suffix {
        IntegerSuffix::Unsuffixed => TypeV::I32,
        IntegerSuffix::I8 => TypeV::I8,
        IntegerSuffix::I16 => TypeV::I16,
        IntegerSuffix::I32 => TypeV::I32,
        IntegerSuffix::I64 => TypeV::I64,
        IntegerSuffix::U8 => TypeV::U8,
        IntegerSuffix::U16 => TypeV::U16,
        IntegerSuffix::U32 => TypeV::U32,
        IntegerSuffix::U64 => TypeV::U64,
    }
}

pub fn suffix_to_type(suffix: &IntegerSuffix) -> (t: Type)
    ensures
        t@ == spec_suffix_to_type(*suffix),
{
    match suffix {
        IntegerSuffix::Unsuffixed => Type::I32,
        IntegerSuffix::I8 => Type::I8,
        IntegerSuffix::I16 => Type::I16,
        IntegerSuffix::I32 => Type::I32,
        IntegerSuffix::I64 => Type::I64,
        IntegerSuffix::U8 => Type::U8,
        IntegerSuffix::U16 => Type::U16,
        IntegerSuffix::U32 => Type::U32,
        IntegerSuffix::U64 => Type::U64,
    }
}

/// The type of a float literal with the given suffix (unsuffixed is `f64`).
pub open spec fn spec_float_suffix_to_type(suffix: FloatSuffix) -> TypeV {
    match suffix {
        FloatSuffix::Unsuffixed | FloatSuffix::F64 => TypeV::F64,
        FloatSuffix::F32 => TypeV::F32,
    }
}

pub fn float_suffix_to_type(suffix: &FloatSuffix) -> (t: Type)
    ensures
        t@ == spec_float_suffix_to_type(*suffix),
{
    match suffix {
        FloatSuffix::Unsuffixed | FloatSuffix::F64 => Type::F64,
        FloatSuffix::F32 => Type::F32,
    }
}

/// How a type is written in diagnostics.
pub open spec fn type_text(t: TypeV) -> Seq<char>
    decreases t,
{
    match t {
        TypeV::I8 => "i8"@,
        TypeV::I16 => "i16"@,
        TypeV::I32 => "i32"@,
        TypeV::I64 => "i64"@,
        TypeV::U8 => "u8"@,
        TypeV::U16 => "u16"@,
        TypeV::U32 => "u32"@,
        TypeV::U64 => "u64"@,
        TypeV::F32 => "f32"@,
        TypeV::F64 => "f64"@,
        TypeV::String => "string"@,
        TypeV::Bool => "bool"@,
        TypeV::Array(e, n) => type_text(*e) + "["@ + nat_decimal(n) + "]"@,
        TypeV::Struct(name) => name,
        TypeV::Fn(ps, r) => "fn("@ + types_text(ps) + ") -> "@ + type_text(*r),
        TypeV::Pointer(e) => "*"@ + type_text(*e),
        TypeV::Void => "void"@,
    }
}

/// A list of types separated by `, `.
pub open spec fn types_text(ps: Seq<TypeV>) -> Seq<char>
    decreases ps,
{
    if ps.len() == 0 {
        Seq::empty()
    } else if ps.len() == 1 {
        type_text(ps[0])
    } else {
        types_text(ps.drop_last()) + ", "@ + type_text(ps.last())
    }
}

/// Appends the diagnostic rendering of `t`.
pub fn push_type(out: &mut String, t: &Type)
    ensures
        final(out)@ == old(out)@ + type_text(t@),
    decreases t,
{
    match t {
        Type::I8 => push_str(out, "i8"),
        Type::I16 => push_str(out, "i16"),
        Type::I32 => push_str(out, "i32"),
        Type::I64 => push_str(out, "i64"),
        Type::U8 => push_str(out, "u8"),
        Type::U16 => push_str(out, "u16"),
        Type::U32 => push_str(out, "u32"),
        Type::U64 => push_str(out, "u64"),
        Type::F32 => push_str(out, "f32"),
        Type::F64 => push_str(out, "f64"),
        Type::String => push_str(out, "string"),
        Type::Bool => push_str(out, "bool"),
        Type::Array(e, n) => {
            push_type(out, e);
            push_str(out, "[");
            push_u64(out, *n as u64);
            push_str(out, "]");
            assert(final(out)@ =~= old(out)@ + type_text(t@));
        },
        Type::Struct(name) => push_str(out, name.as_str()),
        Type::Fn(ps, r) => {
            push_str(out, "fn(");
            let ghost start = out@;
            let ghost pv = fn_params(t@);
            let mut i: usize = 0;
            while i < ps.len()
                invariant
                    *t == Type::Fn(*ps, *r),
                    pv == fn_params(t@),
                    pv.len() == ps@.len(),
                    i <= ps@.len(),
                    out@ == start + types_text(pv.take(i as int)),
                decreases ps@.len() - i,
            {
                assert(decreases_to!(*t => ps@[i as int])) by {
                    assert(decreases_to!(*ps => ps[i as int]));
                }
                assert(pv[i as int] == ps@[i as int]@);
                if i > 0 {
                    push_str(out, ", ");
                }
                push_type(out, &ps[i]);
                assert(pv.take(i + 1).drop_last() =~= pv.take(i as int));
                assert(pv.take(i + 1).last() == pv[i as int]);
                assert(out@ =~= start + types_text(pv.take(i + 1))) by {
                    if i == 0 {
                        assert(pv.take(1).len() == 1);
                    }
                }
                i += 1;
            }
            assert(pv.take(i as int) =~= pv);
            push_str(out, ") -> ");
            push_type(out, r);
            assert(final(out)@ =~= old(out)@ + type_text(t@));
        },
        Type::Pointer(e) => {
            push_str(out, "*");
            push_type(out, e);
            assert(final(out)@ =~= old(out)@ + type_text(t@));
        },
        Type::Void => push_str(out, "void"),
    }
}

/// The diagnostic rendering of a type.
pub fn render_type(t: &Type) -> (s: String)
    ensures
        s@ == type_text(t@),
{
    let mut s = String::new();
    push_type(&mut s, t);
    assert(s@ =~= type_text(t@));
    s
}

/// Every integer type is a copy type.
pub proof fn law_integer_types_are_copy(t: TypeV)
    ensures
        t.is_integer() ==> t.is_copy(),
{
}

/// Every integer literal suffix names an integer type.
pub proof fn law_suffix_types_are_integers(s: IntegerSuffix)
    ensures
        spec_suffix_to_type(s).is_integer(),
{
}

} // verus!
