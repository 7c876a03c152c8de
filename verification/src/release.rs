//! What generated code does with the heap values it handles: which parts of
//! a value it releases when the value dies, what it releases and retains when
//! a field or an element is overwritten, and what a statement leaves to clean
//! up. Code generation carries these plans out step by step.

use vstd::prelude::*;
use crate::emit::{expr_type_of, find_struct_fields};
use crate::hir::{HExpr, HirExpr};
use crate::ops::BinOp;
use crate::ownership::{Owner, OwnerV};
use crate::ty::{Type, TypeV};
use crate::typeck::structs_view;
use crate::typeck_spec::{FieldsV, fields_view, struct_lookup};

verus! {

/// Where a part sits, relative to the value being handled.
#[derive(Debug, Clone, Copy, PartialEq, Eq, Structural)]
pub enum Slot {
    /// The value itself.
    Whole,
    /// Field `i` of a struct value.
    Field(usize),
    /// Element `i` of an array value.
    Element(usize),
}

/// A part of a value that holds a reference to the heap.
#[derive(Debug)]
pub enum Part {
    /// A reference-counted string.
    String(Slot),
    /// A reference-counted block: dropped by one reference, freed at none.
    Block(Slot),
    /// A struct value of the named type, handled field by field.
    Struct(Slot, String),
}

/// A part by value.
pub enum PartV {
    String(Slot),
    Block(Slot),
    Struct(Slot, Seq<char>),
}

impl View for Part {
    type V = PartV;

    open spec fn view(&self) -> PartV {
        match *self {
            Part::String(s) => PartV::String(s),
            Part::Block(s) => PartV::Block(s),
            Part::Struct(s, n) => PartV::Struct(s, n@),
        }
    }
}

pub open spec fn parts_view(ps: Seq<Part>) -> Seq<PartV> {
    Seq::new(ps.len(), |i: int| ps[i]@)
}

/// The fields of a struct that hold heap references, in field order: its
/// strings and its structs.
pub open spec fn field_parts(fs: FieldsV) -> Seq<PartV>
    decreases fs.len(),
{
    if fs.len() == 0 {
        Seq::empty()
    } else {
        let r = field_parts(fs.drop_last());
        let i = (fs.len() - 1) as usize;
        match fs.last().1 {
            TypeV::String => r.push(PartV::String(Slot::Field(i))),
            TypeV::Struct(n) => r.push(PartV::Struct(Slot::Field(i), n)),
            _ => r,
        }
    }
}

/// Releasing a struct value of type `name`: each string field is released,
/// each struct field released in turn, then the block itself; nothing for a
/// struct that is not declared.
pub open spec fn spec_struct_release(structs: Seq<(Seq<char>, FieldsV)>, name: Seq<char>) -> Seq<PartV> {
    match struct_lookup(structs, name) {
        Some(fs) => field_parts(fs).push(PartV::Block(Slot::Whole)),
        None => Seq::empty(),
    }
}

/// The elements of an array of `count` elements of type `e` that hold heap
/// references: every element when they are strings (released as blocks) or
/// structs, none otherwise.
pub open spec fn element_parts(e: TypeV, count: nat) -> Seq<PartV> {
    match e {
        TypeV::String => Seq::new(count, |i: int| PartV::Block(Slot::Element(i as usize))),
        TypeV::Struct(n) => Seq::new(count, |i: int| PartV::Struct(Slot::Element(i as usize), n)),
        _ => Seq::empty(),
    }
}

/// Releasing what an owner holds: its struct; or its array's elements and
/// then the array's block; or its string.
pub open spec fn spec_owner_release(o: OwnerV) -> Seq<PartV> {
    match o {
        OwnerV::Struct(_, s) => seq![PartV::Struct(Slot::Whole, s)],
        OwnerV::Array(_, e, c) => element_parts(e, c).push(PartV::Block(Slot::Whole)),
        OwnerV::String(_) => seq![PartV::String(Slot::Whole)],
    }
}

/// The fields of a struct that hold heap references.
pub fn owned_fields(fields: &Vec<(String, Type)>) -> (r: Vec<Part>)
    ensures
        parts_view(r@) == field_parts(fields_view(fields@)),
{
    let ghost fv = fields_view(fields@);
    let mut out: Vec<Part> = Vec::new();
    let mut i: usize = 0;
    assert(fv.take(0) =~= Seq::<(Seq<char>, TypeV)>::empty());
    assert(parts_view(out@) =~= Seq::<PartV>::empty());
    while i < fields.len()
        invariant
            i <= fields@.len(),
            fv == fields_view(fields@),
            parts_view(out@) == field_parts(fv.take(i as int)),
        decreases fields@.len() - i,
    {
        assert(fv.take(i + 1).drop_last() =~= fv.take(i as int));
        assert(fv.take(i + 1).last() == fv[i as int]);
        let ghost before = parts_view(out@);
        match &fields[i].1 {
            Type::String => {
                out.push(Part::String(Slot::Field(i)));
                assert(parts_view(out@) =~= before.push(PartV::String(Slot::Field(i))));
            },
            Type::Struct(n) => {
                out.push(Part::Struct(Slot::Field(i), n.clone()));
                assert(parts_view(out@) =~= before.push(PartV::Struct(Slot::Field(i), n@)));
            },
            _ => {},
        }
        i += 1;
    }
    assert(fv.take(fields@.len() as int) =~= fv);
    out
}

/// How to release a struct value of type `name`.
pub fn struct_release_plan(name: &String, structs: &Vec<(String, Vec<(String, Type)>)>) -> (r: Vec<Part>)
    ensures
        parts_view(r@) == spec_struct_release(structs_view(structs@), name@),
{
    match find_struct_fields(structs, name) {
        Some(k) => {
            let mut out = owned_fields(&structs[k].1);
            let ghost before = parts_view(out@);
            out.push(Part::Block(Slot::Whole));
            assert(parts_view(out@) =~= before.push(PartV::Block(Slot::Whole)));
            out
        },
        None => {
            let out: Vec<Part> = Vec::new();
            assert(parts_view(out@) =~= Seq::<PartV>::empty());
            out
        },
    }
}

/// How to release what an owner holds.
pub fn owner_release_plan(owner: &Owner) -> (r: Vec<Part>)
    ensures
        parts_view(r@) == spec_owner_release(owner@),
{
    let mut out: Vec<Part> = Vec::new();
    match owner {
        Owner::Struct(_, s) => {
            out.push(Part::Struct(Slot::Whole, s.clone()));
            assert(parts_view(out@) =~= seq![PartV::Struct(Slot::Whole, s@)]);
        },
        Owner::String(_) => {
            out.push(Part::String(Slot::Whole));
            assert(parts_view(out@) =~= seq![PartV::String(Slot::Whole)]);
        },
        Owner::Array(_, e, count) => {
            let ghost target = element_parts(e@, *count as nat);
            let kind: u8 = match e {
                Type::String => 1,
                Type::Struct(_) => 2,
                _ => 0,
            };
            if kind != 0 {
                assert(target.len() == *count);
                assert(parts_view(out@) =~= target.take(0));
                let mut i: usize = 0;
                while i < *count
                    invariant
                        i <= *count,
                        kind != 0,
                        kind == 1 <==> e@ is String,
                        kind == 2 <==> e@ is Struct,
                        target == element_parts(e@, *count as nat),
                        target.len() == *count,
                        parts_view(out@) == target.take(i as int),
                    decreases *count - i,
                {
                    let ghost before = parts_view(out@);
                    match e {
                        Type::Struct(n) => {
                            out.push(Part::Struct(Slot::Element(i), n.clone()));
                            assert(parts_view(out@) =~= before.push(PartV::Struct(Slot::Element(i), n@)));
                            assert(target[i as int] == PartV::Struct(Slot::Element(i), n@));
                        },
                        _ => {
                            out.push(Part::Block(Slot::Element(i)));
                            assert(parts_view(out@) =~= before.push(PartV::Block(Slot::Element(i))));
                            assert(target[i as int] == PartV::Block(Slot::Element(i)));
                        },
                    }
                    assert(target.take(i + 1) =~= target.take(i as int).push(target[i as int]));
                    i += 1;
                }
                assert(target.take(*count as int) =~= target);
            } else {
                assert(parts_view(out@) =~= element_parts(e@, *count as nat));
            }
            let ghost before = parts_view(out@);
            out.push(Part::Block(Slot::Whole));
            assert(parts_view(out@) =~= before.push(PartV::Block(Slot::Whole)));
        },
    }
    out
}

/// What happens to the value a slot held before a store.
#[derive(Debug)]
pub enum OldValue {
    /// Nothing: it holds no heap reference.
    Keep,
    /// The string it held is released.
    ReleaseString,
    /// The struct of the named type it held is released.
    ReleaseStruct(String),
}

/// How a stored value is taken.
#[derive(Debug, Clone, Copy, PartialEq, Eq, Structural)]
pub enum NewValue {
    /// As it is.
    Plain,
    /// A string that the slot shares: its count goes up.
    RetainString,
    /// A struct copied field by field, the copy owned by the slot.
    DeepCopy,
}

/// What a store into a field or an element does, besides storing.
pub struct StorePlan {
    pub old: OldValue,
    pub new: NewValue,
    /// A variable whose struct ownership ends because its value moved into the slot.
    pub forget_source: Option<String>,
    /// The length that the index is checked against, for an element.
    pub bounds: Option<usize>,
}

/// The old-value treatment by value.
pub enum OldV {
    Keep,
    ReleaseString,
    ReleaseStruct(Seq<char>),
}

pub open spec fn old_view(o: OldValue) -> OldV {
    match o {
        OldValue::Keep => OldV::Keep,
        OldValue::ReleaseString => OldV::ReleaseString,
        OldValue::ReleaseStruct(n) => OldV::ReleaseStruct(n@),
    }
}

/// A store plan by value.
pub type StoreV = (OldV, NewValue, Option<Seq<char>>, Option<usize>);

pub open spec fn store_view(p: StorePlan) -> StoreV {
    (old_view(p.old), p.new, match p.forget_source {
        Some(s) => Some(s@),
        None => None,
    }, p.bounds)
}

/// Whether a string value is fresh, owned by nobody yet: a call's result or
/// a concatenation.
pub open spec fn is_fresh_string(rhs: HExpr) -> bool {
    rhs is Call || (rhs matches HExpr::Binary(_, op, _, _, _) && op == BinOp::Add)
}

/// The type of field `index` of the struct called `name`, if both exist.
pub open spec fn field_type(structs: Seq<(Seq<char>, FieldsV)>, name: Seq<char>, index: nat) -> Option<TypeV> {
    match struct_lookup(structs, name) {
        Some(fs) => if index < fs.len() { Some(fs[index as int].1) } else { None },
        None => None,
    }
}

/// What the slot's old value gets, by the slot's type.
pub open spec fn old_treatment(t: Option<TypeV>) -> OldV {
    match t {
        Some(TypeV::String) => OldV::ReleaseString,
        Some(TypeV::Struct(n)) => OldV::ReleaseStruct(n),
        _ => OldV::Keep,
    }
}

/// A store into a slot of type `t` of the value of `rhs`: strings are shared
/// unless fresh; in a struct field a struct is copied, and a variable that
/// gave its value up to a field that holds no string loses its struct.
pub open spec fn spec_field_store(t: Option<TypeV>, rhs: HExpr) -> StoreV {
    (
        old_treatment(t),
        match t {
            Some(TypeV::String) => if is_fresh_string(rhs) { NewValue::Plain } else { NewValue::RetainString },
            Some(TypeV::Struct(_)) => NewValue::DeepCopy,
            _ => NewValue::Plain,
        },
        match t {
            Some(TypeV::String) | None => None,
            Some(_) => match rhs {
                HExpr::Ident(n, _, _) => Some(n),
                _ => None,
            },
        },
        None,
    )
}

/// A store into an element of type `t` (if known) of an array of `len`
/// elements (if known): the index is checked against the length, strings are
/// shared unless fresh.
pub open spec fn spec_element_store(t: Option<TypeV>, len: Option<usize>, rhs: HExpr) -> StoreV {
    (
        old_treatment(t),
        match t {
            Some(TypeV::String) => if is_fresh_string(rhs) { NewValue::Plain } else { NewValue::RetainString },
            _ => NewValue::Plain,
        },
        None,
        len,
    )
}

fn fresh_string(rhs: &HirExpr) -> (r: bool)
    ensures
        r == is_fresh_string(rhs@),
{
    match rhs {
        HirExpr::Call(..) => true,
        HirExpr::Binary { op, .. } => match op {
            BinOp::Add => true,
            _ => false,
        },
        _ => false,
    }
}

fn old_for(t: Option<&Type>) -> (r: OldValue)
    ensures
        old_view(r) == old_treatment(match t {
            Some(x) => Some(x@),
            None => None,
        }),
{
    match t {
        Some(Type::String) => OldValue::ReleaseString,
        Some(Type::Struct(n)) => OldValue::ReleaseStruct(n.clone()),
        _ => OldValue::Keep,
    }
}

/// The type of field `index` of the struct called `name`, if both exist.
pub fn field_type_of<'a>(structs: &'a Vec<(String, Vec<(String, Type)>)>, name: &String, index: usize) -> (r: Option<&'a Type>)
    ensures
        match r {
            Some(t) => field_type(structs_view(structs@), name@, index as nat) == Some(t@),
            None => field_type(structs_view(structs@), name@, index as nat) is None,
        },
{
    match find_struct_fields(structs, name) {
        Some(k) => {
            let fs = &structs[k].1;
            assert(structs_view(structs@)[k as int].1 == fields_view(fs@));
            if index < fs.len() {
                Some(&fs[index].1)
            } else {
                None
            }
        },
        None => None,
    }
}

/// What storing `rhs` into field `index` of a struct of type `struct_name` does.
pub fn field_store_plan(
    struct_name: &String,
    index: usize,
    rhs: &HirExpr,
    structs: &Vec<(String, Vec<(String, Type)>)>,
) -> (p: StorePlan)
    ensures
        store_view(p) == spec_field_store(field_type(structs_view(structs@), struct_name@, index as nat), rhs@),
{
    let t = field_type_of(structs, struct_name, index);
    let old = old_for(t);
    let new = match t {
        Some(Type::String) => if fresh_string(rhs) { NewValue::Plain } else { NewValue::RetainString },
        Some(Type::Struct(_)) => NewValue::DeepCopy,
        _ => NewValue::Plain,
    };
    let forget_source = match t {
        Some(Type::String) | None => None,
        Some(_) => match rhs {
            HirExpr::Ident { name, .. } => Some(name.clone()),
            _ => None,
        },
    };
    StorePlan { old, new, forget_source, bounds: None }
}

/// What storing `rhs` into an element of type `elem` (if known) of an array
/// of `len` elements (if known) does.
pub fn element_store_plan(elem: Option<&Type>, len: Option<usize>, rhs: &HirExpr) -> (p: StorePlan)
    ensures
        store_view(p) == spec_element_store(match elem {
            Some(t) => Some(t@),
            None => None,
        }, len, rhs@),
{
    let old = old_for(elem);
    let new = match elem {
        Some(Type::String) => if fresh_string(rhs) { NewValue::Plain } else { NewValue::RetainString },
        _ => NewValue::Plain,
    };
    StorePlan { old, new, forget_source: None, bounds: len }
}

/// What an expression statement leaves to clean up.
#[derive(Debug, Clone, Copy, PartialEq, Eq, Structural)]
pub enum Cleanup {
    Nothing,
    /// Its string result is released.
    ReleaseString,
    /// Its heap result is dropped by one reference, freed at none.
    ReleaseBlock,
}

/// Whether an expression makes a new heap value that only it holds: a struct
/// or array literal, an operation, or a call.
pub open spec fn is_temporary(e: HExpr) -> bool {
    e is AllocStruct || e is ArrayLiteral || e is Binary || e is Call
}

/// An expression statement's temporary result, when it is a pointer, is
/// released: as a string when it has the string type, else as a block.
pub open spec fn spec_expr_cleanup(e: HExpr, is_pointer: bool, structs: Seq<(Seq<char>, FieldsV)>) -> Cleanup {
    if is_temporary(e) && is_pointer {
        if expr_type_of(e, structs) is String { Cleanup::ReleaseString } else { Cleanup::ReleaseBlock }
    } else {
        Cleanup::Nothing
    }
}

/// Whether an expression makes a new heap value that only it holds.
pub fn temporary(e: &HirExpr) -> (r: bool)
    ensures
        r == is_temporary(e@),
{
    match e {
        HirExpr::AllocStruct(..) | HirExpr::ArrayLiteral(..) | HirExpr::Binary { .. } | HirExpr::Call(..) => true,
        _ => false,
    }
}

/// What an expression statement leaves to clean up; `is_pointer` says its
/// value came out as a pointer.
pub fn expr_cleanup(e: &HirExpr, is_pointer: bool, structs: &Vec<(String, Vec<(String, Type)>)>) -> (r: Cleanup)
    ensures
        r == spec_expr_cleanup(e@, is_pointer, structs_view(structs@)),
{
    if temporary(e) && is_pointer {
        match crate::emit::type_of_expr(e, structs) {
            Type::String => Cleanup::ReleaseString,
            _ => Cleanup::ReleaseBlock,
        }
    } else {
        Cleanup::Nothing
    }
}

/// What `return v` does besides releasing every owner: the variable it
/// returns stops owning, and a field's value is shared or copied.
pub struct ReturnPlan {
    pub forget: Option<String>,
    pub value: NewValue,
}

/// `return v`: a returned variable gives up its values to the caller; a
/// returned string field is shared and a struct field copied.
pub open spec fn spec_return_plan(v: HExpr, structs: Seq<(Seq<char>, FieldsV)>) -> (Option<Seq<char>>, NewValue) {
    (
        match v {
            HExpr::Ident(n, _, _) => Some(n),
            _ => None,
        },
        match v {
            HExpr::FieldLoad(_, index, sname, _) => match field_type(structs, sname, index) {
                Some(TypeV::String) => NewValue::RetainString,
                Some(TypeV::Struct(_)) => NewValue::DeepCopy,
                _ => NewValue::Plain,
            },
            _ => NewValue::Plain,
        },
    )
}

/// What `return v` does besides releasing every owner.
pub fn return_plan(v: &HirExpr, structs: &Vec<(String, Vec<(String, Type)>)>) -> (p: ReturnPlan)
    ensures
        (match p.forget {
            Some(s) => Some(s@),
            None => None,
        }, p.value) == spec_return_plan(v@, structs_view(structs@)),
{
    let forget = match v {
        HirExpr::Ident { name, .. } => Some(name.clone()),
        _ => None,
    };
    let value = match v {
        HirExpr::FieldLoad { index, struct_name, .. } => match field_type_of(structs, struct_name, *index) {
            Some(Type::String) => NewValue::RetainString,
            Some(Type::Struct(_)) => NewValue::DeepCopy,
            _ => NewValue::Plain,
        },
        _ => NewValue::Plain,
    };
    ReturnPlan { forget, value }
}

/// A struct's own block is released last, after every heap part it holds.
pub proof fn law_struct_block_released_last(structs: Seq<(Seq<char>, FieldsV)>, name: Seq<char>)
    requires
        struct_lookup(structs, name) is Some,
    ensures
        spec_struct_release(structs, name).len() >= 1,
        spec_struct_release(structs, name).last() == PartV::Block(Slot::Whole),
        forall|j: int| 0 <= j < spec_struct_release(structs, name).len() - 1
            ==> !(#[trigger] spec_struct_release(structs, name)[j] is Block),
{
    let fs = struct_lookup(structs, name)->0;
    lemma_field_parts_not_blocks(fs);
}

proof fn lemma_field_parts_not_blocks(fs: FieldsV)
    ensures
        forall|j: int| 0 <= j < field_parts(fs).len() ==> !(#[trigger] field_parts(fs)[j] is Block),
    decreases fs.len(),
{
    if fs.len() > 0 {
        lemma_field_parts_not_blocks(fs.drop_last());
        let r = field_parts(fs.drop_last());
        assert forall|j: int| 0 <= j < field_parts(fs).len() implies !(#[trigger] field_parts(fs)[j] is Block) by {
            if j < r.len() {
                assert(field_parts(fs)[j] == r[j]);
            }
        }
    }
}

/// An array owner releases each element that holds a heap reference, then
/// the array's own block, last.
pub proof fn law_array_block_released_last(n: Seq<char>, e: TypeV, c: nat)
    ensures
        spec_owner_release(OwnerV::Array(n, e, c)).last() == PartV::Block(Slot::Whole),
        (e is String || e is Struct) ==> spec_owner_release(OwnerV::Array(n, e, c)).len() == c + 1,
        !(e is String || e is Struct) ==> spec_owner_release(OwnerV::Array(n, e, c)).len() == 1,
{
}

} // verus!
