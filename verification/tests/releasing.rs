use restc::hir::HirExpr;
use restc::lexer::token::Span;
use restc::ops::BinOp;
use restc::ownership::Owner;
use restc::release::{
    element_store_plan, expr_cleanup, field_store_plan, owned_fields, owner_release_plan, return_plan,
    struct_release_plan, Cleanup, NewValue, OldValue, Part, Slot,
};
use restc::ty::Type;

fn sp() -> Span {
    Span { start: 0, end: 0, line: 1, col: 1 }
}

fn structs() -> Vec<(String, Vec<(String, Type)>)> {
    vec![
        ("Inner".to_string(), vec![("n".to_string(), Type::I32)]),
        (
            "Outer".to_string(),
            vec![
                ("a".to_string(), Type::I32),
                ("name".to_string(), Type::String),
                ("inner".to_string(), Type::Struct("Inner".to_string())),
            ],
        ),
    ]
}

fn ident(name: &str, ty: Type) -> HirExpr {
    HirExpr::Ident { name: name.to_string(), ty, span: sp() }
}

#[test]
fn struct_release_visits_owned_fields_then_the_block() {
    let plan = struct_release_plan(&"Outer".to_string(), &structs());
    assert_eq!(plan.len(), 3);
    assert!(matches!(plan[0], Part::String(Slot::Field(1))));
    assert!(matches!(&plan[1], Part::Struct(Slot::Field(2), n) if n == "Inner"));
    assert!(matches!(plan[2], Part::Block(Slot::Whole)));
    let plain = struct_release_plan(&"Inner".to_string(), &structs());
    assert_eq!(plain.len(), 1);
    assert!(struct_release_plan(&"Missing".to_string(), &structs()).is_empty());
}

#[test]
fn owner_release_by_kind() {
    let s = owner_release_plan(&Owner::String("s".to_string()));
    assert!(matches!(s[..], [Part::String(Slot::Whole)]));
    let p = owner_release_plan(&Owner::Struct("p".to_string(), "Outer".to_string()));
    assert!(matches!(&p[..], [Part::Struct(Slot::Whole, n)] if n == "Outer"));
    let a = owner_release_plan(&Owner::Array("a".to_string(), Type::String, 2));
    assert_eq!(a.len(), 3);
    assert!(matches!(a[0], Part::Block(Slot::Element(0))));
    assert!(matches!(a[1], Part::Block(Slot::Element(1))));
    assert!(matches!(a[2], Part::Block(Slot::Whole)));
    let b = owner_release_plan(&Owner::Array("b".to_string(), Type::Struct("Inner".to_string()), 1));
    assert!(matches!(&b[0], Part::Struct(Slot::Element(0), n) if n == "Inner"));
    let c = owner_release_plan(&Owner::Array("c".to_string(), Type::I64, 5));
    assert!(matches!(c[..], [Part::Block(Slot::Whole)]));
}

#[test]
fn owned_fields_in_order() {
    let parts = owned_fields(&structs()[1].1);
    assert_eq!(parts.len(), 2);
    assert!(matches!(parts[0], Part::String(Slot::Field(1))));
}

#[test]
fn storing_into_fields() {
    let sf = structs();
    let outer = "Outer".to_string();
    let p = field_store_plan(&outer, 1, &HirExpr::String("x".to_string(), sp()), &sf);
    assert!(matches!(p.old, OldValue::ReleaseString));
    assert_eq!(p.new, NewValue::RetainString);
    assert!(p.forget_source.is_none());
    let call = HirExpr::Call("f".to_string(), vec![], sp());
    assert_eq!(field_store_plan(&outer, 1, &call, &sf).new, NewValue::Plain);
    let q = field_store_plan(&outer, 2, &ident("v", Type::Struct("Inner".to_string())), &sf);
    assert!(matches!(&q.old, OldValue::ReleaseStruct(n) if n == "Inner"));
    assert_eq!(q.new, NewValue::DeepCopy);
    assert_eq!(q.forget_source.as_deref(), Some("v"));
    let r = field_store_plan(&outer, 0, &ident("k", Type::I32), &sf);
    assert!(matches!(r.old, OldValue::Keep));
    assert_eq!(r.new, NewValue::Plain);
    assert_eq!(r.forget_source.as_deref(), Some("k"));
    assert!(field_store_plan(&outer, 9, &ident("k", Type::I32), &sf).forget_source.is_none());
}

#[test]
fn storing_into_elements() {
    let add = HirExpr::Binary {
        lhs: Box::new(ident("a", Type::String)),
        op: BinOp::Add,
        rhs: Box::new(ident("b", Type::String)),
        ty: Type::String,
        span: sp(),
    };
    let p = element_store_plan(Some(&Type::String), Some(4), &add);
    assert!(matches!(p.old, OldValue::ReleaseString));
    assert_eq!(p.new, NewValue::Plain);
    assert_eq!(p.bounds, Some(4));
    let q = element_store_plan(Some(&Type::String), None, &ident("s", Type::String));
    assert_eq!(q.new, NewValue::RetainString);
    assert_eq!(q.bounds, None);
    let r = element_store_plan(None, None, &ident("s", Type::I32));
    assert!(matches!(r.old, OldValue::Keep));
}

#[test]
fn expression_statements_release_temporaries() {
    let sf = structs();
    let call = HirExpr::Call("f".to_string(), vec![], sp());
    assert_eq!(expr_cleanup(&call, true, &sf), Cleanup::ReleaseBlock);
    assert_eq!(expr_cleanup(&call, false, &sf), Cleanup::Nothing);
    let concat = HirExpr::Binary {
        lhs: Box::new(ident("a", Type::String)),
        op: BinOp::Add,
        rhs: Box::new(ident("b", Type::String)),
        ty: Type::String,
        span: sp(),
    };
    assert_eq!(expr_cleanup(&concat, true, &sf), Cleanup::ReleaseString);
    assert_eq!(expr_cleanup(&ident("s", Type::String), true, &sf), Cleanup::Nothing);
}

#[test]
fn returns_give_up_variables_and_copy_fields() {
    let sf = structs();
    let p = return_plan(&ident("x", Type::String), &sf);
    assert_eq!(p.forget.as_deref(), Some("x"));
    assert_eq!(p.value, NewValue::Plain);
    let load = |index: usize| HirExpr::FieldLoad {
        object: Box::new(ident("o", Type::Struct("Outer".to_string()))),
        index,
        struct_name: "Outer".to_string(),
        span: sp(),
    };
    assert_eq!(return_plan(&load(1), &sf).value, NewValue::RetainString);
    assert_eq!(return_plan(&load(2), &sf).value, NewValue::DeepCopy);
    assert_eq!(return_plan(&load(0), &sf).value, NewValue::Plain);
    assert!(return_plan(&load(0), &sf).forget.is_none());
}
