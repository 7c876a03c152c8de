use restc::emit::{shift_resize, Resize};
use restc::ast::Decorator;
use restc::hir::HirStmt;
use restc::emit::{collect_routes, handler_takes_body, serves_routes, binary_plan, cast_plan, int_print_format, is_unsigned_type, type_of_expr, BinaryPlan, CastPlan, Compare, Operands};
use restc::ops::BinOp;
use restc::hir::HirExpr;
use restc::lexer::token::Span;
use restc::ty::Type;

fn sp() -> Span {
    Span { start: 0, end: 0, line: 1, col: 1 }
}

fn ident(name: &str, ty: Type) -> HirExpr {
    HirExpr::Ident { name: name.to_string(), ty, span: sp() }
}

fn structs() -> Vec<(String, Vec<(String, Type)>)> {
    vec![("P".to_string(), vec![("x".to_string(), Type::I32), ("name".to_string(), Type::String)])]
}

#[test]
fn literals_have_fixed_emission_types() {
    let sf = structs();
    assert!(matches!(type_of_expr(&HirExpr::Int(1, Type::U8, sp()), &sf), Type::I64));
    assert!(matches!(type_of_expr(&HirExpr::Float("1.5".to_string(), Type::F32, sp()), &sf), Type::F64));
    assert!(matches!(type_of_expr(&HirExpr::String("s".to_string(), sp()), &sf), Type::String));
    assert!(matches!(type_of_expr(&HirExpr::Bool(true, sp()), &sf), Type::Bool));
}

#[test]
fn field_load_takes_the_declared_field_type() {
    let sf = structs();
    let load = HirExpr::FieldLoad {
        object: Box::new(ident("p", Type::Struct("P".to_string()))),
        index: 1,
        struct_name: "P".to_string(),
        span: sp(),
    };
    assert!(matches!(type_of_expr(&load, &sf), Type::String));
    let missing = HirExpr::FieldLoad {
        object: Box::new(ident("p", Type::Struct("P".to_string()))),
        index: 5,
        struct_name: "P".to_string(),
        span: sp(),
    };
    assert!(matches!(type_of_expr(&missing, &sf), Type::I64));
}

#[test]
fn element_and_pointee_types_follow_the_container() {
    let sf = structs();
    let arr = ident("a", Type::Array(Box::new(Type::U16), 3));
    let elem = HirExpr::ArrayIndex { object: Box::new(arr), index: Box::new(HirExpr::Int(0, Type::I32, sp())), span: sp() };
    assert!(matches!(type_of_expr(&elem, &sf), Type::U16));
    let addr = HirExpr::AddressOf(Box::new(ident("x", Type::Bool)), sp());
    assert!(matches!(type_of_expr(&addr, &sf), Type::Pointer(ref t) if matches!(**t, Type::Bool)));
    let deref = HirExpr::Dereference(Box::new(addr), sp());
    assert!(matches!(type_of_expr(&deref, &sf), Type::Bool));
    let not_ptr = HirExpr::Dereference(Box::new(ident("y", Type::U8)), sp());
    assert!(matches!(type_of_expr(&not_ptr, &sf), Type::I64));
}

#[test]
fn integer_print_formats() {
    assert_eq!(int_print_format(8, true), "%u\n");
    assert_eq!(int_print_format(16, false), "%d\n");
    assert_eq!(int_print_format(32, true), "%u\n");
    assert_eq!(int_print_format(64, false), "%ld\n");
    assert_eq!(int_print_format(64, true), "%lu\n");
}

#[test]
fn unsigned_types() {
    assert!(is_unsigned_type(&Type::U32));
    assert!(!is_unsigned_type(&Type::I32));
    assert!(!is_unsigned_type(&Type::Bool));
}

#[test]
fn logical_operators_short_circuit() {
    assert_eq!(binary_plan(BinOp::And, Operands::Ints, false, false), BinaryPlan::ShortCircuitAnd);
    assert_eq!(binary_plan(BinOp::Or, Operands::Floats, false, true), BinaryPlan::ShortCircuitOr);
}

#[test]
fn pointer_operands_concatenate_and_compare() {
    assert_eq!(binary_plan(BinOp::Add, Operands::Pointers, true, false), BinaryPlan::Concat);
    assert_eq!(binary_plan(BinOp::Ne, Operands::Pointers, true, false), BinaryPlan::StringEquals { negate: true });
    assert_eq!(binary_plan(BinOp::Eq, Operands::Pointers, false, false), BinaryPlan::PointerEquals { equal: true });
}

#[test]
fn float_operators() {
    assert_eq!(binary_plan(BinOp::Mul, Operands::Floats, false, false), BinaryPlan::FloatArith(BinOp::Mul));
    assert_eq!(binary_plan(BinOp::Le, Operands::Floats, false, false), BinaryPlan::FloatCompare(Compare::Le));
    assert_eq!(binary_plan(BinOp::Shl, Operands::Floats, false, false), BinaryPlan::FloatUnsupported);
}

#[test]
fn integer_operators_follow_signedness() {
    assert_eq!(binary_plan(BinOp::Div, Operands::Ints, false, true), BinaryPlan::CheckedDivide { remainder: false, unsigned: true });
    assert_eq!(binary_plan(BinOp::Rem, Operands::Ints, false, false), BinaryPlan::CheckedDivide { remainder: true, unsigned: false });
    assert_eq!(binary_plan(BinOp::Gt, Operands::Ints, false, true), BinaryPlan::IntCompare(Compare::Gt, true));
    assert_eq!(binary_plan(BinOp::Shr, Operands::Ints, false, false), BinaryPlan::ShiftRight { unsigned: false });
    assert_eq!(binary_plan(BinOp::BitXor, Operands::Ints, false, false), BinaryPlan::IntArith(BinOp::BitXor));
    // Pointer operands of other operators take the integer path.
    assert_eq!(binary_plan(BinOp::Sub, Operands::Pointers, false, false), BinaryPlan::IntArith(BinOp::Sub));
}

#[test]
fn casts_between_integers_follow_widths() {
    assert_eq!(cast_plan(&Type::I32, &Type::I64, 32, 64), CastPlan::SignExtend);
    assert_eq!(cast_plan(&Type::U8, &Type::I32, 8, 32), CastPlan::ZeroExtend);
    assert_eq!(cast_plan(&Type::I64, &Type::U16, 64, 16), CastPlan::Truncate);
    assert_eq!(cast_plan(&Type::I32, &Type::U32, 32, 32), CastPlan::Keep);
}

#[test]
fn casts_involving_pointers() {
    let p = Type::Pointer(Box::new(Type::U8));
    assert_eq!(cast_plan(&Type::String, &p, 0, 0), CastPlan::StringPayload);
    assert_eq!(cast_plan(&Type::Struct("P".to_string()), &p, 0, 0), CastPlan::PointerCast);
    assert_eq!(cast_plan(&p, &Type::U64, 0, 64), CastPlan::PointerToInt);
    assert_eq!(cast_plan(&Type::I64, &p, 64, 0), CastPlan::IntToPointer);
    assert_eq!(cast_plan(&Type::Bool, &Type::F64, 1, 0), CastPlan::Keep);
}

fn function(name: &str, params: Vec<(String, Type)>, decorators: Vec<Decorator>) -> HirStmt {
    HirStmt::Fn { name: name.to_string(), params, ret: Type::String, body: vec![], decorators, span: sp() }
}

fn deco(name: &str, arg: Option<&str>) -> Decorator {
    Decorator { name: name.to_string(), arg: arg.map(|a| a.to_string()), span: sp() }
}

#[test]
fn routes_come_from_decorators_with_paths() {
    let hir = vec![
        function("plain", vec![], vec![]),
        function("items", vec![], vec![deco("get", Some("/items")), deco("cached", None), deco("post", Some("/items"))]),
        HirStmt::Struct { name: "P".to_string(), span: sp() },
        function("health", vec![], vec![deco("get", Some("/health"))]),
    ];
    let routes = collect_routes(&hir);
    let got: Vec<(String, String, String)> =
        routes.into_iter().map(|r| (r.method, r.path, r.function)).collect();
    assert_eq!(
        got,
        vec![
            ("get".to_string(), "/items".to_string(), "items".to_string()),
            ("post".to_string(), "/items".to_string(), "items".to_string()),
            ("get".to_string(), "/health".to_string(), "health".to_string()),
        ]
    );
    assert!(serves_routes(&hir));
    assert!(!serves_routes(&vec![function("plain", vec![], vec![])]));
    assert!(serves_routes(&vec![function("f", vec![], vec![deco("cached", None)])]));
}

#[test]
fn handlers_take_the_body_when_they_accept_one_string() {
    assert!(handler_takes_body(&vec![("body".to_string(), Type::String)]));
    assert!(!handler_takes_body(&vec![]));
    assert!(!handler_takes_body(&vec![("n".to_string(), Type::I32)]));
    assert!(!handler_takes_body(&vec![("a".to_string(), Type::String), ("b".to_string(), Type::String)]));
}

#[test]
fn shift_amounts_follow_the_shifted_width() {
    assert_eq!(shift_resize(64, 64), Resize::Keep);
    assert_eq!(shift_resize(64, 32), Resize::ZeroExtend);
    assert_eq!(shift_resize(8, 32), Resize::Truncate);
}
