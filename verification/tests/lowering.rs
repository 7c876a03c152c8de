use restc::ast::Stmt;
use restc::hir::{HirExpr, HirStmt};
use restc::lexer::lexer::Lexer;
use restc::lower::Lowerer;
use restc::parser::parser::Parser;
use restc::typeck::TypeChecker;
use restc::ty::Type;

fn lower(src: &str) -> Result<Vec<HirStmt>, String> {
    let mut lexer = Lexer::new(src);
    let tokens = lexer.tokenize().expect("lexes");
    let mut parser = Parser::new(&tokens);
    let stmts: Vec<Stmt> = parser.parse_file().expect("parses");
    let mut checker = TypeChecker::new();
    checker.check(&stmts).map_err(|e| e.message())?;
    let mut lowerer = Lowerer::new(checker.into_context());
    lowerer.lower(&stmts).map_err(|e| e.text())
}

fn main_body(hir: &[HirStmt]) -> &Vec<HirStmt> {
    for s in hir {
        if let HirStmt::Fn { name, body, .. } = s {
            if name == "main" {
                return body;
            }
        }
    }
    panic!("no main")
}

#[test]
fn struct_literal_fields_follow_declaration_order() {
    let hir = lower("struct P { x: i32, y: i32 } fn main() { let p = P { y: 2, x: 1 }; }").unwrap();
    match &main_body(&hir)[0] {
        HirStmt::Let { init: HirExpr::AllocStruct(name, fields, _), owner, ty, .. } => {
            assert_eq!(name, "P");
            assert_eq!(fields[0].0, "x");
            assert!(matches!(fields[0].1, HirExpr::Int(1, _, _)));
            assert_eq!(fields[1].0, "y");
            assert!(matches!(fields[1].1, HirExpr::Int(2, _, _)));
            assert!(*owner);
            assert!(matches!(ty, Type::Struct(n) if n == "P"));
        },
        other => panic!("unexpected {:?}", other),
    }
}

#[test]
fn field_access_becomes_position() {
    let hir = lower("struct P { x: i32, y: i32 } fn main() { let p = P { x: 1, y: 2 }; let v = p.y; }").unwrap();
    match &main_body(&hir)[1] {
        HirStmt::Let { init: HirExpr::FieldLoad { index, struct_name, .. }, ty, owner, .. } => {
            assert_eq!(*index, 1);
            assert_eq!(struct_name, "P");
            assert!(matches!(ty, Type::I32));
            assert!(!*owner);
        },
        other => panic!("unexpected {:?}", other),
    }
}

#[test]
fn print_becomes_its_own_node() {
    let hir = lower("fn main() { print(1); }").unwrap();
    assert!(matches!(&main_body(&hir)[0], HirStmt::Expr(HirExpr::Print(_, _), _)));
}

#[test]
fn identifiers_carry_their_type() {
    let hir = lower("fn main() { let s = \"a\"; let t = s; }").unwrap();
    assert!(matches!(&main_body(&hir)[1], HirStmt::Let { init: HirExpr::Ident { ty: Type::String, .. }, .. }));
}

#[test]
fn default_initialisation() {
    let hir = lower("fn main() { let a: i64; let f: f32; let s: string; let b: bool; }").unwrap();
    let body = main_body(&hir);
    assert!(matches!(&body[0], HirStmt::Let { init: HirExpr::Int(0, Type::I64, _), .. }));
    assert!(matches!(&body[1], HirStmt::Let { init: HirExpr::Float(t, Type::F32, _), .. } if t == "0.0"));
    assert!(matches!(&body[2], HirStmt::Let { init: HirExpr::String(s, _), .. } if s.is_empty()));
    assert!(matches!(&body[3], HirStmt::Let { init: HirExpr::Bool(false, _), .. }));
}

#[test]
fn structs_cannot_be_default_initialised() {
    let err = lower("struct P { x: i32 } fn main() { let p: P; }").unwrap_err();
    assert_eq!(err, "lower error at 1:33: type `P` cannot be default-initialized; provide an explicit value");
}

#[test]
fn binary_and_for_types_come_from_the_checker() {
    let hir = lower("fn main() { for i in 0u8..10u8 { let b = i < 3u8; } }").unwrap();
    match &main_body(&hir)[0] {
        HirStmt::For { var_ty, body, .. } => {
            assert!(matches!(var_ty, Type::U8));
            assert!(matches!(&body[0], HirStmt::Let { init: HirExpr::Binary { ty: Type::Bool, .. }, .. }));
        },
        other => panic!("unexpected {:?}", other),
    }
}

#[test]
fn builtin_names() {
    assert!(Lowerer::is_builtin("print"));
    assert!(!Lowerer::is_builtin("printf"));
}

#[test]
fn reads_through_a_reference_are_dereferenced() {
    let hir = lower(
        "struct P { x: i32, n: string } struct H { n: string }\n\
         fn main() { let p = P { x: 1, n: \"a\" }; let r = &p; let v: i32 = r.x;\n\
         let a = [1, 2, 3]; let q = &a; let w: i32 = q[1]; let h = H { n: &p.n }; }",
    )
    .unwrap();
    let body = main_body(&hir);
    match &body[2] {
        HirStmt::Let { init: HirExpr::FieldLoad { object, index, struct_name, .. }, .. } => {
            assert!(matches!(object.as_ref(), HirExpr::Dereference(_, _)));
            assert_eq!(*index, 0);
            assert_eq!(struct_name, "P");
        },
        other => panic!("unexpected {:?}", other),
    }
    match &body[5] {
        HirStmt::Let { init: HirExpr::ArrayIndex { object, .. }, .. } => {
            assert!(matches!(object.as_ref(), HirExpr::Dereference(_, _)));
        },
        other => panic!("unexpected {:?}", other),
    }
    match &body[6] {
        HirStmt::Let { init: HirExpr::AllocStruct(_, fields, _), .. } => {
            assert!(matches!(&fields[0].1, HirExpr::Dereference(inner, _) if matches!(inner.as_ref(), HirExpr::AddressOf(_, _))));
        },
        other => panic!("unexpected {:?}", other),
    }
}
