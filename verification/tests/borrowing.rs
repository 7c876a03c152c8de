use restc::borrowck::{collect_borrow_sources, BorrowChecker, BorrowCtx, BorrowError};
use restc::hir::{HirExpr, HirStmt};
use restc::lexer::lexer::Lexer;
use restc::lexer::token::Span;
use restc::lower::Lowerer;
use restc::parser::parser::Parser;
use restc::ty::Type;
use restc::typeck::TypeChecker;

fn sp(line: usize, col: usize) -> Span {
    Span::new(0, 0, line, col)
}

fn ident(name: &str, ty: Type, line: usize) -> HirExpr {
    HirExpr::Ident { name: name.to_string(), ty, span: sp(line, 1) }
}

fn let_(name: &str, ty: Type, init: HirExpr, line: usize) -> HirStmt {
    HirStmt::Let { name: name.to_string(), ty, init, owner: false, span: sp(line, 5) }
}

fn foo() -> Type {
    Type::Struct("Foo".to_string())
}

fn borrow(name: &str, line: usize) -> HirExpr {
    HirExpr::AddressOf(Box::new(ident(name, foo(), line)), sp(line, 9))
}

fn pipeline(src: &str) -> Result<(), String> {
    let mut lexer = Lexer::new(src);
    let tokens = lexer.tokenize().map_err(|e| e.message)?;
    let mut parser = Parser::new(&tokens);
    let stmts = parser.parse_file().map_err(|e| e.text())?;
    let mut checker = TypeChecker::new();
    checker.check(&stmts).map_err(|e| e.message())?;
    let mut lowerer = Lowerer::new(checker.into_context());
    let hir = lowerer.lower(&stmts).map_err(|e| e.text())?;
    BorrowChecker::new().check(&hir)
}

#[test]
fn use_after_move_of_struct() {
    let err = pipeline("struct Foo { a: i32 } fn main() { let x = Foo { a: 1 }; let y = x; print(x.a); }").unwrap_err();
    assert!(err.starts_with("borrow check failed:\n"), "{}", err);
    assert!(err.contains("use after move: `x`"), "{}", err);
}

#[test]
fn use_after_move_of_string() {
    let err = pipeline("fn main() { let x = \"hello\"; let y = x; print(x); }").unwrap_err();
    assert!(err.contains("use after move: `x`"), "{}", err);
}

#[test]
fn copy_values_stay_usable() {
    assert!(pipeline("fn main() { let x = 1; let y = x; print(x); }").is_ok());
}

#[test]
fn reassignment_revives() {
    assert!(pipeline("fn main() { let x = \"a\"; let y = x; x = \"b\"; print(x); }").is_ok());
}

#[test]
fn self_shadowing_is_no_move() {
    assert!(pipeline("fn main() { let x = \"a\"; let x = x; print(x); }").is_ok());
}

#[test]
fn moving_into_a_call_moves() {
    let err = pipeline("fn take(s: string) { } fn main() { let x = \"a\"; take(x); print(x); }").unwrap_err();
    assert!(err.contains("use after move: `x`"), "{}", err);
}

#[test]
fn moving_a_borrowed_variable_is_rejected() {
    let prog = vec![
        let_("s", foo(), HirExpr::AllocStruct("Foo".to_string(), vec![], sp(2, 13)), 2),
        let_("r", Type::Pointer(Box::new(foo())), borrow("s", 3), 3),
        let_("s2", foo(), ident("s", foo(), 4), 4),
    ];
    let err = BorrowChecker::new().check(&prog).unwrap_err();
    assert_eq!(err, "borrow check failed:\nborrow error at 4:5: cannot move `s`: it is borrowed by `r`");
}

#[test]
fn borrows_are_transitive() {
    let prog = vec![
        let_("s", foo(), HirExpr::AllocStruct("Foo".to_string(), vec![], sp(1, 1)), 1),
        let_("r", foo(), borrow("s", 2), 2),
        let_("q", foo(), borrow("r", 3), 3),
        let_("t", foo(), ident("s", foo(), 4), 4),
    ];
    let err = BorrowChecker::new().check(&prog).unwrap_err();
    assert!(err.ends_with("cannot move `s`: it is borrowed by `r, q`"), "{}", err);
}

#[test]
fn returning_a_local_borrow_is_rejected() {
    let prog = vec![HirStmt::Fn {
        name: "f".to_string(),
        params: vec![],
        ret: foo(),
        body: vec![
            let_("s", foo(), HirExpr::AllocStruct("Foo".to_string(), vec![], sp(1, 1)), 1),
            let_("r", foo(), borrow("s", 2), 2),
            HirStmt::Return(Some(ident("r", foo(), 3)), sp(3, 2)),
        ],
        decorators: vec![],
        span: sp(1, 1),
    }];
    let err = BorrowChecker::new().check(&prog).unwrap_err();
    assert!(err.ends_with("borrow error at 3:2: cannot return local borrow `r`"), "{}", err);
}

#[test]
fn assigning_to_a_borrowed_variable_is_rejected() {
    let prog = vec![
        let_("s", foo(), HirExpr::AllocStruct("Foo".to_string(), vec![], sp(1, 1)), 1),
        let_("r", foo(), borrow("s", 2), 2),
        HirStmt::Expr(
            HirExpr::Assign {
                lhs: Box::new(ident("s", foo(), 3)),
                rhs: Box::new(HirExpr::AllocStruct("Foo".to_string(), vec![], sp(3, 5))),
                span: sp(3, 1),
            },
            sp(3, 1),
        ),
    ];
    let err = BorrowChecker::new().check(&prog).unwrap_err();
    assert!(err.ends_with("cannot assign to borrowed variable `s`: it is borrowed by `r`"), "{}", err);
}

#[test]
fn every_error_is_reported() {
    let prog = vec![
        let_("x", foo(), HirExpr::AllocStruct("Foo".to_string(), vec![], sp(1, 1)), 1),
        let_("y", foo(), ident("x", foo(), 2), 2),
        HirStmt::Expr(HirExpr::Print(Box::new(ident("x", foo(), 3)), sp(3, 1)), sp(3, 1)),
        HirStmt::Expr(HirExpr::Print(Box::new(ident("x", foo(), 4)), sp(4, 1)), sp(4, 1)),
    ];
    let err = BorrowChecker::new().check(&prog).unwrap_err();
    assert_eq!(
        err,
        "borrow check failed:\nborrow error at 3:1: use after move: `x`\nborrow error at 4:1: use after move: `x`"
    );
}

#[test]
fn functions_are_checked_separately() {
    let prog = vec![
        let_("x", foo(), HirExpr::AllocStruct("Foo".to_string(), vec![], sp(1, 1)), 1),
        let_("y", foo(), ident("x", foo(), 2), 2),
        HirStmt::Fn {
            name: "g".to_string(),
            params: vec![],
            ret: Type::Void,
            body: vec![HirStmt::Expr(HirExpr::Print(Box::new(ident("x", foo(), 4)), sp(4, 1)), sp(4, 1))],
            decorators: vec![],
            span: sp(3, 1),
        },
    ];
    assert!(BorrowChecker::new().check(&prog).is_ok());
}

#[test]
fn borrow_sources_see_through_paths() {
    let e = HirExpr::Call(
        "f".to_string(),
        vec![
            HirExpr::AddressOf(
                Box::new(HirExpr::AddressOf(
                    Box::new(HirExpr::FieldLoad {
                        object: Box::new(ident("s", foo(), 1)),
                        index: 0,
                        struct_name: "Foo".to_string(),
                        span: sp(1, 1),
                    }),
                    sp(1, 1),
                )),
                sp(1, 1),
            ),
            HirExpr::AddressOf(Box::new(ident("n", Type::I32, 1)), sp(1, 1)),
        ],
        sp(1, 1),
    );
    assert_eq!(collect_borrow_sources(&e), vec!["s".to_string()]);
}

#[test]
fn context_operations() {
    let mut ctx = BorrowCtx::new();
    ctx.record_borrow_of(&"r".to_string(), &"s".to_string());
    assert!(ctx.is_borrower(&"r".to_string()));
    assert!(!ctx.is_borrower(&"s".to_string()));
    ctx.mark_moved(&"a".to_string());
    ctx.unmark_moved(&"a".to_string());
    ctx.error_at(None, "plain".to_string());
    let e = BorrowError { message: "plain".to_string(), span: None };
    assert_eq!(e.text(), "borrow error: plain");
}

#[test]
fn self_assignment_leaves_the_variable_usable() {
    assert!(pipeline("fn main() { let x = \"a\"; x = x; print(x); }").is_ok());
}

#[test]
fn moves_in_one_function_do_not_reach_another() {
    assert!(pipeline(
        "fn f() { let x = \"a\"; let y = x; } fn g() { let x = \"b\"; print(x); } fn main() { }"
    )
    .is_ok());
}

#[test]
fn reassignment_revives_a_moved_variable_in_a_program() {
    assert!(pipeline("fn main() { let x = \"a\"; let y = x; x = \"b\"; print(x); }").is_ok());
    let err = pipeline("fn main() { let x = \"a\"; let y = x; print(x); }").unwrap_err();
    assert!(err.contains("use after move: `x`"), "got: {}", err);
}
