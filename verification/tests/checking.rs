use restc::ast::Stmt;
use restc::lexer::lexer::Lexer;
use restc::parser::parser::Parser;
use restc::typeck::{nesting_depth, TypeChecker, TypeContext};

fn parse(src: &str) -> Vec<Stmt> {
    let mut lexer = Lexer::new(src);
    let tokens = lexer.tokenize().expect("lexes");
    let mut parser = Parser::new(&tokens);
    parser.parse_file().expect("parses")
}

fn check(src: &str) -> Result<TypeContext, String> {
    let stmts = parse(src);
    let mut checker = TypeChecker::new();
    match checker.check(&stmts) {
        Ok(()) => Ok(checker.into_context()),
        Err(e) => Err(e.message()),
    }
}

#[test]
fn well_typed_program() {
    let ctx = check(
        "struct P { x: i32, y: i32 }\n\
         fn add(a: i32, b: i32) -> i32 { return a + b; }\n\
         fn main() { let p = P { x: 1, y: 2 }; let s: i32 = add(p.x, p.y); let b: bool = s < 10; print(s); }",
    )
    .unwrap();
    assert_eq!(ctx.struct_types.len(), 1);
    assert_eq!(ctx.struct_types[0].0, "P");
    assert!(!ctx.expr_types.is_empty());
}

#[test]
fn functions_can_be_used_before_their_definition() {
    assert!(check("fn main() { let x: i32 = later(); } fn later() -> i32 { return 1; }").is_ok());
}

#[test]
fn undefined_variable_message() {
    assert_eq!(check("fn main() { print(y); }").unwrap_err(), "type error at 1:19: undefined variable `y`");
}

#[test]
fn undefined_function_message() {
    let err = check("fn main() { nope(); }").unwrap_err();
    assert!(err.ends_with("undefined function `nope`"), "{}", err);
}

#[test]
fn literal_out_of_range() {
    let err = check("let x: i8 = 200;").unwrap_err();
    assert!(err.ends_with("literal `200` does not fit in type `i8`"), "{}", err);
    assert!(check("let x: i8 = 127;").is_ok());
    let err = check("let x: u8 = -1;");
    // `-1` is a negation of the literal `1`, which fits.
    assert!(err.is_ok() || err.unwrap_err().contains("u8"));
}

#[test]
fn logical_operators_need_bool() {
    let err = check("let b = 1 && 2;").unwrap_err();
    assert!(err.ends_with("operator `&&` requires operands of type `bool`, found `i32`"), "{}", err);
}

#[test]
fn comparison_yields_bool() {
    assert!(check("let b: bool = 1 < 2;").is_ok());
    let err = check("let b: i32 = 1 < 2;").unwrap_err();
    assert!(err.ends_with("expected `i32`, found `bool`"), "{}", err);
}

#[test]
fn mismatched_operands() {
    let err = check("let a: i64 = 1i64; let b = a + 1u8;").unwrap_err();
    assert!(err.ends_with("expected `i64`, found `u8`"), "{}", err);
}

#[test]
fn missing_and_unexpected_returns() {
    let err = check("fn f() -> i32 { let x = 1; }").unwrap_err();
    assert!(err.ends_with("missing return statement in function with return type"), "{}", err);
    let err = check("fn f() { return 1; }").unwrap_err();
    assert!(err.ends_with("unexpected return value in void function"), "{}", err);
}

#[test]
fn control_flow_outside_context() {
    assert!(check("break;").unwrap_err().ends_with("break outside loop"));
    assert!(check("continue;").unwrap_err().ends_with("continue outside loop"));
    assert!(check("return;").unwrap_err().ends_with("return outside function"));
    assert!(check("while true { break; }").is_ok());
}

#[test]
fn duplicates() {
    assert!(check("struct P { x: i32, x: i32 }").unwrap_err().ends_with("duplicate field `x`"));
    assert!(check("struct P { x: i32 } struct P { y: i32 }").unwrap_err().ends_with("duplicate struct `P`"));
    assert!(check("fn f() { } fn f() { }").unwrap_err().ends_with("duplicate function `f`"));
}

#[test]
fn wrong_argument_count() {
    let err = check("fn f(a: i32) { } fn main() { f(1, 2); }").unwrap_err();
    assert!(err.ends_with("expected 1 arguments, found 2"), "{}", err);
}

#[test]
fn annotations_and_void() {
    assert!(check("let x;").unwrap_err().ends_with("type annotation required for `x`"));
    assert!(check("let x: void;").unwrap_err().ends_with("variable `x` cannot have type `void`"));
}

#[test]
fn fields_and_structs() {
    let err = check("struct P { x: i32 } fn main() { let p = P { x: 1 }; print(p.z); }").unwrap_err();
    assert!(err.ends_with("no field `z` on struct `P`"), "{}", err);
    let err = check("fn main() { let a = 1; print(a.z); }").unwrap_err();
    assert!(err.ends_with("`i32` is not a struct"), "{}", err);
}

#[test]
fn conditions_must_be_bool() {
    let err = check("if 1 { }").unwrap_err();
    assert!(err.ends_with("`if` condition requires `bool`, found non-bool expression"), "{}", err);
}

#[test]
fn assignment_targets() {
    let err = check("fn main() { 1 = 2; }").unwrap_err();
    assert!(err.ends_with("expression is not assignable"), "{}", err);
}

#[test]
fn array_index_must_be_integer() {
    let err = check("fn main() { let a = i32{1, 2}; print(a[true]); }").unwrap_err();
    assert!(err.ends_with("array index must be an integer"), "{}", err);
}

#[test]
fn err_assign_to_temp_struct() {
    let err = check(
        r#"
struct Point { x: i32, y: i32 }
fn main() {
    Point { x: 1, y: 2 }.x = 5;
}
"#,
    )
    .unwrap_err();
    assert!(err.contains("not assignable"), "got: {}", err);
}

#[test]
fn fields_of_places_stay_assignable() {
    assert!(check("struct P { x: i32 } fn main() { let p = P { x: 1 }; p.x = 5; }").is_ok());
    let err = check("fn main() { 42 = 1; }").unwrap_err();
    assert!(err.ends_with("expression is not assignable"), "got: {}", err);
}

#[test]
fn block_bindings_end_with_the_block() {
    let err = check("fn main() { if (true) { let x: i32 = 1; } print(x); }").unwrap_err();
    assert!(err.ends_with("undefined variable `x`"), "got: {}", err);
    let err = check("fn main() { while (false) { let y: i32 = 1; } print(y); }").unwrap_err();
    assert!(err.ends_with("undefined variable `y`"), "got: {}", err);
    let err = check("fn main() { for i in 0..3 { } print(i); }").unwrap_err();
    assert!(err.ends_with("undefined variable `i`"), "got: {}", err);
    assert!(check("fn main() { let x: i32 = 2; if (true) { let x: bool = true; } let y: i32 = x; }").is_ok());
}

#[test]
fn nesting_depth_counts_nested_blocks() {
    assert_eq!(nesting_depth(&parse("let x: i32 = 1;")), Some(0));
    assert_eq!(nesting_depth(&parse("fn main() { let x: i32 = 1; }")), Some(1));
    let deep = parse(
        "fn f() { } fn main() { while true { if true { } else { for i in 0..3 { } } } }",
    );
    assert_eq!(nesting_depth(&deep), Some(4));
}

#[test]
fn references_are_seen_through_and_not_assignable() {
    assert!(check(
        "struct P { x: i32 } struct H { r: string }\n\
         fn main() { let p = P { x: 1 }; let r = &p; let v: i32 = r.x;\n\
         let a = [1, 2, 3]; let q = ref a; let w: i32 = q[0];\n\
         let t = \"s\"; let h = H { r: &t }; let rr = ref ref t; }",
    )
    .is_ok());
    let err = check("fn main() { let x = 1; ref x = 2; }").unwrap_err();
    assert!(err.starts_with("type error at 1:"), "got: {}", err);
    assert!(err.ends_with(": cannot assign to a reference"), "got: {}", err);
    let err = check("fn main() { let x = 1; let r = &x; let v = r.f; }").unwrap_err();
    assert!(err.contains("`*i32` is not a struct"), "got: {}", err);
}
