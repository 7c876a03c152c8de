use restc::borrowck::BorrowChecker;
use restc::lexer::lexer::Lexer;
use restc::lower::Lowerer;
use restc::parser::parser::Parser;
use restc::typeck::TypeChecker;

/// Runs every stage that decides whether a program is accepted: lexing,
/// parsing, type checking, lowering and borrow checking. The report of the
/// first stage that refuses the program is the error.
fn compile(source: &str) -> Result<(), String> {
    let mut lexer = Lexer::new(source);
    let tokens = lexer.tokenize().map_err(|e| e.text())?;
    let mut parser = Parser::new(&tokens);
    let stmts = parser.parse_file().map_err(|e| e.text())?;
    let mut checker = TypeChecker::new();
    checker.check(&stmts).map_err(|e| e.message())?;
    let mut lowerer = Lowerer::new(checker.into_context());
    let hir = lowerer.lower(&stmts).map_err(|e| e.text())?;
    let mut borrowck = BorrowChecker::new();
    borrowck.check(&hir)
}

fn rejected(source: &str) -> String {
    match compile(source) {
        Ok(()) => panic!("expected compilation error, but got success"),
        Err(e) => e,
    }
}

#[test]
fn test_hello_world() {
    compile(r#"fn main() { print("hello"); }"#).unwrap();
}

#[test]
fn test_array_literal() {
    compile(r#"
fn main() {
    let arr = i32{1, 2, 3};
    print(arr[0]);
}"#).unwrap();
}

#[test]
fn test_borrow_no_double_free() {
    // Borrow from struct then copy: x = r should not create double owner
    compile(r#"
struct Foo { a: i32 }
fn main() {
    let s = Foo { a: 1 };
    let r = &s;
    let x = r;
    print(s.a);
}"#).unwrap();
}

#[test]
fn err_use_after_move() {
    // MiniBC: after `let y = x`, x is moved and cannot be used.
    let err = rejected(r#"
struct Foo { a: i32 }
fn main() {
    let x = Foo { a: 1 };
    let y = x;
    print(x.a);
}
"#);
    assert!(err.contains("use after move"), "got: {}", err);
}

#[test]
fn err_use_after_move_owned() {
    // `let y = x; print(x);` — `x` is owned (string), so this
    // triggers use-after-move. (For Copy types like i32, the
    // assignment is a bitwise copy and a subsequent use is legal.)
    let err = rejected(r#"
fn main() {
    let x = "hello";
    let y = x;
    print(x);
}
"#);
    assert!(err.contains("use after move"), "got: {}", err);
}

#[test]
fn err_double_borrow_blocks_move() {
    // Two simultaneous borrows + a move → error (for owned types).
    let err = rejected(r#"
fn main() {
    let s = "hello";
    let r1 = &s;
    let r2 = &s;
    let y = s;
}
"#);
    assert!(err.contains("cannot move"), "got: {}", err);
}

#[test]
fn err_pass_borrowed_var_to_call() {
    // Moving a borrowed variable into a function call must be rejected.
    let err = rejected(r#"
fn take(x: string) { print(x); }
fn main() {
    let s = "hello";
    let r = &s;
    take(s);
}
"#);
    assert!(err.contains("cannot move"), "got: {}", err);
}

#[test]
fn err_move_borrowed_into_struct_field() {
    // Moving a borrowed variable into a struct field must be rejected.
    let err = rejected(r#"
struct Foo { a: string }
fn main() {
    let s = "hello";
    let r = &s;
    let f = Foo { a: s };
}
"#);
    assert!(err.contains("cannot move"), "got: {}", err);
}

#[test]
fn err_move_borrowed_into_array_elem() {
    // Moving a borrowed variable into an array literal must be rejected.
    let err = rejected(r#"
fn main() {
    let s = "hello";
    let r = &s;
    let a = string{s, "a", "b"};
}
"#);
    assert!(err.contains("cannot move"), "got: {}", err);
}

#[test]
fn err_transitive_borrow_blocks_move() {
    // `let r = &s; let t = &r; let y = s;` — moving `s` while `t`
    // transitively borrows it (through `r`) must be rejected. The
    // transitive closure in `record_borrow_of` is what makes this work.
    let err = rejected(r#"
fn main() {
    let s = "hello";
    let r = &s;
    let t = &r;
    let y = s;
}
"#);
    assert!(err.contains("cannot move `s`"), "got: {}", err);
}

#[test]
fn err_borrow_after_move() {
    // `let y = s; let r = &s;` — s is moved, then we try to borrow
    // it. The borrow itself must be rejected.
    let err = rejected(r#"
fn main() {
    let s = "hello";
    let y = s;
    let r = &s;
}
"#);
    assert!(err.contains("use after move"), "got: {}", err);
}

#[test]
fn err_borrow_persists_across_if() {
    // MiniBC has no NLL — a borrow inside one if-branch stays
    // live for the rest of the function, so a move after the
    // if-else is rejected.
    let err = rejected(r#"
fn main() {
    let s = "hello";
    if true {
        let r = &s;
    }
    let y = s;
}
"#);
    assert!(err.contains("cannot move `s`"), "got: {}", err);
}

#[test]
fn test_ref_compiles() {
    compile(r#"
fn main() {
    let x = 42;
    let y = ref x;
}"#).unwrap();
}

#[test]
fn err_print_empty() {
    let err = rejected(r#"fn main() { print(); }"#);
    assert!(err.contains("expected 1"), "got: {}", err);
}

#[test]
fn err_return_type_mismatch() {
    let err = rejected(r#"
fn foo() -> i32 {
    return "hello";
}
fn main() { foo(); }"#);
    assert!(err.contains("type mismatch") || err.contains("expected"), "got: {}", err);
}

#[test]
fn err_struct_field_type_mismatch() {
    let err = rejected(r#"
struct Point { x: i32, y: i32 }
fn main() {
    let p = Point { x: "hello", y: 1 };
}"#);
    assert!(err.contains("type mismatch") || err.contains("expected"), "got: {}", err);
}

#[test]
fn err_assign_type_mismatch() {
    let err = rejected(r#"
fn main() {
    let x: i32 = 1;
    x = "hello";
}"#);
    assert!(err.contains("type mismatch") || err.contains("expected"), "got: {}", err);
}

#[test]
fn err_binary_op_mismatch() {
    let err = rejected(r#"
fn main() {
    print(1 + true);
}"#);
    assert!(err.contains("expected") || err.contains("requires"), "got: {}", err);
}

#[test]
fn err_array_index_not_int() {
    let err = rejected(r#"
fn main() {
    let a = i32{1, 2, 3};
    print(a["hello"]);
}"#);
    assert!(err.contains("integer"), "got: {}", err);
}

#[test]
fn err_array_element_mismatch() {
    let err = rejected(r#"
fn main() {
    let a: i32[3] = [1, "hello", 3];
}"#);
    assert!(err.contains("type mismatch") || err.contains("expected"), "got: {}", err);
}

#[test]
fn err_inferred_array_element_mismatch() {
    let err = rejected(r#"
fn main() {
    let a = [1, "hello"];
}"#);
    assert!(err.contains("type mismatch") || err.contains("expected"), "got: {}", err);
}

#[test]
fn err_if_condition_not_bool() {
    let err = rejected(r#"
fn main() {
    if 42 { print(1); }
}"#);
    assert!(err.contains("bool"), "got: {}", err);
}

#[test]
fn err_undefined_variable() {
    let err = rejected(r#"fn main() { print(x); }"#);
    assert!(err.contains("undefined variable"), "got: {}", err);
}

#[test]
fn err_undefined_function() {
    let err = rejected(r#"fn main() { foo(); }"#);
    assert!(err.contains("undefined function"), "got: {}", err);
}

#[test]
fn err_type_mismatch() {
    let err = rejected(r#"
fn main() {
    let x: i32 = "hello";
}"#);
    assert!(err.contains("type mismatch") || err.contains("expected"), "got: {}", err);
}

#[test]
fn err_missing_return() {
    let err = rejected(r#"
fn foo() -> i32 {
    let x = 1;
}"#);
    assert!(err.contains("missing return"), "got: {}", err);
}

#[test]
fn err_unexpected_return_value() {
    let err = rejected(r#"
fn main() {
    return 42;
}"#);
    assert!(err.contains("unexpected return value"), "got: {}", err);
}

#[test]
fn err_duplicate_function() {
    let err = rejected(r#"
fn foo() {}
fn foo() {}
fn main() {}"#);
    assert!(err.contains("duplicate"), "got: {}", err);
}

#[test]
fn err_duplicate_struct() {
    let err = rejected(r#"
struct A { x: i32 }
struct A { y: i32 }
fn main() {}"#);
    assert!(err.contains("duplicate"), "got: {}", err);
}

#[test]
fn err_duplicate_field() {
    let err = rejected(r#"
struct Foo { x: i32, x: i32 }
fn main() {}"#);
    assert!(err.contains("duplicate field"), "got: {}", err);
}

#[test]
fn err_break_outside_loop() {
    let err = rejected(r#"
fn main() {
    break;
}"#);
    assert!(err.contains("break outside loop"), "got: {}", err);
}

#[test]
fn err_return_outside_function() {
    let err = rejected(r#"return 1;"#);
    assert!(err.contains("return outside function"), "got: {}", err);
}

#[test]
fn err_wrong_arg_count() {
    let err = rejected(r#"
fn foo(x: i32) {}
fn main() {
    foo(1, 2);
}"#);
    assert!(err.contains("expected 1 arguments"), "got: {}", err);
}

#[test]
fn err_unassignable_literal() {
    let err = rejected(r#"
fn main() {
    42 = 1;
}"#);
    assert!(err.contains("expression is not assignable"), "got: {}", err);
}

#[test]
fn err_missing_type_annotation() {
    let err = rejected(r#"
fn main() {
    let x;
}"#);
    assert!(err.contains("type annotation required"), "got: {}", err);
}

#[test]
fn err_void_variable() {
    let err = rejected(r#"
fn main() {
    let x: void = 1;
}"#);
    assert!(err.contains("cannot have type `void`"), "got: {}", err);
}

#[test]
fn err_not_a_struct() {
    let err = rejected(r#"
fn main() {
    let x = 1;
    let y = x.foo;
}"#);
    assert!(err.contains("not a struct"), "got: {}", err);
}

#[test]
fn err_no_such_field() {
    let err = rejected(r#"
struct Foo { x: i32 }
fn main() {
    let f = Foo { x: 1 };
    let y = f.z;
}"#);
    assert!(err.contains("no field"), "got: {}", err);
}

#[test]
fn err_missing_struct_fields() {
    let err = rejected(r#"
struct Point { x: i32, y: i32 }
fn main() {
    let a = Point { x: 1 };
}"#);
    assert!(err.contains("missing fields"), "got: {}", err);
}

#[test]
fn err_void_struct_field() {
    let err = rejected(r#"
struct Foo { x: void }
fn main() { }
"#);
    assert!(err.contains("void"), "got: {}", err);
}

#[test]
fn err_struct_addition() {
    let err = rejected(r#"
struct Point { x: i32, y: i32 }
fn main() {
    let a = Point { x: 1, y: 2 };
    let b = a + a;
}
"#);
    assert!(err.contains("found") || err.contains("not"), "got: {}", err);
}

#[test]
fn err_not_a_function() {
    let err = rejected(r#"
fn main() {
    let x = 1;
    x();
}"#);
    assert!(err.contains("not a function") || err.contains("undefined function"), "got: {}", err);
}

#[test]
fn test_borrow_error_use_after_move() {
    let err = rejected(r#"
struct Foo { a: i32 }
fn main() {
    let s = Foo { a: 1 };
    let r = &s;
    let s2 = s;
}
"#);
    assert!(err.contains("cannot move `s`: it is borrowed by `r`"), "got: {}", err);
}

#[test]
fn err_let_struct_no_init() {
    // `let x: Foo;` previously lowered to `Int(0, I8)` (a garbage HIR
    // node) and crashed in codegen. Now it should produce a clean error.
    let err = rejected(r#"
struct Foo { a: i32 }
fn main() {
    let f: Foo;
}"#);
    assert!(err.contains("cannot be default-initialized"), "got: {}", err);
}

#[test]
fn err_let_array_no_init() {
    let err = rejected(r#"
fn main() {
    let a: i32[3];
}"#);
    assert!(err.contains("cannot be default-initialized"), "got: {}", err);
}

#[test]
fn err_float_exponent_no_digits() {
    // `1e` and `1.5e+` must produce a clear, specific error about
    // the missing digits, not a generic "invalid float" complaint.
    let err = rejected("fn main() { let x = 1e; }");
    assert!(err.contains("missing digits after exponent"), "got: {}", err);

    let err2 = rejected("fn main() { let x = 1.5e+; }");
    assert!(err2.contains("missing digits after exponent"), "got: {}", err2);
}

#[test]
fn err_assignment_in_if_condition() {
    // `if (x = 1)` is almost always a bug — user meant `==`.
    // Reject at parse time with a helpful suggestion.
    let err = rejected(r#"
fn main() {
    let x: i32 = 0;
    if (x = 1) {
        print(x);
    }
}"#);
    assert!(err.contains("assignment is not allowed"), "got: {}", err);
    assert!(err.contains("=="), "got: {}", err);
}

#[test]
fn err_assignment_in_while_condition() {
    let err = rejected(r#"
fn main() {
    let x: i32 = 0;
    while (x = 1) {
        print(x);
    }
}"#);
    assert!(err.contains("assignment is not allowed"), "got: {}", err);
}

#[test]
fn err_reassign_field_of_borrowed_field() {
    // C2: `let r = &s.f; s.f = x;` — reassign a borrowed field must be
    // rejected because the base struct `s` is borrowed through the
    // field borrow.
    let err = rejected(r#"
struct S { f: i32 }
fn main() {
    let s = S { f: 1 };
    let r = &s.f;
    s.f = 2;
}
"#);
    assert!(err.contains("borrowed") || err.contains("cannot move"), "got: {}", err);
}

#[test]
fn err_empty_array_literal() {
    // H1: `let x = [];` must produce a type error, not a panic.
    let err = rejected(r#"
fn main() { let x = []; print(x); }
"#);
    assert!(err.contains("type"), "got: {}", err);
}

#[test]
fn err_literal_out_of_range_i8() {
    // H2: `1000i8` must produce a type error (silent wrap).
    let err = rejected(r#"
fn main() { let x: i8 = 1000i8; print(x); }
"#);
    assert!(err.contains("does not fit") || err.contains("LiteralOutOfRange"), "got: {}", err);
}

#[test]
fn err_literal_out_of_range_u8() {
    let err = rejected(r#"
fn main() { let x: u8 = 256u8; print(x); }
"#);
    assert!(err.contains("does not fit") || err.contains("LiteralOutOfRange"), "got: {}", err);
}

#[test]
fn err_for_loop_mismatched_bounds() {
    // The for-range must require both boundaries to share a type.
    let err = rejected(r#"
fn main() {
    for i in 0i32..5u64 {
        print(i);
    }
}"#);
    assert!(err.contains("type mismatch") || err.contains("expected"), "got: {}", err);
}
#[test]
fn test_borrow_of_borrow_tracked() {
    // `ref ref x` must record the borrow chain, so a move of x is rejected.
    let err = rejected(r#"
fn main() {
    let x = "hello";
    let r = ref ref x;
    let y = x;
}
"#);
    assert!(err.contains("cannot move `x`"), "got: {}", err);
}

#[test]
fn err_assign_to_field_of_borrowed() {
    // Bug 7: `obj.field = rhs` must reject when `obj` is borrowed.
    // The LHS chain bottoms out at an Ident that is currently borrowed,
    // and that should fire `error_if_borrowed` just like top-level
    // assignment does.
    let err = rejected(r#"
struct Foo { a: i32 }
fn main() {
    let s = Foo { a: 1 };
    let r = &s;
    s.a = 2;
    print(r.a);
}
"#);
    assert!(err.contains("borrowed"), "got: {}", err);
}

#[test]
fn err_assign_to_array_element_of_borrowed() {
    // Same as above for `arr[i] = rhs`.
    let err = rejected(r#"
fn main() {
    let a = [1, 2, 3];
    let r = &a;
    a[0] = 99;
    print(r[0]);
}
"#);
    assert!(err.contains("borrowed"), "got: {}", err);
}

#[test]
fn err_borrow_in_struct_literal_tracked() {
    // Bug 9 (real variant): a borrow hidden inside a struct field
    // must still be tracked, so moving the source after the literal
    // is rejected. The struct field `r: &t` should count as a borrow
    // of `t` and prevent `let y = t;` from succeeding.
    let err = rejected(r#"
struct Holder { r: string }
fn main() {
    let t = "hello";
    let h = Holder { r: &t };
    let y = t;
}
"#);
    assert!(err.contains("cannot move `t`") || err.contains("borrowed"), "got: {}", err);
}

#[test]
fn err_assign_to_ref() {
    let err = rejected(r#"
fn main() {
    let x = 1;
    ref x = 2;
}"#);
    assert!(err.contains("cannot assign to a reference"), "got: {}", err);
}

