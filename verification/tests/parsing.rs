use restc::ast::{Expr, ParseError, Stmt};
use restc::lexer::lexer::Lexer;
use restc::lexer::token::IntegerSuffix;
use restc::ops::{BinOp, UnOp};
use restc::parser::parser::{compound_to_binop, precedence, Parser};
use restc::lexer::token::TokenKind;
use restc::ty::Type;

fn parse(src: &str) -> Result<Vec<Stmt>, ParseError> {
    let mut lexer = Lexer::new(src);
    let tokens = lexer.tokenize().expect("lexes");
    let mut parser = Parser::new(&tokens);
    parser.parse_file()
}

fn parse_expr_stmt(src: &str) -> Expr {
    let mut stmts = parse(src).expect("parses");
    assert_eq!(stmts.len(), 1);
    match stmts.remove(0) {
        Stmt::Expr(e) => e,
        other => panic!("expected an expression statement, got {:?}", other),
    }
}

#[test]
fn prefix_address_of_and_dereference() {
    match parse_expr_stmt("&x;") {
        Expr::AddressOf(inner, _) => assert!(matches!(*inner, Expr::Ident(ref n, _) if n == "x")),
        other => panic!("unexpected {:?}", other),
    }
    match parse_expr_stmt("ref ref x;") {
        Expr::AddressOf(inner, _) => assert!(matches!(*inner, Expr::AddressOf(_, _))),
        other => panic!("unexpected {:?}", other),
    }
    match parse_expr_stmt("*p = 3;") {
        Expr::Assign(l, _, _) => assert!(matches!(*l, Expr::Dereference(_, _))),
        other => panic!("unexpected {:?}", other),
    }
    match parse_expr_stmt("a & *b;") {
        Expr::Binary(_, BinOp::BitAnd, r, _) => assert!(matches!(*r, Expr::Dereference(_, _))),
        other => panic!("unexpected {:?}", other),
    }
}

#[test]
fn multiplication_binds_tighter_than_addition() {
    match parse_expr_stmt("1 + 2 * 3;") {
        Expr::Binary(l, BinOp::Add, r, _) => {
            assert!(matches!(*l, Expr::Int(1, _, _)));
            assert!(matches!(*r, Expr::Binary(_, BinOp::Mul, _, _)));
        },
        other => panic!("unexpected {:?}", other),
    }
}

#[test]
fn same_precedence_associates_left() {
    match parse_expr_stmt("8 - 4 - 2;") {
        Expr::Binary(l, BinOp::Sub, r, _) => {
            assert!(matches!(*l, Expr::Binary(_, BinOp::Sub, _, _)));
            assert!(matches!(*r, Expr::Int(2, _, _)));
        },
        other => panic!("unexpected {:?}", other),
    }
}

#[test]
fn logical_operators_bind_loosest() {
    match parse_expr_stmt("a < b && c == d || e;") {
        Expr::Binary(l, BinOp::Or, _, _) => {
            assert!(matches!(*l, Expr::Binary(_, BinOp::And, _, _)));
        },
        other => panic!("unexpected {:?}", other),
    }
}

#[test]
fn precedence_table() {
    assert_eq!(precedence(BinOp::Or), 1);
    assert_eq!(precedence(BinOp::And), 2);
    assert_eq!(precedence(BinOp::BitOr), 3);
    assert_eq!(precedence(BinOp::BitXor), 4);
    assert_eq!(precedence(BinOp::BitAnd), 5);
    assert_eq!(precedence(BinOp::Le), 6);
    assert_eq!(precedence(BinOp::Shl), 7);
    assert_eq!(precedence(BinOp::Sub), 8);
    assert_eq!(precedence(BinOp::Rem), 9);
    assert_eq!(compound_to_binop(&TokenKind::LtLtEq), BinOp::Shl);
    assert_eq!(compound_to_binop(&TokenKind::CaretEq), BinOp::BitXor);
}

#[test]
fn compound_assignment_expands() {
    match parse_expr_stmt("x += 2;") {
        Expr::Assign(l, r, _) => {
            assert!(matches!(&*l, Expr::Ident(n, _) if n == "x"));
            match *r {
                Expr::Binary(a, BinOp::Add, b, _) => {
                    assert!(matches!(&*a, Expr::Ident(n, _) if n == "x"));
                    assert!(matches!(*b, Expr::Int(2, _, _)));
                },
                other => panic!("unexpected {:?}", other),
            }
        },
        other => panic!("unexpected {:?}", other),
    }
}

#[test]
fn increments_expand_to_assignments() {
    match parse_expr_stmt("i++;") {
        Expr::Assign(_, r, _) => assert!(matches!(*r, Expr::Binary(_, BinOp::Add, _, _))),
        other => panic!("unexpected {:?}", other),
    }
    match parse_expr_stmt("--i;") {
        Expr::Assign(_, r, _) => match *r {
            Expr::Binary(_, BinOp::Sub, one, _) => {
                assert!(matches!(*one, Expr::Int(1, IntegerSuffix::Unsuffixed, _)))
            },
            other => panic!("unexpected {:?}", other),
        },
        other => panic!("unexpected {:?}", other),
    }
    assert!(matches!(parse_expr_stmt("-x;"), Expr::Unary(UnOp::Neg, _, _)));
    assert!(matches!(parse_expr_stmt("!x;"), Expr::Unary(UnOp::Not, _, _)));
}

#[test]
fn calls_fields_and_indexing() {
    match parse_expr_stmt("f(a, 1).b[2];") {
        Expr::ArrayIndex(obj, idx, _) => {
            assert!(matches!(*idx, Expr::Int(2, _, _)));
            match *obj {
                Expr::FieldAccess(inner, field, _) => {
                    assert_eq!(field, "b");
                    assert!(matches!(&*inner, Expr::Call(n, args, _) if n == "f" && args.len() == 2));
                },
                other => panic!("unexpected {:?}", other),
            }
        },
        other => panic!("unexpected {:?}", other),
    }
}

#[test]
fn struct_and_array_literals() {
    assert!(matches!(parse_expr_stmt("Point { x: 1, y: 2 };"), Expr::Struct(n, fs, _) if n == "Point" && fs.len() == 2));
    match &parse("let p = struct Point { x: 1 };").unwrap()[0] {
        Stmt::Let(_, _, Some(init), _) => assert!(matches!(init, Expr::Struct(n, fs, _) if n == "Point" && fs.len() == 1)),
        other => panic!("unexpected {:?}", other),
    }
    // A keyword-led `struct` statement is a declaration, so field values are refused there.
    assert_eq!(parse("struct Point { x: 1 };").unwrap_err().message, "expected type");
    assert!(matches!(parse_expr_stmt("i32{1, 2, 3};"), Expr::ArrayLiteral(t, es, _) if matches!(*t, Type::I32) && es.len() == 3));
    assert!(matches!(parse_expr_stmt("[1, 2];"), Expr::ArrayLiteral(t, es, _) if matches!(*t, Type::Void) && es.len() == 2));
}

#[test]
fn function_and_struct_declarations() {
    let stmts = parse("struct P { x: i32, y: u8[4] }\nfn f(a: i32, b: P) -> bool { return true; }").unwrap();
    assert_eq!(stmts.len(), 2);
    match &stmts[0] {
        Stmt::Struct(n, fs, _) => {
            assert_eq!(n, "P");
            assert_eq!(fs.len(), 2);
            assert!(matches!(&fs[1].1, Type::Array(e, 4) if matches!(**e, Type::U8)));
        },
        other => panic!("unexpected {:?}", other),
    }
    match &stmts[1] {
        Stmt::Fn(n, ps, ret, body, decorators, _) => {
            assert_eq!(n, "f");
            assert_eq!(ps.len(), 2);
            assert!(matches!(ret, Some(Type::Bool)));
            assert_eq!(body.len(), 1);
            assert!(decorators.is_empty());
        },
        other => panic!("unexpected {:?}", other),
    }
}

#[test]
fn else_if_nests() {
    let stmts = parse("if (a) { } else if (b) { x = 1; } else { }").unwrap();
    match &stmts[0] {
        Stmt::If(_, then_s, Some(else_s), _) => {
            assert!(then_s.is_empty());
            assert_eq!(else_s.len(), 1);
            assert!(matches!(&else_s[0], Stmt::If(_, _, Some(_), _)));
        },
        other => panic!("unexpected {:?}", other),
    }
}

#[test]
fn loops_and_jumps() {
    let stmts = parse("for i in 0..10 { break; } while (x) { continue; } return;").unwrap();
    assert!(matches!(&stmts[0], Stmt::For(v, _, _, b, _) if v == "i" && matches!(b[0], Stmt::Break(_))));
    assert!(matches!(&stmts[1], Stmt::While(_, b, _) if matches!(b[0], Stmt::Continue(_))));
    assert!(matches!(&stmts[2], Stmt::Return(None, _)));
}

#[test]
fn assignment_in_condition_is_rejected() {
    let err = parse("if (x = 1) { }").unwrap_err();
    assert_eq!(err.message, "assignment is not allowed in if/while condition; did you mean `==`?");
    let err = parse("while x = 1 { }").unwrap_err();
    assert!(err.message.contains("=="));
}

#[test]
fn syntax_errors() {
    assert_eq!(parse("let x = 1").unwrap_err().message, "expected `;`");
    assert_eq!(parse("let 5 = 1;").unwrap_err().message, "expected identifier");
    assert_eq!(parse("fn f( { }").unwrap_err().message, "expected identifier");
    assert_eq!(parse("fn f() { ").unwrap_err().message, "expected `}`, found end of file");
    assert_eq!(parse("let x: 5;").unwrap_err().message, "expected type");
    assert_eq!(parse("let x: i32[y];").unwrap_err().message, "expected array size");
    assert_eq!(parse(";").unwrap_err().message, "expected expression");
    assert_eq!(parse("{ }").unwrap_err().message, "unexpected block");
    assert_eq!(parse("(1)(2);").unwrap_err().message, "cannot call non-identifier");
}

#[test]
fn parse_error_text() {
    let err = parse("let x = 1").unwrap_err();
    assert_eq!(err.text(), "parse error at 1:10: expected `;`");
}

#[test]
fn spans_cover_statements() {
    let stmts = parse("let x: i32 = 5;\nlet y = x;").unwrap();
    match &stmts[0] {
        Stmt::Let(n, Some(Type::I32), Some(Expr::Int(5, _, _)), span) => {
            assert_eq!(n, "x");
            assert_eq!(span.start, 0);
            assert_eq!(span.end, 16);
            assert_eq!(span.line, 1);
        },
        other => panic!("unexpected {:?}", other),
    }
}
