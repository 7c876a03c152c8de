use restc::lexer::token::{FloatSuffix, IntegerSuffix, Span};
use restc::ops::BinOp;
use restc::scope_stack::ScopeStack;
use restc::ty::{float_suffix_to_type, render_type, suffix_to_type, Type};
use restc::typeck::TypeckError;

#[test]
fn inner_definitions_shadow_and_vanish() {
    let mut s: ScopeStack<i32> = ScopeStack::new();
    s.define("x".to_string(), 1);
    s.enter();
    assert_eq!(s.get("x"), Some(&1));
    s.define("x".to_string(), 2);
    assert_eq!(s.get("x"), Some(&2));
    s.exit();
    assert_eq!(s.get("x"), Some(&1));
    assert_eq!(s.get("y"), None);
}

#[test]
fn later_definition_in_one_scope_wins() {
    let mut s: ScopeStack<&str> = ScopeStack::new();
    s.define("a".to_string(), "first");
    s.define("a".to_string(), "second");
    assert_eq!(s.get("a"), Some(&"second"));
    assert_eq!(s.depth(), 1);
}

#[test]
fn suffix_types() {
    assert!(matches!(suffix_to_type(&IntegerSuffix::Unsuffixed), Type::I32));
    assert!(matches!(suffix_to_type(&IntegerSuffix::U16), Type::U16));
    assert!(matches!(float_suffix_to_type(&FloatSuffix::Unsuffixed), Type::F64));
    assert!(matches!(float_suffix_to_type(&FloatSuffix::F32), Type::F32));
}

#[test]
fn copy_and_integer_types() {
    assert!(Type::I8.is_integer());
    assert!(!Type::F32.is_integer());
    assert!(Type::F32.is_copy());
    assert!(Type::Bool.is_copy());
    assert!(!Type::String.is_copy());
    assert!(!Type::Struct("P".to_string()).is_copy());
    assert!(!Type::Pointer(Box::new(Type::I32)).is_copy());
}

#[test]
fn type_rendering() {
    let t = Type::Fn(vec![Type::I32, Type::Array(Box::new(Type::U8), 4)], Box::new(Type::Pointer(Box::new(Type::Bool))));
    assert_eq!(render_type(&t), "fn(i32, u8[4]) -> *bool");
    assert_eq!(render_type(&Type::Fn(vec![], Box::new(Type::Void))), "fn() -> void");
    assert_eq!(render_type(&Type::Struct("Point".to_string())), "Point");
}

#[test]
fn type_error_messages() {
    let span = Span::new(0, 1, 3, 7);
    let e = TypeckError::TypeMismatch { expected: Type::I64, found: Type::String, span };
    assert_eq!(e.message(), "type error at 3:7: expected `i64`, found `string`");
    let e = TypeckError::LiteralOutOfRange { value: -129, ty: Type::I8, span };
    assert_eq!(e.message(), "type error at 3:7: literal `-129` does not fit in type `i8`");
    let e = TypeckError::BinaryTypeMismatch {
        op: BinOp::Shl.symbol().to_string(),
        expected: Type::I32,
        found: Type::F64,
        span,
    };
    assert_eq!(e.message(), "type error at 3:7: operator `<<` requires operands of type `i32`, found `f64`");
    let e = TypeckError::WrongArgCount { expected: 2, actual: 0, span };
    assert_eq!(e.message(), "type error at 3:7: expected 2 arguments, found 0");
}
