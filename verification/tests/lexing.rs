use restc::lexer::lexer::Lexer;
use restc::lexer::token::{FloatSuffix, IntegerSuffix, Token, TokenKind};

fn lex(src: &str) -> Result<Vec<Token>, String> {
    let mut lexer = Lexer::new(src);
    lexer.tokenize().map_err(|e| e.message)
}

#[test]
fn tokens_end_with_eof() {
    let toks = lex("let x = 1;").unwrap();
    assert_eq!(toks.len(), 6);
    assert!(matches!(toks[0].kind, TokenKind::Let));
    assert!(matches!(&toks[1].kind, TokenKind::Ident(n) if n == "x"));
    assert!(matches!(toks[2].kind, TokenKind::Eq));
    assert!(matches!(toks[3].kind, TokenKind::Int(1, IntegerSuffix::Unsuffixed)));
    assert!(matches!(toks[4].kind, TokenKind::Semicolon));
    assert!(matches!(toks[5].kind, TokenKind::Eof));
    assert_eq!(toks[5].span.start, 10);
    assert_eq!(toks[5].span.end, 10);
}

#[test]
fn empty_source_is_just_eof() {
    let toks = lex("  \n// only a comment").unwrap();
    assert_eq!(toks.len(), 1);
    assert!(matches!(toks[0].kind, TokenKind::Eof));
    assert_eq!(toks[0].span.line, 2);
}

#[test]
fn keywords_fn_and_struct() {
    let toks = lex("fn main struct def").unwrap();
    assert!(matches!(toks[0].kind, TokenKind::Fn));
    assert!(matches!(&toks[1].kind, TokenKind::Ident(n) if n == "main"));
    assert!(matches!(toks[2].kind, TokenKind::Struct));
    assert!(matches!(&toks[3].kind, TokenKind::Ident(n) if n == "def"));
    assert!(matches!(toks[4].kind, TokenKind::Eof));
}

#[test]
fn ref_is_a_keyword() {
    let toks = lex("ref x & y").unwrap();
    assert!(matches!(toks[0].kind, TokenKind::Ref));
    assert_eq!(toks[0].kind.describe(), "`ref`");
    assert!(matches!(&toks[1].kind, TokenKind::Ident(n) if n == "x"));
    assert!(matches!(toks[2].kind, TokenKind::Amp));
}

#[test]
fn integer_suffix_and_span() {
    let toks = lex("42u8").unwrap();
    assert!(matches!(toks[0].kind, TokenKind::Int(42, IntegerSuffix::U8)));
    assert_eq!(toks[0].span.start, 0);
    assert_eq!(toks[0].span.end, 4);
}

#[test]
fn unknown_suffix_is_left_for_next_token() {
    let toks = lex("7abc").unwrap();
    assert!(matches!(toks[0].kind, TokenKind::Int(7, IntegerSuffix::Unsuffixed)));
    assert!(matches!(&toks[1].kind, TokenKind::Ident(n) if n == "abc"));
}

#[test]
fn radix_literals() {
    let toks = lex("0xff 0b101 0o17 0XFFi64").unwrap();
    assert!(matches!(toks[0].kind, TokenKind::Int(255, IntegerSuffix::Unsuffixed)));
    assert!(matches!(toks[1].kind, TokenKind::Int(5, IntegerSuffix::Unsuffixed)));
    assert!(matches!(toks[2].kind, TokenKind::Int(15, IntegerSuffix::Unsuffixed)));
    assert!(matches!(toks[3].kind, TokenKind::Int(255, IntegerSuffix::I64)));
    // The span of a radix literal stops before its suffix.
    assert_eq!(toks[3].span.end - toks[3].span.start, 4);
}

#[test]
fn hex_overflow_is_reported() {
    assert_eq!(lex("0x8000000000000000").unwrap_err(), "hex literal overflow: `8000000000000000`");
    assert!(lex("0x7fffffffffffffff").is_ok());
}

#[test]
fn empty_and_invalid_radix_digits() {
    assert_eq!(lex("0x;").unwrap_err(), "empty hex literal");
    assert_eq!(lex("0b102").unwrap_err(), "invalid digit `2` in binary literal");
    assert_eq!(lex("0o78").unwrap_err(), "invalid digit `8` in octal literal");
}

#[test]
fn decimal_overflow_is_reported() {
    assert_eq!(lex("9223372036854775808").unwrap_err(), "invalid integer literal `9223372036854775808`");
    let toks = lex("9223372036854775807").unwrap();
    assert!(matches!(toks[0].kind, TokenKind::Int(i64::MAX, IntegerSuffix::Unsuffixed)));
}

#[test]
fn float_keeps_text_and_suffix() {
    let toks = lex("1.5e3f32 2.0 3e-2").unwrap();
    assert!(matches!(&toks[0].kind, TokenKind::Float(t, FloatSuffix::F32) if t == "1.5e3"));
    assert!(matches!(&toks[1].kind, TokenKind::Float(t, FloatSuffix::Unsuffixed) if t == "2.0"));
    assert!(matches!(&toks[2].kind, TokenKind::Float(t, FloatSuffix::Unsuffixed) if t == "3e-2"));
}

#[test]
fn range_is_not_a_float() {
    let toks = lex("0..10").unwrap();
    assert!(matches!(toks[0].kind, TokenKind::Int(0, _)));
    assert!(matches!(toks[1].kind, TokenKind::DotDot));
    assert!(matches!(toks[2].kind, TokenKind::Int(10, _)));
}

#[test]
fn missing_exponent_digits() {
    assert_eq!(lex("1e").unwrap_err(), "missing digits after exponent in float literal");
    assert_eq!(lex("2.5e+;").unwrap_err(), "missing digits after exponent in float literal");
}

#[test]
fn string_escapes() {
    let toks = lex("\"a\\n\\t\\\"b\\\\\\0\"").unwrap();
    assert!(matches!(&toks[0].kind, TokenKind::String(s) if s == "a\n\t\"b\\\0"));
}

#[test]
fn string_errors() {
    assert_eq!(lex("\"abc").unwrap_err(), "unterminated string literal");
    assert_eq!(lex("\"abc\\").unwrap_err(), "unterminated escape sequence");
    assert_eq!(lex("\"\\q\"").unwrap_err(), "invalid escape sequence `\\q`");
}

#[test]
fn tokenizes_valid_utf8_string() {
    let toks = lex("\"café\"").unwrap();
    match &toks[0].kind {
        TokenKind::String(s) => assert_eq!(s, "café"),
        other => panic!("expected String token, got {:?}", other),
    }
}

#[test]
fn utf8_advances_columns_by_characters() {
    let toks = lex("\"é\" x").unwrap();
    // `"é"` is four bytes but three characters wide.
    assert_eq!(toks[1].span.col, 5);
    assert_eq!(toks[1].span.start, 5);
}

#[test]
fn comments_and_line_numbers() {
    let toks = lex("// c\n/* x\n y */ let").unwrap();
    assert!(matches!(toks[0].kind, TokenKind::Let));
    assert_eq!(toks[0].span.line, 3);
    assert_eq!(toks[0].span.col, 7);
    let toks = lex("a\r\nb").unwrap();
    assert_eq!(toks[1].span.line, 2);
    assert_eq!(toks[1].span.col, 1);
}

#[test]
fn punctuation_chains() {
    let toks = lex("<<= >>= << >> <= >= -> -- ++ += && || & | ^= ..").unwrap();
    let expect = [
        "`<<=`", "`>>=`", "`<<`", "`>>`", "`<=`", "`>=`", "`->`", "`--`", "`++`", "`+=`", "`&&`", "`||`",
        "`&`", "`|`", "`^=`", "`..`", "end of file",
    ];
    assert_eq!(toks.len(), expect.len());
    for (t, d) in toks.iter().zip(expect.iter()) {
        assert_eq!(t.kind.describe(), *d);
    }
}

#[test]
fn unexpected_character() {
    assert_eq!(lex("let @").unwrap_err(), "unexpected character `@`");
}

#[test]
fn error_span_points_at_literal() {
    let mut lexer = Lexer::new("let x = 0b2;");
    let err = lexer.tokenize().unwrap_err();
    assert_eq!(err.span.start, 8);
    assert_eq!(err.span.end, 11);
    assert_eq!(err.span.col, 9);
}

#[test]
fn lex_error_report_names_line_and_column() {
    let mut lexer = Lexer::new("let a = 1;\n  $");
    let err = lexer.tokenize().unwrap_err();
    assert_eq!(err.text(), "lex error at 2:3: unexpected character `$`");
}

#[test]
fn rejects_lone_utf8_lead_byte() {
    // 0xC3 starts a 2-byte UTF-8 sequence; without a continuation byte this
    // is an encoding error, not U+00C3.
    let bytes: Vec<u8> = {
        let mut v = Vec::new();
        v.push(b'"');
        v.extend_from_slice(b"ok");
        v.push(0xC3);
        v.push(b'"');
        v
    };
    let mut lexer = Lexer::from_bytes(&bytes);
    assert!(lexer.tokenize().is_err());
}
