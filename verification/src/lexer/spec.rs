//! What the lexer computes, as functions of the source bytes and a position.

use vstd::prelude::*;
use vstd::utf8::{valid_utf8, decode_utf8};
use crate::lexer::token::{FloatSuffix, IntegerSuffix, Span, TokenKind, Token, LexError};

verus! {

/// The text of a failed UTF-8 decoding of `bytes`, as std renders it.
pub uninterp spec fn utf8_error_text(bytes: Seq<u8>) -> Seq<char>;

/// A token kind by value: payload text as characters.
pub enum TokV {
    Plain(TokenKind),
    Int(i64, IntegerSuffix),
    Float(Seq<char>, FloatSuffix),
    Str(Seq<char>),
    Ident(Seq<char>),
}

pub open spec fn kind_view(k: TokenKind) -> TokV {
    match k {
        TokenKind::Int(v, s) => TokV::Int(v, s),
        TokenKind::Float(t, s) => TokV::Float(t@, s),
        TokenKind::String(t) => TokV::Str(t@),
        TokenKind::Ident(t) => TokV::Ident(t@),
        other => TokV::Plain(other),
    }
}

impl View for Token {
    type V = (TokV, Span);

    open spec fn view(&self) -> (TokV, Span) {
        (kind_view(self.kind), self.span)
    }
}

impl View for LexError {
    type V = (Seq<char>, Span);

    open spec fn view(&self) -> (Seq<char>, Span) {
        (self.message@, self.span)
    }
}

pub type LexErrV = (Seq<char>, Span);

/// Position, line and column of the lexer.
pub struct LS {
    pub pos: int,
    pub line: int,
    pub col: int,
}

/// Advances `n` bytes within a line.
pub open spec fn adv(s: LS, n: int) -> LS {
    LS { pos: s.pos + n, col: s.col + n, line: s.line }
}

pub open spec fn span_of(start: int, end: int, line: int, col: int) -> Span {
    Span { start: start as usize, end: end as usize, line: line as usize, col: col as usize }
}

pub open spec fn is_digit(c: u8) -> bool {
    48 <= c <= 57
}

pub open spec fn is_hex(c: u8) -> bool {
    is_digit(c) || 97 <= c <= 102 || 65 <= c <= 70
}

pub open spec fn is_ident_byte(c: u8) -> bool {
    is_digit(c) || 97 <= c <= 122 || 65 <= c <= 90 || c == 95
}

/// End of the run of decimal digits starting at `p`.
pub open spec fn digits_end(b: Seq<u8>, p: int) -> int
    decreases b.len() - p,
{
    if 0 <= p < b.len() && is_digit(b[p]) { digits_end(b, p + 1) } else { p }
}

/// End of the run of hexadecimal digits starting at `p`.
pub open spec fn hex_end(b: Seq<u8>, p: int) -> int
    decreases b.len() - p,
{
    if 0 <= p < b.len() && is_hex(b[p]) { hex_end(b, p + 1) } else { p }
}

/// End of the run of identifier bytes starting at `p`.
pub open spec fn ident_end(b: Seq<u8>, p: int) -> int
    decreases b.len() - p,
{
    if 0 <= p < b.len() && is_ident_byte(b[p]) { ident_end(b, p + 1) } else { p }
}

/// End of the run of bytes at or above 0x80 starting at `p`.
pub open spec fn high_end(b: Seq<u8>, p: int) -> int
    decreases b.len() - p,
{
    if 0 <= p < b.len() && b[p] >= 0x80 { high_end(b, p + 1) } else { p }
}

/// The bytes `p..q` read one character per byte.
pub open spec fn byte_text(b: Seq<u8>, p: int, q: int) -> Seq<char> {
    Seq::new((q - p) as nat, |i: int| b[p + i] as char)
}

/// Value of the decimal digits `p..q`.
pub open spec fn dec_value(b: Seq<u8>, p: int, q: int) -> int
    decreases q - p,
{
    if q <= p { 0 } else { dec_value(b, p, q - 1) * 10 + (b[q - 1] - 48) }
}

pub open spec fn hex_digit_value(c: u8) -> int {
    if is_digit(c) { c - 48 } else if 97 <= c <= 102 { c - 87 } else { c - 55 }
}

/// Value of the digits `p..q` in base `radix`.
pub open spec fn radix_value(b: Seq<u8>, p: int, q: int, radix: int) -> int
    decreases q - p,
{
    if q <= p { 0 } else { radix_value(b, p, q - 1, radix) * radix + hex_digit_value(b[q - 1]) }
}

pub open spec fn valid_digit(c: u8, radix: int) -> bool {
    if radix == 2 {
        c == 48 || c == 49
    } else if radix == 8 {
        48 <= c <= 55
    } else if radix == 16 {
        is_hex(c)
    } else {
        false
    }
}

/// First position in `p..q` whose byte is not a digit of `radix`.
pub open spec fn first_invalid(b: Seq<u8>, p: int, q: int, radix: int) -> Option<int>
    decreases q - p,
{
    if q <= p {
        None
    } else if !valid_digit(b[p], radix) {
        Some(p)
    } else {
        first_invalid(b, p + 1, q, radix)
    }
}

pub open spec fn int_suffix_of(t: Seq<char>) -> Option<IntegerSuffix> {
    if t == "i8"@ {
        Some(IntegerSuffix::I8)
    } else if t == "i16"@ {
        Some(IntegerSuffix::I16)
    } else if t == "i32"@ {
        Some(IntegerSuffix::I32)
    } else if t == "i64"@ {
        Some(IntegerSuffix::I64)
    } else if t == "u8"@ {
        Some(IntegerSuffix::U8)
    } else if t == "u16"@ {
        Some(IntegerSuffix::U16)
    } else if t == "u32"@ {
        Some(IntegerSuffix::U32)
    } else if t == "u64"@ {
        Some(IntegerSuffix::U64)
    } else {
        None
    }
}

pub open spec fn float_suffix_of(t: Seq<char>) -> Option<FloatSuffix> {
    if t == "f32"@ {
        Some(FloatSuffix::F32)
    } else if t == "f64"@ {
        Some(FloatSuffix::F64)
    } else {
        None
    }
}

/// The integer suffix written at `p` and the position after it; an
/// identifier that is no integer suffix is left in place.
pub open spec fn int_suffix_at(b: Seq<u8>, p: int) -> (IntegerSuffix, int) {
    let q = ident_end(b, p);
    match int_suffix_of(byte_text(b, p, q)) {
        Some(s) => (s, q),
        None => (IntegerSuffix::Unsuffixed, p),
    }
}

pub open spec fn float_suffix_at(b: Seq<u8>, p: int) -> (FloatSuffix, int) {
    let q = ident_end(b, p);
    match float_suffix_of(byte_text(b, p, q)) {
        Some(s) => (s, q),
        None => (FloatSuffix::Unsuffixed, p),
    }
}

pub open spec fn keyword(t: Seq<char>) -> Option<TokenKind> {
    if t == "let"@ { Some(TokenKind::Let) }
    else if t == "fn"@ { Some(TokenKind::Fn) }
    else if t == "struct"@ { Some(TokenKind::Struct) }
    else if t == "return"@ { Some(TokenKind::Return) }
    else if t == "if"@ { Some(TokenKind::If) }
    else if t == "else"@ { Some(TokenKind::Else) }
    else if t == "while"@ { Some(TokenKind::While) }
    else if t == "for"@ { Some(TokenKind::For) }
    else if t == "in"@ { Some(TokenKind::In) }
    else if t == "break"@ { Some(TokenKind::Break) }
    else if t == "continue"@ { Some(TokenKind::Continue) }
    else if t == "ref"@ { Some(TokenKind::Ref) }
    else if t == "true"@ { Some(TokenKind::True) }
    else if t == "false"@ { Some(TokenKind::False) }
    else if t == "i8"@ { Some(TokenKind::I8) }
    else if t == "i16"@ { Some(TokenKind::I16) }
    else if t == "i32"@ { Some(TokenKind::I32) }
    else if t == "i64"@ { Some(TokenKind::I64) }
    else if t == "u8"@ { Some(TokenKind::U8) }
    else if t == "u16"@ { Some(TokenKind::U16) }
    else if t == "u32"@ { Some(TokenKind::U32) }
    else if t == "u64"@ { Some(TokenKind::U64) }
    else if t == "f32"@ { Some(TokenKind::F32) }
    else if t == "f64"@ { Some(TokenKind::F64) }
    else if t == "string"@ { Some(TokenKind::StringTy) }
    else if t == "bool"@ { Some(TokenKind::Bool) }
    else if t == "void"@ { Some(TokenKind::Void) }
    else { None }
}

/// A keyword is the token spelled as its text: its text, as diagnostics
/// quote it, is the word itself.
pub proof fn law_keyword_spells_its_token(t: Seq<char>)
    ensures
        keyword(t) matches Some(k) ==> k.spec_describe() == "`"@ + t + "`"@,
{
    reveal_strlit("`");
    if let Some(k) = keyword(t) {
        match k {
            TokenKind::Let => {
                reveal_strlit("let");
                reveal_strlit("`let`");
                assert("`let`"@ =~= "`"@ + "let"@ + "`"@);
            },
            TokenKind::Fn => {
                reveal_strlit("fn");
                reveal_strlit("`fn`");
                assert("`fn`"@ =~= "`"@ + "fn"@ + "`"@);
            },
            TokenKind::Struct => {
                reveal_strlit("struct");
                reveal_strlit("`struct`");
                assert("`struct`"@ =~= "`"@ + "struct"@ + "`"@);
            },
            TokenKind::Return => {
                reveal_strlit("return");
                reveal_strlit("`return`");
                assert("`return`"@ =~= "`"@ + "return"@ + "`"@);
            },
            TokenKind::If => {
                reveal_strlit("if");
                reveal_strlit("`if`");
                assert("`if`"@ =~= "`"@ + "if"@ + "`"@);
            },
            TokenKind::Else => {
                reveal_strlit("else");
                reveal_strlit("`else`");
                assert("`else`"@ =~= "`"@ + "else"@ + "`"@);
            },
            TokenKind::While => {
                reveal_strlit("while");
                reveal_strlit("`while`");
                assert("`while`"@ =~= "`"@ + "while"@ + "`"@);
            },
            TokenKind::For => {
                reveal_strlit("for");
                reveal_strlit("`for`");
                assert("`for`"@ =~= "`"@ + "for"@ + "`"@);
            },
            TokenKind::In => {
                reveal_strlit("in");
                reveal_strlit("`in`");
                assert("`in`"@ =~= "`"@ + "in"@ + "`"@);
            },
            TokenKind::Break => {
                reveal_strlit("break");
                reveal_strlit("`break`");
                assert("`break`"@ =~= "`"@ + "break"@ + "`"@);
            },
            TokenKind::Continue => {
                reveal_strlit("continue");
                reveal_strlit("`continue`");
                assert("`continue`"@ =~= "`"@ + "continue"@ + "`"@);
            },
            TokenKind::Ref => {
                reveal_strlit("ref");
                reveal_strlit("`ref`");
                assert("`ref`"@ =~= "`"@ + "ref"@ + "`"@);
            },
            TokenKind::True => {
                reveal_strlit("true");
                reveal_strlit("`true`");
                assert("`true`"@ =~= "`"@ + "true"@ + "`"@);
            },
            TokenKind::False => {
                reveal_strlit("false");
                reveal_strlit("`false`");
                assert("`false`"@ =~= "`"@ + "false"@ + "`"@);
            },
            TokenKind::I8 => {
                reveal_strlit("i8");
                reveal_strlit("`i8`");
                assert("`i8`"@ =~= "`"@ + "i8"@ + "`"@);
            },
            TokenKind::I16 => {
                reveal_strlit("i16");
                reveal_strlit("`i16`");
                assert("`i16`"@ =~= "`"@ + "i16"@ + "`"@);
            },
            TokenKind::I32 => {
                reveal_strlit("i32");
                reveal_strlit("`i32`");
                assert("`i32`"@ =~= "`"@ + "i32"@ + "`"@);
            },
            TokenKind::I64 => {
                reveal_strlit("i64");
                reveal_strlit("`i64`");
                assert("`i64`"@ =~= "`"@ + "i64"@ + "`"@);
            },
            TokenKind::U8 => {
                reveal_strlit("u8");
                reveal_strlit("`u8`");
                assert("`u8`"@ =~= "`"@ + "u8"@ + "`"@);
            },
            TokenKind::U16 => {
                reveal_strlit("u16");
                reveal_strlit("`u16`");
                assert("`u16`"@ =~= "`"@ + "u16"@ + "`"@);
            },
            TokenKind::U32 => {
                reveal_strlit("u32");
                reveal_strlit("`u32`");
                assert("`u32`"@ =~= "`"@ + "u32"@ + "`"@);
            },
            TokenKind::U64 => {
                reveal_strlit("u64");
                reveal_strlit("`u64`");
                assert("`u64`"@ =~= "`"@ + "u64"@ + "`"@);
            },
            TokenKind::F32 => {
                reveal_strlit("f32");
                reveal_strlit("`f32`");
                assert("`f32`"@ =~= "`"@ + "f32"@ + "`"@);
            },
            TokenKind::F64 => {
                reveal_strlit("f64");
                reveal_strlit("`f64`");
                assert("`f64`"@ =~= "`"@ + "f64"@ + "`"@);
            },
            TokenKind::StringTy => {
                reveal_strlit("string");
                reveal_strlit("`string`");
                assert("`string`"@ =~= "`"@ + "string"@ + "`"@);
            },
            TokenKind::Bool => {
                reveal_strlit("bool");
                reveal_strlit("`bool`");
                assert("`bool`"@ =~= "`"@ + "bool"@ + "`"@);
            },
            TokenKind::Void => {
                reveal_strlit("void");
                reveal_strlit("`void`");
                assert("`void`"@ =~= "`"@ + "void"@ + "`"@);
            },
            _ => {},
        }
    }
}

/// Whether byte `p` exists and is `c`.
pub open spec fn byte_is(b: Seq<u8>, p: int, c: u8) -> bool {
    0 <= p < b.len() && b[p] == c
}

/// `one`, or `two` when the next byte is `=`, with its length.
pub open spec fn or_assign(b: Seq<u8>, p: int, one: TokenKind, two: TokenKind) -> (TokenKind, int) {
    if byte_is(b, p + 1, 61) { (two, 2) } else { (one, 1) }
}

/// The punctuation token at `p` and its length.
pub open spec fn punct(b: Seq<u8>, p: int) -> Option<(TokenKind, int)> {
    let c = b[p];
    if c == 59 { Some((TokenKind::Semicolon, 1)) }
    else if c == 58 { Some((TokenKind::Colon, 1)) }
    else if c == 44 { Some((TokenKind::Comma, 1)) }
    else if c == 46 { Some(if byte_is(b, p + 1, 46) { (TokenKind::DotDot, 2) } else { (TokenKind::Dot, 1) }) }
    else if c == 40 { Some((TokenKind::LParen, 1)) }
    else if c == 41 { Some((TokenKind::RParen, 1)) }
    else if c == 123 { Some((TokenKind::LBrace, 1)) }
    else if c == 125 { Some((TokenKind::RBrace, 1)) }
    else if c == 91 { Some((TokenKind::LBracket, 1)) }
    else if c == 93 { Some((TokenKind::RBracket, 1)) }
    else if c == 43 {
        Some(if byte_is(b, p + 1, 43) { (TokenKind::PlusPlus, 2) } else { or_assign(b, p, TokenKind::Plus, TokenKind::PlusEq) })
    } else if c == 45 {
        Some(if byte_is(b, p + 1, 45) {
            (TokenKind::MinusMinus, 2)
        } else if byte_is(b, p + 1, 62) {
            (TokenKind::Arrow, 2)
        } else {
            or_assign(b, p, TokenKind::Minus, TokenKind::MinusEq)
        })
    } else if c == 42 { Some(or_assign(b, p, TokenKind::Star, TokenKind::StarEq)) }
    else if c == 47 { Some(or_assign(b, p, TokenKind::Slash, TokenKind::SlashEq)) }
    else if c == 37 { Some(or_assign(b, p, TokenKind::Percent, TokenKind::PercentEq)) }
    else if c == 61 { Some(or_assign(b, p, TokenKind::Eq, TokenKind::EqEq)) }
    else if c == 33 { Some(or_assign(b, p, TokenKind::Bang, TokenKind::BangEq)) }
    else if c == 60 {
        Some(if byte_is(b, p + 1, 60) {
            if byte_is(b, p + 2, 61) { (TokenKind::LtLtEq, 3) } else { (TokenKind::LtLt, 2) }
        } else {
            or_assign(b, p, TokenKind::Lt, TokenKind::LtEq)
        })
    } else if c == 62 {
        Some(if byte_is(b, p + 1, 62) {
            if byte_is(b, p + 2, 61) { (TokenKind::GtGtEq, 3) } else { (TokenKind::GtGt, 2) }
        } else {
            or_assign(b, p, TokenKind::Gt, TokenKind::GtEq)
        })
    } else if c == 38 {
        Some(if byte_is(b, p + 1, 38) { (TokenKind::AmpAmp, 2) } else { or_assign(b, p, TokenKind::Amp, TokenKind::AmpEq) })
    } else if c == 124 {
        Some(if byte_is(b, p + 1, 124) { (TokenKind::PipePipe, 2) } else { or_assign(b, p, TokenKind::Pipe, TokenKind::PipeEq) })
    } else if c == 94 { Some(or_assign(b, p, TokenKind::Caret, TokenKind::CaretEq)) }
    else { None }
}

/// Punctuation lexes to the token that is spelled as the source is: the
/// bytes a punctuation token covers are its text as diagnostics quote it.
pub proof fn law_punctuation_spells_its_token(b: Seq<u8>, p: int)
    requires
        0 <= p < b.len(),
    ensures
        punct(b, p) matches Some((k, n)) ==> {
            &&& 1 <= n
            &&& p + n <= b.len()
            &&& k.spec_describe() == "`"@ + byte_text(b, p, p + n) + "`"@
        },
{
    reveal_strlit("`");
    if let Some((k, n)) = punct(b, p) {
        let t = byte_text(b, p, p + n);
        match k {
            TokenKind::Semicolon => {
                reveal_strlit("`;`");
                assert(t =~= seq![';']);
                assert("`;`"@ =~= "`"@ + t + "`"@);
            },
            TokenKind::Colon => {
                reveal_strlit("`:`");
                assert(t =~= seq![':']);
                assert("`:`"@ =~= "`"@ + t + "`"@);
            },
            TokenKind::Comma => {
                reveal_strlit("`,`");
                assert(t =~= seq![',']);
                assert("`,`"@ =~= "`"@ + t + "`"@);
            },
            TokenKind::Dot => {
                reveal_strlit("`.`");
                assert(t =~= seq!['.']);
                assert("`.`"@ =~= "`"@ + t + "`"@);
            },
            TokenKind::DotDot => {
                reveal_strlit("`..`");
                assert(t =~= seq!['.', '.']);
                assert("`..`"@ =~= "`"@ + t + "`"@);
            },
            TokenKind::LParen => {
                reveal_strlit("`(`");
                assert(t =~= seq!['(']);
                assert("`(`"@ =~= "`"@ + t + "`"@);
            },
            TokenKind::RParen => {
                reveal_strlit("`)`");
                assert(t =~= seq![')']);
                assert("`)`"@ =~= "`"@ + t + "`"@);
            },
            TokenKind::LBrace => {
                reveal_strlit("`{`");
                assert(t =~= seq!['{']);
                assert("`{`"@ =~= "`"@ + t + "`"@);
            },
            TokenKind::RBrace => {
                reveal_strlit("`}`");
                assert(t =~= seq!['}']);
                assert("`}`"@ =~= "`"@ + t + "`"@);
            },
            TokenKind::LBracket => {
                reveal_strlit("`[`");
                assert(t =~= seq!['[']);
                assert("`[`"@ =~= "`"@ + t + "`"@);
            },
            TokenKind::RBracket => {
                reveal_strlit("`]`");
                assert(t =~= seq![']']);
                assert("`]`"@ =~= "`"@ + t + "`"@);
            },
            TokenKind::Plus => {
                reveal_strlit("`+`");
                assert(t =~= seq!['+']);
                assert("`+`"@ =~= "`"@ + t + "`"@);
            },
            TokenKind::PlusPlus => {
                reveal_strlit("`++`");
                assert(t =~= seq!['+', '+']);
                assert("`++`"@ =~= "`"@ + t + "`"@);
            },
            TokenKind::PlusEq => {
                reveal_strlit("`+=`");
                assert(t =~= seq!['+', '=']);
                assert("`+=`"@ =~= "`"@ + t + "`"@);
            },
            TokenKind::Minus => {
                reveal_strlit("`-`");
                assert(t =~= seq!['-']);
                assert("`-`"@ =~= "`"@ + t + "`"@);
            },
            TokenKind::MinusMinus => {
                reveal_strlit("`--`");
                assert(t =~= seq!['-', '-']);
                assert("`--`"@ =~= "`"@ + t + "`"@);
            },
            TokenKind::Arrow => {
                reveal_strlit("`->`");
                assert(t =~= seq!['-', '>']);
                assert("`->`"@ =~= "`"@ + t + "`"@);
            },
            TokenKind::MinusEq => {
                reveal_strlit("`-=`");
                assert(t =~= seq!['-', '=']);
                assert("`-=`"@ =~= "`"@ + t + "`"@);
            },
            TokenKind::Star => {
                reveal_strlit("`*`");
                assert(t =~= seq!['*']);
                assert("`*`"@ =~= "`"@ + t + "`"@);
            },
            TokenKind::StarEq => {
                reveal_strlit("`*=`");
                assert(t =~= seq!['*', '=']);
                assert("`*=`"@ =~= "`"@ + t + "`"@);
            },
            TokenKind::Slash => {
                reveal_strlit("`/`");
                assert(t =~= seq!['/']);
                assert("`/`"@ =~= "`"@ + t + "`"@);
            },
            TokenKind::SlashEq => {
                reveal_strlit("`/=`");
                assert(t =~= seq!['/', '=']);
                assert("`/=`"@ =~= "`"@ + t + "`"@);
            },
            TokenKind::Percent => {
                reveal_strlit("`%`");
                assert(t =~= seq!['%']);
                assert("`%`"@ =~= "`"@ + t + "`"@);
            },
            TokenKind::PercentEq => {
                reveal_strlit("`%=`");
                assert(t =~= seq!['%', '=']);
                assert("`%=`"@ =~= "`"@ + t + "`"@);
            },
            TokenKind::Eq => {
                reveal_strlit("`=`");
                assert(t =~= seq!['=']);
                assert("`=`"@ =~= "`"@ + t + "`"@);
            },
            TokenKind::EqEq => {
                reveal_strlit("`==`");
                assert(t =~= seq!['=', '=']);
                assert("`==`"@ =~= "`"@ + t + "`"@);
            },
            TokenKind::Bang => {
                reveal_strlit("`!`");
                assert(t =~= seq!['!']);
                assert("`!`"@ =~= "`"@ + t + "`"@);
            },
            TokenKind::BangEq => {
                reveal_strlit("`!=`");
                assert(t =~= seq!['!', '=']);
                assert("`!=`"@ =~= "`"@ + t + "`"@);
            },
            TokenKind::Lt => {
                reveal_strlit("`<`");
                assert(t =~= seq!['<']);
                assert("`<`"@ =~= "`"@ + t + "`"@);
            },
            TokenKind::LtEq => {
                reveal_strlit("`<=`");
                assert(t =~= seq!['<', '=']);
                assert("`<=`"@ =~= "`"@ + t + "`"@);
            },
            TokenKind::LtLt => {
                reveal_strlit("`<<`");
                assert(t =~= seq!['<', '<']);
                assert("`<<`"@ =~= "`"@ + t + "`"@);
            },
            TokenKind::LtLtEq => {
                reveal_strlit("`<<=`");
                assert(t =~= seq!['<', '<', '=']);
                assert("`<<=`"@ =~= "`"@ + t + "`"@);
            },
            TokenKind::Gt => {
                reveal_strlit("`>`");
                assert(t =~= seq!['>']);
                assert("`>`"@ =~= "`"@ + t + "`"@);
            },
            TokenKind::GtEq => {
                reveal_strlit("`>=`");
                assert(t =~= seq!['>', '=']);
                assert("`>=`"@ =~= "`"@ + t + "`"@);
            },
            TokenKind::GtGt => {
                reveal_strlit("`>>`");
                assert(t =~= seq!['>', '>']);
                assert("`>>`"@ =~= "`"@ + t + "`"@);
            },
            TokenKind::GtGtEq => {
                reveal_strlit("`>>=`");
                assert(t =~= seq!['>', '>', '=']);
                assert("`>>=`"@ =~= "`"@ + t + "`"@);
            },
            TokenKind::Amp => {
                reveal_strlit("`&`");
                assert(t =~= seq!['&']);
                assert("`&`"@ =~= "`"@ + t + "`"@);
            },
            TokenKind::AmpAmp => {
                reveal_strlit("`&&`");
                assert(t =~= seq!['&', '&']);
                assert("`&&`"@ =~= "`"@ + t + "`"@);
            },
            TokenKind::AmpEq => {
                reveal_strlit("`&=`");
                assert(t =~= seq!['&', '=']);
                assert("`&=`"@ =~= "`"@ + t + "`"@);
            },
            TokenKind::Pipe => {
                reveal_strlit("`|`");
                assert(t =~= seq!['|']);
                assert("`|`"@ =~= "`"@ + t + "`"@);
            },
            TokenKind::PipePipe => {
                reveal_strlit("`||`");
                assert(t =~= seq!['|', '|']);
                assert("`||`"@ =~= "`"@ + t + "`"@);
            },
            TokenKind::PipeEq => {
                reveal_strlit("`|=`");
                assert(t =~= seq!['|', '=']);
                assert("`|=`"@ =~= "`"@ + t + "`"@);
            },
            TokenKind::Caret => {
                reveal_strlit("`^`");
                assert(t =~= seq!['^']);
                assert("`^`"@ =~= "`"@ + t + "`"@);
            },
            TokenKind::CaretEq => {
                reveal_strlit("`^=`");
                assert(t =~= seq!['^', '=']);
                assert("`^=`"@ =~= "`"@ + t + "`"@);
            },
            _ => {},
        }
    }
}

/// Skips a block comment whose opening `/*` has been consumed.
pub open spec fn skip_block(b: Seq<u8>, s: LS) -> LS
    decreases b.len() - s.pos,
{
    if s.pos < 0 || s.pos >= b.len() {
        s
    } else if b[s.pos] == 42 && byte_is(b, s.pos + 1, 47) {
        adv(s, 2)
    } else if b[s.pos] == 10 {
        skip_block(b, LS { pos: s.pos + 1, line: s.line + 1, col: 1 })
    } else if b[s.pos] == 13 {
        let p = if byte_is(b, s.pos + 1, 10) { s.pos + 2 } else { s.pos + 1 };
        skip_block(b, LS { pos: p, line: s.line + 1, col: 1 })
    } else {
        skip_block(b, adv(s, 1))
    }
}

/// End of a line comment starting at `p`: the next newline or the end.
pub open spec fn line_end(b: Seq<u8>, p: int) -> int
    decreases b.len() - p,
{
    if 0 <= p < b.len() && b[p] != 10 { line_end(b, p + 1) } else { p }
}

/// Skips spaces, tabs, line breaks and comments.
pub open spec fn skip_ws(b: Seq<u8>, s: LS) -> LS
    decreases b.len() - s.pos,
{
    if s.pos < 0 || s.pos >= b.len() {
        s
    } else {
        let c = b[s.pos];
        if c == 32 || c == 9 {
            skip_ws(b, adv(s, 1))
        } else if c == 10 {
            skip_ws(b, LS { pos: s.pos + 1, line: s.line + 1, col: 1 })
        } else if c == 13 {
            let p = if byte_is(b, s.pos + 1, 10) { s.pos + 2 } else { s.pos + 1 };
            skip_ws(b, LS { pos: p, line: s.line + 1, col: 1 })
        } else if c == 47 && byte_is(b, s.pos + 1, 47) {
            proof {
                lemma_line_end(b, s.pos + 1);
            }
            skip_ws(b, LS { pos: line_end(b, s.pos), ..s })
        } else if c == 47 && byte_is(b, s.pos + 1, 42) {
            proof {
                lemma_skip_block(b, adv(s, 2));
            }
            skip_ws(b, skip_block(b, adv(s, 2)))
        } else {
            s
        }
    }
}

pub type TokOut = (LS, Result<(TokV, Span), LexErrV>);

/// An error whose span runs from `s0` to `end`.
pub open spec fn err_from(s0: LS, end: int, message: Seq<char>) -> Result<(TokV, Span), LexErrV> {
    Err((message, span_of(s0.pos, end, s0.line, s0.col)))
}

/// A literal in base `radix` whose `0x`/`0o`/`0b` prefix starts at `s0`.
pub open spec fn lex_radix(b: Seq<u8>, s0: LS, radix: int, name: Seq<char>) -> TokOut {
    let ds = s0.pos + 2;
    let q = hex_end(b, ds);
    let s1 = adv(s0, q - s0.pos);
    if q == ds {
        (s1, err_from(s0, q, "empty "@ + name + " literal"@))
    } else {
        match first_invalid(b, ds, q, radix) {
            Some(k) => (s1, err_from(s0, q,
                "invalid digit `"@ + seq![b[k] as char] + "` in "@ + name + " literal"@)),
            None => {
                let v = radix_value(b, ds, q, radix);
                if v > i64::MAX {
                    (s1, err_from(s0, q, name + " literal overflow: `"@ + byte_text(b, ds, q) + "`"@))
                } else {
                    let (suffix, e) = int_suffix_at(b, q);
                    (adv(s0, e - s0.pos), Ok((TokV::Int(v as i64, suffix), span_of(s0.pos, q, s0.line, s0.col))))
                }
            },
        }
    }
}

/// A decimal integer or float literal starting at `s0`.
pub open spec fn lex_decimal(b: Seq<u8>, s0: LS) -> TokOut {
    let p = s0.pos;
    let d1 = digits_end(b, p);
    let frac = byte_is(b, d1, 46) && d1 + 1 < b.len() && is_digit(b[d1 + 1]);
    let q1 = if frac { digits_end(b, d1 + 1) } else { d1 };
    let has_e = byte_is(b, q1, 101) || byte_is(b, q1, 69);
    let sign = has_e && (byte_is(b, q1 + 1, 43) || byte_is(b, q1 + 1, 45));
    let es = if has_e { if sign { q1 + 2 } else { q1 + 1 } } else { q1 };
    let q = if has_e { digits_end(b, es) } else { q1 };
    if has_e && q == es {
        (adv(s0, q - p), err_from(s0, q, "missing digits after exponent in float literal"@))
    } else if frac || has_e {
        let (suffix, e) = float_suffix_at(b, q);
        (adv(s0, e - p), Ok((TokV::Float(byte_text(b, p, q), suffix), span_of(p, e, s0.line, s0.col))))
    } else {
        let (suffix, e) = int_suffix_at(b, q);
        let v = dec_value(b, p, q);
        if v > i64::MAX {
            (adv(s0, e - p), err_from(s0, e, "invalid integer literal `"@ + byte_text(b, p, q) + "`"@))
        } else {
            (adv(s0, e - p), Ok((TokV::Int(v as i64, suffix), span_of(p, e, s0.line, s0.col))))
        }
    }
}

pub open spec fn lex_number(b: Seq<u8>, s0: LS) -> TokOut {
    let p = s0.pos;
    if p + 1 < b.len() && b[p] == 48 && (b[p + 1] == 120 || b[p + 1] == 88) {
        lex_radix(b, s0, 16, "hex"@)
    } else if p + 1 < b.len() && b[p] == 48 && (b[p + 1] == 111 || b[p + 1] == 79) {
        lex_radix(b, s0, 8, "octal"@)
    } else if p + 1 < b.len() && b[p] == 48 && (b[p + 1] == 98 || b[p + 1] == 66) {
        lex_radix(b, s0, 2, "binary"@)
    } else {
        lex_decimal(b, s0)
    }
}

/// The character an escape `\c` stands for.
pub open spec fn escape_char(c: u8) -> Option<char> {
    if c == 48 { Some('\0') }
    else if c == 110 { Some('\n') }
    else if c == 116 { Some('\t') }
    else if c == 114 { Some('\r') }
    else if c == 92 { Some('\\') }
    else if c == 34 { Some('"') }
    else { None }
}

/// The rest of a string literal from `s`, its text so far being `acc`; it opened at `s0`.
pub open spec fn string_body(b: Seq<u8>, s0: LS, s: LS, acc: Seq<char>) -> TokOut
    decreases b.len() - s.pos,
{
    if s.pos < 0 || s.pos >= b.len() {
        (s, err_from(s0, s.pos, "unterminated string literal"@))
    } else {
        let c = b[s.pos];
        if c == 34 {
            let s1 = adv(s, 1);
            (s1, Ok((TokV::Str(acc), span_of(s0.pos, s1.pos, s0.line, s0.col))))
        } else if c == 92 {
            let s1 = adv(s, 1);
            if s1.pos >= b.len() {
                (s1, err_from(s0, s1.pos, "unterminated escape sequence"@))
            } else {
                match escape_char(b[s1.pos]) {
                    Some(ch) => string_body(b, s0, adv(s1, 1), acc.push(ch)),
                    None => (s1, Err((
                        "invalid escape sequence `\\"@ + seq![b[s1.pos] as char] + "`"@,
                        span_of(s1.pos - 1, s1.pos + 1, s1.line, s1.col),
                    ))),
                }
            }
        } else if c >= 0x80 {
            let e = high_end(b, s.pos);
            let run = b.subrange(s.pos, e);
            proof {
                lemma_high_end(b, s.pos + 1);
            }
            if !valid_utf8(run) {
                (s, Err(("invalid UTF-8 in string literal: "@ + utf8_error_text(run), span_of(s.pos, e, s.line, s.col))))
            } else {
                let chars = decode_utf8(run);
                string_body(b, s0, LS { pos: e, line: s.line, col: s.col + chars.len() }, acc + chars)
            }
        } else if c == 10 {
            string_body(b, s0, LS { pos: s.pos + 1, line: s.line + 1, col: 1 }, acc.push(c as char))
        } else {
            string_body(b, s0, adv(s, 1), acc.push(c as char))
        }
    }
}

/// One token at `s`, which is not at the end of the input.
pub open spec fn lex_token(b: Seq<u8>, s: LS) -> TokOut {
    let c = b[s.pos];
    if is_digit(c) {
        lex_number(b, s)
    } else if c == 34 {
        string_body(b, s, adv(s, 1), Seq::empty())
    } else if 97 <= c <= 122 || 65 <= c <= 90 || c == 95 {
        let q = ident_end(b, s.pos);
        let t = byte_text(b, s.pos, q);
        let k = match keyword(t) {
            Some(k) => TokV::Plain(k),
            None => TokV::Ident(t),
        };
        (adv(s, q - s.pos), Ok((k, span_of(s.pos, q, s.line, s.col))))
    } else {
        match punct(b, s.pos) {
            Some((k, n)) => (adv(s, n), Ok((TokV::Plain(k), span_of(s.pos, s.pos + n, s.line, s.col)))),
            None => (adv(s, 1), err_from(s, s.pos + 1, "unexpected character `"@ + seq![c as char] + "`"@)),
        }
    }
}

/// A string literal never lexes to a keyword or punctuation token.
proof fn lemma_string_body_not_plain(b: Seq<u8>, s0: LS, s: LS, acc: Seq<char>)
    ensures
        !(string_body(b, s0, s, acc).1 matches Ok((TokV::Plain(_), _))),
    decreases b.len() - s.pos,
{
    if 0 <= s.pos < b.len() {
        let c = b[s.pos];
        if c == 34 {
        } else if c == 92 {
            let s1 = adv(s, 1);
            if s1.pos < b.len() {
                if let Some(ch) = escape_char(b[s1.pos]) {
                    lemma_string_body_not_plain(b, s0, adv(s1, 1), acc.push(ch));
                }
            }
        } else if c >= 0x80 {
            let e = high_end(b, s.pos);
            lemma_high_end(b, s.pos + 1);
            let run = b.subrange(s.pos, e);
            if valid_utf8(run) {
                let chars = decode_utf8(run);
                lemma_string_body_not_plain(b, s0, LS { pos: e, line: s.line, col: s.col + chars.len() }, acc + chars);
            }
        } else if c == 10 {
            lemma_string_body_not_plain(b, s0, LS { pos: s.pos + 1, line: s.line + 1, col: 1 }, acc.push(c as char));
        } else {
            lemma_string_body_not_plain(b, s0, adv(s, 1), acc.push(c as char));
        }
    }
}

/// Every keyword or punctuation token that the lexer produces is spelled as
/// the source bytes it covers: its text, as diagnostics quote it, is those
/// bytes.
pub proof fn law_token_spells_its_source(b: Seq<u8>, s: LS)
    requires
        0 <= s.pos < b.len(),
        b.len() <= usize::MAX,
    ensures
        lex_token(b, s).1 matches Ok((TokV::Plain(k), sp))
            ==> k.spec_describe() == "`"@ + byte_text(b, sp.start as int, sp.end as int) + "`"@,
{
    let c = b[s.pos];
    if is_digit(c) {
        assert(!(lex_number(b, s).1 matches Ok((TokV::Plain(_), _))));
    } else if c == 34 {
        lemma_string_body_not_plain(b, s, adv(s, 1), Seq::empty());
    } else if 97 <= c <= 122 || 65 <= c <= 90 || c == 95 {
        let q = ident_end(b, s.pos);
        lemma_ident_end(b, s.pos);
        law_keyword_spells_its_token(byte_text(b, s.pos, q));
    } else {
        law_punctuation_spells_its_token(b, s.pos);
    }
}

/// The tokens from `s` on, after `acc`, ending with the end-of-file token;
/// or the first error.
pub open spec fn tokenize_from(b: Seq<u8>, s: LS, acc: Seq<(TokV, Span)>) -> Result<Seq<(TokV, Span)>, LexErrV>
    decreases b.len() - s.pos,
{
    let s1 = skip_ws(b, s);
    if s.pos < 0 || s1.pos < 0 || s1.pos >= b.len() {
        Ok(acc.push((TokV::Plain(TokenKind::Eof), span_of(s1.pos, s1.pos, s1.line, s1.col))))
    } else {
        let (s2, r) = lex_token(b, s1);
        match r {
            Err(x) => Err(x),
            Ok(t) => {
                proof {
                    lemma_skip_ws(b, s);
                    lemma_lex_token_progress(b, s1);
                }
                tokenize_from(b, s2, acc.push(t))
            },
        }
    }
}

/// The tokens of a whole source, or the first lexical error.
pub open spec fn tokenize(b: Seq<u8>) -> Result<Seq<(TokV, Span)>, LexErrV> {
    tokenize_from(b, LS { pos: 0, line: 1, col: 1 }, Seq::empty())
}

pub proof fn lemma_line_end(b: Seq<u8>, p: int)
    ensures
        line_end(b, p) >= p,
        p <= b.len() ==> line_end(b, p) <= b.len(),
    decreases b.len() - p,
{
    if 0 <= p < b.len() && b[p] != 10 {
        lemma_line_end(b, p + 1);
    }
}

pub proof fn lemma_high_end(b: Seq<u8>, p: int)
    ensures
        high_end(b, p) >= p,
        p <= b.len() ==> high_end(b, p) <= b.len(),
    decreases b.len() - p,
{
    if 0 <= p < b.len() && b[p] >= 0x80 {
        lemma_high_end(b, p + 1);
    }
}

pub proof fn lemma_digits_end(b: Seq<u8>, p: int)
    ensures
        digits_end(b, p) >= p,
        p <= b.len() ==> digits_end(b, p) <= b.len(),
        forall|k: int| p <= k < digits_end(b, p) ==> is_digit(b[k]),
    decreases b.len() - p,
{
    if 0 <= p < b.len() && is_digit(b[p]) {
        lemma_digits_end(b, p + 1);
    }
}

pub proof fn lemma_hex_end(b: Seq<u8>, p: int)
    ensures
        hex_end(b, p) >= p,
        p <= b.len() ==> hex_end(b, p) <= b.len(),
        forall|k: int| p <= k < hex_end(b, p) ==> is_hex(b[k]),
    decreases b.len() - p,
{
    if 0 <= p < b.len() && is_hex(b[p]) {
        lemma_hex_end(b, p + 1);
    }
}

pub proof fn lemma_ident_end(b: Seq<u8>, p: int)
    ensures
        ident_end(b, p) >= p,
        p <= b.len() ==> ident_end(b, p) <= b.len(),
        forall|k: int| p <= k < ident_end(b, p) ==> is_ident_byte(b[k]),
    decreases b.len() - p,
{
    if 0 <= p < b.len() && is_ident_byte(b[p]) {
        lemma_ident_end(b, p + 1);
    }
}

pub proof fn lemma_skip_block(b: Seq<u8>, s: LS)
    ensures
        skip_block(b, s).pos >= s.pos,
        s.pos <= b.len() ==> skip_block(b, s).pos <= b.len(),
    decreases b.len() - s.pos,
{
    if 0 <= s.pos < b.len() {
        if b[s.pos] == 42 && byte_is(b, s.pos + 1, 47) {
        } else if b[s.pos] == 10 {
            lemma_skip_block(b, LS { pos: s.pos + 1, line: s.line + 1, col: 1 });
        } else if b[s.pos] == 13 {
            let p = if byte_is(b, s.pos + 1, 10) { s.pos + 2 } else { s.pos + 1 };
            lemma_skip_block(b, LS { pos: p, line: s.line + 1, col: 1 });
        } else {
            lemma_skip_block(b, adv(s, 1));
        }
    }
}

pub proof fn lemma_skip_ws(b: Seq<u8>, s: LS)
    ensures
        skip_ws(b, s).pos >= s.pos,
        s.pos <= b.len() ==> skip_ws(b, s).pos <= b.len(),
    decreases b.len() - s.pos,
{
    if 0 <= s.pos < b.len() {
        let c = b[s.pos];
        if c == 32 || c == 9 {
            lemma_skip_ws(b, adv(s, 1));
        } else if c == 10 {
            lemma_skip_ws(b, LS { pos: s.pos + 1, line: s.line + 1, col: 1 });
        } else if c == 13 {
            let p = if byte_is(b, s.pos + 1, 10) { s.pos + 2 } else { s.pos + 1 };
            lemma_skip_ws(b, LS { pos: p, line: s.line + 1, col: 1 });
        } else if c == 47 && byte_is(b, s.pos + 1, 47) {
            lemma_line_end(b, s.pos + 1);
            lemma_skip_ws(b, LS { pos: line_end(b, s.pos), ..s });
        } else if c == 47 && byte_is(b, s.pos + 1, 42) {
            lemma_skip_block(b, adv(s, 2));
            lemma_skip_ws(b, skip_block(b, adv(s, 2)));
        }
    }
}

pub proof fn lemma_string_body(b: Seq<u8>, s0: LS, s: LS, acc: Seq<char>)
    ensures
        string_body(b, s0, s, acc).0.pos >= s.pos,
        s.pos <= b.len() ==> string_body(b, s0, s, acc).0.pos <= b.len(),
    decreases b.len() - s.pos,
{
    if 0 <= s.pos < b.len() {
        let c = b[s.pos];
        if c == 92 {
            let s1 = adv(s, 1);
            if s1.pos < b.len() {
                if let Some(ch) = escape_char(b[s1.pos]) {
                    lemma_string_body(b, s0, adv(s1, 1), acc.push(ch));
                }
            }
        } else if c >= 0x80 && c != 34 {
            lemma_high_end(b, s.pos + 1);
            let e = high_end(b, s.pos);
            let run = b.subrange(s.pos, e);
            if valid_utf8(run) {
                lemma_string_body(b, s0, LS { pos: e, line: s.line, col: s.col + decode_utf8(run).len() }, acc + decode_utf8(run));
            }
        } else if c == 10 {
            lemma_string_body(b, s0, LS { pos: s.pos + 1, line: s.line + 1, col: 1 }, acc.push(c as char));
        } else if c != 34 {
            lemma_string_body(b, s0, adv(s, 1), acc.push(c as char));
        }
    }
}

pub proof fn lemma_lex_token_progress(b: Seq<u8>, s: LS)
    requires
        0 <= s.pos < b.len(),
    ensures
        lex_token(b, s).0.pos > s.pos,
        lex_token(b, s).0.pos <= b.len(),
{
    let c = b[s.pos];
    lemma_digits_end(b, s.pos + 1);
    lemma_ident_end(b, s.pos + 1);
    if is_digit(c) {
        let p = s.pos;
        lemma_hex_end(b, p + 2);
        lemma_ident_end(b, hex_end(b, p + 2));
        let d1 = digits_end(b, p);
        lemma_digits_end(b, d1 + 1);
        let frac = byte_is(b, d1, 46) && d1 + 1 < b.len() && is_digit(b[d1 + 1]);
        let q1 = if frac { digits_end(b, d1 + 1) } else { d1 };
        let has_e = byte_is(b, q1, 101) || byte_is(b, q1, 69);
        let sign = has_e && (byte_is(b, q1 + 1, 43) || byte_is(b, q1 + 1, 45));
        let es = if has_e { if sign { q1 + 2 } else { q1 + 1 } } else { q1 };
        lemma_digits_end(b, es);
        let q = if has_e { digits_end(b, es) } else { q1 };
        lemma_ident_end(b, q);
    } else if c == 34 {
        lemma_string_body(b, s, adv(s, 1), Seq::empty());
    }
}

proof fn lemma_tokenize_from_eof(b: Seq<u8>, s: LS, acc: Seq<(TokV, Span)>)
    ensures
        tokenize_from(b, s, acc) matches Ok(ts) ==> ts.len() > acc.len() && ts.subrange(0, acc.len() as int) == acc
            && ts.last().0 == TokV::Plain(TokenKind::Eof),
    decreases b.len() - s.pos,
{
    let s1 = skip_ws(b, s);
    if s.pos < 0 || s1.pos < 0 || s1.pos >= b.len() {
        let ts = acc.push((TokV::Plain(TokenKind::Eof), span_of(s1.pos, s1.pos, s1.line, s1.col)));
        assert(ts.subrange(0, acc.len() as int) =~= acc);
    } else {
        let (s2, r) = lex_token(b, s1);
        if let Ok(t) = r {
            lemma_skip_ws(b, s);
            lemma_lex_token_progress(b, s1);
            lemma_tokenize_from_eof(b, s2, acc.push(t));
            if let Ok(ts) = tokenize_from(b, s2, acc.push(t)) {
                assert(ts.subrange(0, acc.len() as int) =~= ts.subrange(0, acc.len() + 1int).subrange(0, acc.len() as int));
                assert(acc.push(t).subrange(0, acc.len() as int) =~= acc);
            }
        }
    }
}

/// A successful lexing ends with exactly one end-of-file token, at the end.
pub proof fn law_tokens_end_with_eof(b: Seq<u8>)
    ensures
        tokenize(b) matches Ok(ts) ==> ts.len() >= 1 && ts.last().0 == TokV::Plain(TokenKind::Eof),
{
    lemma_tokenize_from_eof(b, LS { pos: 0, line: 1, col: 1 }, Seq::empty());
}

} // verus!
