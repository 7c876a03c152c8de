use vstd::prelude::*;
use crate::text::{nat_decimal, push_str, push_u64};

verus! {

/// A region of the source: byte offsets `start..end` and the line/column of `start`.
#[derive(Debug, Clone, Copy, PartialEq, Eq, Hash, Structural)]
pub struct Span {
    pub start: usize,
    pub end: usize,
    pub line: usize,
    pub col: usize,
}

impl Span {
    pub fn new(start: usize, end: usize, line: usize, col: usize) -> (s: Self)
        ensures
            s.start == start,
            s.end == end,
            s.line == line,
            s.col == col,
    {
        Self { start, end, line, col }
    }
}

#[derive(Debug, Clone, Copy, PartialEq, Eq, Structural)]
pub enum FloatSuffix {
    Unsuffixed,
    F32,
    F64,
}

#[derive(Debug, Clone, Copy, PartialEq, Eq, Structural)]
pub enum IntegerSuffix {
    Unsuffixed,
    I8,
    I16,
    I32,
    I64,
    U8,
    U16,
    U32,
    U64,
}

/// The kind of a token. A float literal keeps its source text (digits, dot,
/// exponent) rather than a machine float; its numeric value is taken when
/// machine code is emitted.
#[derive(Debug, Clone)]
pub enum TokenKind {
    Int(i64, IntegerSuffix),
    Float(String, FloatSuffix),
    String(String),
    Ident(String),
    Let,
    Fn,
    Struct,
    Return,
    If,
    Else,
    While,
    For,
    In,
    Break,
    Continue,
    Ref,
    True,
    False,
    I8,
    I16,
    I32,
    I64,
    U8,
    U16,
    U32,
    U64,
    F32,
    F64,
    StringTy,
    Bool,
    Void,
    Semicolon,
    Colon,
    Comma,
    Dot,
    Arrow,
    LParen,
    RParen,
    LBrace,
    RBrace,
    LBracket,
    RBracket,
    Plus,
    Minus,
    PlusPlus,
    MinusMinus,
    Star,
    Slash,
    Percent,
    Eq,
    EqEq,
    Bang,
    BangEq,
    Lt,
    LtEq,
    Gt,
    GtEq,
    Amp,
    AmpAmp,
    Pipe,
    PipePipe,
    Caret,
    LtLt,
    GtGt,
    DotDot,
    PlusEq,
    MinusEq,
    StarEq,
    SlashEq,
    PercentEq,
    AmpEq,
    PipeEq,
    CaretEq,
    LtLtEq,
    GtGtEq,
    Eof,
}

#[derive(Debug, Clone)]
pub struct Token {
    pub kind: TokenKind,
    pub span: Span,
}

impl Token {
    pub fn new(kind: TokenKind, span: Span) -> (t: Self)
        ensures
            t.kind == kind,
            t.span == span,
    {
        Self { kind, span }
    }
}

#[derive(Debug, Clone)]
pub struct LexError {
    pub message: String,
    pub span: Span,
}

impl LexError {
    /// The report of the error: `lex error at LINE:COL: MESSAGE`.
    pub fn text(&self) -> (s: String)
        ensures
            s@ == "lex error at "@ + nat_decimal(self.span.line as nat) + ":"@ + nat_decimal(self.span.col as nat)
                + ": "@ + self.message@,
    {
        let mut out = String::new();
        push_str(&mut out, "lex error at ");
        push_u64(&mut out, self.span.line as u64);
        push_str(&mut out, ":");
        push_u64(&mut out, self.span.col as u64);
        push_str(&mut out, ": ");
        push_str(&mut out, self.message.as_str());
        assert(out@ =~= "lex error at "@ + nat_decimal(self.span.line as nat) + ":"@ + nat_decimal(self.span.col as nat)
            + ": "@ + self.message@);
        out
    }
}

impl TokenKind {
    /// A number identifying the variant, payloads ignored.
    pub open spec fn spec_tag(self) -> u8 {
        match self {
            TokenKind::Int(..) => 0,
            TokenKind::Float(..) => 1,
            TokenKind::String(..) => 2,
            TokenKind::Ident(..) => 3,
            TokenKind::Let => 4,
            TokenKind::Fn => 5,
            TokenKind::Struct => 6,
            TokenKind::Return => 7,
            TokenKind::If => 8,
            TokenKind::Else => 9,
            TokenKind::While => 10,
            TokenKind::For => 11,
            TokenKind::In => 12,
            TokenKind::Break => 13,
            TokenKind::Continue => 14,
            TokenKind::Ref => 75,
            TokenKind::True => 15,
            TokenKind::False => 16,
            TokenKind::I8 => 17,
            TokenKind::I16 => 18,
            TokenKind::I32 => 19,
            TokenKind::I64 => 20,
            TokenKind::U8 => 21,
            TokenKind::U16 => 22,
            TokenKind::U32 => 23,
            TokenKind::U64 => 24,
            TokenKind::F32 => 25,
            TokenKind::F64 => 26,
            TokenKind::StringTy => 27,
            TokenKind::Bool => 28,
            TokenKind::Void => 29,
            TokenKind::Semicolon => 30,
            TokenKind::Colon => 31,
            TokenKind::Comma => 32,
            TokenKind::Dot => 33,
            TokenKind::Arrow => 34,
            TokenKind::LParen => 35,
            TokenKind::RParen => 36,
            TokenKind::LBrace => 37,
            TokenKind::RBrace => 38,
            TokenKind::LBracket => 39,
            TokenKind::RBracket => 40,
            TokenKind::Plus => 41,
            TokenKind::Minus => 42,
            TokenKind::PlusPlus => 43,
            TokenKind::MinusMinus => 44,
            TokenKind::Star => 45,
            TokenKind::Slash => 46,
            TokenKind::Percent => 47,
            TokenKind::Eq => 48,
            TokenKind::EqEq => 49,
            TokenKind::Bang => 50,
            TokenKind::BangEq => 51,
            TokenKind::Lt => 52,
            TokenKind::LtEq => 53,
            TokenKind::Gt => 54,
            TokenKind::GtEq => 55,
            TokenKind::Amp => 56,
            TokenKind::AmpAmp => 57,
            TokenKind::Pipe => 58,
            TokenKind::PipePipe => 59,
            TokenKind::Caret => 60,
            TokenKind::LtLt => 61,
            TokenKind::GtGt => 62,
            TokenKind::DotDot => 63,
            TokenKind::PlusEq => 64,
            TokenKind::MinusEq => 65,
            TokenKind::StarEq => 66,
            TokenKind::SlashEq => 67,
            TokenKind::PercentEq => 68,
            TokenKind::AmpEq => 69,
            TokenKind::PipeEq => 70,
            TokenKind::CaretEq => 71,
            TokenKind::LtLtEq => 72,
            TokenKind::GtGtEq => 73,
            TokenKind::Eof => 74,
        }
    }

    pub fn tag(&self) -> (r: u8)
        ensures
            r == self.spec_tag(),
    {
        match self {
            TokenKind::Int(..) => 0,
            TokenKind::Float(..) => 1,
            TokenKind::String(..) => 2,
            TokenKind::Ident(..) => 3,
            TokenKind::Let => 4,
            TokenKind::Fn => 5,
            TokenKind::Struct => 6,
            TokenKind::Return => 7,
            TokenKind::If => 8,
            TokenKind::Else => 9,
            TokenKind::While => 10,
            TokenKind::For => 11,
            TokenKind::In => 12,
            TokenKind::Break => 13,
            TokenKind::Continue => 14,
            TokenKind::Ref => 75,
            TokenKind::True => 15,
            TokenKind::False => 16,
            TokenKind::I8 => 17,
            TokenKind::I16 => 18,
            TokenKind::I32 => 19,
            TokenKind::I64 => 20,
            TokenKind::U8 => 21,
            TokenKind::U16 => 22,
            TokenKind::U32 => 23,
            TokenKind::U64 => 24,
            TokenKind::F32 => 25,
            TokenKind::F64 => 26,
            TokenKind::StringTy => 27,
            TokenKind::Bool => 28,
            TokenKind::Void => 29,
            TokenKind::Semicolon => 30,
            TokenKind::Colon => 31,
            TokenKind::Comma => 32,
            TokenKind::Dot => 33,
            TokenKind::Arrow => 34,
            TokenKind::LParen => 35,
            TokenKind::RParen => 36,
            TokenKind::LBrace => 37,
            TokenKind::RBrace => 38,
            TokenKind::LBracket => 39,
            TokenKind::RBracket => 40,
            TokenKind::Plus => 41,
            TokenKind::Minus => 42,
            TokenKind::PlusPlus => 43,
            TokenKind::MinusMinus => 44,
            TokenKind::Star => 45,
            TokenKind::Slash => 46,
            TokenKind::Percent => 47,
            TokenKind::Eq => 48,
            TokenKind::EqEq => 49,
            TokenKind::Bang => 50,
            TokenKind::BangEq => 51,
            TokenKind::Lt => 52,
            TokenKind::LtEq => 53,
            TokenKind::Gt => 54,
            TokenKind::GtEq => 55,
            TokenKind::Amp => 56,
            TokenKind::AmpAmp => 57,
            TokenKind::Pipe => 58,
            TokenKind::PipePipe => 59,
            TokenKind::Caret => 60,
            TokenKind::LtLt => 61,
            TokenKind::GtGt => 62,
            TokenKind::DotDot => 63,
            TokenKind::PlusEq => 64,
            TokenKind::MinusEq => 65,
            TokenKind::StarEq => 66,
            TokenKind::SlashEq => 67,
            TokenKind::PercentEq => 68,
            TokenKind::AmpEq => 69,
            TokenKind::PipeEq => 70,
            TokenKind::CaretEq => 71,
            TokenKind::LtLtEq => 72,
            TokenKind::GtGtEq => 73,
            TokenKind::Eof => 74,
        }
    }

    /// Equality of token kinds, comparing payload text by its characters.
    pub open spec fn same(self, other: TokenKind) -> bool {
        match (self, other) {
            (TokenKind::Int(a, b), TokenKind::Int(c, d)) => a == c && b == d,
            (TokenKind::Float(a, b), TokenKind::Float(c, d)) => a@ == c@ && b == d,
            (TokenKind::String(a), TokenKind::String(c)) => a@ == c@,
            (TokenKind::Ident(a), TokenKind::Ident(c)) => a@ == c@,
            _ => self.spec_tag() >= 4 && self.spec_tag() == other.spec_tag(),
        }
    }

    pub fn matches(&self, other: &TokenKind) -> (r: bool)
        ensures
            r == self.same(*other),
    {
        match (self, other) {
            (TokenKind::Int(a, b), TokenKind::Int(c, d)) => *a == *c && *b == *d,
            (TokenKind::Float(a, b), TokenKind::Float(c, d)) => *a == *c && *b == *d,
            (TokenKind::String(a), TokenKind::String(c)) => *a == *c,
            (TokenKind::Ident(a), TokenKind::Ident(c)) => *a == *c,
            _ => {
                let t = self.tag();
                t >= 4 && t == other.tag()
            },
        }
    }

    /// How the token kind is named in diagnostics.
    pub open spec fn spec_describe(self) -> Seq<char> {
        match self {
            TokenKind::Int(..) => "integer"@,
            TokenKind::Float(..) => "float"@,
            TokenKind::String(..) => "string"@,
            TokenKind::Ident(n) => "identifier `"@ + n@ + "`"@,
            TokenKind::Let => "`let`"@,
            TokenKind::Fn => "`fn`"@,
            TokenKind::Struct => "`struct`"@,
            TokenKind::Return => "`return`"@,
            TokenKind::If => "`if`"@,
            TokenKind::Else => "`else`"@,
            TokenKind::While => "`while`"@,
            TokenKind::For => "`for`"@,
            TokenKind::In => "`in`"@,
            TokenKind::Break => "`break`"@,
            TokenKind::Continue => "`continue`"@,
            TokenKind::Ref => "`ref`"@,
            TokenKind::True => "`true`"@,
            TokenKind::False => "`false`"@,
            TokenKind::I8 => "`i8`"@,
            TokenKind::I16 => "`i16`"@,
            TokenKind::I32 => "`i32`"@,
            TokenKind::I64 => "`i64`"@,
            TokenKind::U8 => "`u8`"@,
            TokenKind::U16 => "`u16`"@,
            TokenKind::U32 => "`u32`"@,
            TokenKind::U64 => "`u64`"@,
            TokenKind::F32 => "`f32`"@,
            TokenKind::F64 => "`f64`"@,
            TokenKind::StringTy => "`string`"@,
            TokenKind::Bool => "`bool`"@,
            TokenKind::Void => "`void`"@,
            TokenKind::Semicolon => "`;`"@,
            TokenKind::Colon => "`:`"@,
            TokenKind::Comma => "`,`"@,
            TokenKind::Dot => "`.`"@,
            TokenKind::Arrow => "`->`"@,
            TokenKind::LParen => "`(`"@,
            TokenKind::RParen => "`)`"@,
            TokenKind::LBrace => "`{`"@,
            TokenKind::RBrace => "`}`"@,
            TokenKind::LBracket => "`[`"@,
            TokenKind::RBracket => "`]`"@,
            TokenKind::Plus => "`+`"@,
            TokenKind::Minus => "`-`"@,
            TokenKind::PlusPlus => "`++`"@,
            TokenKind::MinusMinus => "`--`"@,
            TokenKind::Star => "`*`"@,
            TokenKind::Slash => "`/`"@,
            TokenKind::Percent => "`%`"@,
            TokenKind::Eq => "`=`"@,
            TokenKind::EqEq => "`==`"@,
            TokenKind::Bang => "`!`"@,
            TokenKind::BangEq => "`!=`"@,
            TokenKind::Lt => "`<`"@,
            TokenKind::LtEq => "`<=`"@,
            TokenKind::Gt => "`>`"@,
            TokenKind::GtEq => "`>=`"@,
            TokenKind::Amp => "`&`"@,
            TokenKind::AmpAmp => "`&&`"@,
            TokenKind::Pipe => "`|`"@,
            TokenKind::PipePipe => "`||`"@,
            TokenKind::Caret => "`^`"@,
            TokenKind::LtLt => "`<<`"@,
            TokenKind::GtGt => "`>>`"@,
            TokenKind::DotDot => "`..`"@,
            TokenKind::PlusEq => "`+=`"@,
            TokenKind::MinusEq => "`-=`"@,
            TokenKind::StarEq => "`*=`"@,
            TokenKind::SlashEq => "`/=`"@,
            TokenKind::PercentEq => "`%=`"@,
            TokenKind::AmpEq => "`&=`"@,
            TokenKind::PipeEq => "`|=`"@,
            TokenKind::CaretEq => "`^=`"@,
            TokenKind::LtLtEq => "`<<=`"@,
            TokenKind::GtGtEq => "`>>=`"@,
            TokenKind::Eof => "end of file"@,
        }
    }

    pub fn describe(&self) -> (s: String)
        ensures
            s@ == self.spec_describe(),
    {
        match self {
            TokenKind::Int(..) => String::from_str("integer"),
            TokenKind::Float(..) => String::from_str("float"),
            TokenKind::String(..) => String::from_str("string"),
            TokenKind::Ident(n) => {
                let mut s = String::from_str("identifier `");
                push_str(&mut s, n.as_str());
                push_str(&mut s, "`");
                s
            },
            TokenKind::Let => String::from_str("`let`"),
            TokenKind::Fn => String::from_str("`fn`"),
            TokenKind::Struct => String::from_str("`struct`"),
            TokenKind::Return => String::from_str("`return`"),
            TokenKind::If => String::from_str("`if`"),
            TokenKind::Else => String::from_str("`else`"),
            TokenKind::While => String::from_str("`while`"),
            TokenKind::For => String::from_str("`for`"),
            TokenKind::In => String::from_str("`in`"),
            TokenKind::Break => String::from_str("`break`"),
            TokenKind::Continue => String::from_str("`continue`"),
            TokenKind::Ref => String::from_str("`ref`"),
            TokenKind::True => String::from_str("`true`"),
            TokenKind::False => String::from_str("`false`"),
            TokenKind::I8 => String::from_str("`i8`"),
            TokenKind::I16 => String::from_str("`i16`"),
            TokenKind::I32 => String::from_str("`i32`"),
            TokenKind::I64 => String::from_str("`i64`"),
            TokenKind::U8 => String::from_str("`u8`"),
            TokenKind::U16 => String::from_str("`u16`"),
            TokenKind::U32 => String::from_str("`u32`"),
            TokenKind::U64 => String::from_str("`u64`"),
            TokenKind::F32 => String::from_str("`f32`"),
            TokenKind::F64 => String::from_str("`f64`"),
            TokenKind::StringTy => String::from_str("`string`"),
            TokenKind::Bool => String::from_str("`bool`"),
            TokenKind::Void => String::from_str("`void`"),
            TokenKind::Semicolon => String::from_str("`;`"),
            TokenKind::Colon => String::from_str("`:`"),
            TokenKind::Comma => String::from_str("`,`"),
            TokenKind::Dot => String::from_str("`.`"),
            TokenKind::Arrow => String::from_str("`->`"),
            TokenKind::LParen => String::from_str("`(`"),
            TokenKind::RParen => String::from_str("`)`"),
            TokenKind::LBrace => String::from_str("`{`"),
            TokenKind::RBrace => String::from_str("`}`"),
            TokenKind::LBracket => String::from_str("`[`"),
            TokenKind::RBracket => String::from_str("`]`"),
            TokenKind::Plus => String::from_str("`+`"),
            TokenKind::Minus => String::from_str("`-`"),
            TokenKind::PlusPlus => String::from_str("`++`"),
            TokenKind::MinusMinus => String::from_str("`--`"),
            TokenKind::Star => String::from_str("`*`"),
            TokenKind::Slash => String::from_str("`/`"),
            TokenKind::Percent => String::from_str("`%`"),
            TokenKind::Eq => String::from_str("`=`"),
            TokenKind::EqEq => String::from_str("`==`"),
            TokenKind::Bang => String::from_str("`!`"),
            TokenKind::BangEq => String::from_str("`!=`"),
            TokenKind::Lt => String::from_str("`<`"),
            TokenKind::LtEq => String::from_str("`<=`"),
            TokenKind::Gt => String::from_str("`>`"),
            TokenKind::GtEq => String::from_str("`>=`"),
            TokenKind::Amp => String::from_str("`&`"),
            TokenKind::AmpAmp => String::from_str("`&&`"),
            TokenKind::Pipe => String::from_str("`|`"),
            TokenKind::PipePipe => String::from_str("`||`"),
            TokenKind::Caret => String::from_str("`^`"),
            TokenKind::LtLt => String::from_str("`<<`"),
            TokenKind::GtGt => String::from_str("`>>`"),
            TokenKind::DotDot => String::from_str("`..`"),
            TokenKind::PlusEq => String::from_str("`+=`"),
            TokenKind::MinusEq => String::from_str("`-=`"),
            TokenKind::StarEq => String::from_str("`*=`"),
            TokenKind::SlashEq => String::from_str("`/=`"),
            TokenKind::PercentEq => String::from_str("`%=`"),
            TokenKind::AmpEq => String::from_str("`&=`"),
            TokenKind::PipeEq => String::from_str("`|=`"),
            TokenKind::CaretEq => String::from_str("`^=`"),
            TokenKind::LtLtEq => String::from_str("`<<=`"),
            TokenKind::GtGtEq => String::from_str("`>>=`"),
            TokenKind::Eof => String::from_str("end of file"),
        }
    }
}

} // verus!
