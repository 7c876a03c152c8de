//! The lexer: source bytes to tokens.

use vstd::prelude::*;
use vstd::utf8::{valid_utf8, decode_utf8};
use vstd::slice::slice_subrange;
use vstd::string::{StrSliceExecFns, StringSliceAdditionalSpecFns};
use crate::lexer::spec::{
    utf8_error_text, TokV, kind_view, LexErrV, LS, adv, span_of, is_digit, is_hex, is_ident_byte,
    digits_end, hex_end, ident_end, high_end, byte_text, dec_value, hex_digit_value, radix_value,
    valid_digit, first_invalid, int_suffix_of, float_suffix_of, int_suffix_at, float_suffix_at,
    keyword, byte_is, or_assign, punct, skip_block, line_end, skip_ws, TokOut, err_from, lex_radix,
    lex_decimal, lex_number, escape_char, string_body, lex_token, tokenize_from, lemma_digits_end,
    lemma_hex_end, lemma_ident_end, lemma_high_end, lemma_line_end, lemma_skip_block,
};
use crate::lexer::token::{FloatSuffix, IntegerSuffix, LexError, Span, Token, TokenKind};
use crate::text::{push_char, push_str};

verus! {

/// Decodes a run of bytes with `std::str::from_utf8`. Trusted: std documents
/// that `from_utf8` succeeds exactly on well-formed UTF-8 and then yields the
/// encoded characters; on failure the error's rendering (by its `Display`)
/// depends on the bytes alone, and is named here without being stated.
#[verifier::external_body]
fn decode_utf8_run(bytes: &[u8]) -> (r: Result<String, String>)
    ensures
        r is Ok <==> valid_utf8(bytes@),
        r matches Ok(s) ==> s@ == decode_utf8(bytes@),
        r matches Err(m) ==> m@ == utf8_error_text(bytes@),
{
    match std::str::from_utf8(bytes) {
        Ok(s) => Ok(s.to_string()),
        Err(e) => Err(e.to_string()),
    }
}

pub open spec fn lex_res(r: Result<Token, LexError>) -> Result<(TokV, Span), LexErrV> {
    match r {
        Ok(t) => Ok(t@),
        Err(e) => Err(e@),
    }
}

pub open spec fn toks_view(ts: Seq<Token>) -> Seq<(TokV, Span)> {
    Seq::new(ts.len(), |i: int| ts[i]@)
}

/// Number of characters an integer suffix is written with.
pub open spec fn int_suffix_len(s: IntegerSuffix) -> int {
    match s {
        IntegerSuffix::Unsuffixed => 0,
        IntegerSuffix::I8 | IntegerSuffix::U8 => 2,
        _ => 3,
    }
}

pub open spec fn float_suffix_len(s: FloatSuffix) -> int {
    match s {
        FloatSuffix::Unsuffixed => 0,
        _ => 3,
    }
}

pub fn integer_suffix_str_len(s: IntegerSuffix) -> (n: usize)
    ensures
        n == int_suffix_len(s),
{
    match s {
        IntegerSuffix::Unsuffixed => 0,
        IntegerSuffix::I8 | IntegerSuffix::U8 => 2,
        IntegerSuffix::I16 | IntegerSuffix::U16 | IntegerSuffix::I32 | IntegerSuffix::U32
        | IntegerSuffix::I64 | IntegerSuffix::U64 => 3,
    }
}

pub fn float_suffix_str_len(s: FloatSuffix) -> (n: usize)
    ensures
        n == float_suffix_len(s),
{
    match s {
        FloatSuffix::Unsuffixed => 0,
        FloatSuffix::F32 | FloatSuffix::F64 => 3,
    }
}

proof fn lemma_int_suffix_at(b: Seq<u8>, p: int)
    requires
        0 <= p <= b.len(),
    ensures
        p <= int_suffix_at(b, p).1 <= b.len(),
        int_suffix_at(b, p).1 - p == int_suffix_len(int_suffix_at(b, p).0),
{
    lemma_ident_end(b, p);
    let q = ident_end(b, p);
    let t = byte_text(b, p, q);
    assert(t.len() == q - p);
    reveal_strlit("i8");
    reveal_strlit("i16");
    reveal_strlit("i32");
    reveal_strlit("i64");
    reveal_strlit("u8");
    reveal_strlit("u16");
    reveal_strlit("u32");
    reveal_strlit("u64");
}

proof fn lemma_float_suffix_at(b: Seq<u8>, p: int)
    requires
        0 <= p <= b.len(),
    ensures
        p <= float_suffix_at(b, p).1 <= b.len(),
        float_suffix_at(b, p).1 - p == float_suffix_len(float_suffix_at(b, p).0),
{
    lemma_ident_end(b, p);
    let q = ident_end(b, p);
    assert(byte_text(b, p, q).len() == q - p);
    reveal_strlit("f32");
    reveal_strlit("f64");
}

proof fn lemma_dec_value_nonneg(b: Seq<u8>, p: int, q: int)
    requires
        forall|k: int| p <= k < q ==> is_digit(b[k]),
    ensures
        dec_value(b, p, q) >= 0,
    decreases q - p,
{
    if q > p {
        lemma_dec_value_nonneg(b, p, q - 1);
    }
}

proof fn lemma_radix_value_nonneg(b: Seq<u8>, p: int, q: int, radix: int)
    requires
        radix >= 2,
        forall|k: int| p <= k < q ==> is_hex(b[k]),
    ensures
        radix_value(b, p, q, radix) >= 0,
    decreases q - p,
{
    if q > p {
        lemma_radix_value_nonneg(b, p, q - 1, radix);
        assert(radix_value(b, p, q - 1, radix) * radix >= 0) by (nonlinear_arith)
            requires radix_value(b, p, q - 1, radix) >= 0, radix >= 2;
    }
}

proof fn lemma_decode_len(bytes: Seq<u8>)
    requires
        valid_utf8(bytes),
    ensures
        decode_utf8(bytes).len() <= bytes.len(),
    decreases bytes.len(),
{
    if bytes.len() > 0 {
        let rest = vstd::utf8::pop_first_scalar(bytes);
        assert(vstd::utf8::length_of_first_scalar(bytes) >= 1);
        assert(vstd::utf8::length_of_first_scalar(bytes) <= bytes.len());
        assert(rest.len() < bytes.len());
        lemma_decode_len(rest);
    }
}

/// Whether `s` holds the text `lit`.
fn text_is(s: &String, lit: &str) -> (r: bool)
    ensures
        r == (s@ == lit@),
{
    let t = String::from_str(lit);
    *s == t
}

/// Turns source text into tokens.
pub struct Lexer<'a> {
    bytes: &'a [u8],
    pos: usize,
    line: usize,
    col: usize,
}

impl<'a> Lexer<'a> {
    /// The bytes being lexed.
    pub closed spec fn source(&self) -> Seq<u8> {
        self.bytes@
    }

    /// Where the lexer stands.
    pub closed spec fn state(&self) -> LS {
        LS { pos: self.pos as int, line: self.line as int, col: self.col as int }
    }

    /// The lexer's invariant: it stands inside the input, and line and
    /// column, which grow at most one per byte read, cannot overflow.
    pub closed spec fn wf(&self) -> bool {
        &&& self.pos <= self.bytes@.len()
        &&& self.bytes@.len() < usize::MAX
        &&& 1 <= self.line <= self.pos + 1
        &&& self.col <= self.pos + 1
    }

    pub fn new(source: &'a str) -> (l: Self)
        requires
            source.spec_bytes().len() < usize::MAX,
        ensures
            l.wf(),
            l.source() == source.spec_bytes(),
            l.state() == (LS { pos: 0, line: 1, col: 1 }),
    {
        Self { bytes: source.as_bytes(), pos: 0, line: 1, col: 1 }
    }

    /// A lexer over raw bytes, which need not be valid UTF-8; string
    /// literals whose bytes are not are refused when lexed.
    pub fn from_bytes(source: &'a [u8]) -> (l: Self)
        requires
            source@.len() < usize::MAX,
        ensures
            l.wf(),
            l.source() == source@,
            l.state() == (LS { pos: 0, line: 1, col: 1 }),
    {
        Self { bytes: source, pos: 0, line: 1, col: 1 }
    }

    /// The tokens of the rest of the input, ending with the end-of-file
    /// token, or the first lexical error.
    pub fn tokenize(&mut self) -> (r: Result<Vec<Token>, LexError>)
        requires
            old(self).wf(),
        ensures
            match tokenize_from(old(self).source(), old(self).state(), Seq::empty()) {
                Ok(ts) => r matches Ok(v) && toks_view(v@) == ts,
                Err(e) => r matches Err(x) && x@ == e,
            },
    {
        let ghost b = self.bytes@;
        let ghost target = tokenize_from(b, self.state(), Seq::empty());
        let mut tokens: Vec<Token> = Vec::new();
        assert(toks_view(tokens@) =~= Seq::<(TokV, Span)>::empty());
        loop
            invariant
                self.wf(),
                b == self.bytes@,
                b == old(self).source(),
                target == tokenize_from(old(self).source(), old(self).state(), Seq::empty()),
                tokenize_from(b, self.state(), toks_view(tokens@)) == target,
            decreases b.len() - self.pos,
        {
            let ghost s0 = self.state();
            self.skip_whitespace_and_comments();
            if self.pos >= self.bytes.len() {
                let span = self.span_at(self.pos, self.pos, self.line, self.col);
                let ghost before = tokens@;
                tokens.push(Token::new(TokenKind::Eof, span));
                assert(toks_view(tokens@) =~= toks_view(before).push((TokV::Plain(TokenKind::Eof), span)));
                return Ok(tokens);
            }
            let ghost s1 = self.state();
            proof {
                crate::lexer::spec::lemma_skip_ws(b, s0);
                crate::lexer::spec::lemma_lex_token_progress(b, s1);
            }
            let t = self.lex_token()?;
            let ghost before = tokens@;
            let ghost tv = t@;
            tokens.push(t);
            assert(toks_view(tokens@) =~= toks_view(before).push(tv));
        }
    }

    fn bump(&mut self)
        requires
            old(self).wf(),
            old(self).pos < old(self).bytes@.len(),
        ensures
            final(self).wf(),
            final(self).source() == old(self).source(),
            final(self).state() == adv(old(self).state(), 1),
    {
        self.pos += 1;
        self.col += 1;
    }

    fn span_at(&self, start: usize, end: usize, line: usize, col: usize) -> (s: Span)
        ensures
            s == span_of(start as int, end as int, line as int, col as int),
    {
        Span::new(start, end, line, col)
    }

    /// Skips spaces, tabs, line breaks and comments.
    fn skip_whitespace_and_comments(&mut self)
        requires
            old(self).wf(),
        ensures
            final(self).wf(),
            final(self).source() == old(self).source(),
            final(self).state() == skip_ws(old(self).source(), old(self).state()),
    {
        let ghost b = self.bytes@;
        let ghost target = skip_ws(b, self.state());
        loop
            invariant
                self.wf(),
                b == self.bytes@,
                b == old(self).source(),
                target == skip_ws(old(self).source(), old(self).state()),
                skip_ws(b, self.state()) == target,
            decreases b.len() - self.pos,
        {
            let ghost s_start = self.state();
            if self.pos >= self.bytes.len() {
                return;
            }
            let c = self.bytes[self.pos];
            if c == 32 || c == 9 {
                self.bump();
            } else if c == 10 {
                self.line += 1;
                self.col = 1;
                self.pos += 1;
            } else if c == 13 {
                self.line += 1;
                self.col = 1;
                self.pos += 1;
                if self.pos < self.bytes.len() && self.bytes[self.pos] == 10 {
                    self.pos += 1;
                }
            } else if c == 47 && self.pos + 1 < self.bytes.len() && self.bytes[self.pos + 1] == 47 {
                let ghost s = self.state();
                proof {
                    lemma_line_end(b, s.pos + 1);
                }
                while self.pos < self.bytes.len() && self.bytes[self.pos] != 10
                    invariant
                        self.wf(),
                        b == self.bytes@,
                        b == old(self).source(),
                        s.pos <= self.pos,
                        self.pos == s.pos ==> self.pos < b.len() && b[self.pos as int] != 10,
                        self.line == s.line,
                        self.col == s.col,
                        line_end(b, s.pos) == line_end(b, self.pos as int),
                    decreases b.len() - self.pos,
                {
                    self.pos += 1;
                }
            } else if c == 47 && self.pos + 1 < self.bytes.len() && self.bytes[self.pos + 1] == 42 {
                self.bump();
                self.bump();
                let ghost s2 = self.state();
                proof {
                    lemma_skip_block(b, s2);
                }
                loop
                    invariant_except_break
                        skip_ws(b, skip_block(b, self.state())) == target,
                    invariant
                        self.wf(),
                        b == self.bytes@,
                        b == old(self).source(),
                        target == skip_ws(old(self).source(), old(self).state()),
                        self.pos >= s_start.pos + 2,
                    ensures
                        skip_ws(b, self.state()) == target,
                    decreases b.len() - self.pos,
                {
                    if self.pos >= self.bytes.len() {
                        return;
                    }
                    if self.bytes[self.pos] == 42 && self.pos + 1 < self.bytes.len() && self.bytes[self.pos + 1] == 47 {
                        self.bump();
                        self.bump();
                        break;
                    }
                    if self.bytes[self.pos] == 10 {
                        self.line += 1;
                        self.col = 1;
                        self.pos += 1;
                    } else if self.bytes[self.pos] == 13 {
                        self.line += 1;
                        self.col = 1;
                        self.pos += 1;
                        if self.pos < self.bytes.len() && self.bytes[self.pos] == 10 {
                            self.pos += 1;
                        }
                    } else {
                        self.bump();
                    }
                }
            } else {
                return;
            }
        }
    }

    /// Consumes a run of decimal digits.
    fn scan_digits(&mut self)
        requires
            old(self).wf(),
        ensures
            final(self).wf(),
            final(self).source() == old(self).source(),
            final(self).state() == adv(old(self).state(), digits_end(old(self).source(), old(self).pos as int) - old(self).pos),
    {
        let ghost b = self.bytes@;
        let ghost s0 = self.state();
        while self.pos < self.bytes.len() && 48 <= self.bytes[self.pos] && self.bytes[self.pos] <= 57
            invariant
                self.wf(),
                b == self.bytes@,
                b == old(self).source(),
                s0.pos <= self.pos,
                self.state() == adv(s0, self.pos - s0.pos),
                digits_end(b, s0.pos) == digits_end(b, self.pos as int),
            decreases b.len() - self.pos,
        {
            self.bump();
        }
    }

    /// Consumes `.` when a digit follows it.
    fn try_dot_digit(&mut self) -> (r: bool)
        requires
            old(self).wf(),
        ensures
            final(self).wf(),
            final(self).source() == old(self).source(),
            r == (byte_is(old(self).source(), old(self).pos as int, 46) && old(self).pos + 1 < old(self).source().len()
                && is_digit(old(self).source()[old(self).pos + 1])),
            final(self).state() == if r { adv(old(self).state(), 1) } else { old(self).state() },
    {
        if self.pos + 1 < self.bytes.len() && self.bytes[self.pos] == 46 && 48 <= self.bytes[self.pos + 1]
            && self.bytes[self.pos + 1] <= 57 {
            self.bump();
            true
        } else {
            false
        }
    }

    /// Consumes an exponent marker `e` or `E`.
    fn try_char_e(&mut self) -> (r: bool)
        requires
            old(self).wf(),
        ensures
            final(self).wf(),
            final(self).source() == old(self).source(),
            r == (byte_is(old(self).source(), old(self).pos as int, 101) || byte_is(old(self).source(), old(self).pos as int, 69)),
            final(self).state() == if r { adv(old(self).state(), 1) } else { old(self).state() },
    {
        if self.pos < self.bytes.len() && (self.bytes[self.pos] == 101 || self.bytes[self.pos] == 69) {
            self.bump();
            true
        } else {
            false
        }
    }

    /// Consumes a sign `+` or `-`.
    fn try_sign(&mut self)
        requires
            old(self).wf(),
        ensures
            final(self).wf(),
            final(self).source() == old(self).source(),
            final(self).state() == if byte_is(old(self).source(), old(self).pos as int, 43)
                || byte_is(old(self).source(), old(self).pos as int, 45) {
                adv(old(self).state(), 1)
            } else {
                old(self).state()
            },
    {
        if self.pos < self.bytes.len() && (self.bytes[self.pos] == 43 || self.bytes[self.pos] == 45) {
            self.bump();
        }
    }

    /// The text of bytes `p..q`, one character per byte.
    fn text_of(&self, p: usize, q: usize) -> (s: String)
        requires
            p <= q <= self.bytes@.len(),
        ensures
            s@ == byte_text(self.bytes@, p as int, q as int),
    {
        let mut s = String::new();
        let mut k = p;
        while k < q
            invariant
                p <= k <= q <= self.bytes@.len(),
                s@ == byte_text(self.bytes@, p as int, k as int),
            decreases q - k,
        {
            push_char(&mut s, self.bytes[k] as char);
            assert(s@ =~= byte_text(self.bytes@, p as int, k + 1));
            k += 1;
        }
        s
    }

    /// Consumes an identifier and returns its text.
    fn scan_ident(&mut self) -> (s: String)
        requires
            old(self).wf(),
        ensures
            final(self).wf(),
            final(self).source() == old(self).source(),
            final(self).state() == adv(old(self).state(), ident_end(old(self).source(), old(self).pos as int) - old(self).pos),
            s@ == byte_text(old(self).source(), old(self).pos as int, ident_end(old(self).source(), old(self).pos as int)),
    {
        let ghost b = self.bytes@;
        let ghost s0 = self.state();
        let start = self.pos;
        while self.pos < self.bytes.len() && (48 <= self.bytes[self.pos] && self.bytes[self.pos] <= 57
            || 97 <= self.bytes[self.pos] && self.bytes[self.pos] <= 122 || 65 <= self.bytes[self.pos]
            && self.bytes[self.pos] <= 90 || self.bytes[self.pos] == 95)
            invariant
                self.wf(),
                b == self.bytes@,
                b == old(self).source(),
                s0.pos <= self.pos,
                start == s0.pos,
                self.state() == adv(s0, self.pos - s0.pos),
                ident_end(b, s0.pos) == ident_end(b, self.pos as int),
            decreases b.len() - self.pos,
        {
            self.bump();
        }
        self.text_of(start, self.pos)
    }

    /// Consumes an integer suffix (`i8` ... `u64`) when one follows.
    fn lex_integer_suffix_name(&mut self) -> (r: IntegerSuffix)
        requires
            old(self).wf(),
        ensures
            final(self).wf(),
            final(self).source() == old(self).source(),
            (r, final(self).pos as int) == int_suffix_at(old(self).source(), old(self).pos as int),
            final(self).state() == adv(old(self).state(), final(self).pos - old(self).pos),
    {
        let save = (self.pos, self.col, self.line);
        let name = self.scan_ident();
        let r = if text_is(&name, "i8") {
            IntegerSuffix::I8
        } else if text_is(&name, "i16") {
            IntegerSuffix::I16
        } else if text_is(&name, "i32") {
            IntegerSuffix::I32
        } else if text_is(&name, "i64") {
            IntegerSuffix::I64
        } else if text_is(&name, "u8") {
            IntegerSuffix::U8
        } else if text_is(&name, "u16") {
            IntegerSuffix::U16
        } else if text_is(&name, "u32") {
            IntegerSuffix::U32
        } else if text_is(&name, "u64") {
            IntegerSuffix::U64
        } else {
            self.pos = save.0;
            self.col = save.1;
            self.line = save.2;
            IntegerSuffix::Unsuffixed
        };
        r
    }

    /// Consumes a float suffix (`f32`, `f64`) when one follows.
    fn lex_float_suffix_name(&mut self) -> (r: FloatSuffix)
        requires
            old(self).wf(),
        ensures
            final(self).wf(),
            final(self).source() == old(self).source(),
            (r, final(self).pos as int) == float_suffix_at(old(self).source(), old(self).pos as int),
            final(self).state() == adv(old(self).state(), final(self).pos - old(self).pos),
    {
        let save = (self.pos, self.col, self.line);
        let name = self.scan_ident();
        if text_is(&name, "f32") {
            FloatSuffix::F32
        } else if text_is(&name, "f64") {
            FloatSuffix::F64
        } else {
            self.pos = save.0;
            self.col = save.1;
            self.line = save.2;
            FloatSuffix::Unsuffixed
        }
    }

    /// Whether `c` is a digit in base `radix` (2, 8 or 16).
    pub fn is_valid_digit(c: u8, radix: u32) -> (r: bool)
        ensures
            r == valid_digit(c, radix as int),
    {
        match radix {
            2 => c == 48 || c == 49,
            8 => 48 <= c && c <= 55,
            16 => 48 <= c && c <= 57 || 97 <= c && c <= 102 || 65 <= c && c <= 70,
            _ => false,
        }
    }
}

impl<'a> Lexer<'a> {
    /// A literal in base `radix` whose prefix `0x`/`0o`/`0b` starts here.
    fn lex_radix(&mut self, start: usize, start_line: usize, start_col: usize, radix: u32, name: &str) -> (r: Result<
        Token,
        LexError,
    >)
        requires
            old(self).wf(),
            old(self).pos == start,
            old(self).line == start_line,
            old(self).col == start_col,
            start + 1 < old(self).source().len(),
            radix == 2 || radix == 8 || radix == 16,
        ensures
            final(self).wf(),
            final(self).source() == old(self).source(),
            (final(self).state(), lex_res(r)) == lex_radix(old(self).source(), old(self).state(), radix as int, name@),
    {
        let ghost b = self.bytes@;
        let ghost s0 = self.state();
        self.bump();
        self.bump();
        let digits_start = self.pos;
        proof {
            lemma_hex_end(b, digits_start as int);
        }
        while self.pos < self.bytes.len() && (48 <= self.bytes[self.pos] && self.bytes[self.pos] <= 57
            || 97 <= self.bytes[self.pos] && self.bytes[self.pos] <= 102 || 65 <= self.bytes[self.pos]
            && self.bytes[self.pos] <= 70)
            invariant
                self.wf(),
                b == self.bytes@,
                b == old(self).source(),
                digits_start <= self.pos,
                digits_start == s0.pos + 2,
                self.state() == adv(s0, self.pos - s0.pos),
                hex_end(b, digits_start as int) == hex_end(b, self.pos as int),
            decreases b.len() - self.pos,
        {
            self.bump();
        }
        let q = self.pos;
        if q == digits_start {
            let mut m = String::from_str("empty ");
            push_str(&mut m, name);
            push_str(&mut m, " literal");
            assert(m@ =~= "empty "@ + name@ + " literal"@);
            return Err(LexError { message: m, span: self.span_at(start, q, start_line, start_col) });
        }
        let mut k = digits_start;
        while k < q
            invariant
                digits_start <= k <= q <= b.len(),
                b == self.bytes@,
                b == old(self).source(),
                self.wf(),
                q == self.pos,
                self.state() == adv(s0, q - s0.pos),
                s0 == old(self).state(),
                start == s0.pos,
                start_line == s0.line,
                start_col == s0.col,
                radix == 2 || radix == 8 || radix == 16,
                digits_start == s0.pos + 2,
                hex_end(b, digits_start as int) == q,
                q > digits_start,
                first_invalid(b, digits_start as int, q as int, radix as int) == first_invalid(b, k as int, q as int, radix as int),
            decreases q - k,
        {
            let c = self.bytes[k];
            if !Self::is_valid_digit(c, radix) {
                let mut m = String::from_str("invalid digit `");
                push_char(&mut m, c as char);
                push_str(&mut m, "` in ");
                push_str(&mut m, name);
                push_str(&mut m, " literal");
                assert(m@ =~= "invalid digit `"@ + seq![c as char] + "` in "@ + name@ + " literal"@);
                return Err(LexError { message: m, span: self.span_at(start, q, start_line, start_col) });
            }
            k += 1;
        }
        let rad = radix as i64;
        let mut v: i64 = 0;
        let mut over = false;
        let mut k = digits_start;
        proof {
            lemma_radix_value_nonneg(b, digits_start as int, digits_start as int, radix as int);
        }
        while k < q
            invariant
                digits_start <= k <= q <= b.len(),
                b == self.bytes@,
                b == old(self).source(),
                self.wf(),
                q == self.pos,
                self.state() == adv(s0, q - s0.pos),
                hex_end(b, digits_start as int) == q,
                first_invalid(b, digits_start as int, q as int, radix as int) is None,
                rad == radix as int,
                radix == 2 || radix == 8 || radix == 16,
                forall|j: int| digits_start <= j < q ==> is_hex(b[j]),
                !over ==> v == radix_value(b, digits_start as int, k as int, radix as int),
                over ==> radix_value(b, digits_start as int, k as int, radix as int) > i64::MAX,
                v >= 0,
            decreases q - k,
        {
            let c = self.bytes[k];
            let d: i64 = if 48 <= c && c <= 57 { (c - 48) as i64 } else if 97 <= c && c <= 102 { (c - 87) as i64 } else { (c - 55) as i64 };
            assert(d == hex_digit_value(c));
            proof {
                lemma_radix_value_nonneg(b, digits_start as int, k as int, radix as int);
            }
            let ghost prev = radix_value(b, digits_start as int, k as int, radix as int);
            if !over {
                if v > (i64::MAX - d) / rad {
                    assert(v * rad + d > i64::MAX) by (nonlinear_arith)
                        requires v > (i64::MAX - d) / (rad as int), rad >= 2, d >= 0, d < 16;
                    over = true;
                } else {
                    assert(v * rad + d <= i64::MAX) by (nonlinear_arith)
                        requires v <= (i64::MAX - d) / (rad as int), rad >= 2, d >= 0, d < 16, v >= 0;
                    v = v * rad + d;
                }
            } else {
                assert(prev * rad + d > i64::MAX) by (nonlinear_arith)
                    requires prev > i64::MAX, rad >= 2, d >= 0;
            }
            k += 1;
        }
        if over {
            let mut m = String::new();
            push_str(&mut m, name);
            push_str(&mut m, " literal overflow: `");
            let raw = self.text_of(digits_start, q);
            push_str(&mut m, raw.as_str());
            push_str(&mut m, "`");
            assert(m@ =~= name@ + " literal overflow: `"@ + byte_text(b, digits_start as int, q as int) + "`"@);
            return Err(LexError { message: m, span: self.span_at(start, q, start_line, start_col) });
        }
        let suffix = self.lex_integer_suffix_name();
        Ok(Token::new(TokenKind::Int(v, suffix), self.span_at(start, q, start_line, start_col)))
    }

    /// The token after the digits of a decimal literal: a float (with an
    /// optional `f32`/`f64` suffix) or an integer (with an optional integer suffix).
    fn try_integer_suffix(&mut self, start: usize, start_line: usize, start_col: usize, is_float: bool) -> (r: Result<
        Token,
        LexError,
    >)
        requires
            old(self).wf(),
            start <= old(self).pos,
            start_line == old(self).line,
            start_col + (old(self).pos - start) == old(self).col,
            !is_float ==> forall|j: int| start <= j < old(self).pos ==> is_digit(old(self).source()[j]),
        ensures
            final(self).wf(),
            final(self).source() == old(self).source(),
            ({
                let b = old(self).source();
                let q = old(self).pos as int;
                let p = start as int;
                let s0 = LS { pos: p, line: start_line as int, col: start_col as int };
                if is_float {
                    let (suffix, e) = float_suffix_at(b, q);
                    final(self).state() == adv(s0, e - p)
                        && lex_res(r) == Ok::<(TokV, Span), LexErrV>((TokV::Float(byte_text(b, p, q), suffix), span_of(p, e, s0.line, s0.col)))
                } else {
                    let (suffix, e) = int_suffix_at(b, q);
                    final(self).state() == adv(s0, e - p) && lex_res(r) == if dec_value(b, p, q) > i64::MAX {
                        err_from(s0, e, "invalid integer literal `"@ + byte_text(b, p, q) + "`"@)
                    } else {
                        Ok::<(TokV, Span), LexErrV>((TokV::Int(dec_value(b, p, q) as i64, suffix), span_of(p, e, s0.line, s0.col)))
                    }
                }
            }),
    {
        let ghost b = self.bytes@;
        if is_float {
            proof {
                lemma_float_suffix_at(b, self.pos as int);
            }
            let suffix = self.lex_float_suffix_name();
            let end = self.pos;
            let span = self.span_at(start, end, start_line, start_col);
            let num_end = end - float_suffix_str_len(suffix);
            let text = self.text_of(start, num_end);
            Ok(Token::new(TokenKind::Float(text, suffix), span))
        } else {
            let q = self.pos;
            proof {
                lemma_int_suffix_at(b, q as int);
            }
            let suffix = self.lex_integer_suffix_name();
            let end = self.pos;
            let span = self.span_at(start, end, start_line, start_col);
            let num_end = end - integer_suffix_str_len(suffix);
            assert(num_end == q);
            let mut v: i64 = 0;
            let mut over = false;
            let mut k = start;
            while k < q
                invariant
                    start <= k <= q <= b.len(),
                    b == self.bytes@,
                    b == old(self).source(),
                    forall|j: int| start <= j < q ==> is_digit(b[j]),
                    !over ==> v == dec_value(b, start as int, k as int),
                    over ==> dec_value(b, start as int, k as int) > i64::MAX,
                    v >= 0,
                decreases q - k,
            {
                let d = (self.bytes[k] - 48) as i64;
                proof {
                    lemma_dec_value_nonneg(b, start as int, k as int);
                }
                let ghost prev = dec_value(b, start as int, k as int);
                if !over {
                    if v > (i64::MAX - d) / 10 {
                        assert(v * 10 + d > i64::MAX) by (nonlinear_arith)
                            requires v > (i64::MAX - d) / 10, d >= 0, d < 10;
                        over = true;
                    } else {
                        assert(v * 10 + d <= i64::MAX) by (nonlinear_arith)
                            requires v <= (i64::MAX - d) / 10, d >= 0, d < 10, v >= 0;
                        v = v * 10 + d;
                    }
                } else {
                    assert(prev * 10 + d > i64::MAX) by (nonlinear_arith)
                        requires prev > i64::MAX, d >= 0;
                }
                k += 1;
            }
            if over {
                let mut m = String::from_str("invalid integer literal `");
                let raw = self.text_of(start, q);
                push_str(&mut m, raw.as_str());
                push_str(&mut m, "`");
                assert(m@ =~= "invalid integer literal `"@ + byte_text(b, start as int, q as int) + "`"@);
                return Err(LexError { message: m, span });
            }
            Ok(Token::new(TokenKind::Int(v, suffix), span))
        }
    }

    /// A number literal.
    fn lex_number(&mut self) -> (r: Result<Token, LexError>)
        requires
            old(self).wf(),
            old(self).pos < old(self).source().len(),
            is_digit(old(self).source()[old(self).pos as int]),
        ensures
            final(self).wf(),
            final(self).source() == old(self).source(),
            (final(self).state(), lex_res(r)) == lex_number(old(self).source(), old(self).state()),
    {
        let ghost b = self.bytes@;
        let ghost s0 = self.state();
        let start = self.pos;
        let start_line = self.line;
        let start_col = self.col;
        if self.pos + 1 < self.bytes.len() && self.bytes[self.pos] == 48 {
            let c1 = self.bytes[self.pos + 1];
            if c1 == 120 || c1 == 88 {
                return self.lex_radix(start, start_line, start_col, 16, "hex");
            } else if c1 == 111 || c1 == 79 {
                return self.lex_radix(start, start_line, start_col, 8, "octal");
            } else if c1 == 98 || c1 == 66 {
                return self.lex_radix(start, start_line, start_col, 2, "binary");
            }
        }
        proof {
            lemma_digits_end(b, start as int);
        }
        self.scan_digits();
        let d1 = self.pos;
        let frac = self.try_dot_digit();
        let mut is_float = frac;
        if frac {
            proof {
                lemma_digits_end(b, d1 + 1);
            }
            self.scan_digits();
        }
        let q1 = self.pos;
        if self.try_char_e() {
            self.try_sign();
            let exp_start = self.pos;
            proof {
                lemma_digits_end(b, exp_start as int);
            }
            self.scan_digits();
            if self.pos == exp_start {
                return Err(LexError {
                    message: String::from_str("missing digits after exponent in float literal"),
                    span: self.span_at(start, self.pos, start_line, start_col),
                });
            }
            is_float = true;
        }
        self.try_integer_suffix(start, start_line, start_col, is_float)
    }
}

impl<'a> Lexer<'a> {
    /// A string literal; its opening quote is at the current position.
    fn lex_string(&mut self) -> (r: Result<Token, LexError>)
        requires
            old(self).wf(),
            old(self).pos < old(self).source().len(),
            old(self).source()[old(self).pos as int] == 34,
        ensures
            final(self).wf(),
            final(self).source() == old(self).source(),
            (final(self).state(), lex_res(r)) == string_body(old(self).source(), old(self).state(),
                adv(old(self).state(), 1), Seq::empty()),
    {
        let ghost b = self.bytes@;
        let ghost s0 = self.state();
        let ghost target = string_body(b, s0, adv(s0, 1), Seq::empty());
        let start = self.pos;
        let start_line = self.line;
        let start_col = self.col;
        self.bump();
        let mut buf = String::new();
        loop
            invariant
                self.wf(),
                b == self.bytes@,
                b == old(self).source(),
                s0 == old(self).state(),
                start == s0.pos,
                start_line == s0.line,
                start_col == s0.col,
                target == string_body(b, s0, adv(s0, 1), Seq::empty()),
                string_body(b, s0, self.state(), buf@) == target,
            decreases b.len() - self.pos,
        {
            if self.pos >= self.bytes.len() {
                return Err(LexError {
                    message: String::from_str("unterminated string literal"),
                    span: self.span_at(start, self.pos, start_line, start_col),
                });
            }
            let c = self.bytes[self.pos];
            if c == 34 {
                self.bump();
                let ghost bv = buf@;
                let t = Token::new(TokenKind::String(buf), self.span_at(start, self.pos, start_line, start_col));
                assert(t@ == (TokV::Str(bv), span_of(s0.pos, self.pos as int, s0.line, s0.col)));
                return Ok(t);
            }
            if c == 92 {
                self.bump();
                if self.pos >= self.bytes.len() {
                    return Err(LexError {
                        message: String::from_str("unterminated escape sequence"),
                        span: self.span_at(start, self.pos, start_line, start_col),
                    });
                }
                let e = self.bytes[self.pos];
                if e == 48 {
                    push_char(&mut buf, '\0');
                } else if e == 110 {
                    push_char(&mut buf, '\n');
                } else if e == 116 {
                    push_char(&mut buf, '\t');
                } else if e == 114 {
                    push_char(&mut buf, '\r');
                } else if e == 92 {
                    push_char(&mut buf, '\\');
                } else if e == 34 {
                    push_char(&mut buf, '"');
                } else {
                    let mut m = String::from_str("invalid escape sequence `\\");
                    push_char(&mut m, e as char);
                    push_str(&mut m, "`");
                    assert(m@ =~= "invalid escape sequence `\\"@ + seq![e as char] + "`"@);
                    return Err(LexError { message: m, span: self.span_at(self.pos - 1, self.pos + 1, self.line, self.col) });
                }
                self.bump();
            } else if c >= 0x80 {
                let run_start = self.pos;
                let mut run_end = run_start;
                proof {
                    lemma_high_end(b, run_start as int);
                }
                while run_end < self.bytes.len() && self.bytes[run_end] >= 0x80
                    invariant
                        run_start <= run_end <= b.len(),
                        b == self.bytes@,
                        high_end(b, run_start as int) == high_end(b, run_end as int),
                    decreases b.len() - run_end,
                {
                    run_end += 1;
                }
                let run = slice_subrange(self.bytes, run_start, run_end);
                match decode_utf8_run(run) {
                    Err(text) => {
                        let mut m = String::from_str("invalid UTF-8 in string literal: ");
                        push_str(&mut m, text.as_str());
                        return Err(LexError { message: m, span: self.span_at(run_start, run_end, self.line, self.col) });
                    },
                    Ok(chunk) => {
                        proof {
                            lemma_decode_len(run@);
                        }
                        let n = chunk.as_str().unicode_len();
                        self.col = self.col + n;
                        self.pos = run_end;
                        push_str(&mut buf, chunk.as_str());
                    },
                }
            } else {
                push_char(&mut buf, c as char);
                self.bump();
                if c == 10 {
                    self.line = self.line + 1;
                    self.col = 1;
                }
            }
        }
    }

    /// An identifier or keyword.
    fn lex_ident_or_keyword(&mut self) -> (t: Token)
        requires
            old(self).wf(),
        ensures
            final(self).wf(),
            final(self).source() == old(self).source(),
            ({
                let b = old(self).source();
                let s = old(self).state();
                let q = ident_end(b, s.pos);
                let text = byte_text(b, s.pos, q);
                final(self).state() == adv(s, q - s.pos) && t@ == (match keyword(text) {
                    Some(k) => TokV::Plain(k),
                    None => TokV::Ident(text),
                }, span_of(s.pos, q, s.line, s.col))
            }),
    {
        let start = self.pos;
        let start_line = self.line;
        let start_col = self.col;
        let raw = self.scan_ident();
        let end = self.pos;
        let kind = if text_is(&raw, "let") { TokenKind::Let }
            else if text_is(&raw, "fn") { TokenKind::Fn }
            else if text_is(&raw, "struct") { TokenKind::Struct }
            else if text_is(&raw, "return") { TokenKind::Return }
            else if text_is(&raw, "if") { TokenKind::If }
            else if text_is(&raw, "else") { TokenKind::Else }
            else if text_is(&raw, "while") { TokenKind::While }
            else if text_is(&raw, "for") { TokenKind::For }
            else if text_is(&raw, "in") { TokenKind::In }
            else if text_is(&raw, "break") { TokenKind::Break }
            else if text_is(&raw, "continue") { TokenKind::Continue }
            else if text_is(&raw, "ref") { TokenKind::Ref }
            else if text_is(&raw, "true") { TokenKind::True }
            else if text_is(&raw, "false") { TokenKind::False }
            else if text_is(&raw, "i8") { TokenKind::I8 }
            else if text_is(&raw, "i16") { TokenKind::I16 }
            else if text_is(&raw, "i32") { TokenKind::I32 }
            else if text_is(&raw, "i64") { TokenKind::I64 }
            else if text_is(&raw, "u8") { TokenKind::U8 }
            else if text_is(&raw, "u16") { TokenKind::U16 }
            else if text_is(&raw, "u32") { TokenKind::U32 }
            else if text_is(&raw, "u64") { TokenKind::U64 }
            else if text_is(&raw, "f32") { TokenKind::F32 }
            else if text_is(&raw, "f64") { TokenKind::F64 }
            else if text_is(&raw, "string") { TokenKind::StringTy }
            else if text_is(&raw, "bool") { TokenKind::Bool }
            else if text_is(&raw, "void") { TokenKind::Void }
            else { TokenKind::Ident(raw) };
        Token::new(kind, self.span_at(start, end, start_line, start_col))
    }
}

/// The token a punctuation character starts, with the lexer's next state.
pub open spec fn punct_out(b: Seq<u8>, s: LS) -> (LS, (TokV, Span)) {
    match punct(b, s.pos) {
        Some((k, n)) => (adv(s, n), (TokV::Plain(k), span_of(s.pos, s.pos + n, s.line, s.col))),
        None => (s, (TokV::Plain(TokenKind::Eof), span_of(s.pos, s.pos, s.line, s.col))),
    }
}

impl<'a> Lexer<'a> {
    /// Consumes `n` bytes of punctuation and makes the token.
    fn take_punct(&mut self, kind: TokenKind, n: usize) -> (t: Token)
        requires
            old(self).wf(),
            1 <= n <= 3,
            old(self).pos + n <= old(self).source().len(),
        ensures
            final(self).wf(),
            final(self).source() == old(self).source(),
            final(self).state() == adv(old(self).state(), n as int),
            t.kind == kind,
            t.span == span_of(old(self).pos as int, old(self).pos + n, old(self).line as int, old(self).col as int),
    {
        let start = self.pos;
        let line = self.line;
        let col = self.col;
        self.bump();
        if n >= 2 {
            self.bump();
        }
        if n >= 3 {
            self.bump();
        }
        Token::new(kind, self.span_at(start, self.pos, line, col))
    }

    fn single_char(&mut self, kind: TokenKind) -> (t: Token)
        requires
            old(self).wf(),
            old(self).pos < old(self).source().len(),
        ensures
            final(self).wf(),
            final(self).source() == old(self).source(),
            final(self).state() == adv(old(self).state(), 1),
            t.kind == kind,
            t.span == span_of(old(self).pos as int, old(self).pos + 1, old(self).line as int, old(self).col as int),
    {
        self.take_punct(kind, 1)
    }

    /// `one`, or `two` when `=` follows.
    fn bump_or_assign(&mut self, one: TokenKind, two: TokenKind) -> (t: Token)
        requires
            old(self).wf(),
            old(self).pos < old(self).source().len(),
        ensures
            final(self).wf(),
            final(self).source() == old(self).source(),
            ({
                let (k, n) = or_assign(old(self).source(), old(self).pos as int, one, two);
                final(self).state() == adv(old(self).state(), n) && t.kind == k && t.span == span_of(
                    old(self).pos as int, old(self).pos + n, old(self).line as int, old(self).col as int)
            }),
    {
        if self.pos + 1 < self.bytes.len() && self.bytes[self.pos + 1] == 61 {
            self.take_punct(two, 2)
        } else {
            self.take_punct(one, 1)
        }
    }

    fn dot_or_range(&mut self) -> (t: Token)
        requires
            old(self).wf(),
            old(self).pos < old(self).source().len(),
            old(self).source()[old(self).pos as int] == 46,
        ensures
            final(self).wf(),
            final(self).source() == old(self).source(),
            (final(self).state(), t@) == punct_out(old(self).source(), old(self).state()),
    {
        if self.pos + 1 < self.bytes.len() && self.bytes[self.pos + 1] == 46 {
            self.take_punct(TokenKind::DotDot, 2)
        } else {
            self.take_punct(TokenKind::Dot, 1)
        }
    }

    fn plus_or_assign(&mut self) -> (t: Token)
        requires
            old(self).wf(),
            old(self).pos < old(self).source().len(),
            old(self).source()[old(self).pos as int] == 43,
        ensures
            final(self).wf(),
            final(self).source() == old(self).source(),
            (final(self).state(), t@) == punct_out(old(self).source(), old(self).state()),
    {
        if self.pos + 1 < self.bytes.len() && self.bytes[self.pos + 1] == 43 {
            self.take_punct(TokenKind::PlusPlus, 2)
        } else {
            self.bump_or_assign(TokenKind::Plus, TokenKind::PlusEq)
        }
    }

    fn minus_or_arrow(&mut self) -> (t: Token)
        requires
            old(self).wf(),
            old(self).pos < old(self).source().len(),
            old(self).source()[old(self).pos as int] == 45,
        ensures
            final(self).wf(),
            final(self).source() == old(self).source(),
            (final(self).state(), t@) == punct_out(old(self).source(), old(self).state()),
    {
        if self.pos + 1 < self.bytes.len() && self.bytes[self.pos + 1] == 45 {
            self.take_punct(TokenKind::MinusMinus, 2)
        } else if self.pos + 1 < self.bytes.len() && self.bytes[self.pos + 1] == 62 {
            self.take_punct(TokenKind::Arrow, 2)
        } else {
            self.bump_or_assign(TokenKind::Minus, TokenKind::MinusEq)
        }
    }

    /// `<`, `<=`, `<<` or `<<=`.
    fn lt_chain(&mut self) -> (t: Token)
        requires
            old(self).wf(),
            old(self).pos < old(self).source().len(),
            old(self).source()[old(self).pos as int] == 60,
        ensures
            final(self).wf(),
            final(self).source() == old(self).source(),
            (final(self).state(), t@) == punct_out(old(self).source(), old(self).state()),
    {
        if self.pos + 1 < self.bytes.len() && self.bytes[self.pos + 1] == 60 {
            if self.pos + 2 < self.bytes.len() && self.bytes[self.pos + 2] == 61 {
                self.take_punct(TokenKind::LtLtEq, 3)
            } else {
                self.take_punct(TokenKind::LtLt, 2)
            }
        } else {
            self.bump_or_assign(TokenKind::Lt, TokenKind::LtEq)
        }
    }

    /// `>`, `>=`, `>>` or `>>=`.
    fn gt_chain(&mut self) -> (t: Token)
        requires
            old(self).wf(),
            old(self).pos < old(self).source().len(),
            old(self).source()[old(self).pos as int] == 62,
        ensures
            final(self).wf(),
            final(self).source() == old(self).source(),
            (final(self).state(), t@) == punct_out(old(self).source(), old(self).state()),
    {
        if self.pos + 1 < self.bytes.len() && self.bytes[self.pos + 1] == 62 {
            if self.pos + 2 < self.bytes.len() && self.bytes[self.pos + 2] == 61 {
                self.take_punct(TokenKind::GtGtEq, 3)
            } else {
                self.take_punct(TokenKind::GtGt, 2)
            }
        } else {
            self.bump_or_assign(TokenKind::Gt, TokenKind::GtEq)
        }
    }

    fn amp_chain(&mut self) -> (t: Token)
        requires
            old(self).wf(),
            old(self).pos < old(self).source().len(),
            old(self).source()[old(self).pos as int] == 38,
        ensures
            final(self).wf(),
            final(self).source() == old(self).source(),
            (final(self).state(), t@) == punct_out(old(self).source(), old(self).state()),
    {
        if self.pos + 1 < self.bytes.len() && self.bytes[self.pos + 1] == 38 {
            self.take_punct(TokenKind::AmpAmp, 2)
        } else {
            self.bump_or_assign(TokenKind::Amp, TokenKind::AmpEq)
        }
    }

    fn pipe_chain(&mut self) -> (t: Token)
        requires
            old(self).wf(),
            old(self).pos < old(self).source().len(),
            old(self).source()[old(self).pos as int] == 124,
        ensures
            final(self).wf(),
            final(self).source() == old(self).source(),
            (final(self).state(), t@) == punct_out(old(self).source(), old(self).state()),
    {
        if self.pos + 1 < self.bytes.len() && self.bytes[self.pos + 1] == 124 {
            self.take_punct(TokenKind::PipePipe, 2)
        } else {
            self.bump_or_assign(TokenKind::Pipe, TokenKind::PipeEq)
        }
    }

    /// One token at the current position, which is inside the input.
    fn lex_token(&mut self) -> (r: Result<Token, LexError>)
        requires
            old(self).wf(),
            old(self).pos < old(self).source().len(),
        ensures
            final(self).wf(),
            final(self).source() == old(self).source(),
            (final(self).state(), lex_res(r)) == lex_token(old(self).source(), old(self).state()),
    {
        let ghost b = self.bytes@;
        let ghost s = self.state();
        let start = self.pos;
        let start_line = self.line;
        let start_col = self.col;
        let c = self.bytes[self.pos];
        if 48 <= c && c <= 57 {
            self.lex_number()
        } else if c == 34 {
            self.lex_string()
        } else if 97 <= c && c <= 122 || 65 <= c && c <= 90 || c == 95 {
            Ok(self.lex_ident_or_keyword())
        } else if c == 59 {
            Ok(self.single_char(TokenKind::Semicolon))
        } else if c == 58 {
            Ok(self.single_char(TokenKind::Colon))
        } else if c == 44 {
            Ok(self.single_char(TokenKind::Comma))
        } else if c == 46 {
            Ok(self.dot_or_range())
        } else if c == 40 {
            Ok(self.single_char(TokenKind::LParen))
        } else if c == 41 {
            Ok(self.single_char(TokenKind::RParen))
        } else if c == 123 {
            Ok(self.single_char(TokenKind::LBrace))
        } else if c == 125 {
            Ok(self.single_char(TokenKind::RBrace))
        } else if c == 91 {
            Ok(self.single_char(TokenKind::LBracket))
        } else if c == 93 {
            Ok(self.single_char(TokenKind::RBracket))
        } else if c == 43 {
            Ok(self.plus_or_assign())
        } else if c == 45 {
            Ok(self.minus_or_arrow())
        } else if c == 42 {
            Ok(self.bump_or_assign(TokenKind::Star, TokenKind::StarEq))
        } else if c == 47 {
            Ok(self.bump_or_assign(TokenKind::Slash, TokenKind::SlashEq))
        } else if c == 37 {
            Ok(self.bump_or_assign(TokenKind::Percent, TokenKind::PercentEq))
        } else if c == 61 {
            Ok(self.bump_or_assign(TokenKind::Eq, TokenKind::EqEq))
        } else if c == 33 {
            Ok(self.bump_or_assign(TokenKind::Bang, TokenKind::BangEq))
        } else if c == 60 {
            Ok(self.lt_chain())
        } else if c == 62 {
            Ok(self.gt_chain())
        } else if c == 38 {
            Ok(self.amp_chain())
        } else if c == 124 {
            Ok(self.pipe_chain())
        } else if c == 94 {
            Ok(self.bump_or_assign(TokenKind::Caret, TokenKind::CaretEq))
        } else {
            self.bump();
            let mut m = String::from_str("unexpected character `");
            push_char(&mut m, c as char);
            push_str(&mut m, "`");
            assert(m@ =~= "unexpected character `"@ + seq![c as char] + "`"@);
            Err(LexError { message: m, span: self.span_at(start, self.pos, start_line, start_col) })
        }
    }
}

} // verus!
