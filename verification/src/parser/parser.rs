//! Recursive-descent parser: tokens to the syntax tree.

use vstd::prelude::*;
use crate::ast::{
    Decorator, Expr, ExprV, ParseError, Stmt, StmtV, exprs_view, stmts_view, efields_view, lemma_span_view,
};
use crate::lexer::token::{IntegerSuffix, Span, Token, TokenKind};
use crate::ops::{BinOp, UnOp};
use crate::parser::spec::{
    PErr, peek_kind, peek_span, at, since, fwd, moved, stuck, expect, expect_semicolon, expect_ident,
    base_type_of, parse_base_type, parse_type, binop_of, compound_op, prec, step_assign, parse_expression,
    binop_loop, parse_unary, parse_postfix, postfix_loop, elems_loop, fields_loop, parse_primary,
    assignment_in_condition, stmts_until, parse_block, parse_decl_or_stmt, parse_stmt, parse_let, parse_if,
    parse_while, parse_for, params_loop, decl_fields_loop, parse_fn_decl, parse_struct_decl, parse_items,
    parse_jump, parse_return,
};
use crate::text::{push_str, push_u64, nat_decimal};
use crate::ty::{Type, TypeV};
use crate::typeck_spec::{FieldsV, fields_view};

verus! {

impl View for ParseError {
    type V = PErr;

    open spec fn view(&self) -> PErr {
        (self.message@, self.span)
    }
}

impl ParseError {
    /// The report of the error: `parse error at LINE:COL: MESSAGE`.
    pub fn text(&self) -> (s: String)
        ensures
            s@ == "parse error at "@ + nat_decimal(self.span.line as nat) + ":"@ + nat_decimal(self.span.col as nat)
                + ": "@ + self.message@,
    {
        let mut out = String::new();
        push_str(&mut out, "parse error at ");
        push_u64(&mut out, self.span.line as u64);
        push_str(&mut out, ":");
        push_u64(&mut out, self.span.col as u64);
        push_str(&mut out, ": ");
        push_str(&mut out, self.message.as_str());
        assert(out@ =~= "parse error at "@ + nat_decimal(self.span.line as nat) + ":"@ + nat_decimal(self.span.col as nat)
            + ": "@ + self.message@);
        out
    }
}

pub open spec fn pres<T: View>(r: Result<T, ParseError>) -> Result<T::V, PErr> {
    match r {
        Ok(t) => Ok(t@),
        Err(e) => Err(e@),
    }
}

pub open spec fn ures(r: Result<(), ParseError>) -> Result<(), PErr> {
    match r {
        Ok(_) => Ok(()),
        Err(e) => Err(e@),
    }
}

/// Binding strength of a binary operator: a higher one binds tighter.
pub fn precedence(op: BinOp) -> (r: u32)
    ensures
        r == prec(op),
{
    match op {
        BinOp::Or => 1,
        BinOp::And => 2,
        BinOp::BitOr => 3,
        BinOp::BitXor => 4,
        BinOp::BitAnd => 5,
        BinOp::Eq | BinOp::Ne | BinOp::Lt | BinOp::Le | BinOp::Gt | BinOp::Ge => 6,
        BinOp::Shl | BinOp::Shr => 7,
        BinOp::Add | BinOp::Sub => 8,
        BinOp::Mul | BinOp::Div | BinOp::Rem => 9,
    }
}

/// The operator of a compound assignment token such as `+=`.
pub fn compound_to_binop(kind: &TokenKind) -> (r: BinOp)
    requires
        compound_op(*kind) is Some,
    ensures
        compound_op(*kind) == Some(r),
{
    match kind {
        TokenKind::PlusEq => BinOp::Add,
        TokenKind::MinusEq => BinOp::Sub,
        TokenKind::StarEq => BinOp::Mul,
        TokenKind::SlashEq => BinOp::Div,
        TokenKind::PercentEq => BinOp::Rem,
        TokenKind::AmpEq => BinOp::BitAnd,
        TokenKind::PipeEq => BinOp::BitOr,
        TokenKind::CaretEq => BinOp::BitXor,
        TokenKind::LtLtEq => BinOp::Shl,
        _ => BinOp::Shr,
    }
}

fn binop_for(kind: &TokenKind) -> (r: Option<BinOp>)
    ensures
        r == binop_of(*kind),
{
    match kind {
        TokenKind::Plus => Some(BinOp::Add),
        TokenKind::Minus => Some(BinOp::Sub),
        TokenKind::Star => Some(BinOp::Mul),
        TokenKind::Slash => Some(BinOp::Div),
        TokenKind::Percent => Some(BinOp::Rem),
        TokenKind::EqEq => Some(BinOp::Eq),
        TokenKind::BangEq => Some(BinOp::Ne),
        TokenKind::Lt => Some(BinOp::Lt),
        TokenKind::LtEq => Some(BinOp::Le),
        TokenKind::Gt => Some(BinOp::Gt),
        TokenKind::GtEq => Some(BinOp::Ge),
        TokenKind::AmpAmp => Some(BinOp::And),
        TokenKind::PipePipe => Some(BinOp::Or),
        TokenKind::Pipe => Some(BinOp::BitOr),
        TokenKind::Caret => Some(BinOp::BitXor),
        TokenKind::Amp => Some(BinOp::BitAnd),
        TokenKind::LtLt => Some(BinOp::Shl),
        TokenKind::GtGt => Some(BinOp::Shr),
        _ => None,
    }
}

/// Rejects an assignment used as a condition, looking through one pair of parentheses.
pub fn reject_assignment_in_condition(expr: &Expr) -> (r: Result<(), ParseError>)
    ensures
        match assignment_in_condition(expr@) {
            Some(x) => r matches Err(e) && e@ == x,
            None => r is Ok,
        },
{
    let is_assign = match expr {
        Expr::Paren(e, _) => {
            assert(expr@ == ExprV::Paren(Box::new(e@), expr.spec_span()));
            match &**e {
                Expr::Assign(..) => true,
                _ => false,
            }
        },
        Expr::Assign(..) => true,
        _ => false,
    };
    assert(is_assign == (match expr@ {
        ExprV::Paren(x, _) => *x,
        other => other,
    } is Assign));
    if is_assign {
        proof {
            lemma_span_view(*expr);
        }
        return Err(ParseError {
            message: String::from_str("assignment is not allowed in if/while condition; did you mean `==`?"),
            span: expr.span(),
        });
    }
    Ok(())
}

/// Parses a token sequence.
pub struct Parser<'a> {
    tokens: &'a [Token],
    pos: usize,
}

impl<'a> Parser<'a> {
    pub closed spec fn toks(&self) -> Seq<Token> {
        self.tokens@
    }

    pub closed spec fn at_pos(&self) -> int {
        self.pos as int
    }

    /// The parser's invariant: there is at least one token, and the position
    /// is within the tokens.
    pub closed spec fn wf(&self) -> bool {
        self.tokens@.len() > 0 && self.pos <= self.tokens@.len() && self.tokens@.len() <= usize::MAX
    }

    pub fn new(tokens: &'a [Token]) -> (p: Self)
        requires
            tokens@.len() > 0,
        ensures
            p.wf(),
            p.toks() == tokens@,
            p.at_pos() == 0,
    {
        let _n = tokens.len();
        Self { tokens, pos: 0 }
    }

    fn peek_is(&self, kind: &TokenKind) -> (r: bool)
        ensures
            r == at(self.toks(), self.pos as int, *kind),
    {
        self.pos < self.tokens.len() && self.tokens[self.pos].kind.matches(kind)
    }

    fn peek_token(&self) -> (t: &Token)
        requires
            self.wf(),
        ensures
            t.span == peek_span(self.toks(), self.pos as int),
    {
        if self.pos < self.tokens.len() {
            &self.tokens[self.pos]
        } else {
            &self.tokens[self.tokens.len() - 1]
        }
    }

    fn peek_description(&self) -> (s: String)
        ensures
            s@ == peek_kind(self.toks(), self.pos as int).spec_describe(),
    {
        if self.pos < self.tokens.len() {
            self.tokens[self.pos].kind.describe()
        } else {
            TokenKind::Eof.describe()
        }
    }

    fn advance(&mut self)
        requires
            old(self).wf(),
            old(self).at_pos() < old(self).tokens@.len(),
        ensures
            final(self).wf(),
            final(self).toks() == old(self).toks(),
            final(self).at_pos() == old(self).at_pos() + 1,
    {
        self.pos += 1;
    }

    fn is_eof(&self) -> (r: bool)
        ensures
            r == at(self.toks(), self.pos as int, TokenKind::Eof),
    {
        self.peek_is(&TokenKind::Eof)
    }

    fn span_since(&self, start: Span) -> (s: Span)
        requires
            self.wf(),
        ensures
            s == since(self.toks(), self.pos as int, start),
    {
        let end = self.peek_token().span;
        Span { start: start.start, end: end.start, line: start.line, col: start.col }
    }

    fn make_error(&self, message: String, span: Span) -> (e: ParseError)
        ensures
            e@ == (message@, span),
    {
        ParseError { message, span }
    }

    fn expect(&mut self, kind: &TokenKind) -> (r: Result<(), ParseError>)
        requires
            old(self).wf(),
        ensures
            final(self).wf(),
            final(self).toks() == old(self).toks(),
            (final(self).at_pos(), ures(r)) == expect(old(self).toks(), old(self).at_pos(), *kind),
    {
        if self.peek_is(kind) {
            self.advance();
            Ok(())
        } else {
            let mut m = String::from_str("expected ");
            let d = kind.describe();
            push_str(&mut m, d.as_str());
            push_str(&mut m, ", found ");
            let f = self.peek_description();
            push_str(&mut m, f.as_str());
            assert(m@ =~= "expected "@ + kind.spec_describe() + ", found "@ + peek_kind(self.toks(), self.pos as int).spec_describe());
            Err(self.make_error(m, self.peek_token().span))
        }
    }

    fn expect_semicolon(&mut self) -> (r: Result<(), ParseError>)
        requires
            old(self).wf(),
        ensures
            final(self).wf(),
            final(self).toks() == old(self).toks(),
            (final(self).at_pos(), ures(r)) == expect_semicolon(old(self).toks(), old(self).at_pos()),
    {
        if self.peek_is(&TokenKind::Semicolon) {
            self.advance();
            Ok(())
        } else {
            Err(self.make_error(String::from_str("expected `;`"), self.peek_token().span))
        }
    }

    fn expect_ident(&mut self) -> (r: Result<String, ParseError>)
        requires
            old(self).wf(),
        ensures
            final(self).wf(),
            final(self).toks() == old(self).toks(),
            (final(self).at_pos(), pres(r)) == expect_ident(old(self).toks(), old(self).at_pos()),
    {
        if self.pos < self.tokens.len() {
            let toks = self.tokens;
            if let TokenKind::Ident(name) = &toks[self.pos].kind {
                self.advance();
                return Ok(name.clone());
            }
        }
        Err(self.make_error(String::from_str("expected identifier"), self.peek_token().span))
    }

    fn parse_base_type(&mut self) -> (r: Result<Type, ParseError>)
        requires
            old(self).wf(),
        ensures
            final(self).wf(),
            final(self).toks() == old(self).toks(),
            (final(self).at_pos(), pres(r)) == parse_base_type(old(self).toks(), old(self).at_pos()),
    {
        if self.pos < self.tokens.len() {
            let toks = self.tokens;
            let t = match &toks[self.pos].kind {
                TokenKind::I8 => Some(Type::I8),
                TokenKind::I16 => Some(Type::I16),
                TokenKind::I32 => Some(Type::I32),
                TokenKind::I64 => Some(Type::I64),
                TokenKind::U8 => Some(Type::U8),
                TokenKind::U16 => Some(Type::U16),
                TokenKind::U32 => Some(Type::U32),
                TokenKind::U64 => Some(Type::U64),
                TokenKind::F32 => Some(Type::F32),
                TokenKind::F64 => Some(Type::F64),
                TokenKind::Bool => Some(Type::Bool),
                TokenKind::StringTy => Some(Type::String),
                TokenKind::Void => Some(Type::Void),
                TokenKind::Ident(name) => Some(Type::Struct(name.clone())),
                _ => None,
            };
            if let Some(t) = t {
                self.advance();
                return Ok(t);
            }
        }
        Err(self.make_error(String::from_str("expected type"), self.peek_token().span))
    }

    /// A type, optionally followed by `[N]` for an array of `N` elements.
    fn parse_type(&mut self) -> (r: Result<Type, ParseError>)
        requires
            old(self).wf(),
        ensures
            final(self).wf(),
            final(self).toks() == old(self).toks(),
            (final(self).at_pos(), pres(r)) == parse_type(old(self).toks(), old(self).at_pos()),
            old(self).at_pos() <= final(self).at_pos(),
            r is Ok ==> old(self).at_pos() < final(self).at_pos(),
    {
        let base = self.parse_base_type()?;
        if self.peek_is(&TokenKind::LBracket) {
            self.advance();
            let mut size: usize = 0;
            let mut ok = false;
            if self.pos < self.tokens.len() {
                let toks = self.tokens;
                if let TokenKind::Int(n, _) = &toks[self.pos].kind {
                    let n = *n;
                    self.advance();
                    if n < 0 || (n as u64) > (usize::MAX as u64) {
                        return Err(self.make_error(String::from_str("array size overflow"), self.peek_token().span));
                    }
                    size = n as usize;
                    ok = true;
                }
            }
            if !ok {
                return Err(self.make_error(String::from_str("expected array size"), self.peek_token().span));
            }
            self.expect(&TokenKind::RBracket)?;
            Ok(Type::Array(Box::new(base), size))
        } else {
            Ok(base)
        }
    }
}

impl<'a> Parser<'a> {
    /// An expression: a unary expression, binary operators, then an optional `= rhs`.
    pub fn parse_expression(&mut self) -> (r: Result<Expr, ParseError>)
        requires
            old(self).wf(),
        ensures
            final(self).wf(),
            final(self).toks() == old(self).toks(),
            (final(self).at_pos(), pres(r)) == parse_expression(old(self).toks(), old(self).at_pos()),
            old(self).at_pos() <= final(self).at_pos(),
            r is Ok ==> old(self).at_pos() < final(self).at_pos(),
        decreases old(self).toks().len() - old(self).at_pos(), 10int,
    {
        let u = self.parse_unary()?;
        let mut expr = self.parse_binary_op(0, u)?;
        if self.peek_is(&TokenKind::Eq) {
            proof {
                lemma_span_view(expr);
            }
            let span = expr.span();
            self.advance();
            let rhs = self.parse_expression()?;
            expr = Expr::Assign(Box::new(expr), Box::new(rhs), self.span_since(span));
        }
        Ok(expr)
    }

    /// Binary operators of precedence at least `min_prec`, left to right, after `lhs`.
    #[verifier::loop_isolation(false)]
    fn parse_binary_op(&mut self, min_prec: u32, lhs: Expr) -> (r: Result<Expr, ParseError>)
        requires
            old(self).wf(),
            min_prec <= 10,
        ensures
            final(self).wf(),
            final(self).toks() == old(self).toks(),
            (final(self).at_pos(), pres(r)) == binop_loop(old(self).toks(), old(self).at_pos(), min_prec as nat, lhs@),
            old(self).at_pos() <= final(self).at_pos(),
        decreases old(self).toks().len() - old(self).at_pos(), 9int,
    {
        let ghost ts = self.toks();
        let ghost p0 = self.pos as int;
        let ghost target = binop_loop(ts, p0, min_prec as nat, lhs@);
        let mut lhs = lhs;
        loop
            invariant
                self.wf(),
                ts == self.toks(),
                ts == old(self).toks(),
                p0 == old(self).at_pos(),
                p0 <= self.pos,
                min_prec <= 10,
                binop_loop(ts, self.pos as int, min_prec as nat, lhs@) == target,
            decreases ts.len() - self.pos,
        {
            if self.pos >= self.tokens.len() {
                break;
            }
            let op = match binop_for(&self.tokens[self.pos].kind) {
                Some(op) => op,
                None => break,
            };
            if precedence(op) < min_prec {
                break;
            }
            self.advance();
            let rhs_prec = precedence(op) + 1;
            proof {
                lemma_span_view(lhs);
            }
            let lhs_span = lhs.span();
            let rhs_unary = self.parse_unary()?;
            let rhs = self.parse_binary_op(rhs_prec, rhs_unary)?;
            lhs = Expr::Binary(Box::new(lhs), op, Box::new(rhs), self.span_since(lhs_span));
        }
        Ok(lhs)
    }

    /// A unary expression: `-e`, `!e`, `--e`, `&e` or `ref e` (address of),
/// `*e` (dereference), or a postfix expression.
    fn parse_unary(&mut self) -> (r: Result<Expr, ParseError>)
        requires
            old(self).wf(),
        ensures
            final(self).wf(),
            final(self).toks() == old(self).toks(),
            (final(self).at_pos(), pres(r)) == parse_unary(old(self).toks(), old(self).at_pos()),
            old(self).at_pos() <= final(self).at_pos(),
            r is Ok ==> old(self).at_pos() < final(self).at_pos(),
        decreases old(self).toks().len() - old(self).at_pos(), 8int,
    {
        if self.pos < self.tokens.len() {
            let toks = self.tokens;
            let span = toks[self.pos].span;
            match &toks[self.pos].kind {
                TokenKind::Minus => {
                    self.advance();
                    let e = self.parse_unary()?;
                    return Ok(Expr::Unary(UnOp::Neg, Box::new(e), span));
                },
                TokenKind::Bang => {
                    self.advance();
                    let e = self.parse_unary()?;
                    return Ok(Expr::Unary(UnOp::Not, Box::new(e), span));
                },
                TokenKind::Amp | TokenKind::Ref => {
                    self.advance();
                    let e = self.parse_unary()?;
                    return Ok(Expr::AddressOf(Box::new(e), span));
                },
                TokenKind::Star => {
                    self.advance();
                    let e = self.parse_unary()?;
                    return Ok(Expr::Dereference(Box::new(e), span));
                },
                TokenKind::MinusMinus => {
                    self.advance();
                    let e = self.parse_unary()?;
                    let c = e.deep_copy();
                    let one = Expr::Int(1, IntegerSuffix::Unsuffixed, span);
                    assert(one@ == ExprV::Int(1, IntegerSuffix::Unsuffixed, span));
                    let sub = Expr::Binary(Box::new(c), BinOp::Sub, Box::new(one), span);
                    let ghost ev = e@;
                    assert(sub@ == ExprV::Binary(Box::new(ev), BinOp::Sub, Box::new(ExprV::Int(1, IntegerSuffix::Unsuffixed, span)), span));
                    let r = Expr::Assign(Box::new(e), Box::new(sub), span);
                    assert(r@ == step_assign(ev, BinOp::Sub, span));
                    return Ok(r);
                },
                _ => {},
            }
        }
        self.parse_postfix()
    }

    /// A primary expression followed by calls, field accesses, indexing,
    /// compound assignments, `++`/`--` and struct literal bodies.
    #[verifier::loop_isolation(false)]
    #[verifier::rlimit(100)]
    fn parse_postfix(&mut self) -> (r: Result<Expr, ParseError>)
        requires
            old(self).wf(),
        ensures
            final(self).wf(),
            final(self).toks() == old(self).toks(),
            (final(self).at_pos(), pres(r)) == parse_postfix(old(self).toks(), old(self).at_pos()),
            old(self).at_pos() <= final(self).at_pos(),
            r is Ok ==> old(self).at_pos() < final(self).at_pos(),
        decreases old(self).toks().len() - old(self).at_pos(), 7int,
    {
        let ghost ts = self.toks();
        let ghost p0 = self.pos as int;
        let mut expr = self.parse_primary()?;
        let ghost target = postfix_loop(ts, self.pos as int, expr@);
        loop
            invariant
                self.wf(),
                ts == self.toks(),
                ts == old(self).toks(),
                p0 == old(self).at_pos(),
                p0 < self.pos,
                target == parse_postfix(old(self).toks(), old(self).at_pos()),
                postfix_loop(ts, self.pos as int, expr@) == target,
            decreases ts.len() - self.pos,
        {
            if self.pos >= self.tokens.len() {
                break;
            }
            let toks = self.tokens;
            let kspan = toks[self.pos].span;
            proof {
                lemma_span_view(expr);
            }
            match &toks[self.pos].kind {
                TokenKind::LParen => {
                    self.advance();
                    let args = self.parse_elems(&TokenKind::RParen)?;
                    self.expect(&TokenKind::RParen)?;
                    match expr {
                        Expr::Ident(name, ispan) => {
                            let ghost av = exprs_view(args@);
                            let e2 = Expr::Call(name, args, self.span_since(ispan));
                            assert(e2@ matches ExprV::Call(_, v, _) && v =~= av);
                            expr = e2;
                        },
                        _ => {
                            return Err(self.make_error(String::from_str("cannot call non-identifier"), self.peek_token().span));
                        },
                    }
                },
                TokenKind::Dot => {
                    self.advance();
                    let field = self.expect_ident()?;
                    let span = self.span_since(expr.span());
                    expr = Expr::FieldAccess(Box::new(expr), field, span);
                },
                TokenKind::LBracket => {
                    self.advance();
                    let idx = self.parse_expression()?;
                    self.expect(&TokenKind::RBracket)?;
                    let span = self.span_since(expr.span());
                    expr = Expr::ArrayIndex(Box::new(expr), Box::new(idx), span);
                },
                TokenKind::PlusEq | TokenKind::MinusEq | TokenKind::StarEq | TokenKind::SlashEq
                | TokenKind::PercentEq | TokenKind::AmpEq | TokenKind::PipeEq | TokenKind::CaretEq
                | TokenKind::LtLtEq | TokenKind::GtGtEq => {
                    let lhs_span = expr.span();
                    let op = compound_to_binop(&toks[self.pos].kind);
                    self.advance();
                    let rhs = self.parse_expression()?;
                    let c = expr.deep_copy();
                    let ghost ev = expr@;
                    let ghost rv = rhs@;
                    let sp = self.span_since(lhs_span);
                    let bin = Expr::Binary(Box::new(c), op, Box::new(rhs), sp);
                    assert(bin@ == ExprV::Binary(Box::new(ev), op, Box::new(rv), sp));
                    expr = Expr::Assign(Box::new(expr), Box::new(bin), self.span_since(lhs_span));
                },
                TokenKind::PlusPlus => {
                    self.advance();
                    let c = expr.deep_copy();
                    let one = Expr::Int(1, IntegerSuffix::Unsuffixed, kspan);
                    assert(one@ == ExprV::Int(1, IntegerSuffix::Unsuffixed, kspan));
                    let add = Expr::Binary(Box::new(c), BinOp::Add, Box::new(one), kspan);
                    let ghost ev = expr@;
                    assert(add@ == ExprV::Binary(Box::new(ev), BinOp::Add, Box::new(ExprV::Int(1, IntegerSuffix::Unsuffixed, kspan)), kspan));
                    expr = Expr::Assign(Box::new(expr), Box::new(add), kspan);
                    assert(expr@ == step_assign(ev, BinOp::Add, kspan));
                },
                TokenKind::MinusMinus => {
                    self.advance();
                    let c = expr.deep_copy();
                    let one = Expr::Int(1, IntegerSuffix::Unsuffixed, kspan);
                    assert(one@ == ExprV::Int(1, IntegerSuffix::Unsuffixed, kspan));
                    let sub = Expr::Binary(Box::new(c), BinOp::Sub, Box::new(one), kspan);
                    let ghost ev = expr@;
                    assert(sub@ == ExprV::Binary(Box::new(ev), BinOp::Sub, Box::new(ExprV::Int(1, IntegerSuffix::Unsuffixed, kspan)), kspan));
                    expr = Expr::Assign(Box::new(expr), Box::new(sub), kspan);
                    assert(expr@ == step_assign(ev, BinOp::Sub, kspan));
                },
                TokenKind::LBrace => {
                    let name_span = expr.span();
                    let name = match &expr {
                        Expr::Ident(n, _) => n.clone(),
                        Expr::FieldAccess(_, field, _) => field.clone(),
                        _ => break,
                    };
                    self.advance();
                    let fields = self.parse_field_inits()?;
                    self.expect(&TokenKind::RBrace)?;
                    let ghost fv = efields_view(fields@);
                    let e2 = Expr::Struct(name, fields, self.span_since(name_span));
                    assert(e2@ matches ExprV::Struct(_, v, _) && v =~= fv);
                    expr = e2;
                },
                _ => break,
            }
        }
        Ok(expr)
    }

    /// Comma-separated expressions up to (not including) `close`.
    #[verifier::loop_isolation(false)]
    fn parse_elems(&mut self, close: &TokenKind) -> (r: Result<Vec<Expr>, ParseError>)
        requires
            old(self).wf(),
        ensures
            final(self).wf(),
            final(self).toks() == old(self).toks(),
            old(self).at_pos() <= final(self).at_pos(),
            ({
                let (q, res) = elems_loop(old(self).toks(), old(self).at_pos(), *close, Seq::empty());
                final(self).at_pos() == q && match res {
                    Ok(v) => r matches Ok(out) && exprs_view(out@) == v,
                    Err(x) => r matches Err(e) && e@ == x,
                }
            }),
        decreases old(self).toks().len() - old(self).at_pos(), 11int,
    {
        let ghost ts = self.toks();
        let ghost p0 = self.pos as int;
        let mut elems: Vec<Expr> = Vec::new();
        assert(exprs_view(elems@) =~= Seq::<ExprV>::empty());
        loop
            invariant
                self.wf(),
                ts == self.toks(),
                ts == old(self).toks(),
                p0 == old(self).at_pos(),
                p0 <= self.pos,
                elems_loop(ts, self.pos as int, *close, exprs_view(elems@)) == elems_loop(ts, p0, *close, Seq::empty()),
            decreases ts.len() - self.pos,
        {
            if self.peek_is(close) {
                break;
            }
            let e = self.parse_expression()?;
            let ghost before = exprs_view(elems@);
            let ghost ev = e@;
            elems.push(e);
            assert(exprs_view(elems@) =~= before.push(ev));
            if self.peek_is(&TokenKind::Comma) {
                self.advance();
            }
        }
        Ok(elems)
    }

    /// Comma-separated `name: value` pairs up to (not including) `}`.
    #[verifier::loop_isolation(false)]
    fn parse_field_inits(&mut self) -> (r: Result<Vec<(String, Expr)>, ParseError>)
        requires
            old(self).wf(),
        ensures
            final(self).wf(),
            final(self).toks() == old(self).toks(),
            old(self).at_pos() <= final(self).at_pos(),
            ({
                let (q, res) = fields_loop(old(self).toks(), old(self).at_pos(), Seq::empty());
                final(self).at_pos() == q && match res {
                    Ok(v) => r matches Ok(out) && efields_view(out@) == v,
                    Err(x) => r matches Err(e) && e@ == x,
                }
            }),
        decreases old(self).toks().len() - old(self).at_pos(), 11int,
    {
        let ghost ts = self.toks();
        let ghost p0 = self.pos as int;
        let mut fields: Vec<(String, Expr)> = Vec::new();
        assert(efields_view(fields@) =~= Seq::<(Seq<char>, ExprV)>::empty());
        loop
            invariant
                self.wf(),
                ts == self.toks(),
                ts == old(self).toks(),
                p0 == old(self).at_pos(),
                p0 <= self.pos,
                fields_loop(ts, self.pos as int, efields_view(fields@)) == fields_loop(ts, p0, Seq::empty()),
            decreases ts.len() - self.pos,
        {
            if self.peek_is(&TokenKind::RBrace) {
                break;
            }
            let fname = self.expect_ident()?;
            self.expect(&TokenKind::Colon)?;
            let fval = self.parse_expression()?;
            let ghost before = efields_view(fields@);
            let ghost item = (fname@, fval@);
            fields.push((fname, fval));
            assert(efields_view(fields@) =~= before.push(item));
            if self.peek_is(&TokenKind::Comma) {
                self.advance();
            }
        }
        Ok(fields)
    }
}

impl<'a> Parser<'a> {
    /// A literal, a variable, a struct literal `model Name { .. }`, an array
    /// literal `T{..}` or `[..]`, or a parenthesized expression.
    fn parse_primary(&mut self) -> (r: Result<Expr, ParseError>)
        requires
            old(self).wf(),
        ensures
            final(self).wf(),
            final(self).toks() == old(self).toks(),
            (final(self).at_pos(), pres(r)) == parse_primary(old(self).toks(), old(self).at_pos()),
            old(self).at_pos() <= final(self).at_pos(),
            r is Ok ==> old(self).at_pos() < final(self).at_pos(),
        decreases old(self).toks().len() - old(self).at_pos(), 5int,
    {
        if self.pos >= self.tokens.len() {
            return Err(self.make_error(String::from_str("expected expression"), self.peek_token().span));
        }
        let toks = self.tokens;
        let span = toks[self.pos].span;
        match &toks[self.pos].kind {
            TokenKind::Int(n, suffix) => {
                self.advance();
                Ok(Expr::Int(*n, *suffix, span))
            },
            TokenKind::Float(t, suffix) => {
                self.advance();
                Ok(Expr::Float(t.clone(), *suffix, span))
            },
            TokenKind::String(t) => {
                self.advance();
                Ok(Expr::String(t.clone(), span))
            },
            TokenKind::True => {
                self.advance();
                Ok(Expr::Bool(true, span))
            },
            TokenKind::False => {
                self.advance();
                Ok(Expr::Bool(false, span))
            },
            TokenKind::Ident(name) => {
                self.advance();
                Ok(Expr::Ident(name.clone(), span))
            },
            TokenKind::Struct => {
                self.advance();
                let name = self.expect_ident()?;
                self.expect(&TokenKind::LBrace)?;
                let fields = self.parse_field_inits()?;
                self.expect(&TokenKind::RBrace)?;
                let ghost fv = efields_view(fields@);
                let e = Expr::Struct(name, fields, self.span_since(span));
                assert(e@ matches ExprV::Struct(_, v, _) && v =~= fv);
                Ok(e)
            },
            TokenKind::I8 | TokenKind::I16 | TokenKind::I32 | TokenKind::I64 | TokenKind::U8
            | TokenKind::U16 | TokenKind::U32 | TokenKind::U64 | TokenKind::F32 | TokenKind::F64
            | TokenKind::Bool | TokenKind::StringTy => {
                let ty = self.parse_base_type()?;
                self.expect(&TokenKind::LBrace)?;
                let elems = self.parse_elems(&TokenKind::RBrace)?;
                self.expect(&TokenKind::RBrace)?;
                let ghost ev = exprs_view(elems@);
                let e = Expr::ArrayLiteral(Box::new(ty), elems, self.span_since(span));
                assert(e@ matches ExprV::ArrayLiteral(_, v, _) && v =~= ev);
                Ok(e)
            },
            TokenKind::LBracket => {
                self.advance();
                let elems = self.parse_elems(&TokenKind::RBracket)?;
                self.expect(&TokenKind::RBracket)?;
                let ghost ev = exprs_view(elems@);
                let e = Expr::ArrayLiteral(Box::new(Type::Void), elems, self.span_since(span));
                assert(e@ matches ExprV::ArrayLiteral(_, v, _) && v =~= ev);
                Ok(e)
            },
            TokenKind::LParen => {
                self.advance();
                let e = self.parse_expression()?;
                self.expect(&TokenKind::RParen)?;
                Ok(Expr::Paren(Box::new(e), span))
            },
            _ => Err(self.make_error(String::from_str("expected expression"), span)),
        }
    }
}

pub open spec fn sres(r: Result<Stmt, ParseError>) -> Result<StmtV, PErr> {
    match r {
        Ok(s) => Ok(s@),
        Err(e) => Err(e@),
    }
}

pub open spec fn block_res(r: Result<Vec<Stmt>, ParseError>) -> Result<Seq<StmtV>, PErr> {
    match r {
        Ok(v) => Ok(stmts_view(v@)),
        Err(e) => Err(e@),
    }
}

pub open spec fn fields_res(r: Result<Vec<(String, Type)>, ParseError>) -> Result<FieldsV, PErr> {
    match r {
        Ok(v) => Ok(fields_view(v@)),
        Err(e) => Err(e@),
    }
}

impl<'a> Parser<'a> {
    /// Statements up to and including the closing `end`.
    #[verifier::loop_isolation(false)]
    fn parse_stmts_until(&mut self, end: &TokenKind) -> (r: Result<Vec<Stmt>, ParseError>)
        requires
            old(self).wf(),
        ensures
            final(self).wf(),
            final(self).toks() == old(self).toks(),
            old(self).at_pos() <= final(self).at_pos(),
            (final(self).at_pos(), block_res(r)) == stmts_until(old(self).toks(), old(self).at_pos(), *end, Seq::empty()),
        decreases old(self).toks().len() - old(self).at_pos(), 29int,
    {
        let ghost ts = self.toks();
        let ghost p0 = self.pos as int;
        let mut stmts: Vec<Stmt> = Vec::new();
        assert(stmts_view(stmts@) =~= Seq::<StmtV>::empty());
        loop
            invariant
                self.wf(),
                ts == self.toks(),
                p0 <= self.pos,
                stmts_until(ts, self.pos as int, *end, stmts_view(stmts@)) == stmts_until(ts, p0, *end, Seq::empty()),
            decreases ts.len() - self.pos,
        {
            if self.peek_is(end) || self.is_eof() {
                break;
            }
            let st = self.parse_decl_or_stmt()?;
            let ghost before = stmts_view(stmts@);
            let ghost sv = st@;
            stmts.push(st);
            assert(stmts_view(stmts@) =~= before.push(sv));
        }
        self.expect(end)?;
        Ok(stmts)
    }

    fn parse_block(&mut self) -> (r: Result<Vec<Stmt>, ParseError>)
        requires
            old(self).wf(),
        ensures
            final(self).wf(),
            final(self).toks() == old(self).toks(),
            old(self).at_pos() <= final(self).at_pos(),
            (final(self).at_pos(), block_res(r)) == parse_block(old(self).toks(), old(self).at_pos()),
        decreases old(self).toks().len() - old(self).at_pos(), 25int,
    {
        self.expect(&TokenKind::LBrace)?;
        self.parse_stmts_until(&TokenKind::RBrace)
    }

    fn parse_decl_or_stmt(&mut self) -> (r: Result<Stmt, ParseError>)
        requires
            old(self).wf(),
        ensures
            final(self).wf(),
            final(self).toks() == old(self).toks(),
            old(self).at_pos() <= final(self).at_pos(),
            r is Ok ==> old(self).at_pos() < final(self).at_pos(),
            (final(self).at_pos(), sres(r)) == parse_decl_or_stmt(old(self).toks(), old(self).at_pos()),
        decreases old(self).toks().len() - old(self).at_pos(), 28int,
    {
        if self.pos < self.tokens.len() {
            let toks = self.tokens;
            match &toks[self.pos].kind {
                TokenKind::Fn => return self.parse_fn_decl(),
                TokenKind::Struct => return self.parse_struct_decl(),
                _ => {},
            }
        }
        self.parse_stmt()
    }

    fn parse_stmt(&mut self) -> (r: Result<Stmt, ParseError>)
        requires
            old(self).wf(),
        ensures
            final(self).wf(),
            final(self).toks() == old(self).toks(),
            old(self).at_pos() <= final(self).at_pos(),
            r is Ok ==> old(self).at_pos() < final(self).at_pos(),
            (final(self).at_pos(), sres(r)) == parse_stmt(old(self).toks(), old(self).at_pos()),
        decreases old(self).toks().len() - old(self).at_pos(), 27int,
    {
        if self.pos < self.tokens.len() {
            let toks = self.tokens;
            match &toks[self.pos].kind {
                TokenKind::Let => return self.parse_let(),
                TokenKind::If => return self.parse_if(),
                TokenKind::While => return self.parse_while(),
                TokenKind::For => return self.parse_for(),
                TokenKind::Break => return self.parse_break(),
                TokenKind::Continue => return self.parse_continue(),
                TokenKind::Return => return self.parse_return(),
                TokenKind::LBrace => {
                    let span = toks[self.pos].span;
                    self.advance();
                    let _stmts = self.parse_stmts_until(&TokenKind::RBrace)?;
                    return Err(self.make_error(String::from_str("unexpected block"), span));
                },
                _ => {},
            }
        }
        let expr = self.parse_expression()?;
        self.expect_semicolon()?;
        Ok(Stmt::Expr(expr))
    }

    fn parse_break(&mut self) -> (r: Result<Stmt, ParseError>)
        requires
            old(self).wf(),
            old(self).at_pos() < old(self).toks().len(),
            old(self).toks()[old(self).at_pos()].kind is Break,
        ensures
            final(self).wf(),
            final(self).toks() == old(self).toks(),
            old(self).at_pos() < final(self).at_pos(),
            (final(self).at_pos(), sres(r)) == parse_jump(old(self).toks(), old(self).at_pos()),
    {
        let span = self.peek_token().span;
        self.advance();
        self.expect_semicolon()?;
        Ok(Stmt::Break(span))
    }

    fn parse_continue(&mut self) -> (r: Result<Stmt, ParseError>)
        requires
            old(self).wf(),
            old(self).at_pos() < old(self).toks().len(),
            old(self).toks()[old(self).at_pos()].kind is Continue,
        ensures
            final(self).wf(),
            final(self).toks() == old(self).toks(),
            old(self).at_pos() < final(self).at_pos(),
            (final(self).at_pos(), sres(r)) == parse_jump(old(self).toks(), old(self).at_pos()),
    {
        let span = self.peek_token().span;
        self.advance();
        self.expect_semicolon()?;
        Ok(Stmt::Continue(span))
    }

    fn parse_return(&mut self) -> (r: Result<Stmt, ParseError>)
        requires
            old(self).wf(),
            old(self).at_pos() < old(self).toks().len(),
        ensures
            final(self).wf(),
            final(self).toks() == old(self).toks(),
            old(self).at_pos() < final(self).at_pos(),
            (final(self).at_pos(), sres(r)) == parse_return(old(self).toks(), old(self).at_pos()),
        decreases old(self).toks().len() - old(self).at_pos(), 26int,
    {
        let span = self.peek_token().span;
        self.advance();
        let value = if self.peek_is(&TokenKind::Semicolon) {
            None
        } else {
            Some(self.parse_expression()?)
        };
        self.expect_semicolon()?;
        Ok(Stmt::Return(value, span))
    }

    /// `let name [: type] [= init];`
    fn parse_let(&mut self) -> (r: Result<Stmt, ParseError>)
        requires
            old(self).wf(),
            old(self).at_pos() < old(self).toks().len(),
        ensures
            final(self).wf(),
            final(self).toks() == old(self).toks(),
            old(self).at_pos() < final(self).at_pos(),
            (final(self).at_pos(), sres(r)) == parse_let(old(self).toks(), old(self).at_pos()),
        decreases old(self).toks().len() - old(self).at_pos(), 26int,
    {
        let start = self.peek_token().span;
        self.advance();
        let name = self.expect_ident()?;
        let ty_annot = if self.peek_is(&TokenKind::Colon) {
            self.advance();
            Some(self.parse_type()?)
        } else {
            None
        };
        let init = if self.peek_is(&TokenKind::Eq) {
            self.advance();
            Some(self.parse_expression()?)
        } else {
            None
        };
        self.expect_semicolon()?;
        Ok(Stmt::Let(name, ty_annot, init, self.span_since(start)))
    }

    /// `if cond { .. } [else if .. | else { .. }]`
    fn parse_if(&mut self) -> (r: Result<Stmt, ParseError>)
        requires
            old(self).wf(),
            old(self).at_pos() < old(self).toks().len(),
        ensures
            final(self).wf(),
            final(self).toks() == old(self).toks(),
            old(self).at_pos() < final(self).at_pos(),
            (final(self).at_pos(), sres(r)) == parse_if(old(self).toks(), old(self).at_pos()),
        decreases old(self).toks().len() - old(self).at_pos(), 26int,
    {
        let start = self.peek_token().span;
        self.advance();
        let cond = self.parse_expression()?;
        reject_assignment_in_condition(&cond)?;
        let then_stmts = self.parse_block()?;
        let else_stmts = if self.peek_is(&TokenKind::Else) {
            self.advance();
            if self.peek_is(&TokenKind::If) {
                let inner = self.parse_if()?;
                let ghost iv = inner@;
                let mut v: Vec<Stmt> = Vec::new();
                v.push(inner);
                assert(stmts_view(v@) =~= seq![iv]);
                Some(v)
            } else {
                Some(self.parse_block()?)
            }
        } else {
            None
        };
        let ghost tv = stmts_view(then_stmts@);
        let ghost ev = match &else_stmts {
            Some(es) => Some(stmts_view(es@)),
            None => None,
        };
        let r = Stmt::If(cond, then_stmts, else_stmts, self.span_since(start));
        assert(r@ matches StmtV::If(_, t, e, _) && t =~= tv && match e {
            Some(ee) => ev matches Some(x) && ee =~= x,
            None => ev is None,
        });
        Ok(r)
    }

    /// `while cond { .. }`
    fn parse_while(&mut self) -> (r: Result<Stmt, ParseError>)
        requires
            old(self).wf(),
            old(self).at_pos() < old(self).toks().len(),
        ensures
            final(self).wf(),
            final(self).toks() == old(self).toks(),
            old(self).at_pos() < final(self).at_pos(),
            (final(self).at_pos(), sres(r)) == parse_while(old(self).toks(), old(self).at_pos()),
        decreases old(self).toks().len() - old(self).at_pos(), 26int,
    {
        let start = self.peek_token().span;
        self.advance();
        let cond = self.parse_expression()?;
        reject_assignment_in_condition(&cond)?;
        let body = self.parse_block()?;
        let ghost bv = stmts_view(body@);
        let r = Stmt::While(cond, body, self.span_since(start));
        assert(r@ matches StmtV::While(_, b, _) && b =~= bv);
        Ok(r)
    }

    /// `for var in lo..hi { .. }`
    fn parse_for(&mut self) -> (r: Result<Stmt, ParseError>)
        requires
            old(self).wf(),
            old(self).at_pos() < old(self).toks().len(),
        ensures
            final(self).wf(),
            final(self).toks() == old(self).toks(),
            old(self).at_pos() < final(self).at_pos(),
            (final(self).at_pos(), sres(r)) == parse_for(old(self).toks(), old(self).at_pos()),
        decreases old(self).toks().len() - old(self).at_pos(), 26int,
    {
        let start = self.peek_token().span;
        self.advance();
        let var = self.expect_ident()?;
        self.expect(&TokenKind::In)?;
        let lo = self.parse_expression()?;
        self.expect(&TokenKind::DotDot)?;
        let hi = self.parse_expression()?;
        let body = self.parse_block()?;
        let ghost bv = stmts_view(body@);
        let r = Stmt::For(var, lo, hi, body, self.span_since(start));
        assert(r@ matches StmtV::For(_, _, _, b, _) && b =~= bv);
        Ok(r)
    }

    /// `name: type` pairs separated by commas, up to (not including) `close`.
    #[verifier::loop_isolation(false)]
    fn parse_typed_names(&mut self, close: &TokenKind) -> (r: Result<Vec<(String, Type)>, ParseError>)
        requires
            old(self).wf(),
            *close == TokenKind::RParen || *close == TokenKind::RBrace,
        ensures
            final(self).wf(),
            final(self).toks() == old(self).toks(),
            old(self).at_pos() <= final(self).at_pos(),
            (final(self).at_pos(), fields_res(r)) == if *close == TokenKind::RParen {
                params_loop(old(self).toks(), old(self).at_pos(), Seq::empty())
            } else {
                decl_fields_loop(old(self).toks(), old(self).at_pos(), Seq::empty())
            },
    {
        let ghost ts = self.toks();
        let ghost p0 = self.pos as int;
        let ghost target = if *close == TokenKind::RParen {
            params_loop(ts, p0, Seq::empty())
        } else {
            decl_fields_loop(ts, p0, Seq::empty())
        };
        let mut items: Vec<(String, Type)> = Vec::new();
        assert(fields_view(items@) =~= Seq::<(Seq<char>, TypeV)>::empty());
        loop
            invariant
                self.wf(),
                ts == self.toks(),
                p0 <= self.pos,
                target == if *close == TokenKind::RParen {
                    params_loop(ts, self.pos as int, fields_view(items@))
                } else {
                    decl_fields_loop(ts, self.pos as int, fields_view(items@))
                },
            decreases ts.len() - self.pos,
        {
            if self.peek_is(close) {
                break;
            }
            let name = self.expect_ident()?;
            self.expect(&TokenKind::Colon)?;
            let ty = self.parse_type()?;
            let ghost before = fields_view(items@);
            let ghost item = (name@, ty@);
            items.push((name, ty));
            assert(fields_view(items@) =~= before.push(item));
            if self.peek_is(&TokenKind::Comma) {
                self.advance();
            }
        }
        Ok(items)
    }

    /// `def name(params) [-> type] { .. }`
    fn parse_fn_decl(&mut self) -> (r: Result<Stmt, ParseError>)
        requires
            old(self).wf(),
            old(self).at_pos() < old(self).toks().len(),
        ensures
            final(self).wf(),
            final(self).toks() == old(self).toks(),
            old(self).at_pos() < final(self).at_pos(),
            (final(self).at_pos(), sres(r)) == parse_fn_decl(old(self).toks(), old(self).at_pos()),
        decreases old(self).toks().len() - old(self).at_pos(), 26int,
    {
        let start = self.peek_token().span;
        self.advance();
        let name = self.expect_ident()?;
        self.expect(&TokenKind::LParen)?;
        let params = self.parse_typed_names(&TokenKind::RParen)?;
        self.expect(&TokenKind::RParen)?;
        let ret = if self.peek_is(&TokenKind::Arrow) {
            self.advance();
            Some(self.parse_type()?)
        } else {
            None
        };
        let body = self.parse_block()?;
        let ghost bv = stmts_view(body@);
        let decorators: Vec<Decorator> = Vec::new();
        let r = Stmt::Fn(name, params, ret, body, decorators, self.span_since(start));
        assert(r@ matches StmtV::Fn(_, _, _, b, d, _) && b =~= bv && d =~= Seq::<crate::hir::DecoratorV>::empty());
        Ok(r)
    }

    /// `model Name { fields }`
    fn parse_struct_decl(&mut self) -> (r: Result<Stmt, ParseError>)
        requires
            old(self).wf(),
            old(self).at_pos() < old(self).toks().len(),
        ensures
            final(self).wf(),
            final(self).toks() == old(self).toks(),
            old(self).at_pos() < final(self).at_pos(),
            (final(self).at_pos(), sres(r)) == parse_struct_decl(old(self).toks(), old(self).at_pos()),
    {
        let start = self.peek_token().span;
        self.advance();
        let name = self.expect_ident()?;
        self.expect(&TokenKind::LBrace)?;
        let fields = self.parse_typed_names(&TokenKind::RBrace)?;
        self.expect(&TokenKind::RBrace)?;
        Ok(Stmt::Struct(name, fields, self.span_since(start)))
    }

    /// The whole program: declarations and statements up to the end-of-file token.
    #[verifier::loop_isolation(false)]
    pub fn parse_file(&mut self) -> (r: Result<Vec<Stmt>, ParseError>)
        requires
            old(self).wf(),
        ensures
            final(self).wf(),
            match parse_items(old(self).toks(), old(self).at_pos(), Seq::empty()) {
                Ok(v) => r matches Ok(out) && stmts_view(out@) == v,
                Err(x) => r matches Err(e) && e@ == x,
            },
    {
        let ghost ts = self.toks();
        let ghost p0 = self.pos as int;
        let mut stmts: Vec<Stmt> = Vec::new();
        assert(stmts_view(stmts@) =~= Seq::<StmtV>::empty());
        while !self.is_eof()
            invariant
                self.wf(),
                ts == self.toks(),
                p0 <= self.pos,
                parse_items(ts, self.pos as int, stmts_view(stmts@)) == parse_items(ts, p0, Seq::empty()),
            decreases ts.len() - self.pos,
        {
            let st = self.parse_decl_or_stmt()?;
            let ghost before = stmts_view(stmts@);
            let ghost sv = st@;
            stmts.push(st);
            assert(stmts_view(stmts@) =~= before.push(sv));
        }
        Ok(stmts)
    }
}

} // verus!
