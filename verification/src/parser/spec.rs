//! What the parser computes, as functions of the token sequence and a
//! position: the position reached and the syntax tree or the first error.
//!
//! Every parsing function that succeeds consumes at least one token; where a
//! definition continues at a position returned by an inner call, it checks
//! that the position moved as that guarantees (`fwd`, `moved`), so that the
//! definitions are well founded. The parser's own functions prove that these
//! checks always pass.

use vstd::prelude::*;
use crate::ast::{ExprV, StmtV};
use crate::lexer::token::{IntegerSuffix, Span, Token, TokenKind};
use crate::ops::{BinOp, UnOp};
use crate::ty::TypeV;
use crate::typeck_spec::FieldsV;

verus! {

pub type PErr = (Seq<char>, Span);

pub open spec fn peek_kind(ts: Seq<Token>, p: int) -> TokenKind {
    if 0 <= p < ts.len() { ts[p].kind } else { TokenKind::Eof }
}

/// Span of the token at `p`; past the end, that of the last token.
pub open spec fn peek_span(ts: Seq<Token>, p: int) -> Span {
    if 0 <= p < ts.len() { ts[p].span } else { ts.last().span }
}

/// The token at `p` is of kind `k` (payload text compared by characters).
pub open spec fn at(ts: Seq<Token>, p: int, k: TokenKind) -> bool {
    0 <= p < ts.len() && ts[p].kind.same(k)
}

/// From `start` up to the beginning of the token at `p`.
pub open spec fn since(ts: Seq<Token>, p: int, start: Span) -> Span {
    Span { start: start.start, end: peek_span(ts, p).start, line: start.line, col: start.col }
}

pub open spec fn fwd(ts: Seq<Token>, p: int, q: int) -> bool {
    p <= q <= ts.len()
}

pub open spec fn moved(ts: Seq<Token>, p: int, q: int) -> bool {
    p < q <= ts.len()
}

/// The error for a position that did not move (never reached).
pub open spec fn stuck(ts: Seq<Token>, q: int) -> PErr {
    ("parser did not advance"@, peek_span(ts, q))
}

pub open spec fn expect(ts: Seq<Token>, p: int, k: TokenKind) -> (int, Result<(), PErr>) {
    if at(ts, p, k) {
        (p + 1, Ok(()))
    } else {
        (p, Err(("expected "@ + k.spec_describe() + ", found "@ + peek_kind(ts, p).spec_describe(), peek_span(ts, p))))
    }
}

pub open spec fn expect_semicolon(ts: Seq<Token>, p: int) -> (int, Result<(), PErr>) {
    if at(ts, p, TokenKind::Semicolon) {
        (p + 1, Ok(()))
    } else {
        (p, Err(("expected `;`"@, peek_span(ts, p))))
    }
}

pub open spec fn expect_ident(ts: Seq<Token>, p: int) -> (int, Result<Seq<char>, PErr>) {
    match peek_kind(ts, p) {
        TokenKind::Ident(n) => (p + 1, Ok(n@)),
        _ => (p, Err(("expected identifier"@, peek_span(ts, p)))),
    }
}

/// The type a token names on its own.
pub open spec fn base_type_of(k: TokenKind) -> Option<TypeV> {
    match k {
        TokenKind::I8 => Some(TypeV::I8),
        TokenKind::I16 => Some(TypeV::I16),
        TokenKind::I32 => Some(TypeV::I32),
        TokenKind::I64 => Some(TypeV::I64),
        TokenKind::U8 => Some(TypeV::U8),
        TokenKind::U16 => Some(TypeV::U16),
        TokenKind::U32 => Some(TypeV::U32),
        TokenKind::U64 => Some(TypeV::U64),
        TokenKind::F32 => Some(TypeV::F32),
        TokenKind::F64 => Some(TypeV::F64),
        TokenKind::Bool => Some(TypeV::Bool),
        TokenKind::StringTy => Some(TypeV::String),
        TokenKind::Void => Some(TypeV::Void),
        TokenKind::Ident(n) => Some(TypeV::Struct(n@)),
        _ => None,
    }
}

pub open spec fn parse_base_type(ts: Seq<Token>, p: int) -> (int, Result<TypeV, PErr>) {
    match base_type_of(peek_kind(ts, p)) {
        Some(t) => (p + 1, Ok(t)),
        None => (p, Err(("expected type"@, peek_span(ts, p)))),
    }
}

/// A type, optionally followed by `[N]` for an array of `N` elements.
pub open spec fn parse_type(ts: Seq<Token>, p: int) -> (int, Result<TypeV, PErr>) {
    let (p1, r) = parse_base_type(ts, p);
    match r {
        Err(x) => (p1, Err(x)),
        Ok(base) => if at(ts, p1, TokenKind::LBracket) {
            match peek_kind(ts, p1 + 1) {
                TokenKind::Int(n, _) => if n < 0 || n > usize::MAX {
                    (p1 + 2, Err(("array size overflow"@, peek_span(ts, p1 + 2))))
                } else {
                    let (p3, r3) = expect(ts, p1 + 2, TokenKind::RBracket);
                    match r3 {
                        Err(x) => (p3, Err(x)),
                        Ok(_) => (p3, Ok(TypeV::Array(Box::new(base), n as nat))),
                    }
                },
                _ => (p1 + 1, Err(("expected array size"@, peek_span(ts, p1 + 1)))),
            }
        } else {
            (p1, Ok(base))
        },
    }
}

pub open spec fn binop_of(k: TokenKind) -> Option<BinOp> {
    match k {
        TokenKind::Plus => Some(BinOp::Add),
        TokenKind::Minus => Some(BinOp::Sub),
        TokenKind::Star => Some(BinOp::Mul),
        TokenKind::Slash => Some(BinOp::Div),
        TokenKind::Percent => Some(BinOp::Rem),
        TokenKind::EqEq => Some(BinOp::Eq),
        TokenKind::BangEq => Some(BinOp::Ne),
        TokenKind::Lt => Some(BinOp::Lt),
        TokenKind::LtEq => Some(BinOp::Le),
        TokenKind::Gt => Some(BinOp::Gt),
        TokenKind::GtEq => Some(BinOp::Ge),
        TokenKind::AmpAmp => Some(BinOp::And),
        TokenKind::PipePipe => Some(BinOp::Or),
        TokenKind::Pipe => Some(BinOp::BitOr),
        TokenKind::Caret => Some(BinOp::BitXor),
        TokenKind::Amp => Some(BinOp::BitAnd),
        TokenKind::LtLt => Some(BinOp::Shl),
        TokenKind::GtGt => Some(BinOp::Shr),
        _ => None,
    }
}

/// The operator of a compound assignment token such as `+=`.
pub open spec fn compound_op(k: TokenKind) -> Option<BinOp> {
    match k {
        TokenKind::PlusEq => Some(BinOp::Add),
        TokenKind::MinusEq => Some(BinOp::Sub),
        TokenKind::StarEq => Some(BinOp::Mul),
        TokenKind::SlashEq => Some(BinOp::Div),
        TokenKind::PercentEq => Some(BinOp::Rem),
        TokenKind::AmpEq => Some(BinOp::BitAnd),
        TokenKind::PipeEq => Some(BinOp::BitOr),
        TokenKind::CaretEq => Some(BinOp::BitXor),
        TokenKind::LtLtEq => Some(BinOp::Shl),
        TokenKind::GtGtEq => Some(BinOp::Shr),
        _ => None,
    }
}

/// Every binary operator token stands for the operator that is spelled as the
/// token is: the token's text, as diagnostics quote it, is the operator's
/// symbol. So distinct tokens give distinct operators.
pub proof fn law_binary_token_spells_its_operator(k: TokenKind)
    ensures
        binop_of(k) matches Some(op) ==> k.spec_describe() == "`"@ + op.spec_symbol() + "`"@,
{
    reveal_strlit("`");
    match k {
        TokenKind::Plus => {
            reveal_strlit("`+`");
            reveal_strlit("+");
            assert("`+`"@ =~= "`"@ + "+"@ + "`"@);
        },
        TokenKind::Minus => {
            reveal_strlit("`-`");
            reveal_strlit("-");
            assert("`-`"@ =~= "`"@ + "-"@ + "`"@);
        },
        TokenKind::Star => {
            reveal_strlit("`*`");
            reveal_strlit("*");
            assert("`*`"@ =~= "`"@ + "*"@ + "`"@);
        },
        TokenKind::Slash => {
            reveal_strlit("`/`");
            reveal_strlit("/");
            assert("`/`"@ =~= "`"@ + "/"@ + "`"@);
        },
        TokenKind::Percent => {
            reveal_strlit("`%`");
            reveal_strlit("%");
            assert("`%`"@ =~= "`"@ + "%"@ + "`"@);
        },
        TokenKind::EqEq => {
            reveal_strlit("`==`");
            reveal_strlit("==");
            assert("`==`"@ =~= "`"@ + "=="@ + "`"@);
        },
        TokenKind::BangEq => {
            reveal_strlit("`!=`");
            reveal_strlit("!=");
            assert("`!=`"@ =~= "`"@ + "!="@ + "`"@);
        },
        TokenKind::Lt => {
            reveal_strlit("`<`");
            reveal_strlit("<");
            assert("`<`"@ =~= "`"@ + "<"@ + "`"@);
        },
        TokenKind::LtEq => {
            reveal_strlit("`<=`");
            reveal_strlit("<=");
            assert("`<=`"@ =~= "`"@ + "<="@ + "`"@);
        },
        TokenKind::Gt => {
            reveal_strlit("`>`");
            reveal_strlit(">");
            assert("`>`"@ =~= "`"@ + ">"@ + "`"@);
        },
        TokenKind::GtEq => {
            reveal_strlit("`>=`");
            reveal_strlit(">=");
            assert("`>=`"@ =~= "`"@ + ">="@ + "`"@);
        },
        TokenKind::AmpAmp => {
            reveal_strlit("`&&`");
            reveal_strlit("&&");
            assert("`&&`"@ =~= "`"@ + "&&"@ + "`"@);
        },
        TokenKind::PipePipe => {
            reveal_strlit("`||`");
            reveal_strlit("||");
            assert("`||`"@ =~= "`"@ + "||"@ + "`"@);
        },
        TokenKind::Pipe => {
            reveal_strlit("`|`");
            reveal_strlit("|");
            assert("`|`"@ =~= "`"@ + "|"@ + "`"@);
        },
        TokenKind::Caret => {
            reveal_strlit("`^`");
            reveal_strlit("^");
            assert("`^`"@ =~= "`"@ + "^"@ + "`"@);
        },
        TokenKind::Amp => {
            reveal_strlit("`&`");
            reveal_strlit("&");
            assert("`&`"@ =~= "`"@ + "&"@ + "`"@);
        },
        TokenKind::LtLt => {
            reveal_strlit("`<<`");
            reveal_strlit("<<");
            assert("`<<`"@ =~= "`"@ + "<<"@ + "`"@);
        },
        TokenKind::GtGt => {
            reveal_strlit("`>>`");
            reveal_strlit(">>");
            assert("`>>`"@ =~= "`"@ + ">>"@ + "`"@);
        },
        _ => {},
    }
}

/// Every compound assignment token stands for the operator whose symbol,
/// followed by `=`, is the token's text.
pub proof fn law_compound_token_spells_its_operator(k: TokenKind)
    ensures
        compound_op(k) matches Some(op) ==> k.spec_describe() == "`"@ + op.spec_symbol() + "="@ + "`"@,
{
    reveal_strlit("`");
    reveal_strlit("=");
    match k {
        TokenKind::PlusEq => {
            reveal_strlit("`+=`");
            reveal_strlit("+");
            assert("`+=`"@ =~= "`"@ + "+"@ + "="@ + "`"@);
        },
        TokenKind::MinusEq => {
            reveal_strlit("`-=`");
            reveal_strlit("-");
            assert("`-=`"@ =~= "`"@ + "-"@ + "="@ + "`"@);
        },
        TokenKind::StarEq => {
            reveal_strlit("`*=`");
            reveal_strlit("*");
            assert("`*=`"@ =~= "`"@ + "*"@ + "="@ + "`"@);
        },
        TokenKind::SlashEq => {
            reveal_strlit("`/=`");
            reveal_strlit("/");
            assert("`/=`"@ =~= "`"@ + "/"@ + "="@ + "`"@);
        },
        TokenKind::PercentEq => {
            reveal_strlit("`%=`");
            reveal_strlit("%");
            assert("`%=`"@ =~= "`"@ + "%"@ + "="@ + "`"@);
        },
        TokenKind::AmpEq => {
            reveal_strlit("`&=`");
            reveal_strlit("&");
            assert("`&=`"@ =~= "`"@ + "&"@ + "="@ + "`"@);
        },
        TokenKind::PipeEq => {
            reveal_strlit("`|=`");
            reveal_strlit("|");
            assert("`|=`"@ =~= "`"@ + "|"@ + "="@ + "`"@);
        },
        TokenKind::CaretEq => {
            reveal_strlit("`^=`");
            reveal_strlit("^");
            assert("`^=`"@ =~= "`"@ + "^"@ + "="@ + "`"@);
        },
        TokenKind::LtLtEq => {
            reveal_strlit("`<<=`");
            reveal_strlit("<<");
            assert("`<<=`"@ =~= "`"@ + "<<"@ + "="@ + "`"@);
        },
        TokenKind::GtGtEq => {
            reveal_strlit("`>>=`");
            reveal_strlit(">>");
            assert("`>>=`"@ =~= "`"@ + ">>"@ + "="@ + "`"@);
        },
        _ => {},
    }
}

/// Binding strength of a binary operator: a higher one binds tighter.
pub open spec fn prec(op: BinOp) -> nat {
    match op {
        BinOp::Or => 1,
        BinOp::And => 2,
        BinOp::BitOr => 3,
        BinOp::BitXor => 4,
        BinOp::BitAnd => 5,
        BinOp::Eq | BinOp::Ne | BinOp::Lt | BinOp::Le | BinOp::Gt | BinOp::Ge => 6,
        BinOp::Shl | BinOp::Shr => 7,
        BinOp::Add | BinOp::Sub => 8,
        BinOp::Mul | BinOp::Div | BinOp::Rem => 9,
    }
}

/// How tightly operators bind, loosest first: `||`, `&&`, `|`, `^`, `&`, the
/// comparisons (all alike), the shifts, `+` and `-`, then `*`, `/` and `%`.
pub proof fn law_precedence_order(a: BinOp, b: BinOp)
    ensures
        prec(BinOp::Or) < prec(BinOp::And),
        prec(BinOp::And) < prec(BinOp::BitOr),
        prec(BinOp::BitOr) < prec(BinOp::BitXor),
        prec(BinOp::BitXor) < prec(BinOp::BitAnd),
        a.is_comparison() ==> prec(BinOp::BitAnd) < prec(a) && prec(a) < prec(BinOp::Shl),
        a.is_comparison() && b.is_comparison() ==> prec(a) == prec(b),
        prec(BinOp::Shl) == prec(BinOp::Shr),
        prec(BinOp::Shr) < prec(BinOp::Add),
        prec(BinOp::Add) == prec(BinOp::Sub),
        prec(BinOp::Sub) < prec(BinOp::Mul),
        prec(BinOp::Mul) == prec(BinOp::Div) && prec(BinOp::Div) == prec(BinOp::Rem),
{
}

/// `e = e - 1` (or `+`), the expansion of `--e`, `e--` and `e++`.
pub open spec fn step_assign(e: ExprV, op: BinOp, span: Span) -> ExprV {
    ExprV::Assign(
        Box::new(e),
        Box::new(ExprV::Binary(Box::new(e), op, Box::new(ExprV::Int(1, IntegerSuffix::Unsuffixed, span)), span)),
        span,
    )
}

/// An expression: a unary expression, binary operators, then an optional `= rhs`.
pub open spec fn parse_expression(ts: Seq<Token>, p: int) -> (int, Result<ExprV, PErr>)
    decreases ts.len() - p, 10int,
{
    let (p1, r1) = parse_unary(ts, p);
    match r1 {
        Err(x) => (p1, Err(x)),
        Ok(u) => if !moved(ts, p, p1) {
            (p1, Err(stuck(ts, p1)))
        } else {
            let (p2, r2) = binop_loop(ts, p1, 0, u);
            match r2 {
                Err(x) => (p2, Err(x)),
                Ok(e) => if !fwd(ts, p1, p2) {
                    (p2, Err(stuck(ts, p2)))
                } else if at(ts, p2, TokenKind::Eq) {
                    let (p3, r3) = parse_expression(ts, p2 + 1);
                    match r3 {
                        Err(x) => (p3, Err(x)),
                        Ok(rhs) => (p3, Ok(ExprV::Assign(Box::new(e), Box::new(rhs), since(ts, p3, e.span())))),
                    }
                } else {
                    (p2, Ok(e))
                },
            }
        },
    }
}

/// Binary operators of precedence at least `min_prec`, left to right, after `lhs`.
pub open spec fn binop_loop(ts: Seq<Token>, p: int, min_prec: nat, lhs: ExprV) -> (int, Result<ExprV, PErr>)
    decreases ts.len() - p, 9int,
{
    match binop_of(peek_kind(ts, p)) {
        None => (p, Ok(lhs)),
        Some(op) => if prec(op) < min_prec || p >= ts.len() {
            (p, Ok(lhs))
        } else {
            let (p1, r1) = parse_unary(ts, p + 1);
            match r1 {
                Err(x) => (p1, Err(x)),
                Ok(u) => if !moved(ts, p + 1, p1) {
                    (p1, Err(stuck(ts, p1)))
                } else {
                    let (p2, r2) = binop_loop(ts, p1, prec(op) + 1, u);
                    match r2 {
                        Err(x) => (p2, Err(x)),
                        Ok(rhs) => if !fwd(ts, p1, p2) {
                            (p2, Err(stuck(ts, p2)))
                        } else {
                            binop_loop(ts, p2, min_prec, ExprV::Binary(Box::new(lhs), op, Box::new(rhs), since(ts, p2, lhs.span())))
                        },
                    }
                },
            }
        },
    }
}

/// A unary expression: `-e`, `!e`, `--e`, `&e` or `ref e` (address of),
/// `*e` (dereference), or a postfix expression.
pub open spec fn parse_unary(ts: Seq<Token>, p: int) -> (int, Result<ExprV, PErr>)
    decreases ts.len() - p, 8int,
{
    let k = peek_kind(ts, p);
    if p < ts.len() && (k is Minus || k is Bang || k is MinusMinus || k is Amp || k is Ref || k is Star) {
        let span = ts[p].span;
        let (p1, r) = parse_unary(ts, p + 1);
        match r {
            Err(x) => (p1, Err(x)),
            Ok(e) => (p1, Ok(if k is Minus {
                ExprV::Unary(UnOp::Neg, Box::new(e), span)
            } else if k is Bang {
                ExprV::Unary(UnOp::Not, Box::new(e), span)
            } else if k is Amp || k is Ref {
                ExprV::AddressOf(Box::new(e), span)
            } else if k is Star {
                ExprV::Dereference(Box::new(e), span)
            } else {
                step_assign(e, BinOp::Sub, span)
            })),
        }
    } else {
        parse_postfix(ts, p)
    }
}

/// A primary expression followed by calls, field accesses, indexing,
/// compound assignments, `++`/`--` and struct literal bodies.
pub open spec fn parse_postfix(ts: Seq<Token>, p: int) -> (int, Result<ExprV, PErr>)
    decreases ts.len() - p, 7int,
{
    let (p1, r) = parse_primary(ts, p);
    match r {
        Err(x) => (p1, Err(x)),
        Ok(e) => if !fwd(ts, p, p1) { (p1, Err(stuck(ts, p1))) } else { postfix_loop(ts, p1, e) },
    }
}

pub open spec fn postfix_loop(ts: Seq<Token>, p: int, e: ExprV) -> (int, Result<ExprV, PErr>)
    decreases ts.len() - p, 6int,
{
    if p >= ts.len() || p < 0 {
        (p, Ok(e))
    } else {
        let k = ts[p].kind;
        if k is LParen {
            let (p1, ra) = elems_loop(ts, p + 1, TokenKind::RParen, Seq::empty());
            match ra {
                Err(x) => (p1, Err(x)),
                Ok(args) => {
                    let (p2, r2) = expect(ts, p1, TokenKind::RParen);
                    match r2 {
                        Err(x) => (p2, Err(x)),
                        Ok(_) => match e {
                            ExprV::Ident(name, ispan) => if !moved(ts, p, p2) {
                                (p2, Err(stuck(ts, p2)))
                            } else {
                                postfix_loop(ts, p2, ExprV::Call(name, args, since(ts, p2, ispan)))
                            },
                            _ => (p2, Err(("cannot call non-identifier"@, peek_span(ts, p2)))),
                        },
                    }
                },
            }
        } else if k is Dot {
            let (p1, rf) = expect_ident(ts, p + 1);
            match rf {
                Err(x) => (p1, Err(x)),
                Ok(field) => postfix_loop(ts, p1, ExprV::FieldAccess(Box::new(e), field, since(ts, p1, e.span()))),
            }
        } else if k is LBracket {
            let (p1, ri) = parse_expression(ts, p + 1);
            match ri {
                Err(x) => (p1, Err(x)),
                Ok(idx) => {
                    let (p2, r2) = expect(ts, p1, TokenKind::RBracket);
                    match r2 {
                        Err(x) => (p2, Err(x)),
                        Ok(_) => if !moved(ts, p, p2) {
                            (p2, Err(stuck(ts, p2)))
                        } else {
                            postfix_loop(ts, p2, ExprV::ArrayIndex(Box::new(e), Box::new(idx), since(ts, p2, e.span())))
                        },
                    }
                },
            }
        } else if compound_op(k) is Some {
            let op = compound_op(k)->0;
            let (p1, rr) = parse_expression(ts, p + 1);
            match rr {
                Err(x) => (p1, Err(x)),
                Ok(rhs) => if !moved(ts, p, p1) {
                    (p1, Err(stuck(ts, p1)))
                } else {
                    let span = since(ts, p1, e.span());
                    postfix_loop(ts, p1, ExprV::Assign(
                        Box::new(e),
                        Box::new(ExprV::Binary(Box::new(e), op, Box::new(rhs), span)),
                        span,
                    ))
                },
            }
        } else if k is PlusPlus {
            postfix_loop(ts, p + 1, step_assign(e, BinOp::Add, ts[p].span))
        } else if k is MinusMinus {
            postfix_loop(ts, p + 1, step_assign(e, BinOp::Sub, ts[p].span))
        } else if k is LBrace && (e is Ident || e is FieldAccess) {
            let name = match e {
                ExprV::Ident(n, _) => n,
                ExprV::FieldAccess(_, f, _) => f,
                _ => Seq::empty(),
            };
            let (p1, rf) = fields_loop(ts, p + 1, Seq::empty());
            match rf {
                Err(x) => (p1, Err(x)),
                Ok(fs) => {
                    let (p2, r2) = expect(ts, p1, TokenKind::RBrace);
                    match r2 {
                        Err(x) => (p2, Err(x)),
                        Ok(_) => if !moved(ts, p, p2) {
                            (p2, Err(stuck(ts, p2)))
                        } else {
                            postfix_loop(ts, p2, ExprV::Struct(name, fs, since(ts, p2, e.span())))
                        },
                    }
                },
            }
        } else {
            (p, Ok(e))
        }
    }
}

/// Comma-separated expressions up to (not including) `close`, after `acc`.
pub open spec fn elems_loop(ts: Seq<Token>, p: int, close: TokenKind, acc: Seq<ExprV>) -> (int, Result<Seq<ExprV>, PErr>)
    decreases ts.len() - p, 11int,
{
    if at(ts, p, close) {
        (p, Ok(acc))
    } else {
        let (p1, r) = parse_expression(ts, p);
        match r {
            Err(x) => (p1, Err(x)),
            Ok(e) => {
                let p2 = if at(ts, p1, TokenKind::Comma) { p1 + 1 } else { p1 };
                if !moved(ts, p, p2) { (p2, Err(stuck(ts, p2))) } else { elems_loop(ts, p2, close, acc.push(e)) }
            },
        }
    }
}

/// Comma-separated `name: value` pairs up to (not including) `}`, after `acc`.
pub open spec fn fields_loop(ts: Seq<Token>, p: int, acc: Seq<(Seq<char>, ExprV)>) -> (int, Result<
    Seq<(Seq<char>, ExprV)>,
    PErr,
>)
    decreases ts.len() - p, 11int,
{
    if at(ts, p, TokenKind::RBrace) {
        (p, Ok(acc))
    } else {
        let (p1, rn) = expect_ident(ts, p);
        match rn {
            Err(x) => (p1, Err(x)),
            Ok(name) => {
                let (p2, rc) = expect(ts, p1, TokenKind::Colon);
                match rc {
                    Err(x) => (p2, Err(x)),
                    Ok(_) => {
                        let (p3, rv) = parse_expression(ts, p2);
                        match rv {
                            Err(x) => (p3, Err(x)),
                            Ok(v) => {
                                let p4 = if at(ts, p3, TokenKind::Comma) { p3 + 1 } else { p3 };
                                if !moved(ts, p, p4) {
                                    (p4, Err(stuck(ts, p4)))
                                } else {
                                    fields_loop(ts, p4, acc.push((name, v)))
                                }
                            },
                        }
                    },
                }
            },
        }
    }
}

/// A literal, a variable, a struct literal `model Name { .. }`, an array
/// literal `T{..}` or `[..]`, or a parenthesized expression.
pub open spec fn parse_primary(ts: Seq<Token>, p: int) -> (int, Result<ExprV, PErr>)
    decreases ts.len() - p, 5int,
{
    let k = peek_kind(ts, p);
    let span = peek_span(ts, p);
    if p >= ts.len() || p < 0 {
        (p, Err(("expected expression"@, span)))
    } else {
        match k {
            TokenKind::Int(n, s) => (p + 1, Ok(ExprV::Int(n, s, span))),
            TokenKind::Float(t, s) => (p + 1, Ok(ExprV::Float(t@, s, span))),
            TokenKind::String(t) => (p + 1, Ok(ExprV::Str(t@, span))),
            TokenKind::True => (p + 1, Ok(ExprV::Bool(true, span))),
            TokenKind::False => (p + 1, Ok(ExprV::Bool(false, span))),
            TokenKind::Ident(n) => (p + 1, Ok(ExprV::Ident(n@, span))),
            TokenKind::Struct => {
                let (p1, rn) = expect_ident(ts, p + 1);
                match rn {
                    Err(x) => (p1, Err(x)),
                    Ok(name) => {
                        let (p2, rb) = expect(ts, p1, TokenKind::LBrace);
                        match rb {
                            Err(x) => (p2, Err(x)),
                            Ok(_) => {
                                let (p3, rf) = fields_loop(ts, p2, Seq::empty());
                                match rf {
                                    Err(x) => (p3, Err(x)),
                                    Ok(fs) => {
                                        let (p4, re) = expect(ts, p3, TokenKind::RBrace);
                                        match re {
                                            Err(x) => (p4, Err(x)),
                                            Ok(_) => (p4, Ok(ExprV::Struct(name, fs, since(ts, p4, span)))),
                                        }
                                    },
                                }
                            },
                        }
                    },
                }
            },
            TokenKind::I8 | TokenKind::I16 | TokenKind::I32 | TokenKind::I64 | TokenKind::U8
            | TokenKind::U16 | TokenKind::U32 | TokenKind::U64 | TokenKind::F32 | TokenKind::F64
            | TokenKind::Bool | TokenKind::StringTy => {
                let ty = base_type_of(k)->0;
                let (p2, rb) = expect(ts, p + 1, TokenKind::LBrace);
                match rb {
                    Err(x) => (p2, Err(x)),
                    Ok(_) => {
                        let (p3, re) = elems_loop(ts, p2, TokenKind::RBrace, Seq::empty());
                        match re {
                            Err(x) => (p3, Err(x)),
                            Ok(es) => {
                                let (p4, rc) = expect(ts, p3, TokenKind::RBrace);
                                match rc {
                                    Err(x) => (p4, Err(x)),
                                    Ok(_) => (p4, Ok(ExprV::ArrayLiteral(ty, es, since(ts, p4, span)))),
                                }
                            },
                        }
                    },
                }
            },
            TokenKind::LBracket => {
                let (p3, re) = elems_loop(ts, p + 1, TokenKind::RBracket, Seq::empty());
                match re {
                    Err(x) => (p3, Err(x)),
                    Ok(es) => {
                        let (p4, rc) = expect(ts, p3, TokenKind::RBracket);
                        match rc {
                            Err(x) => (p4, Err(x)),
                            Ok(_) => (p4, Ok(ExprV::ArrayLiteral(TypeV::Void, es, since(ts, p4, span)))),
                        }
                    },
                }
            },
            TokenKind::LParen => {
                let (p1, r) = parse_expression(ts, p + 1);
                match r {
                    Err(x) => (p1, Err(x)),
                    Ok(e) => {
                        let (p2, rc) = expect(ts, p1, TokenKind::RParen);
                        match rc {
                            Err(x) => (p2, Err(x)),
                            Ok(_) => (p2, Ok(ExprV::Paren(Box::new(e), span))),
                        }
                    },
                }
            },
            _ => (p, Err(("expected expression"@, span))),
        }
    }
}

/// The error for an assignment used as a condition, looking through one pair of parentheses.
pub open spec fn assignment_in_condition(e: ExprV) -> Option<PErr> {
    let inner = match e {
        ExprV::Paren(x, _) => *x,
        other => other,
    };
    if inner is Assign {
        Some(("assignment is not allowed in if/while condition; did you mean `==`?"@, e.span()))
    } else {
        None
    }
}

/// Statements up to and including the closing `end`, after `acc`.
pub open spec fn stmts_until(ts: Seq<Token>, p: int, end: TokenKind, acc: Seq<StmtV>) -> (int, Result<Seq<StmtV>, PErr>)
    decreases ts.len() - p, 29int,
{
    if at(ts, p, end) || at(ts, p, TokenKind::Eof) {
        let (p1, r) = expect(ts, p, end);
        match r {
            Err(x) => (p1, Err(x)),
            Ok(_) => (p1, Ok(acc)),
        }
    } else {
        let (p1, r) = parse_decl_or_stmt(ts, p);
        match r {
            Err(x) => (p1, Err(x)),
            Ok(s) => if !moved(ts, p, p1) { (p1, Err(stuck(ts, p1))) } else { stmts_until(ts, p1, end, acc.push(s)) },
        }
    }
}

pub open spec fn parse_block(ts: Seq<Token>, p: int) -> (int, Result<Seq<StmtV>, PErr>)
    decreases ts.len() - p, 25int,
{
    let (p1, r) = expect(ts, p, TokenKind::LBrace);
    match r {
        Err(x) => (p1, Err(x)),
        Ok(_) => if !moved(ts, p, p1) { (p1, Err(stuck(ts, p1))) } else { stmts_until(ts, p1, TokenKind::RBrace, Seq::empty()) },
    }
}

pub open spec fn parse_decl_or_stmt(ts: Seq<Token>, p: int) -> (int, Result<StmtV, PErr>)
    decreases ts.len() - p, 28int,
{
    let k = peek_kind(ts, p);
    if p < ts.len() && k is Fn {
        parse_fn_decl(ts, p)
    } else if p < ts.len() && k is Struct {
        parse_struct_decl(ts, p)
    } else {
        parse_stmt(ts, p)
    }
}

pub open spec fn parse_stmt(ts: Seq<Token>, p: int) -> (int, Result<StmtV, PErr>)
    decreases ts.len() - p, 27int,
{
    let k = peek_kind(ts, p);
    if 0 <= p < ts.len() && k is Let {
        parse_let(ts, p)
    } else if 0 <= p < ts.len() && k is If {
        parse_if(ts, p)
    } else if 0 <= p < ts.len() && k is While {
        parse_while(ts, p)
    } else if 0 <= p < ts.len() && k is For {
        parse_for(ts, p)
    } else if 0 <= p < ts.len() && (k is Break || k is Continue) {
        parse_jump(ts, p)
    } else if 0 <= p < ts.len() && k is Return {
        parse_return(ts, p)
    } else if 0 <= p < ts.len() && k is LBrace {
        let span = ts[p].span;
        let (p1, r) = stmts_until(ts, p + 1, TokenKind::RBrace, Seq::empty());
        match r {
            Err(x) => (p1, Err(x)),
            Ok(_) => (p1, Err(("unexpected block"@, span))),
        }
    } else {
        let (p1, r) = parse_expression(ts, p);
        match r {
            Err(x) => (p1, Err(x)),
            Ok(e) => {
                let (p2, rs) = expect_semicolon(ts, p1);
                match rs {
                    Err(x) => (p2, Err(x)),
                    Ok(_) => (p2, Ok(StmtV::Expr(e))),
                }
            },
        }
    }
}

/// `break;` or `continue;`
pub open spec fn parse_jump(ts: Seq<Token>, p: int) -> (int, Result<StmtV, PErr>) {
    let span = ts[p].span;
    let (p1, r) = expect_semicolon(ts, p + 1);
    match r {
        Err(x) => (p1, Err(x)),
        Ok(_) => (p1, Ok(if ts[p].kind is Break { StmtV::Break(span) } else { StmtV::Continue(span) })),
    }
}

/// `return;` or `return value;`
pub open spec fn parse_return(ts: Seq<Token>, p: int) -> (int, Result<StmtV, PErr>)
    decreases ts.len() - p, 26int,
{
    let span = ts[p].span;
    if at(ts, p + 1, TokenKind::Semicolon) {
        (p + 2, Ok(StmtV::Return(None, span)))
    } else {
        let (p1, r) = parse_expression(ts, p + 1);
        match r {
            Err(x) => (p1, Err(x)),
            Ok(e) => {
                let (p2, rs) = expect_semicolon(ts, p1);
                match rs {
                    Err(x) => (p2, Err(x)),
                    Ok(_) => (p2, Ok(StmtV::Return(Some(e), span))),
                }
            },
        }
    }
}

/// `let name [: type] [= init];`
pub open spec fn parse_let(ts: Seq<Token>, p: int) -> (int, Result<StmtV, PErr>)
    decreases ts.len() - p, 26int,
{
    let start = ts[p].span;
    let (p1, rn) = expect_ident(ts, p + 1);
    match rn {
        Err(x) => (p1, Err(x)),
        Ok(name) => {
            let (p2, rt) = if at(ts, p1, TokenKind::Colon) {
                let (q, r) = parse_type(ts, p1 + 1);
                match r {
                    Err(x) => (q, Err(x)),
                    Ok(t) => (q, Ok(Some(t))),
                }
            } else {
                (p1, Ok(None))
            };
            match rt {
                Err(x) => (p2, Err(x)),
                Ok(annot) => if !fwd(ts, p + 1, p2) {
                    (p2, Err(stuck(ts, p2)))
                } else {
                    let (p3, ri) = if at(ts, p2, TokenKind::Eq) {
                        let (q, r) = parse_expression(ts, p2 + 1);
                        match r {
                            Err(x) => (q, Err(x)),
                            Ok(e) => (q, Ok(Some(e))),
                        }
                    } else {
                        (p2, Ok(None))
                    };
                    match ri {
                        Err(x) => (p3, Err(x)),
                        Ok(init) => {
                            let (p4, rs) = expect_semicolon(ts, p3);
                            match rs {
                                Err(x) => (p4, Err(x)),
                                Ok(_) => (p4, Ok(StmtV::Let(name, annot, init, since(ts, p4, start)))),
                            }
                        },
                    }
                },
            }
        },
    }
}

/// `if cond { .. } [else if .. | else { .. }]`
pub open spec fn parse_if(ts: Seq<Token>, p: int) -> (int, Result<StmtV, PErr>)
    decreases ts.len() - p, 26int,
{
    let start = ts[p].span;
    let (p1, rc) = parse_expression(ts, p + 1);
    match rc {
        Err(x) => (p1, Err(x)),
        Ok(cond) => match assignment_in_condition(cond) {
            Some(x) => (p1, Err(x)),
            None => if !fwd(ts, p + 1, p1) {
                (p1, Err(stuck(ts, p1)))
            } else {
                let (p2, rt) = parse_block(ts, p1);
                match rt {
                    Err(x) => (p2, Err(x)),
                    Ok(then_s) => if !fwd(ts, p1, p2) {
                        (p2, Err(stuck(ts, p2)))
                    } else if at(ts, p2, TokenKind::Else) {
                        if at(ts, p2 + 1, TokenKind::If) {
                            let (p3, ri) = parse_if(ts, p2 + 1);
                            match ri {
                                Err(x) => (p3, Err(x)),
                                Ok(inner) => (p3, Ok(StmtV::If(cond, then_s, Some(seq![inner]), since(ts, p3, start)))),
                            }
                        } else {
                            let (p3, re) = parse_block(ts, p2 + 1);
                            match re {
                                Err(x) => (p3, Err(x)),
                                Ok(else_s) => (p3, Ok(StmtV::If(cond, then_s, Some(else_s), since(ts, p3, start)))),
                            }
                        }
                    } else {
                        (p2, Ok(StmtV::If(cond, then_s, None, since(ts, p2, start))))
                    },
                }
            },
        },
    }
}

/// `while cond { .. }`
pub open spec fn parse_while(ts: Seq<Token>, p: int) -> (int, Result<StmtV, PErr>)
    decreases ts.len() - p, 26int,
{
    let start = ts[p].span;
    let (p1, rc) = parse_expression(ts, p + 1);
    match rc {
        Err(x) => (p1, Err(x)),
        Ok(cond) => match assignment_in_condition(cond) {
            Some(x) => (p1, Err(x)),
            None => if !fwd(ts, p + 1, p1) {
                (p1, Err(stuck(ts, p1)))
            } else {
                let (p2, rb) = parse_block(ts, p1);
                match rb {
                    Err(x) => (p2, Err(x)),
                    Ok(body) => (p2, Ok(StmtV::While(cond, body, since(ts, p2, start)))),
                }
            },
        },
    }
}

/// `for var in lo..hi { .. }`
pub open spec fn parse_for(ts: Seq<Token>, p: int) -> (int, Result<StmtV, PErr>)
    decreases ts.len() - p, 26int,
{
    let start = ts[p].span;
    let (p1, rv) = expect_ident(ts, p + 1);
    match rv {
        Err(x) => (p1, Err(x)),
        Ok(var) => {
            let (p2, ri) = expect(ts, p1, TokenKind::In);
            match ri {
                Err(x) => (p2, Err(x)),
                Ok(_) => {
                    let (p3, rl) = parse_expression(ts, p2);
                    match rl {
                        Err(x) => (p3, Err(x)),
                        Ok(lo) => {
                            let (p4, rd) = expect(ts, p3, TokenKind::DotDot);
                            match rd {
                                Err(x) => (p4, Err(x)),
                                Ok(_) => if !moved(ts, p, p4) {
                                    (p4, Err(stuck(ts, p4)))
                                } else {
                                    let (p5, rh) = parse_expression(ts, p4);
                                    match rh {
                                        Err(x) => (p5, Err(x)),
                                        Ok(hi) => if !fwd(ts, p4, p5) {
                                            (p5, Err(stuck(ts, p5)))
                                        } else {
                                            let (p6, rb) = parse_block(ts, p5);
                                            match rb {
                                                Err(x) => (p6, Err(x)),
                                                Ok(body) => (p6, Ok(StmtV::For(var, lo, hi, body, since(ts, p6, start)))),
                                            }
                                        },
                                    }
                                },
                            }
                        },
                    }
                },
            }
        },
    }
}

/// Parameters `name: type` separated by commas, up to (not including) `)`.
pub open spec fn params_loop(ts: Seq<Token>, p: int, acc: FieldsV) -> (int, Result<FieldsV, PErr>)
    decreases ts.len() - p,
{
    if at(ts, p, TokenKind::RParen) {
        (p, Ok(acc))
    } else {
        let (p1, rn) = expect_ident(ts, p);
        match rn {
            Err(x) => (p1, Err(x)),
            Ok(name) => {
                let (p2, rc) = expect(ts, p1, TokenKind::Colon);
                match rc {
                    Err(x) => (p2, Err(x)),
                    Ok(_) => {
                        let (p3, rt) = parse_type(ts, p2);
                        match rt {
                            Err(x) => (p3, Err(x)),
                            Ok(t) => {
                                let p4 = if at(ts, p3, TokenKind::Comma) { p3 + 1 } else { p3 };
                                if !moved(ts, p, p4) { (p4, Err(stuck(ts, p4))) } else { params_loop(ts, p4, acc.push((name, t))) }
                            },
                        }
                    },
                }
            },
        }
    }
}

/// Fields `name: type` separated by commas, up to (not including) `}`.
pub open spec fn decl_fields_loop(ts: Seq<Token>, p: int, acc: FieldsV) -> (int, Result<FieldsV, PErr>)
    decreases ts.len() - p,
{
    if at(ts, p, TokenKind::RBrace) {
        (p, Ok(acc))
    } else {
        let (p1, rn) = expect_ident(ts, p);
        match rn {
            Err(x) => (p1, Err(x)),
            Ok(name) => {
                let (p2, rc) = expect(ts, p1, TokenKind::Colon);
                match rc {
                    Err(x) => (p2, Err(x)),
                    Ok(_) => {
                        let (p3, rt) = parse_type(ts, p2);
                        match rt {
                            Err(x) => (p3, Err(x)),
                            Ok(t) => {
                                let p4 = if at(ts, p3, TokenKind::Comma) { p3 + 1 } else { p3 };
                                if !moved(ts, p, p4) { (p4, Err(stuck(ts, p4))) } else { decl_fields_loop(ts, p4, acc.push((name, t))) }
                            },
                        }
                    },
                }
            },
        }
    }
}

/// `def name(params) [-> type] { .. }`
pub open spec fn parse_fn_decl(ts: Seq<Token>, p: int) -> (int, Result<StmtV, PErr>)
    decreases ts.len() - p, 26int,
{
    let start = ts[p].span;
    let (p1, rn) = expect_ident(ts, p + 1);
    match rn {
        Err(x) => (p1, Err(x)),
        Ok(name) => {
            let (p2, rl) = expect(ts, p1, TokenKind::LParen);
            match rl {
                Err(x) => (p2, Err(x)),
                Ok(_) => {
                    let (p3, rp) = params_loop(ts, p2, Seq::empty());
                    match rp {
                        Err(x) => (p3, Err(x)),
                        Ok(params) => {
                            let (p4, rr) = expect(ts, p3, TokenKind::RParen);
                            match rr {
                                Err(x) => (p4, Err(x)),
                                Ok(_) => {
                                    let (p5, rt) = if at(ts, p4, TokenKind::Arrow) {
                                        let (q, r) = parse_type(ts, p4 + 1);
                                        match r {
                                            Err(x) => (q, Err(x)),
                                            Ok(t) => (q, Ok(Some(t))),
                                        }
                                    } else {
                                        (p4, Ok(None))
                                    };
                                    match rt {
                                        Err(x) => (p5, Err(x)),
                                        Ok(ret) => if !moved(ts, p, p5) {
                                            (p5, Err(stuck(ts, p5)))
                                        } else {
                                            let (p6, rb) = parse_block(ts, p5);
                                            match rb {
                                                Err(x) => (p6, Err(x)),
                                                Ok(body) => (p6, Ok(StmtV::Fn(name, params, ret, body, Seq::empty(), since(ts, p6, start)))),
                                            }
                                        },
                                    }
                                },
                            }
                        },
                    }
                },
            }
        },
    }
}

/// `model Name { fields }`
pub open spec fn parse_struct_decl(ts: Seq<Token>, p: int) -> (int, Result<StmtV, PErr>)
    decreases ts.len() - p, 26int,
{
    let start = ts[p].span;
    let (p1, rn) = expect_ident(ts, p + 1);
    match rn {
        Err(x) => (p1, Err(x)),
        Ok(name) => {
            let (p2, rl) = expect(ts, p1, TokenKind::LBrace);
            match rl {
                Err(x) => (p2, Err(x)),
                Ok(_) => {
                    let (p3, rf) = decl_fields_loop(ts, p2, Seq::empty());
                    match rf {
                        Err(x) => (p3, Err(x)),
                        Ok(fields) => {
                            let (p4, rr) = expect(ts, p3, TokenKind::RBrace);
                            match rr {
                                Err(x) => (p4, Err(x)),
                                Ok(_) => (p4, Ok(StmtV::Struct(name, fields, since(ts, p4, start)))),
                            }
                        },
                    }
                },
            }
        },
    }
}

/// Top-level declarations and statements up to the end-of-file token, after `acc`.
pub open spec fn parse_items(ts: Seq<Token>, p: int, acc: Seq<StmtV>) -> Result<Seq<StmtV>, PErr>
    decreases ts.len() - p, 30int,
{
    if at(ts, p, TokenKind::Eof) {
        Ok(acc)
    } else {
        let (p1, r) = parse_decl_or_stmt(ts, p);
        match r {
            Err(x) => Err(x),
            Ok(s) => if !moved(ts, p, p1) { Err(stuck(ts, p1)) } else { parse_items(ts, p1, acc.push(s)) },
        }
    }
}

/// The program a token sequence spells, or the first syntax error.
pub open spec fn parse_file(ts: Seq<Token>) -> Result<Seq<StmtV>, PErr> {
    parse_items(ts, 0, Seq::empty())
}

} // verus!
