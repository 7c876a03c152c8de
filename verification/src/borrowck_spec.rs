//! The borrow-checking rules, as functions from checker state and program to
//! the next state.
//!
//! The checker tracks, for each variable that something borrows from, the list
//! of its borrowers; the set of variables whose value has been moved out; and
//! the errors found so far. Errors are collected, not raised: checking always
//! runs to the end of the program.

use vstd::prelude::*;
use crate::hir::{DecoratorV, HExpr, HStmt};
use crate::typeck_spec::FieldsV;
use crate::lexer::token::Span;
use crate::ty::TypeV;

verus! {

/// Borrowed variable and its borrowers, in the order they were recorded.
pub type BorrowMap = Seq<(Seq<char>, Seq<Seq<char>>)>;

/// A borrow error by value: message and optional position.
pub type BErr = (Seq<char>, Option<Span>);

pub struct BState {
    pub borrowed: BorrowMap,
    pub moved: Seq<Seq<char>>,
    pub errors: Seq<BErr>,
}

/// No variable has two entries in the map.
pub open spec fn keys_distinct(b: BorrowMap) -> bool {
    forall|i: int, j: int| 0 <= i < j < b.len() ==> b[i].0 != b[j].0
}

/// Position of the entry of `k`.
pub open spec fn key_index(b: BorrowMap, k: Seq<char>) -> Option<nat>
    decreases b.len(),
{
    if b.len() == 0 {
        None
    } else if b.last().0 == k {
        Some((b.len() - 1) as nat)
    } else {
        key_index(b.drop_last(), k)
    }
}

/// The borrowers of `k`, when it has an entry.
pub open spec fn borrowers_of(b: BorrowMap, k: Seq<char>) -> Option<Seq<Seq<char>>> {
    match key_index(b, k) {
        Some(i) => Some(b[i as int].1),
        None => None,
    }
}

/// `l` with `x` appended unless already present.
pub open spec fn add_to_list(l: Seq<Seq<char>>, x: Seq<char>) -> Seq<Seq<char>> {
    if l.contains(x) { l } else { l.push(x) }
}

/// Records `x` among the borrowers of `k`, creating the entry when needed.
pub open spec fn add_borrower(b: BorrowMap, k: Seq<char>, x: Seq<char>) -> BorrowMap {
    match key_index(b, k) {
        Some(i) => b.update(i as int, (k, add_to_list(b[i as int].1, x))),
        None => b.push((k, seq![x])),
    }
}

/// `c` is recorded as a borrower of `k`.
pub open spec fn borrows_from(b: BorrowMap, k: Seq<char>, c: Seq<char>) -> bool {
    exists|i: int| 0 <= i < b.len() && b[i].0 == k && #[trigger] b[i].1.contains(c)
}

/// Each element of `p` after the first has the one before it among its borrowers.
pub open spec fn is_chain(b: BorrowMap, p: Seq<Seq<char>>) -> bool {
    forall|i: int| 0 <= i < p.len() - 1 ==> #[trigger] borrows_from(b, p[i + 1], p[i])
}

/// `k` borrows, directly or through other variables, from what `src`
/// borrows: a chain of at least one step leads from `src` to `k`.
pub open spec fn reaches(b: BorrowMap, src: Seq<char>, k: Seq<char>) -> bool {
    exists|p: Seq<Seq<char>>| #[trigger] is_chain(b, p) && p.len() >= 2 && p[0] == src && p.last() == k
}

/// The map after `name` borrows from `src`: `name` joins the borrowers of
/// `src`, and of every variable that `src` borrows from, directly or not.
pub open spec fn record_borrow(b: BorrowMap, name: Seq<char>, src: Seq<char>) -> BorrowMap {
    let b1 = add_borrower(b, src, name);
    Seq::new(b1.len(), |i: int| (b1[i].0, if reaches(b1, src, b1[i].0) {
        add_to_list(b1[i].1, name)
    } else {
        b1[i].1
    }))
}

/// Some variable has `name` among its borrowers.
pub open spec fn is_borrower(b: BorrowMap, name: Seq<char>) -> bool {
    exists|i: int| 0 <= i < b.len() && #[trigger] b[i].1.contains(name)
}

/// Names separated by `, `.
pub open spec fn join_names(l: Seq<Seq<char>>) -> Seq<char>
    decreases l.len(),
{
    if l.len() == 0 {
        Seq::empty()
    } else if l.len() == 1 {
        l[0]
    } else {
        join_names(l.drop_last()) + ", "@ + l.last()
    }
}

pub open spec fn push_error(st: BState, span: Option<Span>, message: Seq<char>) -> BState {
    BState { errors: st.errors.push((message, span)), ..st }
}

/// Reports an error when `name` has borrowers.
pub open spec fn error_if_borrowed(st: BState, name: Seq<char>, context: Seq<char>, span: Span) -> BState {
    match borrowers_of(st.borrowed, name) {
        Some(bs) => if bs.len() > 0 {
            push_error(
                st,
                Some(span),
                "cannot "@ + context + " `"@ + name + "`: it is borrowed by `"@ + join_names(bs) + "`"@,
            )
        } else {
            st
        },
        None => st,
    }
}

pub open spec fn mark_moved(st: BState, name: Seq<char>) -> BState {
    BState { moved: add_to_list(st.moved, name), ..st }
}

/// `l` without any occurrence of `x`.
pub open spec fn without(l: Seq<Seq<char>>, x: Seq<char>) -> Seq<Seq<char>>
    decreases l.len(),
{
    if l.len() == 0 {
        l
    } else {
        let rest = without(l.drop_last(), x);
        if l.last() == x { rest } else { rest.push(l.last()) }
    }
}

pub open spec fn unmark_moved(st: BState, name: Seq<char>) -> BState {
    BState { moved: without(st.moved, name), ..st }
}

/// Moving the value of a variable of an owned type: an error if it is
/// borrowed, and it counts as moved afterwards.
pub open spec fn move_out(st: BState, e: HExpr, context: Seq<char>) -> BState {
    match e {
        HExpr::Ident(src, ty, span) => if !ty.is_copy() {
            mark_moved(error_if_borrowed(st, src, context, span), src)
        } else {
            st
        },
        _ => st,
    }
}

/// Checks one expression.
pub open spec fn bc_expr(st: BState, e: HExpr) -> BState
    decreases e, 1int,
{
    match e {
        HExpr::Int(..) | HExpr::Float(..) | HExpr::Str(..) | HExpr::Bool(..) | HExpr::SizeOf(..) => st,
        HExpr::Ident(name, ty, span) => if !ty.is_copy() && st.moved.contains(name) {
            push_error(st, Some(span), "use after move: `"@ + name + "`"@)
        } else {
            st
        },
        HExpr::Print(x, _) => bc_expr(st, *x),
        HExpr::AddressOf(x, _) => bc_expr(st, *x),
        HExpr::Dereference(x, _) => bc_expr(st, *x),
        HExpr::Cast(x, _, _) => bc_expr(st, *x),
        HExpr::Unary(_, x, _) => bc_expr(st, *x),
        HExpr::FieldLoad(x, _, _, _) => bc_expr(st, *x),
        HExpr::AllocStruct(_, fs, _) => bc_moving_fields(st, fs),
        HExpr::ArrayLiteral(_, es, _) => bc_moving_list(st, es, "move into array"@),
        HExpr::Call(_, args, _) => bc_moving_list(st, args, "move into function call"@),
        HExpr::ArrayIndex(o, i, _) => bc_expr(bc_expr(st, *o), *i),
        HExpr::Binary(l, _, r, _, _) => bc_expr(bc_expr(st, *l), *r),
        HExpr::Assign(l, r, _) => {
            let s2 = bc_expr(bc_lhs(st, *l), *r);
            match *l {
                HExpr::Ident(ln, _, _) => {
                    let s3 = unmark_moved(s2, ln);
                    match *r {
                        HExpr::Ident(src, _, _) => if ln != src {
                            move_out(s3, *r, "move in assignment"@)
                        } else {
                            s3
                        },
                        _ => s3,
                    }
                },
                _ => s2,
            }
        },
    }
}

/// Checks the target of an assignment: the assigned variable itself may be
/// moved (assignment revives it) but must not be borrowed.
pub open spec fn bc_lhs(st: BState, e: HExpr) -> BState
    decreases e, 2int,
{
    match e {
        HExpr::Ident(name, _, span) => error_if_borrowed(st, name, "assign to borrowed variable"@, span),
        HExpr::FieldLoad(o, _, _, _) => bc_lhs(st, *o),
        HExpr::ArrayIndex(o, i, _) => bc_expr(bc_lhs(st, *o), *i),
        _ => bc_expr(st, e),
    }
}

/// Checks the elements of a list, each of which is moved when it is a variable.
pub open spec fn bc_moving_list(st: BState, es: Seq<HExpr>, context: Seq<char>) -> BState
    decreases es, 0int,
{
    if es.len() == 0 {
        st
    } else {
        move_out(bc_expr(bc_moving_list(st, es.drop_last(), context), es.last()), es.last(), context)
    }
}

/// Checks the field values of a struct literal, each of which is moved when it is a variable.
pub open spec fn bc_moving_fields(st: BState, fs: Seq<(Seq<char>, HExpr)>) -> BState
    decreases fs, 0int,
{
    if fs.len() == 0 {
        st
    } else {
        let e = fs.last().1;
        move_out(bc_expr(bc_moving_fields(st, fs.drop_last()), e), e, "move into struct field"@)
    }
}

/// The variables at the end of a place expression, `s` in `s.f[i]`, when owned.
pub open spec fn path_idents(e: HExpr) -> Seq<Seq<char>>
    decreases e,
{
    match e {
        HExpr::Ident(name, ty, _) => if !ty.is_copy() { seq![name] } else { Seq::empty() },
        HExpr::FieldLoad(o, _, _, _) => path_idents(*o),
        HExpr::ArrayIndex(o, _, _) => path_idents(*o),
        _ => Seq::empty(),
    }
}

/// The variables borrowed by a chain `&x`, `&&x`, ... (empty when `e` is no borrow).
pub open spec fn chain_sources(e: HExpr) -> Seq<Seq<char>>
    decreases e,
{
    match e {
        HExpr::AddressOf(x, _) => match *x {
            HExpr::AddressOf(..) => chain_sources(*x),
            _ => path_idents(*x),
        },
        _ => Seq::empty(),
    }
}

/// The variables borrowed by every borrow inside an expression, in order.
pub open spec fn borrow_sources(e: HExpr) -> Seq<Seq<char>>
    decreases e, 1int,
{
    match e {
        HExpr::AddressOf(..) => chain_sources(e),
        HExpr::AllocStruct(_, fs, _) => field_borrow_sources(fs),
        HExpr::ArrayLiteral(_, es, _) => list_borrow_sources(es),
        HExpr::Call(_, args, _) => list_borrow_sources(args),
        HExpr::FieldLoad(o, _, _, _) => borrow_sources(*o),
        HExpr::ArrayIndex(o, i, _) => borrow_sources(*o) + borrow_sources(*i),
        HExpr::Unary(_, x, _) => borrow_sources(*x),
        HExpr::Binary(l, _, r, _, _) => borrow_sources(*l) + borrow_sources(*r),
        HExpr::Assign(l, r, _) => borrow_sources(*l) + borrow_sources(*r),
        HExpr::Print(x, _) => borrow_sources(*x),
        HExpr::Dereference(x, _) => borrow_sources(*x),
        HExpr::Cast(x, _, _) => borrow_sources(*x),
        _ => Seq::empty(),
    }
}

pub open spec fn list_borrow_sources(es: Seq<HExpr>) -> Seq<Seq<char>>
    decreases es, 0int,
{
    if es.len() == 0 {
        Seq::empty()
    } else {
        list_borrow_sources(es.drop_last()) + borrow_sources(es.last())
    }
}

pub open spec fn field_borrow_sources(fs: Seq<(Seq<char>, HExpr)>) -> Seq<Seq<char>>
    decreases fs, 0int,
{
    if fs.len() == 0 {
        Seq::empty()
    } else {
        field_borrow_sources(fs.drop_last()) + borrow_sources(fs.last().1)
    }
}

/// `name` borrows from each of `srcs`, in order.
pub open spec fn record_all(b: BorrowMap, name: Seq<char>, srcs: Seq<Seq<char>>) -> BorrowMap
    decreases srcs.len(),
{
    if srcs.len() == 0 {
        b
    } else {
        record_borrow(record_all(b, name, srcs.drop_last()), name, srcs.last())
    }
}

/// Checks one statement.
pub open spec fn bc_stmt(st: BState, s: HStmt) -> BState
    decreases s, 1int,
{
    match s {
        HStmt::Let(name, _, init, _, span) => {
            let s1 = bc_expr(st, init);
            let s2 = BState { borrowed: record_all(s1.borrowed, name, borrow_sources(init)), ..s1 };
            match init {
                HExpr::Ident(src, ty, _) => if !ty.is_copy() && src != name {
                    mark_moved(error_if_borrowed(s2, src, "move"@, span), src)
                } else {
                    s2
                },
                _ => s2,
            }
        },
        HStmt::Expr(e, _) => bc_expr(st, e),
        HStmt::Fn(_, _, _, body, _, _) => {
            let inner = bc_stmts(BState { borrowed: Seq::empty(), moved: Seq::empty(), errors: st.errors }, body);
            BState { errors: inner.errors, ..st }
        },
        HStmt::If(c, t, e, _) => {
            let s1 = bc_stmts(bc_expr(st, c), t);
            match e {
                Some(es) => bc_stmts(s1, es),
                None => s1,
            }
        },
        HStmt::While(c, b, _) => bc_stmts(bc_expr(st, c), b),
        HStmt::For(_, _, lo, hi, b, _) => bc_stmts(bc_expr(bc_expr(st, lo), hi), b),
        HStmt::Return(Some(e), span) => {
            let s1 = bc_expr(st, e);
            match e {
                HExpr::Ident(name, ty, _) => if !ty.is_copy() && is_borrower(s1.borrowed, name) {
                    push_error(s1, Some(span), "cannot return local borrow `"@ + name + "`"@)
                } else {
                    s1
                },
                _ => s1,
            }
        },
        _ => st,
    }
}

/// Checks statements in order.
pub open spec fn bc_stmts(st: BState, ss: Seq<HStmt>) -> BState
    decreases ss, 0int,
{
    if ss.len() == 0 {
        st
    } else {
        bc_stmt(bc_stmts(st, ss.drop_last()), ss.last())
    }
}

/// How one error is reported.
pub open spec fn berr_text(e: BErr) -> Seq<char> {
    match e.1 {
        Some(s) => "borrow error at "@ + crate::text::nat_decimal(s.line as nat) + ":"@
            + crate::text::nat_decimal(s.col as nat) + ": "@ + e.0,
        None => "borrow error: "@ + e.0,
    }
}

/// The reports of all errors, one per line.
pub open spec fn berrs_text(es: Seq<BErr>) -> Seq<char>
    decreases es.len(),
{
    if es.len() == 0 {
        Seq::empty()
    } else if es.len() == 1 {
        berr_text(es[0])
    } else {
        berrs_text(es.drop_last()) + "\n"@ + berr_text(es.last())
    }
}

/// The verdict on a program: accepted when no error was found, otherwise
/// the report that lists every error.
pub open spec fn borrow_verdict(ss: Seq<HStmt>) -> Result<(), Seq<char>> {
    let st = bc_stmts(BState { borrowed: Seq::empty(), moved: Seq::empty(), errors: Seq::empty() }, ss);
    if st.errors.len() == 0 {
        Ok(())
    } else {
        Err("borrow check failed:\n"@ + berrs_text(st.errors))
    }
}

proof fn lemma_without_absent(l: Seq<Seq<char>>, x: Seq<char>)
    ensures
        !without(l, x).contains(x),
    decreases l.len(),
{
    if l.len() > 0 {
        lemma_without_absent(l.drop_last(), x);
        let rest = without(l.drop_last(), x);
        if l.last() != x {
            assert forall|i: int| 0 <= i < rest.push(l.last()).len() implies rest.push(l.last())[i] != x by {
                if i < rest.len() {
                    assert(rest[i] != x);
                }
            }
        }
    }
}

/// Assigning to a variable revives it: whatever the right-hand side is,
/// the variable does not count as moved afterwards.
pub proof fn law_assignment_revives(st: BState, x: Seq<char>, ty: TypeV, lspan: Span, rhs: HExpr, span: Span)
    ensures
        !bc_expr(st, HExpr::Assign(Box::new(HExpr::Ident(x, ty, lspan)), Box::new(rhs), span)).moved.contains(x),
{
    let lhs = HExpr::Ident(x, ty, lspan);
    let s2 = bc_expr(bc_lhs(st, lhs), rhs);
    let s3 = unmark_moved(s2, x);
    lemma_without_absent(s2.moved, x);
    if let HExpr::Ident(src, sty, sspan) = rhs {
        if x != src && !sty.is_copy() {
            let s4 = error_if_borrowed(s3, src, "move in assignment"@, sspan);
            assert(s4.moved == s3.moved);
            if !s4.moved.contains(src) {
                assert forall|i: int| 0 <= i < s4.moved.push(src).len() implies s4.moved.push(src)[i] != x by {
                    if i < s4.moved.len() {
                        assert(s4.moved[i] != x);
                    }
                }
            }
        }
    }
}

/// In a whole program, a statement that assigns to `x` revives it whatever
/// came before (a move of `x` included): a use of `x` in the statement that
/// follows adds nothing to the verdict.
pub proof fn law_reassignment_revives_in_program(
    pre: Seq<HStmt>,
    x: Seq<char>,
    ty: TypeV,
    lspan: Span,
    rhs: HExpr,
    span: Span,
    assign_span: Span,
    use_span: Span,
    use_stmt_span: Span,
)
    ensures
        ({
            let assign = HStmt::Expr(
                HExpr::Assign(Box::new(HExpr::Ident(x, ty, lspan)), Box::new(rhs), span),
                assign_span,
            );
            let use_x = HStmt::Expr(HExpr::Ident(x, ty, use_span), use_stmt_span);
            borrow_verdict(pre + seq![assign, use_x]) == borrow_verdict(pre + seq![assign])
        }),
{
    let assign = HStmt::Expr(HExpr::Assign(Box::new(HExpr::Ident(x, ty, lspan)), Box::new(rhs), span), assign_span);
    let use_x = HStmt::Expr(HExpr::Ident(x, ty, use_span), use_stmt_span);
    let st0 = BState { borrowed: Seq::empty(), moved: Seq::empty(), errors: Seq::empty() };
    let with_use = pre + seq![assign, use_x];
    let without_use = pre + seq![assign];
    assert(with_use.drop_last() =~= without_use);
    assert(without_use.drop_last() =~= pre);
    let before = bc_stmts(st0, pre);
    law_assignment_revives(before, x, ty, lspan, rhs, span);
    let after = bc_stmts(st0, without_use);
    assert(without_use.len() > 0 && without_use.last() == assign);
    assert(after == bc_stmt(bc_stmts(st0, without_use.drop_last()), assign));
    assert(after == bc_stmt(before, assign));
    assert(with_use.len() > 0 && with_use.last() == use_x);
    assert(after == bc_expr(before, HExpr::Assign(Box::new(HExpr::Ident(x, ty, lspan)), Box::new(rhs), span)));
    assert(!after.moved.contains(x));
    assert(bc_stmts(st0, with_use) == bc_stmt(after, use_x));
    assert(bc_stmt(after, use_x) == after);
}

/// Using an owned variable after its value was moved out is reported, at
/// the use, as `use after move`.
pub proof fn law_use_after_move_reported(st: BState, x: Seq<char>, ty: TypeV, span: Span)
    requires
        st.moved.contains(x),
        !ty.is_copy(),
    ensures
        bc_expr(st, HExpr::Ident(x, ty, span)).errors == st.errors.push(("use after move: `"@ + x + "`"@, Some(span))),
{
}

/// A value of a copy type is never moved: using it, or passing it on,
/// changes nothing in the checker's state.
pub proof fn law_copy_values_never_move(st: BState, x: Seq<char>, ty: TypeV, span: Span, context: Seq<char>)
    requires
        ty.is_copy(),
    ensures
        bc_expr(st, HExpr::Ident(x, ty, span)) == st,
        move_out(st, HExpr::Ident(x, ty, span), context) == st,
{
}

/// Moving a variable that something borrows is reported, naming its borrowers,
/// and the variable counts as moved afterwards.
pub proof fn law_moving_borrowed_reported(st: BState, x: Seq<char>, ty: TypeV, span: Span, context: Seq<char>)
    requires
        !ty.is_copy(),
        borrowers_of(st.borrowed, x) matches Some(bs) && bs.len() > 0,
    ensures
        ({
            let bs = borrowers_of(st.borrowed, x)->0;
            let after = move_out(st, HExpr::Ident(x, ty, span), context);
            &&& after.errors == st.errors.push((
                "cannot "@ + context + " `"@ + x + "`: it is borrowed by `"@ + join_names(bs) + "`"@,
                Some(span),
            ))
            &&& after.moved.contains(x)
        }),
{
    let st1 = error_if_borrowed(st, x, context, span);
    lemma_add_to_list_contains(st1.moved, x);
}

proof fn lemma_add_to_list_contains(l: Seq<Seq<char>>, x: Seq<char>)
    ensures
        add_to_list(l, x).contains(x),
{
    if !l.contains(x) {
        assert(l.push(x)[l.len() as int] == x);
    }
}

/// After `name` borrows from `src`, `src` has `name` among its borrowers.
pub proof fn law_borrow_recorded(b: BorrowMap, name: Seq<char>, src: Seq<char>)
    requires
        keys_distinct(b),
    ensures
        borrowers_of(record_borrow(b, name, src), src) matches Some(bs) && bs.contains(name),
{
    let b1 = add_borrower(b, src, name);
    crate::borrowck_spec::lemma_key_index_spec(b, src);
    let i = match key_index(b, src) {
        Some(i) => i as int,
        None => b.len() as int,
    };
    assert(b1[i].0 == src);
    if key_index(b, src) is Some {
        lemma_add_to_list_contains(b[i].1, name);
    } else {
        assert(seq![name][0] == name);
    }
    assert(b1[i].1.contains(name));
    let r = record_borrow(b, name, src);
    assert(r[i].0 == src);
    lemma_add_to_list_contains(b1[i].1, name);
    assert(r[i].1.contains(name));
    lemma_keys_distinct_add(b, src, name);
    lemma_key_index_first(r, src, i);
}

pub proof fn lemma_key_index_spec(b: BorrowMap, k: Seq<char>)
    ensures
        match key_index(b, k) {
            Some(i) => i < b.len() && b[i as int].0 == k,
            None => forall|j: int| 0 <= j < b.len() ==> b[j].0 != k,
        },
    decreases b.len(),
{
    if b.len() > 0 && b.last().0 != k {
        lemma_key_index_spec(b.drop_last(), k);
        assert forall|j: int| 0 <= j < b.len() - 1 implies b[j] == b.drop_last()[j] by {}
    }
}

proof fn lemma_keys_distinct_add(b: BorrowMap, k: Seq<char>, x: Seq<char>)
    requires
        keys_distinct(b),
    ensures
        keys_distinct(add_borrower(b, k, x)),
{
    lemma_key_index_spec(b, k);
}

/// With distinct keys, the entry found for a key is the one at `i`.
proof fn lemma_key_index_first(b: BorrowMap, k: Seq<char>, i: int)
    requires
        0 <= i < b.len(),
        b[i].0 == k,
        forall|j: int| 0 <= j < b.len() && j != i ==> b[j].0 != k,
    ensures
        key_index(b, k) == Some(i as nat),
    decreases b.len(),
{
    if i < b.len() - 1 {
        assert(b.last().0 != k);
        assert forall|j: int| 0 <= j < b.drop_last().len() && j != i implies b.drop_last()[j].0 != k by {
            assert(b.drop_last()[j] == b[j]);
        }
        lemma_key_index_first(b.drop_last(), k, i);
    }
}

/// Assigning a live, unborrowed variable to itself reports nothing, changes
/// no borrow, and leaves the variable usable.
pub proof fn law_self_assignment_is_harmless(st: BState, x: Seq<char>, ty: TypeV, lspan: Span, rspan: Span, span: Span)
    requires
        !st.moved.contains(x),
        borrowers_of(st.borrowed, x) is None || borrowers_of(st.borrowed, x)->0.len() == 0,
    ensures
        bc_expr(st, HExpr::Assign(Box::new(HExpr::Ident(x, ty, lspan)), Box::new(HExpr::Ident(x, ty, rspan)), span)).errors
            == st.errors,
        bc_expr(st, HExpr::Assign(Box::new(HExpr::Ident(x, ty, lspan)), Box::new(HExpr::Ident(x, ty, rspan)), span)).borrowed
            == st.borrowed,
        !bc_expr(st, HExpr::Assign(Box::new(HExpr::Ident(x, ty, lspan)), Box::new(HExpr::Ident(x, ty, rspan)), span)).moved.contains(x),
{
    let s1 = bc_lhs(st, HExpr::Ident(x, ty, lspan));
    assert(s1 == st);
    let s2 = bc_expr(s1, HExpr::Ident(x, ty, rspan));
    assert(s2 == st);
    lemma_without_absent(s2.moved, x);
}

/// A function body is checked on its own: it starts with nothing moved and
/// nothing borrowed, and what it moves or borrows is forgotten after it;
/// only the errors it finds are kept.
pub proof fn law_function_bodies_isolated(
    st: BState,
    name: Seq<char>,
    params: FieldsV,
    ret: TypeV,
    body: Seq<HStmt>,
    ds: Seq<DecoratorV>,
    span: Span,
)
    ensures
        bc_stmt(st, HStmt::Fn(name, params, ret, body, ds, span)).moved == st.moved,
        bc_stmt(st, HStmt::Fn(name, params, ret, body, ds, span)).borrowed == st.borrowed,
        bc_stmt(st, HStmt::Fn(name, params, ret, body, ds, span)).errors
            == bc_stmts(BState { borrowed: Seq::empty(), moved: Seq::empty(), errors: st.errors }, body).errors,
{
}

} // verus!
