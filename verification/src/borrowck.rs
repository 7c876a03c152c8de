//! A minimal borrow checker over the intermediate representation.
//!
//! It tracks which variables have outstanding borrows and rejects using a
//! variable while it is borrowed (moving it, assigning to it, passing it to a
//! call), using a variable after its value was moved out, and returning a
//! borrow of a local variable.

use vstd::prelude::*;
use crate::borrowck_spec::{
    BorrowMap, BErr, BState, keys_distinct, key_index, borrowers_of, add_to_list, add_borrower,
    borrows_from, is_chain, reaches, record_borrow, is_borrower, join_names, push_error,
    error_if_borrowed, mark_moved, unmark_moved, without, move_out, bc_expr, bc_lhs, bc_moving_list,
    bc_moving_fields, path_idents, chain_sources, borrow_sources, list_borrow_sources,
    field_borrow_sources, record_all, bc_stmt, bc_stmts, berr_text, berrs_text, borrow_verdict,
};
use crate::hir::{HirExpr, HirStmt, HExpr, HStmt, hexprs_view, hstmts_view};
use crate::lexer::token::Span;
use crate::text::{push_str, push_u64, nat_decimal};

verus! {

pub open spec fn names_view(v: Seq<String>) -> Seq<Seq<char>> {
    Seq::new(v.len(), |i: int| v[i]@)
}

pub open spec fn bmap_view(v: Seq<(String, Vec<String>)>) -> BorrowMap {
    Seq::new(v.len(), |i: int| (v[i].0@, names_view(v[i].1@)))
}

#[derive(Debug)]
pub struct BorrowError {
    pub message: String,
    pub span: Option<Span>,
}

impl View for BorrowError {
    type V = BErr;

    open spec fn view(&self) -> BErr {
        (self.message@, self.span)
    }
}

pub open spec fn errs_view(v: Seq<BorrowError>) -> Seq<BErr> {
    Seq::new(v.len(), |i: int| v[i]@)
}

impl BorrowError {
    /// The report of the error: `borrow error at LINE:COL: MESSAGE`, or
    /// `borrow error: MESSAGE` when it has no position.
    pub fn text(&self) -> (s: String)
        ensures
            s@ == berr_text(self@),
    {
        let mut out = String::new();
        match self.span {
            Some(sp) => {
                push_str(&mut out, "borrow error at ");
                push_u64(&mut out, sp.line as u64);
                push_str(&mut out, ":");
                push_u64(&mut out, sp.col as u64);
                push_str(&mut out, ": ");
            },
            None => push_str(&mut out, "borrow error: "),
        }
        push_str(&mut out, self.message.as_str());
        assert(out@ =~= berr_text(self@));
        out
    }
}

/// Whether `x` occurs in `l`.
fn names_contain(l: &Vec<String>, x: &String) -> (r: bool)
    ensures
        r == names_view(l@).contains(x@),
{
    let mut i: usize = 0;
    while i < l.len()
        invariant
            i <= l@.len(),
            forall|j: int| 0 <= j < i ==> names_view(l@)[j] != x@,
        decreases l@.len() - i,
    {
        if l[i] == *x {
            assert(names_view(l@)[i as int] == x@);
            return true;
        }
        i += 1;
    }
    false
}

/// Number of `true` entries.
pub open spec fn count_true(s: Seq<bool>) -> nat
    decreases s.len(),
{
    if s.len() == 0 {
        0
    } else {
        count_true(s.drop_last()) + if s.last() { 1nat } else { 0nat }
    }
}

proof fn lemma_count_true_bound(s: Seq<bool>)
    ensures
        count_true(s) <= s.len(),
    decreases s.len(),
{
    if s.len() > 0 {
        lemma_count_true_bound(s.drop_last());
    }
}

proof fn lemma_count_true_set(s: Seq<bool>, i: int)
    requires
        0 <= i < s.len(),
        !s[i],
    ensures
        count_true(s.update(i, true)) == count_true(s) + 1,
    decreases s.len(),
{
    let t = s.update(i, true);
    if i == s.len() - 1 {
        assert(t.drop_last() =~= s.drop_last());
    } else {
        assert(t.drop_last() =~= s.drop_last().update(i, true));
        lemma_count_true_set(s.drop_last(), i);
    }
}

proof fn lemma_key_index(b: BorrowMap, k: Seq<char>)
    ensures
        match key_index(b, k) {
            Some(i) => i < b.len() && b[i as int].0 == k,
            None => forall|j: int| 0 <= j < b.len() ==> b[j].0 != k,
        },
    decreases b.len(),
{
    if b.len() > 0 && b.last().0 != k {
        lemma_key_index(b.drop_last(), k);
        assert forall|j: int| 0 <= j < b.len() - 1 implies b[j] == b.drop_last()[j] by {}
    }
}

/// The condition under which the closure computation adds entry `i`.
pub open spec fn step_cond(b: BorrowMap, src: Seq<char>, inr: Seq<bool>, i: int) -> bool {
    b[i].1.contains(src) || exists|j: int| 0 <= j < b.len() && inr[j] && #[trigger] b[i].1.contains(b[j].0)
}

/// No entry outside `inr` satisfies the step condition.
pub open spec fn closed(b: BorrowMap, src: Seq<char>, inr: Seq<bool>) -> bool {
    forall|i: int| 0 <= i < b.len() && #[trigger] step_cond(b, src, inr, i) ==> inr[i]
}

proof fn lemma_chain_reaches_marked(b: BorrowMap, src: Seq<char>, inr: Seq<bool>, p: Seq<Seq<char>>, m: int)
    requires
        inr.len() == b.len(),
        closed(b, src, inr),
        is_chain(b, p),
        p.len() >= 2,
        p[0] == src,
        1 <= m < p.len(),
    ensures
        exists|i: int| 0 <= i < b.len() && b[i].0 == p[m] && inr[i],
    decreases m,
{
    assert(borrows_from(b, p[(m - 1) + 1], p[m - 1]));
    let i = choose|i: int| 0 <= i < b.len() && b[i].0 == p[m] && #[trigger] b[i].1.contains(p[m - 1]);
    if m == 1 {
        assert(step_cond(b, src, inr, i));
    } else {
        lemma_chain_reaches_marked(b, src, inr, p, m - 1);
        let j = choose|j: int| 0 <= j < b.len() && b[j].0 == p[m - 1] && inr[j];
        assert(b[i].1.contains(b[j].0));
        assert(step_cond(b, src, inr, i));
    }
}

proof fn lemma_reaches_step(b: BorrowMap, src: Seq<char>, j: int, i: int)
    requires
        0 <= i < b.len(),
        0 <= j < b.len(),
        reaches(b, src, b[j].0),
        b[i].1.contains(b[j].0),
    ensures
        reaches(b, src, b[i].0),
{
    let p = choose|p: Seq<Seq<char>>| #[trigger] is_chain(b, p) && p.len() >= 2 && p[0] == src && p.last() == b[j].0;
    let q = p.push(b[i].0);
    assert forall|k: int| 0 <= k < q.len() - 1 implies #[trigger] borrows_from(b, q[k + 1], q[k]) by {
        if k < p.len() - 1 {
            assert(q[k + 1] == p[k + 1] && q[k] == p[k]);
            assert(borrows_from(b, p[k + 1], p[k]));
        } else {
            assert(q[k] == b[j].0);
            assert(b[i].1.contains(q[k]));
        }
    }
    assert(is_chain(b, q));
}

proof fn lemma_reaches_direct(b: BorrowMap, src: Seq<char>, i: int)
    requires
        0 <= i < b.len(),
        b[i].1.contains(src),
    ensures
        reaches(b, src, b[i].0),
{
    let q = seq![src, b[i].0];
    assert(borrows_from(b, q[0int + 1], q[0int]));
    assert(is_chain(b, q));
}

/// The state of one borrow-checking run.
pub struct BorrowCtx {
    borrowed: Vec<(String, Vec<String>)>,
    moved: Vec<String>,
    errors: Vec<BorrowError>,
}

impl View for BorrowCtx {
    type V = BState;

    closed spec fn view(&self) -> BState {
        BState { borrowed: bmap_view(self.borrowed@), moved: names_view(self.moved@), errors: errs_view(self.errors@) }
    }
}

impl BorrowCtx {
    /// The invariant: a variable has at most one entry in the borrow map.
    pub open spec fn wf(&self) -> bool {
        keys_distinct(self@.borrowed)
    }

    pub fn new() -> (c: Self)
        ensures
            c.wf(),
            c@ == (BState { borrowed: Seq::empty(), moved: Seq::empty(), errors: Seq::empty() }),
    {
        let c = BorrowCtx { borrowed: Vec::new(), moved: Vec::new(), errors: Vec::new() };
        assert(c@.borrowed =~= Seq::<(Seq<char>, Seq<Seq<char>>)>::empty());
        assert(c@.moved =~= Seq::<Seq<char>>::empty());
        assert(c@.errors =~= Seq::<BErr>::empty());
        c
    }

    /// Whether some variable has `name` among its borrowers.
    pub fn is_borrower(&self, name: &String) -> (r: bool)
        ensures
            r == is_borrower(self@.borrowed, name@),
    {
        let ghost b = self@.borrowed;
        let mut i: usize = 0;
        while i < self.borrowed.len()
            invariant
                i <= self.borrowed@.len(),
                b == self@.borrowed,
                forall|j: int| 0 <= j < i ==> !b[j].1.contains(name@),
            decreases self.borrowed@.len() - i,
        {
            if names_contain(&self.borrowed[i].1, name) {
                assert(b[i as int].1.contains(name@));
                return true;
            }
            i += 1;
        }
        false
    }

    pub fn error_at(&mut self, span: Option<Span>, message: String)
        ensures
            final(self)@ == push_error(old(self)@, span, message@),
    {
        let ghost m = message@;
        self.errors.push(BorrowError { message, span });
        assert(self@.errors =~= old(self)@.errors.push((m, span)));
        assert(self@.borrowed =~= old(self)@.borrowed);
        assert(self@.moved =~= old(self)@.moved);
    }

    fn key_pos(&self, k: &String) -> (r: Option<usize>)
        ensures
            match r {
                Some(i) => key_index(self@.borrowed, k@) == Some(i as nat) && i < self.borrowed@.len(),
                None => key_index(self@.borrowed, k@) is None,
            },
    {
        let ghost b = self@.borrowed;
        let mut i = self.borrowed.len();
        assert(b.take(i as int) =~= b);
        while i > 0
            invariant
                i <= self.borrowed@.len(),
                b == self@.borrowed,
                key_index(b, k@) == key_index(b.take(i as int), k@),
            decreases i,
        {
            if self.borrowed[i - 1].0 == *k {
                assert(b.take(i as int).last() == b[i - 1]);
                return Some(i - 1);
            }
            assert(b.take(i as int).drop_last() =~= b.take(i - 1));
            i -= 1;
        }
        None
    }

    /// Reports an error when `name` has borrowers.
    pub fn error_if_borrowed(&mut self, name: &String, context: &str, span: Span)
        ensures
            final(self)@ == error_if_borrowed(old(self)@, name@, context@, span),
    {
        match self.key_pos(name) {
            Some(i) => {
                let n = self.borrowed[i].1.len();
                if n > 0 {
                    let mut m = String::new();
                    push_str(&mut m, "cannot ");
                    push_str(&mut m, context);
                    push_str(&mut m, " `");
                    push_str(&mut m, name.as_str());
                    push_str(&mut m, "`: it is borrowed by `");
                    let ghost start = m@;
                    let ghost bs = names_view(self.borrowed@[i as int].1@);
                    let mut j: usize = 0;
                    while j < n
                        invariant
                            j <= n,
                            n == bs.len(),
                            i < self.borrowed@.len(),
                            bs == names_view(self.borrowed@[i as int].1@),
                            m@ == start + join_names(bs.take(j as int)),
                        decreases n - j,
                    {
                        if j > 0 {
                            push_str(&mut m, ", ");
                        }
                        push_str(&mut m, self.borrowed[i].1[j].as_str());
                        assert(bs.take(j + 1).drop_last() =~= bs.take(j as int));
                        assert(m@ =~= start + join_names(bs.take(j + 1))) by {
                            if j == 0 {
                                assert(bs.take(1).len() == 1);
                            }
                        }
                        j += 1;
                    }
                    assert(bs.take(n as int) =~= bs);
                    push_str(&mut m, "`");
                    assert(m@ =~= "cannot "@ + context@ + " `"@ + name@ + "`: it is borrowed by `"@
                        + join_names(bs) + "`"@);
                    self.error_at(Some(span), m);
                }
            },
            None => {},
        }
    }

    /// Marks `name` as moved out.
    pub fn mark_moved(&mut self, name: &String)
        ensures
            final(self)@ == mark_moved(old(self)@, name@),
    {
        if !names_contain(&self.moved, name) {
            self.moved.push(name.clone());
            assert(self@.moved =~= old(self)@.moved.push(name@));
        }
        assert(self@.borrowed =~= old(self)@.borrowed);
        assert(self@.errors =~= old(self)@.errors);
    }

    /// Assigning to a variable revives it.
    pub fn unmark_moved(&mut self, name: &String)
        ensures
            final(self)@ == unmark_moved(old(self)@, name@),
    {
        let ghost mv = names_view(self.moved@);
        let mut kept: Vec<String> = Vec::new();
        let mut i: usize = 0;
        while i < self.moved.len()
            invariant
                i <= self.moved@.len(),
                mv == names_view(self.moved@),
                names_view(kept@) == without(mv.take(i as int), name@),
            decreases self.moved@.len() - i,
        {
            assert(mv.take(i + 1).drop_last() =~= mv.take(i as int));
            if self.moved[i] != *name {
                kept.push(self.moved[i].clone());
            }
            assert(names_view(kept@) =~= without(mv.take(i + 1), name@));
            i += 1;
        }
        assert(mv.take(i as int) =~= mv);
        self.moved = kept;
        assert(self@.borrowed =~= old(self)@.borrowed);
        assert(self@.errors =~= old(self)@.errors);
    }

    /// Adds `x` to the borrowers of `k`.
    fn add_borrower(&mut self, k: &String, x: &String)
        requires
            old(self).wf(),
        ensures
            final(self).wf(),
            final(self)@ == (BState { borrowed: add_borrower(old(self)@.borrowed, k@, x@), ..old(self)@ }),
    {
        let ghost b = self@.borrowed;
        proof { lemma_key_index(b, k@); }
        match self.key_pos(k) {
            Some(i) => {
                let mut entry: (String, Vec<String>) = (String::new(), Vec::new());
                self.borrowed.set_and_swap(i, &mut entry);
                if !names_contain(&entry.1, x) {
                    entry.1.push(x.clone());
                    assert(names_view(entry.1@) =~= add_to_list(b[i as int].1, x@));
                }
                self.borrowed.set(i, entry);
                assert(self@.borrowed =~= add_borrower(b, k@, x@));
            },
            None => {
                let mut l: Vec<String> = Vec::new();
                l.push(x.clone());
                self.borrowed.push((k.clone(), l));
                assert(names_view(l@) =~= seq![x@]);
                assert(self@.borrowed =~= add_borrower(b, k@, x@));
            },
        }
        assert(self@.moved =~= old(self)@.moved);
        assert(self@.errors =~= old(self)@.errors);
    }

    /// Records that `name` borrows from `src`, and from everything `src`
    /// borrows from, directly or not, so that moving any of them is rejected
    /// while `name` is alive.
    pub fn record_borrow_of(&mut self, name: &String, src: &String)
        requires
            old(self).wf(),
        ensures
            final(self).wf(),
            final(self)@ == (BState { borrowed: record_borrow(old(self)@.borrowed, name@, src@), ..old(self)@ }),
    {
        self.add_borrower(src, name);
        let ghost b1 = self@.borrowed;
        let ghost mid = self@;
        let n = self.borrowed.len();
        let mut inr: Vec<bool> = Vec::new();
        let mut z: usize = 0;
        while z < n
            invariant
                z <= n,
                inr@.len() == z,
                forall|k: int| 0 <= k < z ==> !inr@[k],
            decreases n - z,
        {
            inr.push(false);
            z += 1;
        }
        proof {
            lemma_count_true_bound(inr@);
        }
        let mut changed = true;
        while changed
            invariant
                n == b1.len(),
                inr@.len() == n,
                b1 == self@.borrowed,
                mid == self@,
                keys_distinct(b1),
                count_true(inr@) <= n,
                forall|k: int| 0 <= k < n && #[trigger] inr@[k] ==> reaches(b1, src@, b1[k].0),
                !changed ==> closed(b1, src@, inr@),
            decreases n - count_true(inr@) + if changed { 1int } else { 0int },
        {
            changed = false;
            let ghost start = inr@;
            let ghost c0 = count_true(inr@);
            let mut i: usize = 0;
            while i < n
                invariant
                    n == b1.len(),
                    inr@.len() == n,
                    b1 == self@.borrowed,
                    mid == self@,
                    i <= n,
                    count_true(inr@) <= n,
                    forall|k: int| 0 <= k < n && #[trigger] inr@[k] ==> reaches(b1, src@, b1[k].0),
                    !changed ==> inr@ == start,
                    changed ==> count_true(inr@) > c0,
                    c0 == count_true(start),
                    !changed ==> forall|k: int| 0 <= k < i && #[trigger] step_cond(b1, src@, inr@, k) ==> inr@[k],
                decreases n - i,
            {
                if !inr[i] {
                    let mut hit = names_contain(&self.borrowed[i].1, src);
                    if hit {
                        proof { lemma_reaches_direct(b1, src@, i as int); }
                    }
                    let mut j: usize = 0;
                    while j < n && !hit
                        invariant
                            n == b1.len(),
                            inr@.len() == n,
                            b1 == self@.borrowed,
                            i < n,
                            j <= n,
                            hit ==> reaches(b1, src@, b1[i as int].0),
                            forall|k: int| 0 <= k < n && #[trigger] inr@[k] ==> reaches(b1, src@, b1[k].0),
                            !hit ==> !b1[i as int].1.contains(src@),
                            !hit ==> forall|k: int| 0 <= k < j && inr@[k] ==> !b1[i as int].1.contains(b1[k].0),
                        decreases n - j,
                    {
                        if inr[j] && names_contain(&self.borrowed[i].1, &self.borrowed[j].0) {
                            proof { lemma_reaches_step(b1, src@, j as int, i as int); }
                            hit = true;
                        }
                        j += 1;
                    }
                    if hit {
                        proof { lemma_count_true_set(inr@, i as int); }
                        inr.set(i, true);
                        changed = true;
                        proof { lemma_count_true_bound(inr@); }
                    } else {
                        assert(!step_cond(b1, src@, inr@, i as int));
                    }
                }
                i += 1;
            }
        }
        proof {
            assert forall|k: int| 0 <= k < n implies inr@[k] == reaches(b1, src@, b1[k].0) by {
                if reaches(b1, src@, b1[k].0) {
                    let p = choose|p: Seq<Seq<char>>| #[trigger] is_chain(b1, p) && p.len() >= 2 && p[0] == src@
                        && p.last() == b1[k].0;
                    lemma_chain_reaches_marked(b1, src@, inr@, p, p.len() - 1);
                    let i2 = choose|i2: int| 0 <= i2 < b1.len() && b1[i2].0 == p[p.len() - 1] && inr@[i2];
                    if i2 != k {
                        assert(b1[i2].0 == b1[k].0);
                    }
                }
            }
        }
        let ghost target = record_borrow(old(self)@.borrowed, name@, src@);
        let mut i: usize = 0;
        while i < n
            invariant
                n == b1.len(),
                inr@.len() == n,
                i <= n,
                self.borrowed@.len() == n,
                keys_distinct(b1),
                target.len() == n,
                forall|k: int| 0 <= k < n ==> inr@[k] == reaches(b1, src@, b1[k].0),
                forall|k: int| 0 <= k < i ==> #[trigger] self@.borrowed[k] == target[k],
                forall|k: int| i <= k < n ==> #[trigger] self@.borrowed[k] == b1[k],
                self@.moved == mid.moved,
                self@.errors == mid.errors,
                target == Seq::new(b1.len(), |q: int| (b1[q].0, if reaches(b1, src@, b1[q].0) {
                    add_to_list(b1[q].1, name@)
                } else {
                    b1[q].1
                })),
            decreases n - i,
        {
            if inr[i] {
                let mut entry: (String, Vec<String>) = (String::new(), Vec::new());
                let ghost before = self@;
                assert(self@.borrowed[i as int] == b1[i as int]);
                self.borrowed.set_and_swap(i, &mut entry);
                assert(entry.0@ == b1[i as int].0 && names_view(entry.1@) == b1[i as int].1);
                if !names_contain(&entry.1, name) {
                    entry.1.push(name.clone());
                    assert(names_view(entry.1@) =~= b1[i as int].1.push(name@));
                }
                self.borrowed.set(i, entry);
                assert(self@.borrowed[i as int] == target[i as int]);
                assert forall|k: int| 0 <= k < n && k != i implies #[trigger] self@.borrowed[k] == before.borrowed[k] by {}
            } else {
                assert(self@.borrowed[i as int] == target[i as int]);
            }
            i += 1;
        }
        assert(self@.borrowed =~= target);
        assert(forall|k: int| 0 <= k < n ==> #[trigger] target[k].0 == b1[k].0);
    }
}

pub open spec fn hfields_seq(fs: Seq<(String, HirExpr)>) -> Seq<(Seq<char>, HExpr)> {
    Seq::new(fs.len(), |i: int| (fs[i].0@, fs[i].1@))
}

impl BorrowCtx {
    /// Moves the value of `e` out when it is a variable of an owned type.
    fn move_out(&mut self, e: &HirExpr, context: &str)
        ensures
            final(self)@ == move_out(old(self)@, e@, context@),
            final(self).wf() == old(self).wf(),
    {
        if let HirExpr::Ident { name, ty, span } = e {
            if !ty.is_copy() {
                self.error_if_borrowed(name, context, *span);
                self.mark_moved(name);
            }
        }
    }

    /// Checks an expression.
    pub fn check_expr(&mut self, e: &HirExpr)
        requires
            old(self).wf(),
        ensures
            final(self).wf(),
            final(self)@ == bc_expr(old(self)@, e@),
        decreases e, 1nat, 0nat,
    {
        match e {
            HirExpr::Int(..) | HirExpr::Float(..) | HirExpr::String(..) | HirExpr::Bool(..) | HirExpr::SizeOf(..) => {},
            HirExpr::Ident { name, ty, span } => {
                if !ty.is_copy() && names_contain(&self.moved, name) {
                    let mut m = String::new();
                    push_str(&mut m, "use after move: `");
                    push_str(&mut m, name.as_str());
                    push_str(&mut m, "`");
                    assert(m@ =~= "use after move: `"@ + name@ + "`"@);
                    self.error_at(Some(*span), m);
                }
            },
            HirExpr::Print(x, _) => self.check_expr(x),
            HirExpr::AddressOf(x, _) => self.check_expr(x),
            HirExpr::Dereference(x, _) => self.check_expr(x),
            HirExpr::Cast { expr, .. } => self.check_expr(expr),
            HirExpr::Unary(_, x, _) => self.check_expr(x),
            HirExpr::FieldLoad { object, .. } => self.check_expr(object),
            HirExpr::AllocStruct(_, fs, _) => {
                assert(decreases_to!(*e => fs@)) by {
                    assert(decreases_to!(*e => *fs));
                }
                self.check_moving_fields(fs);
                assert(e@ matches HExpr::AllocStruct(_, v, _) && v =~= hfields_seq(fs@));
            },
            HirExpr::ArrayLiteral(_, es, _) => {
                assert(decreases_to!(*e => es@)) by {
                    assert(decreases_to!(*e => *es));
                }
                self.check_moving_list(es, "move into array");
                assert(e@ matches HExpr::ArrayLiteral(_, v, _) && v =~= hexprs_view(es@));
            },
            HirExpr::Call(_, args, _) => {
                assert(decreases_to!(*e => args@)) by {
                    assert(decreases_to!(*e => *args));
                }
                self.check_moving_list(args, "move into function call");
                assert(e@ matches HExpr::Call(_, v, _) && v =~= hexprs_view(args@));
            },
            HirExpr::ArrayIndex { object, index, .. } => {
                self.check_expr(object);
                self.check_expr(index);
            },
            HirExpr::Binary { lhs, rhs, .. } => {
                self.check_expr(lhs);
                self.check_expr(rhs);
            },
            HirExpr::Assign { lhs, rhs, .. } => {
                self.check_expr_lhs(lhs);
                self.check_expr(rhs);
                if let HirExpr::Ident { name: ln, .. } = &**lhs {
                    self.unmark_moved(ln);
                    if let HirExpr::Ident { name: src, .. } = &**rhs {
                        if *ln != *src {
                            self.move_out(rhs, "move in assignment");
                        }
                    }
                }
            },
        }
    }

    /// Checks struct literal fields, each moved when it is a variable.
    fn check_moving_fields(&mut self, fs: &Vec<(String, HirExpr)>)
        requires
            old(self).wf(),
        ensures
            final(self).wf(),
            final(self)@ == bc_moving_fields(old(self)@, hfields_seq(fs@)),
        decreases fs@, 0nat, 0nat,
    {
        let ghost fv = hfields_seq(fs@);
        let ghost st0 = self@;
        let mut i: usize = 0;
        assert(fv.take(0) =~= Seq::<(Seq<char>, HExpr)>::empty());
        while i < fs.len()
            invariant
                i <= fs@.len(),
                fv == hfields_seq(fs@),
                self.wf(),
                self@ == bc_moving_fields(st0, fv.take(i as int)),
            decreases fs@.len() - i,
        {
            assert(decreases_to!(fs@ => fs@[i as int].1)) by {
                assert(decreases_to!(fs@ => fs@[i as int]));
            }
            assert(fv.take(i + 1).drop_last() =~= fv.take(i as int));
            self.check_expr(&fs[i].1);
            self.move_out(&fs[i].1, "move into struct field");
            i += 1;
        }
        assert(fv.take(i as int) =~= fv);
    }

    /// Checks list elements, each moved when it is a variable.
    fn check_moving_list(&mut self, es: &Vec<HirExpr>, context: &str)
        requires
            old(self).wf(),
        ensures
            final(self).wf(),
            final(self)@ == bc_moving_list(old(self)@, hexprs_view(es@), context@),
        decreases es@, 0nat, 0nat,
    {
        let ghost ev = hexprs_view(es@);
        let ghost st0 = self@;
        let mut i: usize = 0;
        assert(ev.take(0) =~= Seq::<HExpr>::empty());
        while i < es.len()
            invariant
                i <= es@.len(),
                ev == hexprs_view(es@),
                self.wf(),
                self@ == bc_moving_list(st0, ev.take(i as int), context@),
            decreases es@.len() - i,
        {
            assert(decreases_to!(es@ => es@[i as int]));
            assert(ev.take(i + 1).drop_last() =~= ev.take(i as int));
            self.check_expr(&es[i]);
            self.move_out(&es[i], context);
            i += 1;
        }
        assert(ev.take(i as int) =~= ev);
    }

    /// Checks the target of an assignment.
    fn check_expr_lhs(&mut self, e: &HirExpr)
        requires
            old(self).wf(),
        ensures
            final(self).wf(),
            final(self)@ == bc_lhs(old(self)@, e@),
        decreases e, 2nat, 0nat,
    {
        match e {
            HirExpr::Ident { name, span, .. } => {
                self.error_if_borrowed(name, "assign to borrowed variable", *span);
            },
            HirExpr::FieldLoad { object, .. } => self.check_expr_lhs(object),
            HirExpr::ArrayIndex { object, index, .. } => {
                self.check_expr_lhs(object);
                self.check_expr(index);
            },
            _ => self.check_expr(e),
        }
    }
}

/// The owned variables at the end of a place expression (`s` in `s.f[i]`), appended to `out`.
fn collect_idents_from_path(e: &HirExpr, out: &mut Vec<String>)
    ensures
        names_view(final(out)@) == names_view(old(out)@) + path_idents(e@),
    decreases e,
{
    match e {
        HirExpr::Ident { name, ty, .. } => {
            if !ty.is_copy() {
                out.push(name.clone());
                assert(names_view(final(out)@) =~= names_view(old(out)@) + path_idents(e@));
            } else {
                assert(names_view(out@) =~= names_view(out@) + Seq::<Seq<char>>::empty());
            }
        },
        HirExpr::FieldLoad { object, .. } => collect_idents_from_path(object, out),
        HirExpr::ArrayIndex { object, .. } => collect_idents_from_path(object, out),
        _ => {
            assert(names_view(out@) =~= names_view(out@) + Seq::<Seq<char>>::empty());
        },
    }
}

/// The variables borrowed by a chain `&x`, `&&x`, ...; empty when `e` is no borrow.
fn borrow_chain_sources(e: &HirExpr) -> (r: Vec<String>)
    ensures
        names_view(r@) == chain_sources(e@),
    decreases e,
{
    match e {
        HirExpr::AddressOf(x, _) => match &**x {
            HirExpr::AddressOf(..) => borrow_chain_sources(x),
            _ => {
                let mut out: Vec<String> = Vec::new();
                collect_idents_from_path(x, &mut out);
                assert(names_view(out@) =~= Seq::<Seq<char>>::empty() + path_idents(x@));
                out
            },
        },
        _ => {
            let out: Vec<String> = Vec::new();
            assert(names_view(out@) =~= Seq::<Seq<char>>::empty());
            out
        },
    }
}

/// Appends the variables borrowed by every borrow inside `e`.
fn collect_borrow_sources_inner(e: &HirExpr, out: &mut Vec<String>)
    ensures
        names_view(final(out)@) == names_view(old(out)@) + borrow_sources(e@),
    decreases e, 1nat, 0nat,
{
    match e {
        HirExpr::AddressOf(..) => {
            let mut c = borrow_chain_sources(e);
            let ghost cv = c@;
            out.append(&mut c);
            assert(names_view(final(out)@) =~= names_view(old(out)@) + names_view(cv));
        },
        HirExpr::AllocStruct(_, fs, _) => {
            assert(decreases_to!(*e => fs@)) by {
                assert(decreases_to!(*e => *fs));
            }
            collect_field_sources(fs, out);
            assert(e@ matches HExpr::AllocStruct(_, v, _) && v =~= hfields_seq(fs@));
        },
        HirExpr::ArrayLiteral(_, es, _) => {
            assert(decreases_to!(*e => es@)) by {
                assert(decreases_to!(*e => *es));
            }
            collect_list_sources(es, out);
            assert(e@ matches HExpr::ArrayLiteral(_, v, _) && v =~= hexprs_view(es@));
        },
        HirExpr::Call(_, args, _) => {
            assert(decreases_to!(*e => args@)) by {
                assert(decreases_to!(*e => *args));
            }
            collect_list_sources(args, out);
            assert(e@ matches HExpr::Call(_, v, _) && v =~= hexprs_view(args@));
        },
        HirExpr::FieldLoad { object, .. } => collect_borrow_sources_inner(object, out),
        HirExpr::ArrayIndex { object, index, .. } => {
            collect_borrow_sources_inner(object, out);
            collect_borrow_sources_inner(index, out);
            assert(names_view(final(out)@) =~= names_view(old(out)@) + borrow_sources(e@));
        },
        HirExpr::Unary(_, x, _) => collect_borrow_sources_inner(x, out),
        HirExpr::Binary { lhs, rhs, .. } => {
            collect_borrow_sources_inner(lhs, out);
            collect_borrow_sources_inner(rhs, out);
            assert(names_view(final(out)@) =~= names_view(old(out)@) + borrow_sources(e@));
        },
        HirExpr::Assign { lhs, rhs, .. } => {
            collect_borrow_sources_inner(lhs, out);
            collect_borrow_sources_inner(rhs, out);
            assert(names_view(final(out)@) =~= names_view(old(out)@) + borrow_sources(e@));
        },
        HirExpr::Print(x, _) => collect_borrow_sources_inner(x, out),
        HirExpr::Dereference(x, _) => collect_borrow_sources_inner(x, out),
        HirExpr::Cast { expr, .. } => collect_borrow_sources_inner(expr, out),
        _ => {
            assert(names_view(out@) =~= names_view(out@) + Seq::<Seq<char>>::empty());
        },
    }
}

fn collect_list_sources(es: &Vec<HirExpr>, out: &mut Vec<String>)
    ensures
        names_view(final(out)@) == names_view(old(out)@) + list_borrow_sources(hexprs_view(es@)),
    decreases es@, 0nat, 0nat,
{
    let ghost ev = hexprs_view(es@);
    let mut i: usize = 0;
    assert(ev.take(0) =~= Seq::<HExpr>::empty());
    assert(names_view(out@) =~= names_view(old(out)@) + list_borrow_sources(ev.take(0)));
    while i < es.len()
        invariant
            i <= es@.len(),
            ev == hexprs_view(es@),
            names_view(out@) == names_view(old(out)@) + list_borrow_sources(ev.take(i as int)),
        decreases es@.len() - i,
    {
        assert(decreases_to!(es@ => es@[i as int]));
        assert(ev.take(i + 1).drop_last() =~= ev.take(i as int));
        collect_borrow_sources_inner(&es[i], out);
        assert(names_view(out@) =~= names_view(old(out)@) + list_borrow_sources(ev.take(i + 1)));
        i += 1;
    }
    assert(ev.take(i as int) =~= ev);
}

fn collect_field_sources(fs: &Vec<(String, HirExpr)>, out: &mut Vec<String>)
    ensures
        names_view(final(out)@) == names_view(old(out)@) + field_borrow_sources(hfields_seq(fs@)),
    decreases fs@, 0nat, 0nat,
{
    let ghost fv = hfields_seq(fs@);
    let mut i: usize = 0;
    assert(fv.take(0) =~= Seq::<(Seq<char>, HExpr)>::empty());
    assert(names_view(out@) =~= names_view(old(out)@) + field_borrow_sources(fv.take(0)));
    while i < fs.len()
        invariant
            i <= fs@.len(),
            fv == hfields_seq(fs@),
            names_view(out@) == names_view(old(out)@) + field_borrow_sources(fv.take(i as int)),
        decreases fs@.len() - i,
    {
        assert(decreases_to!(fs@ => fs@[i as int].1)) by {
            assert(decreases_to!(fs@ => fs@[i as int]));
        }
        assert(fv.take(i + 1).drop_last() =~= fv.take(i as int));
        collect_borrow_sources_inner(&fs[i].1, out);
        assert(names_view(out@) =~= names_view(old(out)@) + field_borrow_sources(fv.take(i + 1)));
        i += 1;
    }
    assert(fv.take(i as int) =~= fv);
}

/// The variables borrowed by every borrow inside an expression, in order.
pub fn collect_borrow_sources(e: &HirExpr) -> (r: Vec<String>)
    ensures
        names_view(r@) == borrow_sources(e@),
{
    let mut out: Vec<String> = Vec::new();
    collect_borrow_sources_inner(e, &mut out);
    assert(names_view(out@) =~= borrow_sources(e@));
    out
}

impl BorrowCtx {
    /// Checks `let name = init;`.
    fn check_let(&mut self, name: &String, init: &HirExpr, span: Span)
        requires
            old(self).wf(),
        ensures
            final(self).wf(),
            final(self)@ == ({
                let s1 = bc_expr(old(self)@, init@);
                let s2 = BState { borrowed: record_all(s1.borrowed, name@, borrow_sources(init@)), ..s1 };
                match init@ {
                    HExpr::Ident(src, ty, _) => if !ty.is_copy() && src != name@ {
                        mark_moved(error_if_borrowed(s2, src, "move"@, span), src)
                    } else {
                        s2
                    },
                    _ => s2,
                }
            }),
    {
        self.check_expr(init);
        let srcs = collect_borrow_sources(init);
        let ghost s1 = self@;
        let ghost sv = names_view(srcs@);
        let mut i: usize = 0;
        assert(sv.take(0) =~= Seq::<Seq<char>>::empty());
        while i < srcs.len()
            invariant
                i <= srcs@.len(),
                sv == names_view(srcs@),
                self.wf(),
                self@ == (BState { borrowed: record_all(s1.borrowed, name@, sv.take(i as int)), ..s1 }),
            decreases srcs@.len() - i,
        {
            assert(sv.take(i + 1).drop_last() =~= sv.take(i as int));
            self.record_borrow_of(name, &srcs[i]);
            i += 1;
        }
        assert(sv.take(i as int) =~= sv);
        if let HirExpr::Ident { name: src, ty, .. } = init {
            if !ty.is_copy() && *src != *name {
                self.error_if_borrowed(src, "move", span);
                self.mark_moved(src);
            }
        }
    }

    /// Checks one statement.
    pub fn check_stmt(&mut self, s: &HirStmt)
        requires
            old(self).wf(),
        ensures
            final(self).wf(),
            final(self)@ == bc_stmt(old(self)@, s@),
        decreases s, 1nat, 0nat,
    {
        match s {
            HirStmt::Let { name, init, span, .. } => {
                self.check_let(name, init, *span);
                assert(self@ == bc_stmt(old(self)@, s@));
            },
            HirStmt::Expr(e, _) => self.check_expr(e),
            HirStmt::Fn { body, .. } => {
                assert(decreases_to!(*s => body@)) by {
                    assert(decreases_to!(*s => *body));
                }
                let ghost st0 = self@;
                assert(s@ matches HStmt::Fn(_, _, _, b, _, _) && b =~= hstmts_view(body@));
                let mut saved_b: Vec<(String, Vec<String>)> = Vec::new();
                std::mem::swap(&mut saved_b, &mut self.borrowed);
                let mut saved_m: Vec<String> = Vec::new();
                std::mem::swap(&mut saved_m, &mut self.moved);
                assert(self@.borrowed =~= Seq::<(Seq<char>, Seq<Seq<char>>)>::empty());
                assert(self@.moved =~= Seq::<Seq<char>>::empty());
                self.check_stmts(body);
                let ghost inner = self@;
                self.borrowed = saved_b;
                self.moved = saved_m;
                assert(self@.borrowed =~= st0.borrowed);
                assert(self@.moved =~= st0.moved);
                assert(self@.errors =~= inner.errors);
                assert(self@ == bc_stmt(old(self)@, s@));
            },
            HirStmt::If { cond, then, else_, .. } => {
                assert(decreases_to!(*s => then@)) by {
                    assert(decreases_to!(*s => *then));
                }
                self.check_expr(cond);
                self.check_stmts(then);
                assert(s@ matches HStmt::If(_, t, _, _) && t =~= hstmts_view(then@));
                if let Some(es) = else_ {
                    assert(s@ matches HStmt::If(_, _, Some(e2), _) && e2 =~= hstmts_view(es@));
                    assert(decreases_to!(*s => es@)) by {
                        assert(decreases_to!(*s => *else_));
                        assert(decreases_to!(*else_ => *es));
                    }
                    self.check_stmts(es);
                }
                assert(self@ == bc_stmt(old(self)@, s@));
            },
            HirStmt::While { cond, body, .. } => {
                assert(decreases_to!(*s => body@)) by {
                    assert(decreases_to!(*s => *body));
                }
                self.check_expr(cond);
                self.check_stmts(body);
                assert(s@ matches HStmt::While(_, b, _) && b =~= hstmts_view(body@));
                assert(self@ == bc_stmt(old(self)@, s@));
            },
            HirStmt::For { lo, hi, body, .. } => {
                assert(decreases_to!(*s => body@)) by {
                    assert(decreases_to!(*s => *body));
                }
                self.check_expr(lo);
                self.check_expr(hi);
                self.check_stmts(body);
                assert(s@ matches HStmt::For(_, _, _, _, b, _) && b =~= hstmts_view(body@));
                assert(self@ == bc_stmt(old(self)@, s@));
            },
            HirStmt::Return(Some(e), span) => {
                self.check_expr(e);
                if let HirExpr::Ident { name, ty, .. } = e {
                    if !ty.is_copy() && self.is_borrower(name) {
                        let mut m = String::new();
                        push_str(&mut m, "cannot return local borrow `");
                        push_str(&mut m, name.as_str());
                        push_str(&mut m, "`");
                        assert(m@ =~= "cannot return local borrow `"@ + name@ + "`"@);
                        self.error_at(Some(*span), m);
                    }
                }
                assert(self@ == bc_stmt(old(self)@, s@));
            },
            _ => {
                assert(self@ == bc_stmt(old(self)@, s@));
            },
        }
    }

    /// Checks statements in order.
    pub fn check_stmts(&mut self, ss: &Vec<HirStmt>)
        requires
            old(self).wf(),
        ensures
            final(self).wf(),
            final(self)@ == bc_stmts(old(self)@, hstmts_view(ss@)),
        decreases ss@, 0nat, 0nat,
    {
        let ghost sv = hstmts_view(ss@);
        let ghost st0 = self@;
        let mut i: usize = 0;
        assert(sv.take(0) =~= Seq::<HStmt>::empty());
        while i < ss.len()
            invariant
                i <= ss@.len(),
                sv == hstmts_view(ss@),
                self.wf(),
                self@ == bc_stmts(st0, sv.take(i as int)),
            decreases ss@.len() - i,
        {
            assert(decreases_to!(ss@ => ss@[i as int]));
            assert(sv.take(i + 1).drop_last() =~= sv.take(i as int));
            self.check_stmt(&ss[i]);
            i += 1;
        }
        assert(sv.take(i as int) =~= sv);
    }

    /// The reports of all errors found, one per line.
    fn report(&self) -> (s: String)
        ensures
            s@ == berrs_text(self@.errors),
    {
        let ghost ev = self@.errors;
        let mut out = String::new();
        let mut i: usize = 0;
        while i < self.errors.len()
            invariant
                i <= self.errors@.len(),
                ev == self@.errors,
                out@ == berrs_text(ev.take(i as int)),
            decreases self.errors@.len() - i,
        {
            if i > 0 {
                push_str(&mut out, "\n");
            }
            let t = self.errors[i].text();
            push_str(&mut out, t.as_str());
            assert(ev.take(i + 1).drop_last() =~= ev.take(i as int));
            assert(out@ =~= berrs_text(ev.take(i + 1))) by {
                if i == 0 {
                    assert(ev.take(1).len() == 1);
                }
            }
            i += 1;
        }
        assert(ev.take(i as int) =~= ev);
        out
    }
}

/// Runs the borrow checker over a lowered program.
pub struct BorrowChecker;

impl BorrowChecker {
    pub fn new() -> (b: Self) {
        BorrowChecker
    }

    /// Checks a program: `Ok` when no error is found, otherwise the report
    /// `borrow check failed:` followed by every error, one per line.
    pub fn check(&mut self, stmts: &Vec<HirStmt>) -> (r: Result<(), String>)
        ensures
            match borrow_verdict(hstmts_view(stmts@)) {
                Ok(_) => r is Ok,
                Err(m) => r matches Err(s) && s@ == m,
            },
    {
        let mut ctx = BorrowCtx::new();
        ctx.check_stmts(stmts);
        if ctx.errors.len() == 0 {
            Ok(())
        } else {
            let mut out = String::new();
            push_str(&mut out, "borrow check failed:\n");
            let rep = ctx.report();
            push_str(&mut out, rep.as_str());
            Err(out)
        }
    }
}

} // verus!
