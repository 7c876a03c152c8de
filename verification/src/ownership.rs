//! Bookkeeping of the heap values that named variables own, scope by scope,
//! and of the order in which generated code releases them.

use vstd::prelude::*;
use crate::hir::{HExpr, HirExpr};
use crate::lexer::token::Span;
use crate::ty::{Type, TypeV};

verus! {

/// A heap value owned by a named variable.
#[derive(Debug)]
pub enum Owner {
    /// A struct value: the variable and the struct's name.
    Struct(String, String),
    /// An array: the variable, its element type and its element count.
    Array(String, Type, usize),
    /// A reference-counted string held by the variable.
    String(String),
}

/// The mathematical value of an owner.
pub enum OwnerV {
    Struct(Seq<char>, Seq<char>),
    Array(Seq<char>, TypeV, nat),
    String(Seq<char>),
}

impl OwnerV {
    /// The variable that owns the value.
    pub open spec fn name(self) -> Seq<char> {
        match self {
            OwnerV::Struct(n, _) => n,
            OwnerV::Array(n, _, _) => n,
            OwnerV::String(n) => n,
        }
    }
}

impl View for Owner {
    type V = OwnerV;

    open spec fn view(&self) -> OwnerV {
        match *self {
            Owner::Struct(n, s) => OwnerV::Struct(n@, s@),
            Owner::Array(n, t, c) => OwnerV::Array(n@, t@, c as nat),
            Owner::String(n) => OwnerV::String(n@),
        }
    }
}

impl Owner {
    /// The variable that owns the value.
    pub fn name(&self) -> (r: &String)
        ensures
            r@ == self@.name(),
    {
        match self {
            Owner::Struct(n, _) => n,
            Owner::Array(n, _, _) => n,
            Owner::String(n) => n,
        }
    }

    /// The same owner under the variable `n`.
    pub fn renamed(&self, n: &str) -> (r: Owner)
        ensures
            r@ == renamed(self@, n@),
    {
        match self {
            Owner::Struct(_, s) => Owner::Struct(String::from_str(n), s.clone()),
            Owner::Array(_, t, c) => Owner::Array(String::from_str(n), t.deep_copy(), *c),
            Owner::String(_) => Owner::String(String::from_str(n)),
        }
    }

    /// A fresh copy of the owner.
    pub fn deep_copy(&self) -> (r: Owner)
        ensures
            r@ == self@,
    {
        match self {
            Owner::Struct(n, s) => Owner::Struct(n.clone(), s.clone()),
            Owner::Array(n, t, c) => Owner::Array(n.clone(), t.deep_copy(), *c),
            Owner::String(n) => Owner::String(n.clone()),
        }
    }
}

/// Which owners of a variable an update forgets.
#[derive(Clone, Copy, PartialEq, Eq, Structural)]
pub enum Forget {
    /// Every owner of the variable.
    All,
    /// Only the struct owners of the variable.
    Structs,
    /// The struct and array owners of the variable; its strings stay.
    NonStrings,
}

/// Whether `o` is among the owners of `n` that `k` forgets.
pub open spec fn forgotten(o: OwnerV, n: Seq<char>, k: Forget) -> bool {
    o.name() == n && match k {
        Forget::All => true,
        Forget::Structs => o is Struct,
        Forget::NonStrings => !(o is String),
    }
}

/// The owners of one scope that `k` keeps for the variable `n`, in order.
pub open spec fn retained(s: Seq<OwnerV>, n: Seq<char>, k: Forget) -> Seq<OwnerV>
    decreases s.len(),
{
    if s.len() == 0 {
        s
    } else {
        let r = retained(s.drop_last(), n, k);
        if forgotten(s.last(), n, k) {
            r
        } else {
            r.push(s.last())
        }
    }
}

/// Every scope after `k` forgets the owners of `n`.
pub open spec fn retain_each(s: Seq<Seq<OwnerV>>, n: Seq<char>, k: Forget) -> Seq<Seq<OwnerV>> {
    Seq::new(s.len(), |i: int| retained(s[i], n, k))
}

/// The owners of `n` in one scope, in order.
pub open spec fn named(s: Seq<OwnerV>, n: Seq<char>) -> Seq<OwnerV>
    decreases s.len(),
{
    if s.len() == 0 {
        s
    } else if s.last().name() == n {
        named(s.drop_last(), n).push(s.last())
    } else {
        named(s.drop_last(), n)
    }
}

/// The owners of `n` in all scopes, outermost scope first.
pub open spec fn named_in(s: Seq<Seq<OwnerV>>, n: Seq<char>) -> Seq<OwnerV>
    decreases s.len(),
{
    if s.len() == 0 {
        Seq::empty()
    } else {
        named_in(s.drop_last(), n) + named(s.last(), n)
    }
}

/// All owners in the order they were tracked: outermost scope first, each
/// scope in order.
pub open spec fn tracking_order(s: Seq<Seq<OwnerV>>) -> Seq<OwnerV>
    decreases s.len(),
{
    if s.len() == 0 {
        Seq::empty()
    } else {
        s.first() + tracking_order(s.drop_first())
    }
}

/// The order in which owners are released: innermost scope first, each scope
/// from its latest owner back.
pub open spec fn release_order(s: Seq<Seq<OwnerV>>) -> Seq<OwnerV>
    decreases s.len(),
{
    if s.len() == 0 {
        Seq::empty()
    } else {
        release_order(s.drop_first()) + s.first().reverse()
    }
}

/// Whether some scope holds an owner for `n`.
pub open spec fn owns(s: Seq<Seq<OwnerV>>, n: Seq<char>) -> bool {
    exists|i: int, j: int| 0 <= i < s.len() && 0 <= j < s[i].len() && (#[trigger] s[i][j]).name() == n
}

/// Whether some scope holds a struct owner for `n`.
pub open spec fn owns_struct(s: Seq<Seq<OwnerV>>, n: Seq<char>) -> bool {
    exists|i: int, j: int|
        0 <= i < s.len() && 0 <= j < s[i].len() && (#[trigger] s[i][j]) is Struct && s[i][j].name() == n
}

/// The scopes after `o` is added to the innermost one.
pub open spec fn with_owner(s: Seq<Seq<OwnerV>>, o: OwnerV) -> Seq<Seq<OwnerV>> {
    s.update(s.len() - 1, s.last().push(o))
}

/// The scopes after ownership of a struct value moves from `src` to `dst`.
pub open spec fn transferred(s: Seq<Seq<OwnerV>>, src: Seq<char>, dst: Seq<char>, sname: Seq<char>) -> Seq<Seq<OwnerV>> {
    retain_each(with_owner(s, OwnerV::Struct(dst, sname)), src, Forget::Structs)
}

/// The scopes after the owners in scopes `depth..` are released.
pub open spec fn released_since(s: Seq<Seq<OwnerV>>, depth: int) -> Seq<Seq<OwnerV>> {
    Seq::new(s.len(), |i: int| if i < depth { s[i] } else { Seq::empty() })
}


/// `o` with its owner renamed to `n`.
pub open spec fn renamed(o: OwnerV, n: Seq<char>) -> OwnerV {
    match o {
        OwnerV::Struct(_, s) => OwnerV::Struct(n, s),
        OwnerV::Array(_, t, c) => OwnerV::Array(n, t, c),
        OwnerV::String(_) => OwnerV::String(n),
    }
}

/// The scopes after `n` takes over, in order, a copy of each owner in `os`.
pub open spec fn adopt(s: Seq<Seq<OwnerV>>, n: Seq<char>, os: Seq<OwnerV>) -> Seq<Seq<OwnerV>>
    decreases os.len(),
{
    if os.len() == 0 {
        s
    } else {
        with_owner(adopt(s, n, os.drop_last()), renamed(os.last(), n))
    }
}

/// Whether `rhs` is the variable `n` itself.
pub open spec fn is_self_assign(n: Seq<char>, rhs: HExpr) -> bool {
    rhs matches HExpr::Ident(m, _, _) && m == n
}

/// The owner a variable `n` of type `t` takes when a fresh value is stored in it.
pub open spec fn fresh_owner(n: Seq<char>, t: TypeV) -> Option<OwnerV> {
    match t {
        TypeV::Struct(sn) => Some(OwnerV::Struct(n, sn)),
        TypeV::Array(e, c) => Some(OwnerV::Array(n, *e, c)),
        TypeV::String => Some(OwnerV::String(n)),
        _ => None,
    }
}

/// The owners that an assignment to `n` releases: all of `n`'s, unless the
/// value assigned is `n` itself.
pub open spec fn released_on_assign(s: Seq<Seq<OwnerV>>, n: Seq<char>, rhs: HExpr) -> Seq<OwnerV> {
    if is_self_assign(n, rhs) { Seq::empty() } else { named_in(s, n) }
}

/// The owners of the source variable that `n` takes over in `n = src`, when
/// `src` owns anything.
pub open spec fn adopted_on_assign(s: Seq<Seq<OwnerV>>, n: Seq<char>, rhs: HExpr) -> Seq<OwnerV> {
    let s1 = retain_each(s, n, Forget::All);
    match rhs {
        HExpr::Ident(src, _, _) => if !is_self_assign(n, rhs) && owns(s1, src) { named_in(s1, src) } else { Seq::empty() },
        _ => Seq::empty(),
    }
}

/// The scopes after `n = rhs`, where `var_ty` is the declared type of `n` if
/// known. The old owners of `n` are released; `n` then takes over what the
/// variable `rhs` owns, whose struct and array owners move while its strings
/// are shared, or else owns the fresh value by its type.
pub open spec fn spec_assign(s: Seq<Seq<OwnerV>>, n: Seq<char>, rhs: HExpr, var_ty: Option<TypeV>) -> Seq<Seq<OwnerV>> {
    if is_self_assign(n, rhs) {
        s
    } else {
        let s1 = retain_each(s, n, Forget::All);
        match rhs {
            HExpr::Ident(src, _, _) => if owns(s1, src) {
                let os = named_in(s1, src);
                let s2 = adopt(s1, n, os);
                if os.len() > 0 { retain_each(s2, src, Forget::NonStrings) } else { s2 }
            } else {
                s1
            },
            _ => match var_ty {
                Some(t) => match fresh_owner(n, t) {
                    Some(o) => with_owner(s1, o),
                    None => s1,
                },
                None => s1,
            },
        }
    }
}

/// How a variable initialized from another variable receives its value.
#[derive(Debug, Clone, Copy, PartialEq, Eq, Structural)]
pub enum SourceInit {
    /// The string is shared: its count goes up.
    RetainString,
    /// The struct moves: ownership passes to the new variable.
    MoveStruct,
    /// The value is copied as it is.
    Copy,
}

/// The scopes after `let n: t = init`, with how a variable initializer is
/// received. `owner` says the lowering marked the variable as owning a new
/// struct; `source_bound` that a variable initializer names a bound variable.
pub open spec fn spec_bind(
    s: Seq<Seq<OwnerV>>,
    n: Seq<char>,
    t: TypeV,
    init: HExpr,
    owner: bool,
    source_bound: bool,
) -> (Seq<Seq<OwnerV>>, SourceInit) {
    let s1 = if owner && !(init is Ident) {
        match t {
            TypeV::Struct(sn) => with_owner(s, OwnerV::Struct(n, sn)),
            _ => s,
        }
    } else {
        s
    };
    let (s2, how) = match init {
        HExpr::ArrayLiteral(et, es, _) => (with_owner(s1, OwnerV::Array(n, et, es.len())), SourceInit::Copy),
        HExpr::Ident(src, _, _) => if source_bound && owns(s1, src) {
            match t {
                TypeV::String => (s1, SourceInit::RetainString),
                TypeV::Struct(sn) => (transferred(s1, src, n, sn), SourceInit::MoveStruct),
                _ => (s1, SourceInit::Copy),
            }
        } else {
            (s1, SourceInit::Copy)
        },
        _ => (s1, SourceInit::Copy),
    };
    (if t is String { with_owner(s2, OwnerV::String(n)) } else { s2 }, how)
}

pub open spec fn scope_view(v: Seq<Owner>) -> Seq<OwnerV> {
    Seq::new(v.len(), |j: int| v[j]@)
}

proof fn lemma_adopt_len(s: Seq<Seq<OwnerV>>, n: Seq<char>, os: Seq<OwnerV>)
    requires
        s.len() > 0,
    ensures
        adopt(s, n, os).len() == s.len(),
    decreases os.len(),
{
    if os.len() > 0 {
        lemma_adopt_len(s, n, os.drop_last());
    }
}

/// The owners of a value, scope by scope; the innermost scope is last.
pub struct OwnerTracker {
    scopes: Vec<Vec<Owner>>,
}

impl View for OwnerTracker {
    type V = Seq<Seq<OwnerV>>;

    closed spec fn view(&self) -> Seq<Seq<OwnerV>> {
        Seq::new(self.scopes@.len(), |i: int| scope_view(self.scopes@[i]@))
    }
}

/// The owners of a scope that `k` keeps for `key`, copied.
fn filtered(v: &Vec<Owner>, key: &String, k: Forget) -> (out: Vec<Owner>)
    ensures
        scope_view(out@) == retained(scope_view(v@), key@, k),
{
    let ghost sv = scope_view(v@);
    let mut out: Vec<Owner> = Vec::new();
    let mut j: usize = 0;
    assert(sv.take(0) =~= Seq::<OwnerV>::empty());
    while j < v.len()
        invariant
            j <= v@.len(),
            sv == scope_view(v@),
            scope_view(out@) == retained(sv.take(j as int), key@, k),
        decreases v@.len() - j,
    {
        let o = &v[j];
        assert(sv.take(j + 1).drop_last() =~= sv.take(j as int));
        assert(sv.take(j + 1).last() == o@);
        let drop = *o.name() == *key && match k {
            Forget::All => true,
            Forget::Structs => match o {
                Owner::Struct(_, _) => true,
                _ => false,
            },
            Forget::NonStrings => match o {
                Owner::String(_) => false,
                _ => true,
            },
        };
        if !drop {
            let ghost before = scope_view(out@);
            out.push(o.deep_copy());
            assert(scope_view(out@) =~= before.push(o@));
        }
        j += 1;
    }
    assert(sv.take(v@.len() as int) =~= sv);
    out
}

/// The owners of `key` in one scope, copied in order.
fn owners_in_scope(v: &Vec<Owner>, key: &String, out: &mut Vec<Owner>)
    ensures
        scope_view(final(out)@) == scope_view(old(out)@) + named(scope_view(v@), key@),
{
    let ghost sv = scope_view(v@);
    let ghost start = scope_view(out@);
    let mut j: usize = 0;
    assert(sv.take(0) =~= Seq::<OwnerV>::empty());
    assert(start + named(sv.take(0), key@) =~= start);
    while j < v.len()
        invariant
            j <= v@.len(),
            sv == scope_view(v@),
            scope_view(out@) == start + named(sv.take(j as int), key@),
        decreases v@.len() - j,
    {
        let o = &v[j];
        assert(sv.take(j + 1).drop_last() =~= sv.take(j as int));
        assert(sv.take(j + 1).last() == o@);
        if *o.name() == *key {
            let ghost before = scope_view(out@);
            out.push(o.deep_copy());
            assert(scope_view(out@) =~= before.push(o@));
            assert(start + named(sv.take(j + 1), key@) =~= (start + named(sv.take(j as int), key@)).push(o@));
        }
        j += 1;
    }
    assert(sv.take(v@.len() as int) =~= sv);
}

impl OwnerTracker {
    /// A tracker with one empty scope.
    pub fn new() -> (t: Self)
        ensures
            t@ == seq![Seq::<OwnerV>::empty()],
    {
        let mut scopes: Vec<Vec<Owner>> = Vec::new();
        scopes.push(Vec::new());
        let t = OwnerTracker { scopes };
        assert(t@ =~= seq![Seq::<OwnerV>::empty()]) by {
            assert(scope_view(t.scopes@[0]@) =~= Seq::<OwnerV>::empty());
        }
        t
    }

    /// Number of open scopes.
    pub fn depth(&self) -> (n: usize)
        ensures
            n == self@.len(),
    {
        self.scopes.len()
    }

    /// Opens a new, empty, innermost scope.
    pub fn enter(&mut self)
        ensures
            final(self)@ == old(self)@.push(Seq::empty()),
    {
        self.scopes.push(Vec::new());
        assert(self@ =~= old(self)@.push(Seq::empty())) by {
            assert(scope_view(self.scopes@.last()@) =~= Seq::<OwnerV>::empty());
            assert forall|i: int| 0 <= i < old(self)@.len() implies self@[i] == old(self)@[i] by {
                assert(self.scopes@[i] == old(self).scopes@[i]);
            }
        }
    }

    /// Closes the innermost scope and hands back its owners, latest first,
    /// for release; `None` when no scope is open.
    pub fn exit(&mut self) -> (r: Option<Vec<Owner>>)
        ensures
            old(self)@.len() == 0 ==> r is None && final(self)@ == old(self)@,
            old(self)@.len() > 0 ==> r is Some && scope_view(r->0@) == old(self)@.last().reverse()
                && final(self)@ == old(self)@.drop_last(),
    {
        match self.scopes.pop() {
            None => {
                assert(self@ =~= old(self)@);
                None
            },
            Some(owners) => {
                assert(self@ =~= old(self)@.drop_last());
                let ghost sv = scope_view(owners@);
                assert(sv == old(self)@.last());
                let mut out: Vec<Owner> = Vec::new();
                let mut j: usize = owners.len();
                while j > 0
                    invariant
                        j <= owners@.len(),
                        sv == scope_view(owners@),
                        scope_view(out@) =~= sv.reverse().take(owners@.len() - j),
                    decreases j,
                {
                    let ghost before = scope_view(out@);
                    out.push(owners[j - 1].deep_copy());
                    assert(scope_view(out@) =~= before.push(sv[j - 1]));
                    j -= 1;
                }
                assert(sv.reverse().take(owners@.len() as int) =~= sv.reverse());
                Some(out)
            },
        }
    }

    /// Records `o` as owned in the innermost scope.
    pub fn track(&mut self, o: Owner)
        requires
            old(self)@.len() > 0,
        ensures
            final(self)@ == with_owner(old(self)@, o@),
    {
        let last = self.scopes.len() - 1;
        let mut scope: Vec<Owner> = Vec::new();
        std::mem::swap(&mut scope, &mut self.scopes[last]);
        let ghost ov = o@;
        let ghost before = scope_view(scope@);
        scope.push(o);
        assert(scope_view(scope@) =~= before.push(ov));
        std::mem::swap(&mut scope, &mut self.scopes[last]);
        assert(self@ =~= with_owner(old(self)@, ov)) by {
            assert forall|i: int| 0 <= i < old(self)@.len() && i != last implies self@[i] == old(self)@[i] by {
                assert(self.scopes@[i] == old(self).scopes@[i]);
            }
        }
    }

    /// Whether some scope holds an owner for `name`.
    pub fn is_owner(&self, name: &str) -> (r: bool)
        ensures
            r == owns(self@, name@),
    {
        let key = String::from_str(name);
        let mut i: usize = 0;
        while i < self.scopes.len()
            invariant
                i <= self.scopes@.len(),
                key@ == name@,
                forall|a: int, b: int|
                    0 <= a < i && 0 <= b < self@[a].len() ==> (#[trigger] self@[a][b]).name() != name@,
            decreases self.scopes@.len() - i,
        {
            let scope = &self.scopes[i];
            let mut j: usize = 0;
            while j < scope.len()
                invariant
                    i < self.scopes@.len(),
                    *scope == self.scopes@[i as int],
                    j <= scope@.len(),
                    key@ == name@,
                    forall|b: int| 0 <= b < j ==> (#[trigger] self@[i as int][b]).name() != name@,
                decreases scope@.len() - j,
            {
                assert(self@[i as int][j as int] == scope@[j as int]@);
                if *scope[j].name() == key {
                    return true;
                }
                j += 1;
            }
            i += 1;
        }
        false
    }

    /// The owners of `name`, outermost scope first, each scope in order.
    pub fn owners_of(&self, name: &str) -> (r: Vec<Owner>)
        ensures
            scope_view(r@) == named_in(self@, name@),
    {
        let key = String::from_str(name);
        let mut out: Vec<Owner> = Vec::new();
        let mut i: usize = 0;
        assert(self@.take(0) =~= Seq::<Seq<OwnerV>>::empty());
        assert(scope_view(out@) =~= Seq::<OwnerV>::empty());
        while i < self.scopes.len()
            invariant
                i <= self.scopes@.len(),
                key@ == name@,
                scope_view(out@) == named_in(self@.take(i as int), name@),
            decreases self.scopes@.len() - i,
        {
            owners_in_scope(&self.scopes[i], &key, &mut out);
            assert(self@.take(i + 1).drop_last() =~= self@.take(i as int));
            assert(self@.take(i + 1).last() == scope_view(self.scopes@[i as int]@));
            i += 1;
        }
        assert(self@.take(self.scopes@.len() as int) =~= self@);
        out
    }

    /// Drops from every scope the owners of `name` that `k` forgets.
    fn retain_owners(&mut self, name: &str, k: Forget)
        ensures
            final(self)@ == retain_each(old(self)@, name@, k),
    {
        let key = String::from_str(name);
        let mut i: usize = 0;
        while i < self.scopes.len()
            invariant
                i <= self.scopes@.len(),
                self.scopes@.len() == old(self).scopes@.len(),
                key@ == name@,
                forall|a: int| 0 <= a < i ==> #[trigger] scope_view(self.scopes@[a]@) == retained(old(self)@[a], name@, k),
                forall|a: int| i <= a < self.scopes@.len() ==> #[trigger] self.scopes@[a] == old(self).scopes@[a],
            decreases self.scopes@.len() - i,
        {
            let kept = filtered(&self.scopes[i], &key, k);
            assert(scope_view(self.scopes@[i as int]@) == old(self)@[i as int]);
            self.scopes.set(i, kept);
            i += 1;
        }
        assert(self@ =~= retain_each(old(self)@, name@, k));
    }

    /// Forgets every owner of `name`: its value has left the scope (returned,
    /// or overwritten after release).
    pub fn forget(&mut self, name: &str)
        ensures
            final(self)@ == retain_each(old(self)@, name@, Forget::All),
    {
        self.retain_owners(name, Forget::All);
    }

    /// Forgets the struct and array owners of `name`, whose value moved
    /// elsewhere; a string it holds stays its own.
    pub fn forget_moved(&mut self, name: &str)
        ensures
            final(self)@ == retain_each(old(self)@, name@, Forget::NonStrings),
    {
        self.retain_owners(name, Forget::NonStrings);
    }

    /// Forgets the struct owners of `name`.
    pub fn remove_struct_owner(&mut self, name: &str)
        ensures
            final(self)@ == retain_each(old(self)@, name@, Forget::Structs),
    {
        self.retain_owners(name, Forget::Structs);
    }

    /// Moves ownership of a struct value of type `struct_name` from `src` to
    /// `dst`, which becomes its owner in the innermost scope.
    pub fn transfer_ownership(&mut self, src: &str, dst: &str, struct_name: &str)
        requires
            old(self)@.len() > 0,
        ensures
            final(self)@ == transferred(old(self)@, src@, dst@, struct_name@),
    {
        self.track(Owner::Struct(String::from_str(dst), String::from_str(struct_name)));
        self.remove_struct_owner(src);
    }

    /// Updates ownership for `name = rhs`, where `var_ty` is the declared type
    /// of `name` if known. Hands back the owners released from `name`, to be
    /// freed before the store, and those it took over from the variable `rhs`
    /// (each string among them is retained once more).
    pub fn assign(&mut self, name: &str, rhs: &HirExpr, var_ty: Option<&Type>) -> (r: (Vec<Owner>, Vec<Owner>))
        requires
            old(self)@.len() > 0,
        ensures
            final(self)@ == spec_assign(old(self)@, name@, rhs@, match var_ty {
                Some(t) => Some(t@),
                None => None,
            }),
            scope_view(r.0@) == released_on_assign(old(self)@, name@, rhs@),
            scope_view(r.1@) == adopted_on_assign(old(self)@, name@, rhs@),
    {
        let key = String::from_str(name);
        let self_assign = match rhs {
            HirExpr::Ident { name: n, .. } => *n == key,
            _ => false,
        };
        if self_assign {
            return (Vec::new(), Vec::new());
        }
        let released = self.owners_of(name);
        self.forget(name);
        let ghost s1 = self@;
        let mut adopted: Vec<Owner> = Vec::new();
        match rhs {
            HirExpr::Ident { name: src, .. } => {
                if self.is_owner(src.as_str()) {
                    adopted = self.owners_of(src.as_str());
                    let ghost os = scope_view(adopted@);
                    let mut i: usize = 0;
                    assert(os.take(0) =~= Seq::<OwnerV>::empty());
                    while i < adopted.len()
                        invariant
                            i <= adopted@.len(),
                            os == scope_view(adopted@),
                            s1.len() > 0,
                            self@ == adopt(s1, name@, os.take(i as int)),
                        decreases adopted@.len() - i,
                    {
                        proof {
                            lemma_adopt_len(s1, name@, os.take(i as int));
                        }
                        assert(os.take(i + 1).drop_last() =~= os.take(i as int));
                        assert(os.take(i + 1).last() == adopted@[i as int]@);
                        self.track(adopted[i].renamed(name));
                        i += 1;
                    }
                    assert(os.take(adopted@.len() as int) =~= os);
                    if adopted.len() > 0 {
                        self.forget_moved(src.as_str());
                    }
                }
            },
            _ => {
                match var_ty {
                    Some(Type::Struct(n)) => self.track(Owner::Struct(key, n.clone())),
                    Some(Type::Array(e, c)) => self.track(Owner::Array(key, e.deep_copy(), *c)),
                    Some(Type::String) => self.track(Owner::String(key)),
                    _ => {},
                }
            },
        }
        (released, adopted)
    }

    /// Updates ownership for `let name: ty = init` and says how a variable
    /// initializer is received. `owner` is the lowering's mark that the
    /// variable owns a new struct; `source_bound` that a variable initializer
    /// names a variable in scope.
    pub fn bind(&mut self, name: &str, ty: &Type, init: &HirExpr, owner: bool, source_bound: bool) -> (r: SourceInit)
        requires
            old(self)@.len() > 0,
        ensures
            (final(self)@, r) == spec_bind(old(self)@, name@, ty@, init@, owner, source_bound),
    {
        let is_ident = match init {
            HirExpr::Ident { .. } => true,
            _ => false,
        };
        if owner && !is_ident {
            match ty {
                Type::Struct(sn) => self.track(Owner::Struct(String::from_str(name), sn.clone())),
                _ => {},
            }
        }
        let how = match init {
            HirExpr::ArrayLiteral(et, es, _) => {
                self.track(Owner::Array(String::from_str(name), et.deep_copy(), es.len()));
                SourceInit::Copy
            },
            HirExpr::Ident { name: src, .. } => {
                if source_bound && self.is_owner(src.as_str()) {
                    match ty {
                        Type::String => SourceInit::RetainString,
                        Type::Struct(sn) => {
                            self.transfer_ownership(src.as_str(), name, sn.as_str());
                            SourceInit::MoveStruct
                        },
                        _ => SourceInit::Copy,
                    }
                } else {
                    SourceInit::Copy
                }
            },
            _ => SourceInit::Copy,
        };
        match ty {
            Type::String => self.track(Owner::String(String::from_str(name))),
            _ => {},
        }
        how
    }

    /// Releases every owner in the scopes from `depth` on, which stay open and
    /// become empty; the owners come back in release order: innermost scope
    /// first, each from its latest owner back.
    pub fn release_since(&mut self, depth: usize) -> (r: Vec<Owner>)
        requires
            depth <= old(self)@.len(),
        ensures
            scope_view(r@) == release_order(old(self)@.subrange(depth as int, old(self)@.len() as int)),
            final(self)@ == released_since(old(self)@, depth as int),
    {
        let ghost s = self@;
        let n = self.scopes.len();
        let mut out: Vec<Owner> = Vec::new();
        let mut i: usize = n;
        assert(s.subrange(n as int, n as int) =~= Seq::<Seq<OwnerV>>::empty());
        assert(scope_view(out@) =~= Seq::<OwnerV>::empty());
        while i > depth
            invariant
                depth <= i <= n,
                s.len() == n,
                n == self.scopes@.len(),
                self@ == s,
                scope_view(out@) == release_order(s.subrange(i as int, n as int)),
            decreases i,
        {
            let scope = &self.scopes[i - 1];
            let ghost sv = scope_view(scope@);
            assert(sv == s[i - 1]);
            let ghost start = scope_view(out@);
            let mut j: usize = scope.len();
            assert(start + sv.reverse().take(0) =~= start);
            while j > 0
                invariant
                    j <= scope@.len(),
                    sv == scope_view(scope@),
                    scope_view(out@) == start + sv.reverse().take(scope@.len() - j),
                decreases j,
            {
                let ghost before = scope_view(out@);
                out.push(scope[j - 1].deep_copy());
                assert(scope_view(out@) =~= before.push(sv[j - 1]));
                assert(start + sv.reverse().take(scope@.len() - j + 1)
                    =~= (start + sv.reverse().take(scope@.len() - j)).push(sv[j - 1]));
                j -= 1;
            }
            assert(sv.reverse().take(scope@.len() as int) =~= sv.reverse());
            assert(s.subrange(i - 1, n as int).drop_first() =~= s.subrange(i as int, n as int));
            assert(s.subrange(i - 1, n as int).first() == sv);
            i -= 1;
        }
        let mut k: usize = depth;
        while k < n
            invariant
                depth <= k <= n,
                n == self.scopes@.len(),
                s.len() == n,
                forall|a: int| 0 <= a < depth ==> #[trigger] scope_view(self.scopes@[a]@) == s[a],
                forall|a: int| depth <= a < k ==> #[trigger] scope_view(self.scopes@[a]@) == Seq::<OwnerV>::empty(),
                forall|a: int| k <= a < n ==> #[trigger] scope_view(self.scopes@[a]@) == s[a],
            decreases n - k,
        {
            self.scopes.set(k, Vec::new());
            assert(scope_view(self.scopes@[k as int]@) =~= Seq::<OwnerV>::empty());
            k += 1;
        }
        assert(self@ =~= released_since(s, depth as int));
        out
    }
}

proof fn lemma_reverse_concat(a: Seq<OwnerV>, b: Seq<OwnerV>)
    ensures
        (a + b).reverse() == b.reverse() + a.reverse(),
{
    assert((a + b).reverse() =~= b.reverse() + a.reverse());
}

proof fn lemma_retained_keeps_nothing_forgotten(x: Seq<OwnerV>, n: Seq<char>, k: Forget)
    ensures
        forall|j: int| 0 <= j < retained(x, n, k).len() ==> !forgotten(#[trigger] retained(x, n, k)[j], n, k),
    decreases x.len(),
{
    if x.len() > 0 {
        lemma_retained_keeps_nothing_forgotten(x.drop_last(), n, k);
        let r = retained(x.drop_last(), n, k);
        assert forall|j: int| 0 <= j < retained(x, n, k).len() implies !forgotten(#[trigger] retained(x, n, k)[j], n, k) by {
            if j < r.len() {
                assert(retained(x, n, k)[j] == r[j]);
            }
        }
    }
}

proof fn lemma_retained_push(x: Seq<OwnerV>, o: OwnerV, n: Seq<char>, k: Forget)
    ensures
        retained(x.push(o), n, k) == if forgotten(o, n, k) { retained(x, n, k) } else { retained(x, n, k).push(o) },
{
    assert(x.push(o).drop_last() =~= x);
}

proof fn lemma_named_after_retain(x: Seq<OwnerV>, n: Seq<char>, m: Seq<char>, k: Forget)
    requires
        n != m,
    ensures
        named(retained(x, n, k), m) == named(x, m),
    decreases x.len(),
{
    if x.len() > 0 {
        lemma_named_after_retain(x.drop_last(), n, m, k);
        let r = retained(x.drop_last(), n, k);
        if !forgotten(x.last(), n, k) {
            assert(r.push(x.last()).drop_last() =~= r);
        }
    }
}

/// Owners are released in exactly the reverse of the order in which they were
/// tracked: the innermost scope first, and in each scope the latest owner first.
pub proof fn law_release_reverses_tracking(s: Seq<Seq<OwnerV>>)
    ensures
        release_order(s) == tracking_order(s).reverse(),
    decreases s.len(),
{
    if s.len() == 0 {
        assert(tracking_order(s).reverse() =~= Seq::<OwnerV>::empty());
    } else {
        law_release_reverses_tracking(s.drop_first());
        lemma_reverse_concat(s.first(), tracking_order(s.drop_first()));
    }
}

/// Closing the innermost scope releases the same owners, in the same order, as
/// releasing every scope from the innermost one's depth.
pub proof fn law_exit_matches_release_of_innermost(s: Seq<Seq<OwnerV>>)
    requires
        s.len() > 0,
    ensures
        release_order(s.subrange(s.len() - 1, s.len() as int)) == s.last().reverse(),
{
    let t = s.subrange(s.len() - 1, s.len() as int);
    assert(t.drop_first() =~= Seq::<Seq<OwnerV>>::empty());
    assert(release_order(t.drop_first()) =~= Seq::<OwnerV>::empty());
    assert(Seq::<OwnerV>::empty() + s.last().reverse() =~= s.last().reverse());
}

/// A value that is tracked has an owner.
pub proof fn law_track_makes_owner(s: Seq<Seq<OwnerV>>, o: OwnerV)
    requires
        s.len() > 0,
    ensures
        owns(with_owner(s, o), o.name()),
{
    let t = with_owner(s, o);
    let i = s.len() - 1;
    assert(t[i][s.last().len() as int] == o);
}

/// After a name is forgotten, nothing is owned under it.
pub proof fn law_forget_removes_owner(s: Seq<Seq<OwnerV>>, n: Seq<char>)
    ensures
        !owns(retain_each(s, n, Forget::All), n),
{
    let t = retain_each(s, n, Forget::All);
    assert forall|i: int, j: int| 0 <= i < t.len() && 0 <= j < t[i].len() implies (#[trigger] t[i][j]).name() != n by {
        lemma_retained_keeps_nothing_forgotten(s[i], n, Forget::All);
    }
}

/// Forgetting the owners of one name leaves those of every other name as they were.
pub proof fn law_forget_keeps_other_names(s: Seq<Seq<OwnerV>>, n: Seq<char>, m: Seq<char>, k: Forget)
    requires
        n != m,
    ensures
        named_in(retain_each(s, n, k), m) == named_in(s, m),
    decreases s.len(),
{
    if s.len() > 0 {
        law_forget_keeps_other_names(s.drop_last(), n, m, k);
        assert(retain_each(s, n, k).drop_last() =~= retain_each(s.drop_last(), n, k));
        lemma_named_after_retain(s.last(), n, m, k);
    }
}

/// Transferring a struct value makes the destination its owner and leaves the
/// source owning no struct.
pub proof fn law_transfer_moves_struct(s: Seq<Seq<OwnerV>>, src: Seq<char>, dst: Seq<char>, sname: Seq<char>)
    requires
        s.len() > 0,
        src != dst,
    ensures
        owns_struct(transferred(s, src, dst, sname), dst),
        !owns_struct(transferred(s, src, dst, sname), src),
{
    let o = OwnerV::Struct(dst, sname);
    let w = with_owner(s, o);
    let t = transferred(s, src, dst, sname);
    let i = s.len() - 1;
    assert(w[i] == s.last().push(o));
    lemma_retained_push(s.last(), o, src, Forget::Structs);
    let r = retained(s.last(), src, Forget::Structs);
    assert(t[i] == r.push(o));
    assert(t[i][r.len() as int] == o);
    assert forall|a: int, b: int| 0 <= a < t.len() && 0 <= b < t[a].len()
        implies !((#[trigger] t[a][b]) is Struct && t[a][b].name() == src) by {
        lemma_retained_keeps_nothing_forgotten(w[a], src, Forget::Structs);
    }
}

proof fn lemma_retained_keeps_kept(x: Seq<OwnerV>, n: Seq<char>, k: Forget, j: int)
    requires
        0 <= j < x.len(),
        !forgotten(x[j], n, k),
    ensures
        exists|m: int| 0 <= m < retained(x, n, k).len() && retained(x, n, k)[m] == x[j],
    decreases x.len(),
{
    let r = retained(x.drop_last(), n, k);
    if j == x.len() - 1 {
        assert(retained(x, n, k)[r.len() as int] == x[j]);
    } else {
        lemma_retained_keeps_kept(x.drop_last(), n, k, j);
        let m = choose|m: int| 0 <= m < r.len() && r[m] == x.drop_last()[j];
        assert(retained(x, n, k)[m] == x[j]);
    }
}

proof fn lemma_named_has_struct(x: Seq<OwnerV>, n: Seq<char>, j: int)
    requires
        0 <= j < x.len(),
        x[j] is Struct,
        x[j].name() == n,
    ensures
        exists|m: int| 0 <= m < named(x, n).len() && (#[trigger] named(x, n)[m]) is Struct,
    decreases x.len(),
{
    let r = named(x.drop_last(), n);
    if j == x.len() - 1 {
        assert(named(x, n)[r.len() as int] is Struct);
    } else {
        lemma_named_has_struct(x.drop_last(), n, j);
        let m = choose|m: int| 0 <= m < r.len() && (#[trigger] r[m]) is Struct;
        if x.last().name() == n {
            assert(named(x, n)[m] == r[m]);
        }
    }
}

proof fn lemma_named_in_has_struct(s: Seq<Seq<OwnerV>>, n: Seq<char>)
    requires
        owns_struct(s, n),
    ensures
        exists|m: int| 0 <= m < named_in(s, n).len() && (#[trigger] named_in(s, n)[m]) is Struct,
    decreases s.len(),
{
    let (i, j) = choose|i: int, j: int|
        0 <= i < s.len() && 0 <= j < s[i].len() && (#[trigger] s[i][j]) is Struct && s[i][j].name() == n;
    let a = named_in(s.drop_last(), n);
    if i == s.len() - 1 {
        lemma_named_has_struct(s.last(), n, j);
        let m = choose|m: int| 0 <= m < named(s.last(), n).len() && (#[trigger] named(s.last(), n)[m]) is Struct;
        assert(named_in(s, n)[a.len() + m] == named(s.last(), n)[m]);
    } else {
        assert(s.drop_last()[i][j] == s[i][j]);
        lemma_named_in_has_struct(s.drop_last(), n);
        let m = choose|m: int| 0 <= m < a.len() && (#[trigger] a[m]) is Struct;
        assert(named_in(s, n)[m] == a[m]);
    }
}

proof fn lemma_named_in_owns(s: Seq<Seq<OwnerV>>, n: Seq<char>)
    requires
        named_in(s, n).len() > 0,
    ensures
        owns(s, n),
    decreases s.len(),
{
    let a = named_in(s.drop_last(), n);
    if a.len() > 0 {
        lemma_named_in_owns(s.drop_last(), n);
        let (i, j) = choose|i: int, j: int|
            0 <= i < s.drop_last().len() && 0 <= j < s.drop_last()[i].len() && (#[trigger] s.drop_last()[i][j]).name() == n;
        assert(s[i][j] == s.drop_last()[i][j]);
    } else {
        lemma_named_nonempty_has(s.last(), n);
        let j = choose|j: int| 0 <= j < s.last().len() && (#[trigger] s.last()[j]).name() == n;
        assert(s[s.len() - 1][j] == s.last()[j]);
    }
}

proof fn lemma_named_nonempty_has(x: Seq<OwnerV>, n: Seq<char>)
    requires
        named(x, n).len() > 0,
    ensures
        exists|j: int| 0 <= j < x.len() && (#[trigger] x[j]).name() == n,
    decreases x.len(),
{
    if x.last().name() != n {
        lemma_named_nonempty_has(x.drop_last(), n);
        let j = choose|j: int| 0 <= j < x.drop_last().len() && (#[trigger] x.drop_last()[j]).name() == n;
        assert(x[j] == x.drop_last()[j]);
    } else {
        assert(x[x.len() - 1] == x.last());
    }
}

proof fn lemma_adopt_owns_struct(s: Seq<Seq<OwnerV>>, n: Seq<char>, os: Seq<OwnerV>, k: int)
    requires
        s.len() > 0,
        0 <= k < os.len(),
        os[k] is Struct,
    ensures
        exists|i: int, j: int| 0 <= i < adopt(s, n, os).len() && 0 <= j < adopt(s, n, os)[i].len()
            && #[trigger] adopt(s, n, os)[i][j] == renamed(os[k], n),
    decreases os.len(),
{
    let a = adopt(s, n, os.drop_last());
    lemma_adopt_len(s, n, os.drop_last());
    let t = adopt(s, n, os);
    if k == os.len() - 1 {
        let i = a.len() - 1;
        assert(t[i][a.last().len() as int] == renamed(os[k], n));
    } else {
        lemma_adopt_owns_struct(s, n, os.drop_last(), k);
        let (i, j) = choose|i: int, j: int| 0 <= i < a.len() && 0 <= j < a[i].len()
            && #[trigger] a[i][j] == renamed(os.drop_last()[k], n);
        assert(t[i][j] == a[i][j]);
    }
}

/// Assigning one variable to another that owns a struct moves the struct:
/// afterwards the target owns a struct and the source none.
pub proof fn law_assignment_moves_struct(
    s: Seq<Seq<OwnerV>>,
    n: Seq<char>,
    src: Seq<char>,
    t: TypeV,
    sp: Span,
    var_ty: Option<TypeV>,
)
    requires
        s.len() > 0,
        n != src,
        owns_struct(s, src),
    ensures
        owns_struct(spec_assign(s, n, HExpr::Ident(src, t, sp), var_ty), n),
        !owns_struct(spec_assign(s, n, HExpr::Ident(src, t, sp), var_ty), src),
{
    let rhs = HExpr::Ident(src, t, sp);
    let s1 = retain_each(s, n, Forget::All);
    law_forget_keeps_other_names(s, n, src, Forget::All);
    lemma_named_in_has_struct(s, src);
    let os = named_in(s1, src);
    lemma_named_in_owns(s1, src);
    let k = choose|m: int| 0 <= m < os.len() && (#[trigger] os[m]) is Struct;
    let s2 = adopt(s1, n, os);
    lemma_adopt_len(s1, n, os);
    lemma_adopt_owns_struct(s1, n, os, k);
    let (i, j) = choose|i: int, j: int| 0 <= i < s2.len() && 0 <= j < s2[i].len() && #[trigger] s2[i][j] == renamed(os[k], n);
    let r = retain_each(s2, src, Forget::NonStrings);
    assert(r == spec_assign(s, n, rhs, var_ty));
    lemma_retained_keeps_kept(s2[i], src, Forget::NonStrings, j);
    let m = choose|m: int| 0 <= m < retained(s2[i], src, Forget::NonStrings).len()
        && retained(s2[i], src, Forget::NonStrings)[m] == s2[i][j];
    assert(r[i][m] is Struct && r[i][m].name() == n);
    assert forall|a: int, b: int| 0 <= a < r.len() && 0 <= b < r[a].len()
        implies !((#[trigger] r[a][b]) is Struct && r[a][b].name() == src) by {
        lemma_retained_keeps_nothing_forgotten(s2[a], src, Forget::NonStrings);
    }
}

/// A variable initialized from another variable that owns a struct takes the
/// struct over; the source no longer owns one.
pub proof fn law_binding_moves_struct(
    s: Seq<Seq<OwnerV>>,
    n: Seq<char>,
    sname: Seq<char>,
    src: Seq<char>,
    t: TypeV,
    sp: Span,
    owner: bool,
)
    requires
        s.len() > 0,
        n != src,
        owns_struct(s, src),
    ensures
        spec_bind(s, n, TypeV::Struct(sname), HExpr::Ident(src, t, sp), owner, true).1 == SourceInit::MoveStruct,
        owns_struct(spec_bind(s, n, TypeV::Struct(sname), HExpr::Ident(src, t, sp), owner, true).0, n),
        !owns_struct(spec_bind(s, n, TypeV::Struct(sname), HExpr::Ident(src, t, sp), owner, true).0, src),
{
    let (i, j) = choose|i: int, j: int|
        0 <= i < s.len() && 0 <= j < s[i].len() && (#[trigger] s[i][j]) is Struct && s[i][j].name() == src;
    assert(owns(s, src)) by {
        assert(s[i][j].name() == src);
    }
    law_transfer_moves_struct(s, src, n, sname);
}

} // verus!
