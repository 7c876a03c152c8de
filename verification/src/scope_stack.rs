//! A stack of lexical scopes mapping names to values.

use vstd::prelude::*;

verus! {

/// One scope: bindings in the order they were made; a later binding of a
/// name hides an earlier one in the same scope.
pub type ScopeV<T> = Seq<(Seq<char>, T)>;

/// The binding of `name` in one scope: the most recent one.
pub open spec fn scope_lookup<T>(scope: ScopeV<T>, name: Seq<char>) -> Option<T>
    decreases scope.len(),
{
    if scope.len() == 0 {
        None
    } else if scope.last().0 == name {
        Some(scope.last().1)
    } else {
        scope_lookup(scope.drop_last(), name)
    }
}

/// The binding of `name` in a stack of scopes: the innermost scope that binds
/// it decides.
pub open spec fn stack_lookup<T>(scopes: Seq<ScopeV<T>>, name: Seq<char>) -> Option<T>
    decreases scopes.len(),
{
    if scopes.len() == 0 {
        None
    } else {
        match scope_lookup(scopes.last(), name) {
            Some(v) => Some(v),
            None => stack_lookup(scopes.drop_last(), name),
        }
    }
}

pub struct ScopeStack<T> {
    scopes: Vec<Vec<(String, T)>>,
}

pub open spec fn frame_view<T>(frame: Seq<(String, T)>) -> ScopeV<T> {
    Seq::new(frame.len(), |j: int| (frame[j].0@, frame[j].1))
}

impl<T> View for ScopeStack<T> {
    type V = Seq<ScopeV<T>>;

    closed spec fn view(&self) -> Seq<ScopeV<T>> {
        Seq::new(self.scopes@.len(), |i: int| frame_view(self.scopes@[i]@))
    }
}

impl<T> ScopeStack<T> {
    /// The binding of `name`, innermost scope first.
    pub open spec fn lookup(&self, name: Seq<char>) -> Option<T> {
        stack_lookup(self@, name)
    }

    /// A stack holding one empty scope.
    pub fn new() -> (s: Self)
        ensures
            s@ == seq![Seq::<(Seq<char>, T)>::empty()],
    {
        let mut scopes: Vec<Vec<(String, T)>> = Vec::new();
        scopes.push(Vec::new());
        let s = Self { scopes };
        assert(s@ =~= seq![Seq::<(Seq<char>, T)>::empty()]) by {
            assert(frame_view(s.scopes@[0]@) =~= Seq::<(Seq<char>, T)>::empty());
        }
        s
    }

    /// Opens a new, empty, innermost scope.
    pub fn enter(&mut self)
        ensures
            final(self)@ == old(self)@.push(Seq::empty()),
    {
        self.scopes.push(Vec::new());
        assert(self@ =~= old(self)@.push(Seq::empty())) by {
            assert(frame_view(self.scopes@.last()@) =~= Seq::<(Seq<char>, T)>::empty());
            assert forall|i: int| 0 <= i < old(self)@.len() implies self@[i] == old(self)@[i] by {
                assert(self.scopes@[i] == old(self).scopes@[i]);
            }
        }
    }

    /// Closes the innermost scope, if there is one.
    pub fn exit(&mut self)
        ensures
            final(self)@ == if old(self)@.len() == 0 { old(self)@ } else { old(self)@.drop_last() },
    {
        let _ = self.scopes.pop();
        assert(self@ =~= if old(self)@.len() == 0 { old(self)@ } else { old(self)@.drop_last() });
    }

    /// The value bound to `name` in the innermost scope that binds it.
    pub fn get(&self, name: &str) -> (r: Option<&T>)
        ensures
            match r {
                Some(v) => self.lookup(name@) == Some(*v),
                None => self.lookup(name@) is None,
            },
    {
        let key = String::from_str(name);
        let mut i = self.scopes.len();
        assert(self@.take(i as int) =~= self@);
        while i > 0
            invariant
                i <= self.scopes@.len(),
                key@ == name@,
                stack_lookup(self@, name@) == stack_lookup(self@.take(i as int), name@),
            decreases i,
        {
            let scope = &self.scopes[i - 1];
            let mut j = scope.len();
            let ghost sv = self@[i - 1];
            assert(sv == frame_view(scope@));
            assert(sv.take(j as int) =~= sv);
            assert(self@.take(i as int).last() == sv);
            while j > 0
                invariant
                    j <= scope@.len(),
                    key@ == name@,
                    0 < i <= self.scopes@.len(),
                    stack_lookup(self@, name@) == stack_lookup(self@.take(i as int), name@),
                    self@.take(i as int).last() == sv,
                    sv == frame_view(scope@),
                    scope_lookup(sv, name@) == scope_lookup(sv.take(j as int), name@),
                decreases j,
            {
                if scope[j - 1].0 == key {
                    assert(sv.take(j as int).last() == (scope@[j - 1].0@, scope@[j - 1].1));
                    return Some(&scope[j - 1].1);
                }
                assert(sv.take(j as int).drop_last() =~= sv.take(j - 1));
                j -= 1;
            }
            assert(self@.take(i as int).last() == sv);
            assert(self@.take(i as int).drop_last() =~= self@.take(i - 1));
            i -= 1;
        }
        None
    }

    /// Binds `name` to `val` in the innermost scope.
    pub fn define(&mut self, name: String, val: T)
        requires
            old(self)@.len() > 0,
        ensures
            final(self)@ == old(self)@.update(
                old(self)@.len() - 1,
                old(self)@.last().push((name@, val)),
            ),
    {
        let last = self.scopes.len() - 1;
        let mut scope = Vec::new();
        std::mem::swap(&mut scope, &mut self.scopes[last]);
        let ghost name_v = name@;
        scope.push((name, val));
        std::mem::swap(&mut scope, &mut self.scopes[last]);
        assert(self@ =~= old(self)@.update(old(self)@.len() - 1, old(self)@.last().push((name_v, val)))) by {
            assert(frame_view(self.scopes@[last as int]@) =~= old(self)@.last().push((name_v, val)));
            assert forall|i: int| 0 <= i < old(self)@.len() && i != last implies self@[i] == old(self)@[i] by {
                assert(self.scopes@[i] == old(self).scopes@[i]);
            }
        }
    }

    /// Number of open scopes.
    pub fn depth(&self) -> (n: usize)
        ensures
            n == self@.len(),
    {
        self.scopes.len()
    }
}

/// A name bound in the innermost scope is found with its most recent value.
pub proof fn law_define_then_lookup<T>(scopes: Seq<ScopeV<T>>, name: Seq<char>, val: T)
    requires
        scopes.len() > 0,
    ensures
        stack_lookup(scopes.update(scopes.len() - 1, scopes.last().push((name, val))), name)
            == Some(val),
{
    let s2 = scopes.update(scopes.len() - 1, scopes.last().push((name, val)));
    assert(s2.last() == scopes.last().push((name, val)));
}

/// Binding one name leaves the lookup of every other name unchanged.
pub proof fn law_define_keeps_others<T>(
    scopes: Seq<ScopeV<T>>,
    name: Seq<char>,
    val: T,
    other: Seq<char>,
)
    requires
        scopes.len() > 0,
        other != name,
    ensures
        stack_lookup(scopes.update(scopes.len() - 1, scopes.last().push((name, val))), other)
            == stack_lookup(scopes, other),
{
    let s2 = scopes.update(scopes.len() - 1, scopes.last().push((name, val)));
    assert(s2.last().drop_last() =~= scopes.last());
    assert(s2.drop_last() =~= scopes.drop_last());
}

/// Opening an empty scope changes no lookup.
pub proof fn law_enter_keeps_lookup<T>(scopes: Seq<ScopeV<T>>, name: Seq<char>)
    ensures
        stack_lookup(scopes.push(Seq::empty()), name) == stack_lookup(scopes, name),
{
    assert(scopes.push(Seq::empty()).drop_last() =~= scopes);
}

/// Closing a scope just opened restores the stack.
pub proof fn law_enter_exit_restores<T>(scopes: Seq<ScopeV<T>>)
    ensures
        scopes.push(Seq::<(Seq<char>, T)>::empty()).drop_last() == scopes,
{
    assert(scopes.push(Seq::<(Seq<char>, T)>::empty()).drop_last() =~= scopes);
}

/// The stack after each binding of `ds`, in order, is made in the innermost scope.
pub open spec fn defined_all<T>(scopes: Seq<ScopeV<T>>, ds: Seq<(Seq<char>, T)>) -> Seq<ScopeV<T>>
    decreases ds.len(),
{
    if ds.len() == 0 {
        scopes
    } else {
        let s = defined_all(scopes, ds.drop_last());
        s.update(s.len() - 1, s.last().push(ds.last()))
    }
}

proof fn lemma_defined_in_new_scope<T>(scopes: Seq<ScopeV<T>>, ds: Seq<(Seq<char>, T)>)
    ensures
        defined_all(scopes.push(Seq::empty()), ds) == scopes.push(ds),
    decreases ds.len(),
{
    if ds.len() == 0 {
        assert(ds =~= Seq::<(Seq<char>, T)>::empty());
    } else {
        lemma_defined_in_new_scope(scopes, ds.drop_last());
        let s = scopes.push(ds.drop_last());
        assert(ds.drop_last().push(ds.last()) =~= ds);
        assert(s.last() == ds.drop_last());
        assert(s.update(s.len() - 1, s.last().push(ds.last())) =~= scopes.push(ds));
    }
}

/// Any number of bindings made after entering a scope are discarded when it
/// is closed: the stack, and so every lookup, is as it was before entering;
/// outer bindings that they hid are found again.
pub proof fn law_exit_discards_block_bindings<T>(scopes: Seq<ScopeV<T>>, ds: Seq<(Seq<char>, T)>, name: Seq<char>)
    ensures
        defined_all(scopes.push(Seq::empty()), ds).drop_last() == scopes,
        stack_lookup(defined_all(scopes.push(Seq::empty()), ds).drop_last(), name) == stack_lookup(scopes, name),
{
    lemma_defined_in_new_scope(scopes, ds);
    assert(scopes.push(ds).drop_last() =~= scopes);
}

} // verus!
