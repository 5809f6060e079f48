//! The stack of local-variable scopes inside a function or method body.

use vstd::prelude::*;

use crate::lexer::token::text_eq;
use crate::sema::types::{SemaType, SemaTypeV};

verus! {

pub struct VarBinding {
    pub ty: SemaType,
    pub mutable: bool,
}

pub struct BindingV {
    pub ty: SemaTypeV,
    pub mutable: bool,
}

impl View for VarBinding {
    type V = BindingV;

    open spec fn view(&self) -> BindingV {
        BindingV { ty: self.ty@, mutable: self.mutable }
    }
}

impl VarBinding {
    /// A copy of this binding.
    pub fn duplicate(&self) -> (r: VarBinding)
        ensures
            r@ == self@,
    {
        VarBinding { ty: self.ty.duplicate(), mutable: self.mutable }
    }
}

struct Entry {
    name: String,
    binding: VarBinding,
}

/// One scope: its definitions in the order they were made.
pub type ScopeV = Seq<(Seq<char>, BindingV)>;

pub struct Env {
    scopes: Vec<Vec<Entry>>,
}

spec fn scope_view(s: Seq<Entry>) -> ScopeV {
    s.map_values(|e: Entry| (e.name@, e.binding@))
}

impl View for Env {
    type V = Seq<ScopeV>;

    closed spec fn view(&self) -> Seq<ScopeV> {
        self.scopes@.map_values(|s: Vec<Entry>| scope_view(s@))
    }
}

/// The latest definition of `n` in one scope.
pub open spec fn scope_lookup(s: ScopeV, n: Seq<char>) -> Option<BindingV>
    decreases s.len(),
{
    if s.len() == 0 {
        None
    } else if s.last().0 == n {
        Some(s.last().1)
    } else {
        scope_lookup(s.drop_last(), n)
    }
}

/// The definition of `n` that is in force: the latest one of the innermost scope
/// that defines `n`.
pub open spec fn env_lookup(env: Seq<ScopeV>, n: Seq<char>) -> Option<BindingV>
    decreases env.len(),
{
    if env.len() == 0 {
        None
    } else {
        match scope_lookup(env.last(), n) {
            Some(b) => Some(b),
            None => env_lookup(env.drop_last(), n),
        }
    }
}

/// The scopes after defining `n` in the innermost one.
pub open spec fn env_define(env: Seq<ScopeV>, n: Seq<char>, b: BindingV) -> Seq<ScopeV> {
    env.update(env.len() - 1, env.last().push((n, b)))
}

/// The scopes of a fresh environment: one empty scope.
pub open spec fn env_fresh() -> Seq<ScopeV> {
    seq![Seq::empty()]
}

impl Env {
    pub fn new() -> (e: Env)
        ensures
            e@ == env_fresh(),
    {
        let mut scopes: Vec<Vec<Entry>> = Vec::new();
        scopes.push(Vec::new());
        let e = Env { scopes };
        assert(scope_view(Seq::<Entry>::empty()) =~= Seq::empty());
        assert(e@ =~= env_fresh());
        e
    }

    /// Opens an inner scope.
    pub fn push_scope(&mut self)
        ensures
            final(self)@ == old(self)@.push(Seq::empty()),
    {
        self.scopes.push(Vec::new());
        assert(scope_view(Seq::<Entry>::empty()) =~= Seq::empty());
        assert(self@ =~= old(self)@.push(Seq::empty()));
    }

    /// Closes the innermost scope; the outermost one is never closed.
    pub fn pop_scope(&mut self)
        requires
            old(self)@.len() >= 2,
        ensures
            final(self)@ == old(self)@.drop_last(),
    {
        self.scopes.pop();
        assert(self@ =~= old(self)@.drop_last());
    }

    /// Defines `name` in the innermost scope; it hides earlier definitions of the name.
    pub fn define(&mut self, name: String, binding: VarBinding)
        requires
            old(self)@.len() >= 1,
        ensures
            final(self)@ == env_define(old(self)@, name@, binding@),
    {
        let mut scope = self.scopes.pop().unwrap();
        let ghost before = scope@;
        scope.push(Entry { name, binding });
        assert(scope_view(scope@) =~= scope_view(before).push((name@, binding@)));
        self.scopes.push(scope);
        assert(self@ =~= env_define(old(self)@, name@, binding@));
    }

    /// The binding of `name` that is in force.
    pub fn lookup(&self, name: &str) -> (r: Option<&VarBinding>)
        ensures
            match r {
                Some(b) => env_lookup(self@, name@) == Some(b@),
                None => env_lookup(self@, name@) is None,
            },
    {
        let mut i = self.scopes.len();
        assert(self@.take(i as int) =~= self@);
        while i > 0
            invariant
                i <= self.scopes.len(),
                self@.len() == self.scopes@.len(),
                forall|k: int| 0 <= k < self@.len() ==> #[trigger] self@[k] == scope_view(self.scopes@[k]@),
                env_lookup(self@, name@) == env_lookup(self@.take(i as int), name@),
            decreases i,
        {
            let scope = &self.scopes[i - 1];
            assert(self@.take(i as int).drop_last() =~= self@.take(i - 1));
            assert(self@.take(i as int).last() == self@[i - 1]);
            match scope_find(scope, name) {
                Some(j) => {
                    return Some(&scope[j].binding);
                },
                None => {},
            }
            i -= 1;
        }
        None
    }
}

/// The position of the latest definition of `name` in one scope.
fn scope_find(scope: &Vec<Entry>, name: &str) -> (r: Option<usize>)
    ensures
        match r {
            Some(j) => j < scope.len() && scope_lookup(scope_view(scope@), name@) == Some(scope@[j as int].binding@),
            None => scope_lookup(scope_view(scope@), name@) is None,
        },
{
    let mut j = scope.len();
    assert(scope_view(scope@).take(j as int) =~= scope_view(scope@));
    while j > 0
        invariant
            j <= scope.len(),
            scope_lookup(scope_view(scope@), name@) == scope_lookup(scope_view(scope@).take(j as int), name@),
        decreases j,
    {
        assert(scope_view(scope@).take(j as int).drop_last() =~= scope_view(scope@).take(j - 1));
        if text_eq(scope[j - 1].name.as_str(), name) {
            return Some(j - 1);
        }
        j -= 1;
    }
    None
}

/// A definition is found by the next lookup of its name.
pub proof fn lemma_lookup_after_define(env: Seq<ScopeV>, n: Seq<char>, b: BindingV)
    requires
        env.len() >= 1,
    ensures
        env_lookup(env_define(env, n, b), n) == Some(b),
{
    let e2 = env_define(env, n, b);
    assert(e2.last() == env.last().push((n, b)));
}

/// Defining one name leaves the lookup of every other name unchanged.
pub proof fn lemma_define_other(env: Seq<ScopeV>, n: Seq<char>, b: BindingV, m: Seq<char>)
    requires
        env.len() >= 1,
        m != n,
    ensures
        env_lookup(env_define(env, n, b), m) == env_lookup(env, m),
{
    let e2 = env_define(env, n, b);
    assert(e2.last().drop_last() =~= env.last());
    assert(e2.drop_last() =~= env.drop_last());
}

/// Closing a scope right after opening it gives back the scopes as they were, and
/// an empty inner scope changes no lookup.
pub proof fn lemma_push_pop(env: Seq<ScopeV>, n: Seq<char>)
    ensures
        env.push(Seq::empty()).drop_last() == env,
        env_lookup(env.push(Seq::empty()), n) == env_lookup(env, n),
{
    assert(env.push(Seq::empty()).drop_last() =~= env);
}

/// A name bound in an inner scope is gone once that scope closes: the scopes are
/// those from before the scope was opened.
pub proof fn lemma_scope_binding_dropped(env: Seq<ScopeV>, n: Seq<char>, b: BindingV)
    ensures
        env_define(env.push(Seq::empty()), n, b).drop_last() == env,
{
    assert(env_define(env.push(Seq::empty()), n, b).drop_last() =~= env);
}

} // verus!
