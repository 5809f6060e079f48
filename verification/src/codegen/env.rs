//! The scopes of local variables while a body is generated: each name is bound to
//! its storage (of whatever kind the generator uses) and its type.

use vstd::prelude::*;

use crate::lexer::token::text_eq;
use crate::sema::types::{SemaType, SemaTypeV};

verus! {

/// A local variable: its name, its storage and its type.
pub struct CgEntry<P> {
    pub name: String,
    pub value: P,
    pub ty: SemaType,
}

pub struct CgEnv<P> {
    scopes: Vec<Vec<CgEntry<P>>>,
}

pub type CgScopeV<P> = Seq<(Seq<char>, P, SemaTypeV)>;

spec fn cg_scope_view<P>(s: Seq<CgEntry<P>>) -> CgScopeV<P> {
    s.map_values(|e: CgEntry<P>| (e.name@, e.value, e.ty@))
}

impl<P> View for CgEnv<P> {
    type V = Seq<CgScopeV<P>>;

    closed spec fn view(&self) -> Seq<CgScopeV<P>> {
        self.scopes@.map_values(|s: Vec<CgEntry<P>>| cg_scope_view(s@))
    }
}

/// The latest binding of `n` in one scope.
pub open spec fn cg_scope_lookup<P>(s: CgScopeV<P>, n: Seq<char>) -> Option<(P, SemaTypeV)>
    decreases s.len(),
{
    if s.len() == 0 {
        None
    } else if s.last().0 == n {
        Some((s.last().1, s.last().2))
    } else {
        cg_scope_lookup(s.drop_last(), n)
    }
}

/// The binding of `n` in force: the latest one of the innermost scope binding it.
pub open spec fn cg_lookup<P>(env: Seq<CgScopeV<P>>, n: Seq<char>) -> Option<(P, SemaTypeV)>
    decreases env.len(),
{
    if env.len() == 0 {
        None
    } else {
        match cg_scope_lookup(env.last(), n) {
            Some(b) => Some(b),
            None => cg_lookup(env.drop_last(), n),
        }
    }
}

impl<P> CgEnv<P> {
    pub fn new() -> (e: CgEnv<P>)
        ensures
            e@ == seq![Seq::<(Seq<char>, P, SemaTypeV)>::empty()],
    {
        let mut scopes: Vec<Vec<CgEntry<P>>> = Vec::new();
        scopes.push(Vec::new());
        let e = CgEnv { scopes };
        assert(cg_scope_view(Seq::<CgEntry<P>>::empty()) =~= Seq::empty());
        assert(e@ =~= seq![Seq::<(Seq<char>, P, SemaTypeV)>::empty()]);
        e
    }

    pub fn push_scope(&mut self)
        ensures
            final(self)@ == old(self)@.push(Seq::empty()),
    {
        self.scopes.push(Vec::new());
        assert(cg_scope_view(Seq::<CgEntry<P>>::empty()) =~= Seq::empty());
        assert(self@ =~= old(self)@.push(Seq::empty()));
    }

    pub fn pop_scope(&mut self)
        ensures
            final(self)@ == if old(self)@.len() > 0 { old(self)@.drop_last() } else { old(self)@ },
    {
        self.scopes.pop();
        assert(self@ =~= if old(self)@.len() > 0 { old(self)@.drop_last() } else { old(self)@ });
    }

    /// Binds `name` in the innermost scope; it hides earlier bindings of the name.
    pub fn define(&mut self, name: String, value: P, ty: SemaType)
        requires
            old(self)@.len() >= 1,
        ensures
            final(self)@ == cg_define(old(self)@, name@, value, ty@),
    {
        let mut scope = self.scopes.pop().unwrap();
        let ghost before = scope@;
        let ghost entry = (name@, value, ty@);
        scope.push(CgEntry { name, value, ty });
        assert(cg_scope_view(scope@) =~= cg_scope_view(before).push(entry));
        self.scopes.push(scope);
        assert(self@ =~= old(self)@.update(old(self)@.len() - 1, old(self)@.last().push(entry)));
    }

    /// The binding of `name` in force.
    pub fn lookup(&self, name: &str) -> (r: Option<&CgEntry<P>>)
        ensures
            match r {
                Some(e) => cg_lookup(self@, name@) == Some((e.value, e.ty@)),
                None => cg_lookup(self@, name@) is None,
            },
    {
        let mut i = self.scopes.len();
        assert(self@.take(i as int) =~= self@);
        while i > 0
            invariant
                i <= self.scopes.len(),
                self@.len() == self.scopes@.len(),
                forall|k: int| 0 <= k < self@.len() ==> #[trigger] self@[k] == cg_scope_view(self.scopes@[k]@),
                cg_lookup(self@, name@) == cg_lookup(self@.take(i as int), name@),
            decreases i,
        {
            let scope = &self.scopes[i - 1];
            assert(self@.take(i as int).drop_last() =~= self@.take(i - 1));
            assert(self@.take(i as int).last() == self@[i - 1]);
            match cg_scope_find(scope, name) {
                Some(j) => {
                    return Some(&scope[j]);
                },
                None => {},
            }
            i -= 1;
        }
        None
    }
}

fn cg_scope_find<P>(scope: &Vec<CgEntry<P>>, name: &str) -> (r: Option<usize>)
    ensures
        match r {
            Some(j) => j < scope.len() && cg_scope_lookup(cg_scope_view(scope@), name@) == Some(
                (scope@[j as int].value, scope@[j as int].ty@),
            ),
            None => cg_scope_lookup(cg_scope_view(scope@), name@) is None,
        },
{
    let mut j = scope.len();
    assert(cg_scope_view(scope@).take(j as int) =~= cg_scope_view(scope@));
    while j > 0
        invariant
            j <= scope.len(),
            cg_scope_lookup(cg_scope_view(scope@), name@) == cg_scope_lookup(cg_scope_view(scope@).take(j as int), name@),
        decreases j,
    {
        assert(cg_scope_view(scope@).take(j as int).drop_last() =~= cg_scope_view(scope@).take(j - 1));
        if text_eq(scope[j - 1].name.as_str(), name) {
            return Some(j - 1);
        }
        j -= 1;
    }
    None
}

/// The scopes after `define(n, v, t)` on scopes `env`.
pub open spec fn cg_define<P>(env: Seq<CgScopeV<P>>, n: Seq<char>, v: P, t: SemaTypeV) -> Seq<CgScopeV<P>> {
    env.update(env.len() - 1, env.last().push((n, v, t)))
}

/// A variable is found, with its storage and type, by the next lookup of its name.
pub proof fn lemma_cg_lookup_after_define<P>(env: Seq<CgScopeV<P>>, n: Seq<char>, v: P, t: SemaTypeV)
    requires
        env.len() >= 1,
    ensures
        cg_lookup(cg_define(env, n, v, t), n) == Some((v, t)),
{
    let e2 = cg_define(env, n, v, t);
    assert(e2.last() == env.last().push((n, v, t)));
}

/// Defining one variable leaves the lookup of every other name unchanged.
pub proof fn lemma_cg_define_other<P>(env: Seq<CgScopeV<P>>, n: Seq<char>, v: P, t: SemaTypeV, m: Seq<char>)
    requires
        env.len() >= 1,
        m != n,
    ensures
        cg_lookup(cg_define(env, n, v, t), m) == cg_lookup(env, m),
{
    let e2 = cg_define(env, n, v, t);
    assert(e2.last().drop_last() =~= env.last());
    assert(e2.drop_last() =~= env.drop_last());
}

/// What a block declares is gone when its scope closes: opening a scope, declaring
/// in it and closing it gives back the scopes as they were.
pub proof fn lemma_cg_scope_closes<P>(env: Seq<CgScopeV<P>>, n: Seq<char>, v: P, t: SemaTypeV)
    ensures
        cg_define(env.push(Seq::empty()), n, v, t).drop_last() == env,
{
    assert(cg_define(env.push(Seq::empty()), n, v, t).drop_last() =~= env);
}

} // verus!
