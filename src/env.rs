use vstd::prelude::*;

use crate::model::{
    empty_scope, last_of_name, lemma_map_of_absent, lemma_map_of_last, lemma_map_of_update,
    lookup_binding, lookup_func, map_of, store_binding, store_func, EnvM, FuncM, ScopeM,
};
use crate::semantics::{binding_missing_msg, func_missing_msg};
use crate::stmt::{names_view, Stmt};
use crate::val::Val;

verus! {

struct BindingEntry {
    name: String,
    val: Val,
}

struct FuncEntry {
    name: String,
    params: Vec<String>,
    body: Stmt,
}

struct Scope {
    bindings: Vec<BindingEntry>,
    funcs: Vec<FuncEntry>,
}

impl Scope {
    closed spec fn binding_entries(&self) -> Seq<(Seq<char>, Val)> {
        Seq::new(
            self.bindings@.len(),
            |i: int| (self.bindings@[i].name@, self.bindings@[i].val),
        )
    }

    closed spec fn func_entries(&self) -> Seq<(Seq<char>, FuncM)> {
        Seq::new(
            self.funcs@.len(),
            |i: int|
                (
                    self.funcs@[i].name@,
                    FuncM {
                        params: names_view(self.funcs@[i].params@),
                        body: self.funcs@[i].body@,
                    },
                ),
        )
    }

    closed spec fn view(&self) -> ScopeM {
        ScopeM { bindings: map_of(self.binding_entries()), funcs: map_of(self.func_entries()) }
    }

    fn new() -> (r: Scope)
        ensures
            r@ == empty_scope(),
    {
        let r = Scope { bindings: Vec::new(), funcs: Vec::new() };
        assert(r.binding_entries() =~= Seq::<(Seq<char>, Val)>::empty());
        assert(r.func_entries() =~= Seq::<(Seq<char>, FuncM)>::empty());
        assert(r@.bindings =~= empty_scope().bindings);
        assert(r@.funcs =~= empty_scope().funcs);
        r
    }

    fn duplicate(&self) -> (r: Scope)
        ensures
            r@ == self@,
    {
        let mut bindings: Vec<BindingEntry> = Vec::new();
        let mut i: usize = 0;
        while i < self.bindings.len()
            invariant
                i <= self.bindings@.len(),
                bindings@.len() == i,
                forall|j: int|
                    0 <= j < i ==> (#[trigger] bindings@[j]).name@ == self.bindings@[j].name@
                        && bindings@[j].val == self.bindings@[j].val,
            decreases self.bindings@.len() - i,
        {
            let b = &self.bindings[i];
            bindings.push(BindingEntry { name: b.name.clone(), val: b.val });
            i = i + 1;
        }
        let mut funcs: Vec<FuncEntry> = Vec::new();
        let mut i: usize = 0;
        while i < self.funcs.len()
            invariant
                i <= self.funcs@.len(),
                funcs@.len() == i,
                forall|j: int|
                    0 <= j < i ==> (#[trigger] funcs@[j]).name@ == self.funcs@[j].name@
                        && names_view(funcs@[j].params@) == names_view(self.funcs@[j].params@)
                        && funcs@[j].body@ == self.funcs@[j].body@,
            decreases self.funcs@.len() - i,
        {
            let f = &self.funcs[i];
            funcs.push(
                FuncEntry {
                    name: f.name.clone(),
                    params: duplicate_names(&f.params),
                    body: f.body.duplicate(),
                },
            );
            i = i + 1;
        }
        let r = Scope { bindings, funcs };
        assert(r.binding_entries() =~= self.binding_entries());
        assert(r.func_entries() =~= self.func_entries());
        r
    }

    /// Where the binding of `name` is kept, if anywhere.
    fn find_binding(&self, name: &String) -> (r: Option<usize>)
        ensures
            r matches Some(j) ==> last_of_name(self.binding_entries(), j as int)
                && self.binding_entries()[j as int].0 == name@,
            r is None ==> forall|k: int|
                0 <= k < self.binding_entries().len() ==> #[trigger] self.binding_entries()[k].0
                    != name@,
    {
        let ghost entries = self.binding_entries();
        let mut j: usize = self.bindings.len();
        while j > 0
            invariant
                j <= self.bindings@.len(),
                entries == self.binding_entries(),
                forall|k: int| j <= k < entries.len() ==> #[trigger] entries[k].0 != name@,
            decreases j,
        {
            if self.bindings[j - 1].name == *name {
                return Some(j - 1);
            }
            j = j - 1;
        }
        None
    }

    /// Where the function `name` is kept, if anywhere.
    fn find_func(&self, name: &String) -> (r: Option<usize>)
        ensures
            r matches Some(j) ==> last_of_name(self.func_entries(), j as int)
                && self.func_entries()[j as int].0 == name@,
            r is None ==> forall|k: int|
                0 <= k < self.func_entries().len() ==> #[trigger] self.func_entries()[k].0
                    != name@,
    {
        let ghost entries = self.func_entries();
        let mut j: usize = self.funcs.len();
        while j > 0
            invariant
                j <= self.funcs@.len(),
                entries == self.func_entries(),
                forall|k: int| j <= k < entries.len() ==> #[trigger] entries[k].0 != name@,
            decreases j,
        {
            if self.funcs[j - 1].name == *name {
                return Some(j - 1);
            }
            j = j - 1;
        }
        None
    }

    /// Binds `name` to `val`, replacing an earlier binding of it.
    fn set_binding(&mut self, name: String, val: Val)
        ensures
            final(self)@ == (ScopeM {
                bindings: old(self)@.bindings.insert(name@, val),
                funcs: old(self)@.funcs,
            }),
    {
        let ghost entries = self.binding_entries();
        let ghost n = name@;
        match self.find_binding(&name) {
            Some(j) => {
                self.bindings.set(j, BindingEntry { name, val });
                proof {
                    lemma_map_of_update(entries, j as int, val);
                    assert(self.binding_entries() =~= entries.update(j as int, (n, val)));
                }
            },
            None => {
                self.bindings.push(BindingEntry { name, val });
                assert(self.binding_entries().drop_last() =~= entries);
            },
        }
        assert(self.func_entries() =~= old(self).func_entries());
    }

    /// Defines `name` as `f`, replacing an earlier definition of it.
    fn set_func(&mut self, name: String, params: Vec<String>, body: Stmt)
        ensures
            final(self)@ == (ScopeM {
                bindings: old(self)@.bindings,
                funcs: old(self)@.funcs.insert(
                    name@,
                    FuncM { params: names_view(params@), body: body@ },
                ),
            }),
    {
        let ghost entries = self.func_entries();
        let ghost n = name@;
        let ghost f = FuncM { params: names_view(params@), body: body@ };
        match self.find_func(&name) {
            Some(j) => {
                self.funcs.set(j, FuncEntry { name, params, body });
                proof {
                    lemma_map_of_update(entries, j as int, f);
                    assert(self.func_entries() =~= entries.update(j as int, (n, f)));
                }
            },
            None => {
                self.funcs.push(FuncEntry { name, params, body });
                assert(self.func_entries().drop_last() =~= entries);
            },
        }
        assert(self.binding_entries() =~= old(self).binding_entries());
    }
}

/// A copy of a list of names.
pub fn duplicate_names(v: &Vec<String>) -> (r: Vec<String>)
    ensures
        names_view(r@) == names_view(v@),
{
    let mut r: Vec<String> = Vec::new();
    let mut i: usize = 0;
    while i < v.len()
        invariant
            i <= v@.len(),
            r@.len() == i,
            forall|j: int| 0 <= j < i ==> (#[trigger] r@[j])@ == v@[j]@,
        decreases v@.len() - i,
    {
        r.push(v[i].clone());
        i = i + 1;
    }
    assert(names_view(r@) =~= names_view(v@));
    r
}

/// The names in scope during evaluation: a stack of scopes, outermost first.
/// Lookups search from the innermost scope outwards; definitions go into the
/// innermost scope.
pub struct Env {
    scopes: Vec<Scope>,
}

impl Env {
    pub closed spec fn view(&self) -> EnvM {
        Seq::new(self.scopes@.len(), |i: int| self.scopes@[i]@)
    }

    /// Every environment has at least one scope.
    pub open spec fn wf(&self) -> bool {
        self@.len() > 0
    }

    /// A copy of this environment.
    pub fn duplicate(&self) -> (r: Env)
        ensures
            r@ == self@,
    {
        let mut scopes: Vec<Scope> = Vec::new();
        let mut i: usize = 0;
        while i < self.scopes.len()
            invariant
                i <= self.scopes@.len(),
                scopes@.len() == i,
                forall|j: int| 0 <= j < i ==> (#[trigger] scopes@[j])@ == self.scopes@[j]@,
            decreases self.scopes@.len() - i,
        {
            scopes.push(self.scopes[i].duplicate());
            i = i + 1;
        }
        let r = Env { scopes };
        assert(r@ =~= self@);
        r
    }

    pub fn store_binding(&mut self, name: String, val: Val)
        requires
            old(self).wf(),
        ensures
            final(self)@ == store_binding(old(self)@, name@, val),
            final(self).wf(),
    {
        let ghost before = self@;
        let ghost n = name@;
        let mut top = self.scopes.pop().unwrap();
        top.set_binding(name, val);
        self.scopes.push(top);
        assert(self@ =~= store_binding(before, n, val));
    }

    pub fn store_func(&mut self, name: String, params: Vec<String>, body: Stmt)
        requires
            old(self).wf(),
        ensures
            final(self)@ == store_func(
                old(self)@,
                name@,
                FuncM { params: names_view(params@), body: body@ },
            ),
            final(self).wf(),
    {
        let ghost before = self@;
        let ghost f = FuncM { params: names_view(params@), body: body@ };
        let ghost n = name@;
        let mut top = self.scopes.pop().unwrap();
        top.set_func(name, params, body);
        self.scopes.push(top);
        assert(self@ =~= store_func(before, n, f));
    }

    /// Opens a fresh innermost scope.
    pub fn push_scope(&mut self)
        ensures
            final(self)@ == old(self)@.push(empty_scope()),
            final(self).wf(),
    {
        self.scopes.push(Scope::new());
        assert(self@ =~= old(self)@.push(empty_scope()));
    }

    /// Closes the innermost scope and drops what was defined in it.
    pub fn pop_scope(&mut self)
        requires
            old(self)@.len() > 1,
        ensures
            final(self)@ == old(self)@.drop_last(),
            final(self).wf(),
    {
        self.scopes.pop();
        assert(self@ =~= old(self)@.drop_last());
    }

    pub fn get_binding(&self, name: &String) -> (r: Result<Val, String>)
        ensures
            match lookup_binding(self@, name@) {
                Some(v) => r == Ok::<Val, String>(v),
                None => r matches Err(m) && m@ == binding_missing_msg(name@),
            },
    {
        let mut i: usize = self.scopes.len();
        assert(self@.subrange(0, i as int) =~= self@);
        while i > 0
            invariant
                i <= self.scopes@.len(),
                lookup_binding(self@, name@) == lookup_binding(self@.subrange(0, i as int), name@),
            decreases i,
        {
            let scope = &self.scopes[i - 1];
            assert(self@.subrange(0, i as int).drop_last() =~= self@.subrange(0, i - 1));
            assert(self@.subrange(0, i as int).last() == scope@);
            match scope.find_binding(name) {
                Some(j) => {
                    proof {
                        lemma_map_of_last(scope.binding_entries(), j as int);
                    }
                    return Ok(scope.bindings[j].val);
                },
                None => {
                    proof {
                        lemma_map_of_absent(scope.binding_entries(), name@);
                    }
                },
            }
            i = i - 1;
        }
        Err(String::from_str("binding with name '").concat(name.as_str()).concat("' does not exist"))
    }

    /// The parameters and body of the function defined as `name`, copied.
    pub fn get_func(&self, name: &String) -> (r: Result<(Vec<String>, Stmt), String>)
        ensures
            match lookup_func(self@, name@) {
                Some(f) => r matches Ok((ps, body)) && names_view(ps@) == f.params && body@
                    == f.body,
                None => r matches Err(m) && m@ == func_missing_msg(name@),
            },
    {
        let mut i: usize = self.scopes.len();
        assert(self@.subrange(0, i as int) =~= self@);
        while i > 0
            invariant
                i <= self.scopes@.len(),
                lookup_func(self@, name@) == lookup_func(self@.subrange(0, i as int), name@),
            decreases i,
        {
            let scope = &self.scopes[i - 1];
            assert(self@.subrange(0, i as int).drop_last() =~= self@.subrange(0, i - 1));
            assert(self@.subrange(0, i as int).last() == scope@);
            match scope.find_func(name) {
                Some(j) => {
                    proof {
                        lemma_map_of_last(scope.func_entries(), j as int);
                    }
                    let f = &scope.funcs[j];
                    return Ok((duplicate_names(&f.params), f.body.duplicate()));
                },
                None => {
                    proof {
                        lemma_map_of_absent(scope.func_entries(), name@);
                    }
                },
            }
            i = i - 1;
        }
        Err(
            String::from_str("function with name '").concat(name.as_str()).concat(
                "' does not exist",
            ),
        )
    }
}

impl Default for Env {
    /// An environment with one empty scope.
    fn default() -> (r: Env)
        ensures
            r@ == seq![empty_scope()],
            r.wf(),
    {
        let mut scopes: Vec<Scope> = Vec::new();
        scopes.push(Scope::new());
        let r = Env { scopes };
        assert(r@ =~= seq![empty_scope()]);
        r
    }
}

} // verus!
