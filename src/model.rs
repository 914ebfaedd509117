use vstd::prelude::*;

use crate::val::Val;

verus! {

/// The binary operators.
#[derive(Debug, Clone, Copy, PartialEq, Eq, Structural)]
pub enum Op {
    Add,
    Sub,
    Mul,
    Div,
}

/// Mathematical form of an expression tree.
pub enum ExprM {
    Number(i32),
    Operation { lhs: Box<ExprM>, rhs: Box<ExprM>, op: Op },
    BindingUsage(Seq<char>),
    Block(Seq<StmtM>),
    FuncCall(Seq<char>, Seq<ExprM>),
}

/// Mathematical form of a statement.
pub enum StmtM {
    BindingDef(Seq<char>, ExprM),
    FuncDef(Seq<char>, Seq<Seq<char>>, Box<StmtM>),
    Expr(ExprM),
}

/// A function as an environment records it.
pub struct FuncM {
    pub params: Seq<Seq<char>>,
    pub body: StmtM,
}

/// One level of scope: bindings and functions, each keyed by name.
pub struct ScopeM {
    pub bindings: Map<Seq<char>, Val>,
    pub funcs: Map<Seq<char>, FuncM>,
}

/// An environment: its scopes, outermost first.
pub type EnvM = Seq<ScopeM>;

pub open spec fn empty_scope() -> ScopeM {
    ScopeM { bindings: Map::empty(), funcs: Map::empty() }
}

/// The mapping that a list of named entries stands for: a later entry of a
/// name replaces an earlier one.
pub open spec fn map_of<T>(entries: Seq<(Seq<char>, T)>) -> Map<Seq<char>, T>
    decreases entries.len(),
{
    if entries.len() == 0 {
        Map::empty()
    } else {
        map_of(entries.drop_last()).insert(entries.last().0, entries.last().1)
    }
}

/// The value bound to `name`, searching from the innermost scope outwards.
pub open spec fn lookup_binding(env: EnvM, name: Seq<char>) -> Option<Val>
    decreases env.len(),
{
    if env.len() == 0 {
        None
    } else if env.last().bindings.contains_key(name) {
        Some(env.last().bindings[name])
    } else {
        lookup_binding(env.drop_last(), name)
    }
}

/// The function defined as `name`, searching from the innermost scope outwards.
pub open spec fn lookup_func(env: EnvM, name: Seq<char>) -> Option<FuncM>
    decreases env.len(),
{
    if env.len() == 0 {
        None
    } else if env.last().funcs.contains_key(name) {
        Some(env.last().funcs[name])
    } else {
        lookup_func(env.drop_last(), name)
    }
}

/// `env` with `name` bound to `v` in its innermost scope, replacing what was
/// bound to it there.
pub open spec fn store_binding(env: EnvM, name: Seq<char>, v: Val) -> EnvM {
    let top = env.last();
    env.update(
        env.len() - 1,
        ScopeM { bindings: top.bindings.insert(name, v), funcs: top.funcs },
    )
}

/// `env` with `name` defined as `f` in its innermost scope, replacing what was
/// defined as it there.
pub open spec fn store_func(env: EnvM, name: Seq<char>, f: FuncM) -> EnvM {
    let top = env.last();
    env.update(
        env.len() - 1,
        ScopeM { bindings: top.bindings, funcs: top.funcs.insert(name, f) },
    )
}

/// In a list of named entries, the entry at `j` is the last of its name.
pub open spec fn last_of_name<T>(entries: Seq<(Seq<char>, T)>, j: int) -> bool {
    0 <= j < entries.len() && forall|k: int| j < k < entries.len() ==> #[trigger] entries[k].0
        != entries[j].0
}

/// The last entry of a name gives the mapping's value for it.
pub proof fn lemma_map_of_last<T>(entries: Seq<(Seq<char>, T)>, j: int)
    requires
        last_of_name(entries, j),
    ensures
        map_of(entries).contains_key(entries[j].0),
        map_of(entries)[entries[j].0] == entries[j].1,
    decreases entries.len(),
{
    if j < entries.len() - 1 {
        lemma_map_of_last(entries.drop_last(), j);
    }
}

/// A name no entry has is not in the mapping.
pub proof fn lemma_map_of_absent<T>(entries: Seq<(Seq<char>, T)>, name: Seq<char>)
    requires
        forall|k: int| 0 <= k < entries.len() ==> #[trigger] entries[k].0 != name,
    ensures
        !map_of(entries).contains_key(name),
    decreases entries.len(),
{
    if entries.len() > 0 {
        lemma_map_of_absent(entries.drop_last(), name);
    }
}

/// Replacing the last entry of a name replaces the mapping's value for it.
pub proof fn lemma_map_of_update<T>(entries: Seq<(Seq<char>, T)>, j: int, v: T)
    requires
        last_of_name(entries, j),
    ensures
        map_of(entries.update(j, (entries[j].0, v))) == map_of(entries).insert(entries[j].0, v),
    decreases entries.len(),
{
    let n = entries[j].0;
    let updated = entries.update(j, (n, v));
    if j == entries.len() - 1 {
        assert(updated.drop_last() =~= entries.drop_last());
        assert(map_of(updated) =~= map_of(entries).insert(n, v));
    } else {
        lemma_map_of_update(entries.drop_last(), j, v);
        assert(updated.drop_last() =~= entries.drop_last().update(j, (n, v)));
        assert(map_of(updated) =~= map_of(entries).insert(n, v));
    }
}

/// `env` with a fresh innermost scope.
pub open spec fn child(env: EnvM) -> EnvM {
    env.push(empty_scope())
}

} // verus!
