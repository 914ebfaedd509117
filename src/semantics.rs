use vstd::prelude::*;

use crate::model::{
    child, lookup_binding, lookup_func, store_binding, store_func, EnvM, ExprM, FuncM, Op, StmtM,
};
use crate::val::Val;

verus! {

/// How many nested evaluation steps the evaluator takes before it gives up.
pub const MAX_DEPTH: u32 = 1000;

pub open spec fn not_numbers_msg() -> Seq<char> {
    "cannot evaluate operation whose left-hand side and right-hand side are not both numbers"@
}

pub open spec fn depth_msg() -> Seq<char> {
    "evaluation nested too deeply"@
}

pub open spec fn overflow_msg() -> Seq<char> {
    "arithmetic overflow"@
}

pub open spec fn div_zero_msg() -> Seq<char> {
    "attempt to divide by zero"@
}

pub open spec fn binding_missing_msg(name: Seq<char>) -> Seq<char> {
    "binding with name '"@ + name + "' does not exist"@
}

pub open spec fn func_missing_msg(name: Seq<char>) -> Seq<char> {
    "function with name '"@ + name + "' does not exist"@
}

pub open spec fn arity_msg(name: Seq<char>) -> Seq<char> {
    "wrong number of arguments to function '"@ + name + "'"@
}

pub open spec fn abs(x: int) -> int {
    if x < 0 {
        -x
    } else {
        x
    }
}

/// Integer division rounding toward zero.
pub open spec fn trunc_div(x: int, y: int) -> int {
    if (x < 0) == (y < 0) {
        abs(x) / abs(y)
    } else {
        -(abs(x) / abs(y))
    }
}

/// The exact result of `x op y`, before it is fitted into an `i32`.
pub open spec fn op_value(op: Op, x: int, y: int) -> int {
    match op {
        Op::Add => x + y,
        Op::Sub => x - y,
        Op::Mul => x * y,
        Op::Div => trunc_div(x, y),
    }
}

/// `x op y` as a value, or why there is none.
pub open spec fn apply_op(op: Op, x: i32, y: i32) -> Result<Val, Seq<char>> {
    if op == Op::Div && y == 0 {
        Err(div_zero_msg())
    } else if i32::MIN <= op_value(op, x as int, y as int) <= i32::MAX {
        Ok(Val::Number(op_value(op, x as int, y as int) as i32))
    } else {
        Err(overflow_msg())
    }
}

/// `env` with each parameter name bound, in order, to its value.
pub open spec fn bind_params(env: EnvM, params: Seq<Seq<char>>, vals: Seq<Val>) -> EnvM
    decreases params.len(),
{
    if params.len() == 0 || vals.len() == 0 {
        env
    } else {
        store_binding(
            bind_params(env, params.drop_last(), vals.drop_last()),
            params.last(),
            vals.last(),
        )
    }
}

/// The value of an expression in `env`, with at most `fuel` nested steps.
pub open spec fn eval_expr(e: ExprM, env: EnvM, fuel: nat) -> Result<Val, Seq<char>>
    decreases fuel, 0nat,
{
    if fuel == 0 {
        Err(depth_msg())
    } else {
        let f = (fuel - 1) as nat;
        match e {
            ExprM::Number(n) => Ok(Val::Number(n)),
            ExprM::Operation { lhs, rhs, op } => match eval_expr(*lhs, env, f) {
                Err(m) => Err(m),
                Ok(a) => match eval_expr(*rhs, env, f) {
                    Err(m) => Err(m),
                    Ok(b) => match (a, b) {
                        (Val::Number(x), Val::Number(y)) => apply_op(op, x, y),
                        _ => Err(not_numbers_msg()),
                    },
                },
            },
            ExprM::BindingUsage(name) => eval_binding_usage(name, env, f),
            ExprM::Block(stmts) => eval_block(stmts, env, f),
            ExprM::FuncCall(callee, args) => eval_call(callee, args, env, f),
        }
    }
}

/// A name used as a value: its binding, or else a call of a function of that
/// name without parameters.
pub open spec fn eval_binding_usage(name: Seq<char>, env: EnvM, fuel: nat) -> Result<
    Val,
    Seq<char>,
>
    decreases fuel, 2nat,
{
    match lookup_binding(env, name) {
        Some(v) => Ok(v),
        None => match lookup_func(env, name) {
            Some(func) => if func.params.len() == 0 {
                eval_call(name, seq![], env, fuel)
            } else {
                Err(binding_missing_msg(name))
            },
            None => Err(binding_missing_msg(name)),
        },
    }
}

/// A block: its statements in a fresh inner scope; the last one's value.
pub open spec fn eval_block(stmts: Seq<StmtM>, env: EnvM, fuel: nat) -> Result<Val, Seq<char>>
    decreases fuel, stmts.len() + 1,
{
    eval_stmts(stmts, child(env), fuel).1
}

/// A call: the arguments evaluated in the caller's environment, then the body
/// evaluated in a fresh inner scope that binds the parameters.
pub open spec fn eval_call(callee: Seq<char>, args: Seq<ExprM>, env: EnvM, fuel: nat) -> Result<
    Val,
    Seq<char>,
>
    decreases fuel, args.len() + 1,
{
    match lookup_func(env, callee) {
        None => Err(func_missing_msg(callee)),
        Some(func) => if func.params.len() != args.len() {
            Err(arity_msg(callee))
        } else {
            match eval_args(args, env, fuel) {
                Err(m) => Err(m),
                Ok(vals) => eval_stmt(func.body, bind_params(child(env), func.params, vals), fuel).1,
            }
        },
    }
}

/// The values of the arguments, left to right; the first failure ends it.
pub open spec fn eval_args(args: Seq<ExprM>, env: EnvM, fuel: nat) -> Result<Seq<Val>, Seq<char>>
    decreases fuel, args.len(),
{
    if args.len() == 0 {
        Ok(seq![])
    } else {
        match eval_args(args.drop_last(), env, fuel) {
            Err(m) => Err(m),
            Ok(vals) => match eval_expr(args.last(), env, fuel) {
                Err(m) => Err(m),
                Ok(v) => Ok(vals.push(v)),
            },
        }
    }
}

/// Statements in order, each in the environment the previous ones left; the
/// environment after them and the last value (unit when there is none).
pub open spec fn eval_stmts(stmts: Seq<StmtM>, env: EnvM, fuel: nat) -> (EnvM, Result<
    Val,
    Seq<char>,
>)
    decreases fuel, stmts.len(),
{
    if stmts.len() == 0 {
        (env, Ok(Val::Unit))
    } else {
        let (env1, r) = eval_stmts(stmts.drop_last(), env, fuel);
        match r {
            Err(m) => (env1, Err(m)),
            Ok(_) => eval_stmt(stmts.last(), env1, fuel),
        }
    }
}

/// A statement: the environment it leaves and its value.
pub open spec fn eval_stmt(s: StmtM, env: EnvM, fuel: nat) -> (EnvM, Result<Val, Seq<char>>)
    decreases fuel, 0nat,
{
    if fuel == 0 {
        (env, Err(depth_msg()))
    } else {
        let f = (fuel - 1) as nat;
        match s {
            StmtM::BindingDef(name, e) => match eval_expr(e, env, f) {
                Ok(v) => (store_binding(env, name, v), Ok(Val::Unit)),
                Err(m) => (env, Err(m)),
            },
            StmtM::FuncDef(name, params, body) => (
                store_func(env, name, FuncM { params, body: *body }),
                Ok(Val::Unit),
            ),
            StmtM::Expr(e) => (env, eval_expr(e, env, f)),
        }
    }
}

/// A result whose error is a string, in mathematical form.
pub open spec fn result_view(r: Result<Val, String>) -> Result<Val, Seq<char>> {
    match r {
        Ok(v) => Ok(v),
        Err(m) => Err(m@),
    }
}

/// A statement changes only the innermost scope.
pub proof fn lemma_eval_stmt_frame(s: StmtM, env: EnvM, fuel: nat)
    requires
        env.len() > 0,
    ensures
        eval_stmt(s, env, fuel).0.len() == env.len(),
        eval_stmt(s, env, fuel).0.drop_last() == env.drop_last(),
{
    assert(eval_stmt(s, env, fuel).0.drop_last() =~= env.drop_last());
}

/// A sequence of statements changes only the innermost scope.
pub proof fn lemma_eval_stmts_frame(stmts: Seq<StmtM>, env: EnvM, fuel: nat)
    requires
        env.len() > 0,
    ensures
        eval_stmts(stmts, env, fuel).0.len() == env.len(),
        eval_stmts(stmts, env, fuel).0.drop_last() == env.drop_last(),
    decreases stmts.len(),
{
    if stmts.len() > 0 {
        lemma_eval_stmts_frame(stmts.drop_last(), env, fuel);
        let env1 = eval_stmts(stmts.drop_last(), env, fuel).0;
        lemma_eval_stmt_frame(stmts.last(), env1, fuel);
    }
}

/// Binding parameters changes only the innermost scope.
pub proof fn lemma_bind_params_frame(env: EnvM, params: Seq<Seq<char>>, vals: Seq<Val>)
    requires
        env.len() > 0,
    ensures
        bind_params(env, params, vals).len() == env.len(),
        bind_params(env, params, vals).drop_last() == env.drop_last(),
    decreases params.len(),
{
    if params.len() > 0 && vals.len() > 0 {
        lemma_bind_params_frame(env, params.drop_last(), vals.drop_last());
        let e1 = bind_params(env, params.drop_last(), vals.drop_last());
        assert(store_binding(e1, params.last(), vals.last()).drop_last() =~= e1.drop_last());
    }
}

/// Once a prefix of the statements fails, the whole sequence fails the same
/// way.
pub proof fn lemma_eval_stmts_err(stmts: Seq<StmtM>, k: int, env: EnvM, fuel: nat)
    requires
        0 <= k <= stmts.len(),
        eval_stmts(stmts.take(k), env, fuel).1 is Err,
    ensures
        eval_stmts(stmts, env, fuel) == eval_stmts(stmts.take(k), env, fuel),
    decreases stmts.len() - k,
{
    if k < stmts.len() {
        assert(stmts.take(k + 1).drop_last() =~= stmts.take(k));
        lemma_eval_stmts_err(stmts, k + 1, env, fuel);
    } else {
        assert(stmts.take(k) =~= stmts);
    }
}

/// Once a prefix of the arguments fails, the whole list fails the same way.
pub proof fn lemma_eval_args_err(args: Seq<ExprM>, k: int, env: EnvM, fuel: nat)
    requires
        0 <= k <= args.len(),
        eval_args(args.take(k), env, fuel) is Err,
    ensures
        eval_args(args, env, fuel) == eval_args(args.take(k), env, fuel),
    decreases args.len() - k,
{
    if k < args.len() {
        assert(args.take(k + 1).drop_last() =~= args.take(k));
        lemma_eval_args_err(args, k + 1, env, fuel);
    } else {
        assert(args.take(k) =~= args);
    }
}

/// Evaluated arguments come one value per argument.
pub proof fn lemma_eval_args_len(args: Seq<ExprM>, env: EnvM, fuel: nat)
    ensures
        eval_args(args, env, fuel) matches Ok(vals) ==> vals.len() == args.len(),
    decreases args.len(),
{
    if args.len() > 0 {
        lemma_eval_args_len(args.drop_last(), env, fuel);
    }
}

} // verus!
