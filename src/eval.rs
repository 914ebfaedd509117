use vstd::prelude::*;

use crate::env::{duplicate_names, Env};
use crate::expr::{exprs_view, Block, BindingUsage, Expr, FuncCall};
use crate::model::{child, empty_scope, ExprM, FuncM, Op, StmtM};
use crate::semantics::{
    apply_op, bind_params, eval_args, eval_binding_usage, eval_block, eval_call, eval_expr,
    eval_stmt, eval_stmts, lemma_bind_params_frame, lemma_eval_args_err, lemma_eval_args_len, lemma_eval_stmt_frame,
    lemma_eval_stmts_err, lemma_eval_stmts_frame,
    result_view, MAX_DEPTH,
};
use crate::stmt::{names_view, stmts_view, BindingDef, FuncDef, Stmt};
use crate::val::Val;

verus! {

fn depth_error() -> (r: String)
    ensures
        r@ == crate::semantics::depth_msg(),
{
    String::from_str("evaluation nested too deeply")
}

/// `x op y` in `i32` arithmetic; overflow and division by zero are errors.
pub fn apply(op: Op, x: i32, y: i32) -> (r: Result<Val, String>)
    ensures
        result_view(r) == apply_op(op, x, y),
{
    let res = match op {
        Op::Add => x.checked_add(y),
        Op::Sub => x.checked_sub(y),
        Op::Mul => x.checked_mul(y),
        Op::Div => {
            if y == 0 {
                return Err(String::from_str("attempt to divide by zero"));
            }
            x.checked_div(y)
        },
    };
    match res {
        Some(v) => Ok(Val::Number(v)),
        None => Err(String::from_str("arithmetic overflow")),
    }
}

impl Expr {
    /// Evaluates in `env` with at most `fuel` nested steps; `env` is left as
    /// it was.
    pub fn eval_in(&self, env: &mut Env, fuel: u32) -> (r: Result<Val, String>)
        requires
            old(env).wf(),
        ensures
            final(env)@ == old(env)@,
            result_view(r) == eval_expr(self@, old(env)@, fuel as nat),
        decreases fuel, 0nat,
    {
        if fuel == 0 {
            return Err(depth_error());
        }
        let f = fuel - 1;
        match self {
            Expr::Number(n) => Ok(Val::Number(n.0)),
            Expr::Operation { lhs, rhs, op } => {
                let a = match lhs.eval_in(env, f) {
                    Ok(v) => v,
                    Err(m) => return Err(m),
                };
                let b = match rhs.eval_in(env, f) {
                    Ok(v) => v,
                    Err(m) => return Err(m),
                };
                match (a, b) {
                    (Val::Number(x), Val::Number(y)) => apply(*op, x, y),
                    _ => Err(
                        String::from_str(
                            "cannot evaluate operation whose left-hand side and right-hand side are not both numbers",
                        ),
                    ),
                }
            },
            Expr::BindingUsage(b) => b.eval_in(env, f),
            Expr::Block(b) => {
                assert(self@->Block_0 =~= stmts_view(b.stmts@));
                b.eval_in(env, f)
            },
            Expr::FuncCall(c) => {
                assert(self@->FuncCall_1 =~= exprs_view(c.params@));
                c.eval_in(env, f)
            },
        }
    }

    /// The value of this expression in `env`.
    pub fn eval(&self, env: &Env) -> (r: Result<Val, String>)
        requires
            env.wf(),
        ensures
            result_view(r) == eval_expr(self@, env@, MAX_DEPTH as nat),
    {
        let mut scratch = env.duplicate();
        self.eval_in(&mut scratch, MAX_DEPTH)
    }
}

impl BindingUsage {
    pub fn eval_in(&self, env: &mut Env, fuel: u32) -> (r: Result<Val, String>)
        requires
            old(env).wf(),
        ensures
            final(env)@ == old(env)@,
            result_view(r) == eval_binding_usage(self.name@, old(env)@, fuel as nat),
        decreases fuel, 2nat,
    {
        match env.get_binding(&self.name) {
            Ok(v) => Ok(v),
            Err(m) => match env.get_func(&self.name) {
                Ok((params, _)) => {
                    if params.len() == 0 {
                        let call = FuncCall { callee: self.name.clone(), params: Vec::new() };
                        assert(exprs_view(call.params@) =~= Seq::<ExprM>::empty());
                        call.eval_in(env, fuel)
                    } else {
                        Err(m)
                    }
                },
                Err(_) => Err(m),
            },
        }
    }

    /// The value bound to this name in `env`, or the value of a call of a
    /// function of this name without parameters.
    pub fn eval(&self, env: &Env) -> (r: Result<Val, String>)
        requires
            env.wf(),
        ensures
            result_view(r) == eval_binding_usage(self.name@, env@, MAX_DEPTH as nat),
    {
        let mut scratch = env.duplicate();
        self.eval_in(&mut scratch, MAX_DEPTH)
    }
}

impl Block {
    pub fn eval_in(&self, env: &mut Env, fuel: u32) -> (r: Result<Val, String>)
        requires
            old(env).wf(),
        ensures
            final(env)@ == old(env)@,
            result_view(r) == eval_block(stmts_view(self.stmts@), old(env)@, fuel as nat),
        decreases fuel, self.stmts@.len() + 1,
    {
        env.push_scope();
        let r = eval_stmt_list(&self.stmts, env, fuel);
        proof {
            lemma_eval_stmts_frame(stmts_view(self.stmts@), child(old(env)@), fuel as nat);
        }
        env.pop_scope();
        r
    }

    /// The value of this block evaluated in a scope nested in `env`.
    pub fn eval(&self, env: &Env) -> (r: Result<Val, String>)
        requires
            env.wf(),
        ensures
            result_view(r) == eval_block(stmts_view(self.stmts@), env@, MAX_DEPTH as nat),
    {
        let mut scratch = env.duplicate();
        self.eval_in(&mut scratch, MAX_DEPTH)
    }
}

/// Evaluates the statements in order in `env`.
#[verifier::loop_isolation(false)]
fn eval_stmt_list(stmts: &Vec<Stmt>, env: &mut Env, fuel: u32) -> (r: Result<Val, String>)
    requires
        old(env).wf(),
    ensures
        (final(env)@, result_view(r)) == eval_stmts(stmts_view(stmts@), old(env)@, fuel as nat),
    decreases fuel, stmts@.len(),
{
    let ghost all = stmts_view(stmts@);
    let mut last = Val::Unit;
    let mut i: usize = 0;
    assert(all.take(0) =~= Seq::<StmtM>::empty());
    while i < stmts.len()
        invariant
            i <= stmts@.len(),
            env.wf(),
            (env@, Ok::<Val, Seq<char>>(last)) == eval_stmts(all.take(i as int), old(env)@, fuel as nat),
        decreases stmts@.len() - i,
    {
        assert(all.take(i + 1).drop_last() =~= all.take(i as int));
        match stmts[i].eval_in(env, fuel) {
            Ok(v) => last = v,
            Err(m) => {
                proof {
                    lemma_eval_stmts_err(all, i + 1, old(env)@, fuel as nat);
                }
                return Err(m);
            },
        }
        i = i + 1;
    }
    assert(all.take(i as int) =~= all);
    Ok(last)
}

/// Evaluates the arguments in order in `env`.
#[verifier::loop_isolation(false)]
fn eval_arg_list(args: &Vec<Expr>, env: &mut Env, fuel: u32) -> (r: Result<Vec<Val>, String>)
    requires
        old(env).wf(),
    ensures
        final(env)@ == old(env)@,
        match r {
            Ok(vals) => eval_args(exprs_view(args@), old(env)@, fuel as nat) == Ok::<
                Seq<Val>,
                Seq<char>,
            >(vals@),
            Err(m) => eval_args(exprs_view(args@), old(env)@, fuel as nat) == Err::<
                Seq<Val>,
                Seq<char>,
            >(m@),
        },
    decreases fuel, args@.len(),
{
    let ghost all = exprs_view(args@);
    let mut vals: Vec<Val> = Vec::new();
    let mut i: usize = 0;
    assert(all.take(0) =~= Seq::<ExprM>::empty());
    while i < args.len()
        invariant
            i <= args@.len(),
            env@ == old(env)@,
            eval_args(all.take(i as int), old(env)@, fuel as nat) == Ok::<Seq<Val>, Seq<char>>(
                vals@,
            ),
        decreases args@.len() - i,
    {
        assert(all.take(i + 1).drop_last() =~= all.take(i as int));
        match args[i].eval_in(env, fuel) {
            Ok(v) => vals.push(v),
            Err(m) => {
                proof {
                    lemma_eval_args_err(all, i + 1, old(env)@, fuel as nat);
                }
                return Err(m);
            },
        }
        i = i + 1;
    }
    assert(all.take(i as int) =~= all);
    Ok(vals)
}

impl FuncCall {
    pub fn eval_in(&self, env: &mut Env, fuel: u32) -> (r: Result<Val, String>)
        requires
            old(env).wf(),
        ensures
            final(env)@ == old(env)@,
            result_view(r) == eval_call(
                self.callee@,
                exprs_view(self.params@),
                old(env)@,
                fuel as nat,
            ),
        decreases fuel, self.params@.len() + 1,
    {
        let (names, body) = match env.get_func(&self.callee) {
            Ok(x) => x,
            Err(m) => return Err(m),
        };
        if names.len() != self.params.len() {
            return Err(
                String::from_str("wrong number of arguments to function '").concat(
                    self.callee.as_str(),
                ).concat("'"),
            );
        }
        let vals = match eval_arg_list(&self.params, env, fuel) {
            Ok(v) => v,
            Err(m) => return Err(m),
        };
        proof {
            lemma_eval_args_len(exprs_view(self.params@), env@, fuel as nat);
        }
        let ghost params = names_view(names@);
        let ghost outer = env@;
        env.push_scope();
        let mut i: usize = 0;
        assert(params.take(0) =~= Seq::<Seq<char>>::empty());
        assert(vals@.take(0) =~= Seq::<Val>::empty());
        while i < names.len()
            invariant
                i <= names@.len() == vals@.len(),
                params == names_view(names@),
                env@ == bind_params(child(outer), params.take(i as int), vals@.take(i as int)),
                env.wf(),
            decreases names@.len() - i,
        {
            assert(params.take(i + 1).drop_last() =~= params.take(i as int));
            assert(vals@.take(i + 1).drop_last() =~= vals@.take(i as int));
            env.store_binding(names[i].clone(), vals[i]);
            i = i + 1;
        }
        assert(params.take(i as int) =~= params);
        assert(vals@.take(i as int) =~= vals@);
        proof {
            lemma_bind_params_frame(child(outer), params, vals@);
            lemma_eval_stmt_frame(body@, env@, fuel as nat);
        }
        let r = body.eval_in(env, fuel);
        env.pop_scope();
        r
    }

    /// The value of this call in `env`.
    pub fn eval(&self, env: &Env) -> (r: Result<Val, String>)
        requires
            env.wf(),
        ensures
            result_view(r) == eval_call(
                self.callee@,
                exprs_view(self.params@),
                env@,
                MAX_DEPTH as nat,
            ),
    {
        let mut scratch = env.duplicate();
        self.eval_in(&mut scratch, MAX_DEPTH)
    }
}

impl BindingDef {
    /// Evaluates the bound expression and stores its value under the name.
    pub fn eval_in(&self, env: &mut Env, fuel: u32) -> (r: Result<(), String>)
        requires
            old(env).wf(),
        ensures
            final(env).wf(),
            match eval_expr(self.val@, old(env)@, fuel as nat) {
                Ok(v) => r is Ok && final(env)@ == crate::model::store_binding(
                    old(env)@,
                    self.name@,
                    v,
                ),
                Err(m) => r matches Err(e) && e@ == m && final(env)@ == old(env)@,
            },
        decreases fuel, 1nat,
    {
        let v = match self.val.eval_in(env, fuel) {
            Ok(v) => v,
            Err(m) => return Err(m),
        };
        env.store_binding(self.name.clone(), v);
        Ok(())
    }
}

impl FuncDef {
    /// Stores this function under its name.
    pub fn eval(&self, env: &mut Env)
        requires
            old(env).wf(),
        ensures
            final(env).wf(),
            final(env)@ == crate::model::store_func(
                old(env)@,
                self.name@,
                FuncM { params: names_view(self.params@), body: self.body@ },
            ),
    {
        env.store_func(self.name.clone(), duplicate_names(&self.params), self.body.duplicate());
    }
}

impl Stmt {
    pub fn eval_in(&self, env: &mut Env, fuel: u32) -> (r: Result<Val, String>)
        requires
            old(env).wf(),
        ensures
            final(env).wf(),
            (final(env)@, result_view(r)) == eval_stmt(self@, old(env)@, fuel as nat),
        decreases fuel, 0nat,
    {
        if fuel == 0 {
            return Err(depth_error());
        }
        let f = fuel - 1;
        match self {
            Stmt::BindingDef(d) => match d.eval_in(env, f) {
                Ok(()) => Ok(Val::Unit),
                Err(m) => Err(m),
            },
            Stmt::FuncDef(d) => {
                d.eval(env);
                Ok(Val::Unit)
            },
            Stmt::Expr(e) => e.eval_in(env, f),
        }
    }

    /// Evaluates this statement in `env`: a declaration is stored there and
    /// gives unit; an expression gives its value.
    pub fn eval(&self, env: &mut Env) -> (r: Result<Val, String>)
        requires
            old(env).wf(),
        ensures
            final(env).wf(),
            (final(env)@, result_view(r)) == eval_stmt(self@, old(env)@, MAX_DEPTH as nat),
    {
        self.eval_in(env, MAX_DEPTH)
    }
}

} // verus!
