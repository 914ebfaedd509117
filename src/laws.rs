use vstd::prelude::*;

use crate::evaluation;
use crate::grammar::{
    digits_value, parse_expr, parse_non_operation, parse_number, parse_op, parse_operation,
    parse_stmt, ws,
};
use crate::model::{
    child, empty_scope, lookup_binding, lookup_func, store_binding, store_func, EnvM, ExprM, FuncM,
    Op, StmtM,
};
use crate::semantics::{
    apply_op, binding_missing_msg, bind_params, eval_args, eval_binding_usage, eval_call,
    eval_expr, eval_stmt,
    not_numbers_msg, op_value, MAX_DEPTH,
};
use crate::utils::{in_class, lemma_run_len, run_len, tag_rest, CharClass};
use crate::val::Val;

verus! {

/// The decimal digit for `d`.
pub open spec fn digit_char(d: nat) -> char {
    if d == 0 {
        '0'
    } else if d == 1 {
        '1'
    } else if d == 2 {
        '2'
    } else if d == 3 {
        '3'
    } else if d == 4 {
        '4'
    } else if d == 5 {
        '5'
    } else if d == 6 {
        '6'
    } else if d == 7 {
        '7'
    } else if d == 8 {
        '8'
    } else {
        '9'
    }
}

/// The decimal numeral of `n`, without leading zeros.
pub open spec fn decimal(n: nat) -> Seq<char>
    decreases n,
{
    if n < 10 {
        seq![digit_char(n)]
    } else {
        decimal(n / 10).push(digit_char(n % 10))
    }
}

/// The character that writes `op`.
pub open spec fn op_char(op: Op) -> char {
    match op {
        Op::Add => '+',
        Op::Sub => '-',
        Op::Mul => '*',
        Op::Div => '/',
    }
}

/// A decimal numeral is a non-empty run of digits whose value is the number.
pub proof fn lemma_decimal(n: nat)
    ensures
        decimal(n).len() >= 1,
        forall|i: int| 0 <= i < decimal(n).len() ==> in_class(#[trigger] decimal(n)[i], CharClass::Digit),
        digits_value(decimal(n)) == n,
    decreases n,
{
    assert(digit_char(n % 10) as int - '0' as int == n % 10);
    if n < 10 {
        assert(decimal(n).drop_last() =~= Seq::<char>::empty());
        assert(n % 10 == n);
        assert(digits_value(decimal(n)) == digits_value(decimal(n).drop_last()) * 10 + (
        decimal(n).last() as int - '0' as int));
    } else {
        lemma_decimal(n / 10);
        assert(decimal(n).drop_last() =~= decimal(n / 10));
        assert(n == (n / 10) * 10 + n % 10) by (nonlinear_arith);
        assert(digits_value(decimal(n)) == digits_value(decimal(n).drop_last()) * 10 + (
        decimal(n).last() as int - '0' as int));
        assert(decimal(n).last() == digit_char(n % 10));
        assert forall|i: int| 0 <= i < decimal(n).len() implies in_class(
            #[trigger] decimal(n)[i],
            CharClass::Digit,
        ) by {
            if i < decimal(n).len() - 1 {
                assert(decimal(n)[i] == decimal(n / 10)[i]);
            }
        }
    }
}

/// A run of digits followed by a non-digit parses as the number it writes.
proof fn lemma_number_prefix(d: Seq<char>, t: Seq<char>)
    requires
        d.len() >= 1,
        forall|i: int| 0 <= i < d.len() ==> in_class(#[trigger] d[i], CharClass::Digit),
        digits_value(d) <= i32::MAX,
        t.len() == 0 || !in_class(t[0], CharClass::Digit),
    ensures
        parse_number(d + t) == Some((t, digits_value(d) as i32)),
        parse_non_operation(d + t) == Some((t, ExprM::Number(digits_value(d) as i32))),
{
    let s = d + t;
    assert forall|j: int| 0 <= j < d.len() implies in_class(#[trigger] s[j], CharClass::Digit) by {
        assert(s[j] == d[j]);
    }
    if t.len() > 0 {
        assert(s[d.len() as int] == t[0]);
    }
    lemma_run_len(CharClass::Digit, s, d.len());
    assert(s.subrange(0, d.len() as int) =~= d);
    assert(s.subrange(d.len() as int, s.len() as int) =~= t);
}

/// Leading whitespace followed by a non-whitespace character is skipped.
proof fn lemma_ws_prefix(w: Seq<char>, t: Seq<char>)
    requires
        forall|i: int| 0 <= i < w.len() ==> in_class(#[trigger] w[i], CharClass::Whitespace),
        t.len() > 0,
        !in_class(t[0], CharClass::Whitespace),
    ensures
        ws(w + t) == t,
{
    let s = w + t;
    assert forall|j: int| 0 <= j < w.len() implies in_class(
        #[trigger] s[j],
        CharClass::Whitespace,
    ) by {
        assert(s[j] == w[j]);
    }
    assert(s[w.len() as int] == t[0]);
    lemma_run_len(CharClass::Whitespace, s, w.len());
    assert(s.subrange(w.len() as int, s.len() as int) =~= t);
}

/// Evaluating `a op b`, written with any whitespace around the operator,
/// gives `op` applied to `a` and `b` with `i32` semantics: exact for `+`, `-`
/// and `*`, truncating toward zero for `/`. The numbers are written as decimal
/// numerals, so they are not negative; the divisor is not zero and the result
/// fits in an `i32`.
pub proof fn lemma_evaluate_operation(a: i32, b: i32, op: Op, w1: Seq<char>, w2: Seq<char>)
    requires
        0 <= a,
        0 <= b,
        op == Op::Div ==> b != 0,
        i32::MIN <= op_value(op, a as int, b as int) <= i32::MAX,
        forall|i: int| 0 <= i < w1.len() ==> in_class(#[trigger] w1[i], CharClass::Whitespace),
        forall|i: int| 0 <= i < w2.len() ==> in_class(#[trigger] w2[i], CharClass::Whitespace),
    ensures
        parse_stmt(decimal(a as nat) + w1 + seq![op_char(op)] + w2 + decimal(b as nat)) is Some,
        evaluation(decimal(a as nat) + w1 + seq![op_char(op)] + w2 + decimal(b as nat)) == Ok::<
            Val,
            Seq<char>,
        >(Val::Number(op_value(op, a as int, b as int) as i32)),
{
    let da = decimal(a as nat);
    let db = decimal(b as nat);
    let c = op_char(op);
    let s = da + w1 + seq![c] + w2 + db;
    lemma_decimal(a as nat);
    lemma_decimal(b as nat);
    let r1 = w1 + seq![c] + w2 + db;
    let r2 = seq![c] + w2 + db;
    let r3 = w2 + db;
    assert(s =~= da + r1);
    if w1.len() > 0 {
        assert(r1[0] == w1[0]);
    } else {
        assert(r1[0] == c);
    }
    lemma_number_prefix(da, r1);
    assert(w1 + r2 =~= r1);
    assert(r2[0] == c);
    lemma_ws_prefix(w1, r2);
    assert(r2.drop_first() =~= r3);
    assert(parse_op(r2) == Some((r3, op)));
    assert(w2 + db =~= r3);
    assert(db[0] == db[0]);
    lemma_ws_prefix(w2, db);
    assert(db + Seq::<char>::empty() =~= db);
    lemma_number_prefix(db, Seq::<char>::empty());
    let e = ExprM::Operation {
        lhs: Box::new(ExprM::Number(a)),
        rhs: Box::new(ExprM::Number(b)),
        op,
    };
    assert(parse_operation(s) == Some((Seq::<char>::empty(), e)));
    assert(parse_expr(s) == Some((Seq::<char>::empty(), e)));
    reveal_strlit("let");
    reveal_strlit("fn");
    assert(s[0] == da[0]);
    assert(tag_rest("let"@, s) is None) by {
        if "let"@.is_prefix_of(s) {
            assert(s.subrange(0, 3)[0] == s[0]);
        }
    }
    assert(tag_rest("fn"@, s) is None) by {
        if "fn"@.is_prefix_of(s) {
            assert(s.subrange(0, 2)[0] == s[0]);
        }
    }
    assert(parse_stmt(s) == Some((Seq::<char>::empty(), StmtM::Expr(e))));
    let env = seq![empty_scope()];
    let fuel = MAX_DEPTH as nat;
    assert(eval_expr(ExprM::Number(a), env, (fuel - 2) as nat) == Ok::<Val, Seq<char>>(
        Val::Number(a),
    ));
    assert(eval_expr(ExprM::Number(b), env, (fuel - 2) as nat) == Ok::<Val, Seq<char>>(
        Val::Number(b),
    ));
    assert(apply_op(op, a, b) == Ok::<Val, Seq<char>>(
        Val::Number(op_value(op, a as int, b as int) as i32),
    ));
}

/// An operation one of whose sides evaluates to unit fails, saying that both
/// sides must be numbers.
pub proof fn lemma_unit_operand_fails(lhs: ExprM, rhs: ExprM, op: Op, env: EnvM, fuel: nat)
    requires
        fuel > 0,
        eval_expr(lhs, env, (fuel - 1) as nat) is Ok,
        eval_expr(rhs, env, (fuel - 1) as nat) is Ok,
        eval_expr(lhs, env, (fuel - 1) as nat) == Ok::<Val, Seq<char>>(Val::Unit) || eval_expr(
            rhs,
            env,
            (fuel - 1) as nat,
        ) == Ok::<Val, Seq<char>>(Val::Unit),
    ensures
        eval_expr(ExprM::Operation { lhs: Box::new(lhs), rhs: Box::new(rhs), op }, env, fuel)
            == Err::<Val, Seq<char>>(not_numbers_msg()),
{
}

/// A name with no binding fails as not found, unless a function of that name
/// without parameters exists: then the name calls it.
pub proof fn lemma_unbound_name(name: Seq<char>, env: EnvM, fuel: nat)
    requires
        fuel > 0,
        lookup_binding(env, name) is None,
    ensures
        lookup_func(env, name) matches Some(f) && f.params.len() == 0 ==> eval_expr(
            ExprM::BindingUsage(name),
            env,
            fuel,
        ) == eval_expr(ExprM::FuncCall(name, seq![]), env, fuel),
        !(lookup_func(env, name) matches Some(f) && f.params.len() == 0) ==> eval_expr(
            ExprM::BindingUsage(name),
            env,
            fuel,
        ) == Err::<Val, Seq<char>>(binding_missing_msg(name)),
{
    let f = (fuel - 1) as nat;
    assert(eval_expr(ExprM::BindingUsage(name), env, fuel) == eval_binding_usage(name, env, f));
    assert(eval_expr(ExprM::FuncCall(name, seq![]), env, fuel) == eval_call(
        name,
        seq![],
        env,
        f,
    ));
}

/// A declaration evaluates to unit: a function always, a binding whenever
/// its value evaluates, whatever that value is.
pub proof fn lemma_declarations_are_unit(
    name: Seq<char>,
    e: ExprM,
    params: Seq<Seq<char>>,
    body: StmtM,
    env: EnvM,
    fuel: nat,
)
    requires
        fuel > 0,
    ensures
        eval_stmt(StmtM::FuncDef(name, params, Box::new(body)), env, fuel).1 == Ok::<
            Val,
            Seq<char>,
        >(Val::Unit),
        eval_expr(e, env, (fuel - 1) as nat) is Ok ==> eval_stmt(
            StmtM::BindingDef(name, e),
            env,
            fuel,
        ).1 == Ok::<Val, Seq<char>>(Val::Unit),
{
}

/// After a function is stored, a call of it with as many arguments as it has
/// parameters evaluates its body in a fresh scope where each parameter is
/// bound to its argument's value.
pub proof fn lemma_call_after_define(
    name: Seq<char>,
    f: FuncM,
    args: Seq<ExprM>,
    env: EnvM,
    fuel: nat,
)
    requires
        env.len() > 0,
        f.params.len() == args.len(),
        eval_args(args, store_func(env, name, f), fuel) is Ok,
    ensures
        ({
            let env1 = store_func(env, name, f);
            let vals = eval_args(args, env1, fuel)->Ok_0;
            eval_call(name, args, env1, fuel) == eval_stmt(
                f.body,
                bind_params(child(env1), f.params, vals),
                fuel,
            ).1
        }),
{
    let env1 = store_func(env, name, f);
    assert(env1.last().funcs.contains_key(name));
}

/// The latest binding of a name is the one found, and other names are not
/// affected.
pub proof fn lemma_store_then_lookup(env: EnvM, name: Seq<char>, v: Val, other: Seq<char>)
    requires
        env.len() > 0,
        other != name,
    ensures
        lookup_binding(store_binding(env, name, v), name) == Some(v),
        lookup_binding(store_binding(env, name, v), other) == lookup_binding(env, other),
{
    let env1 = store_binding(env, name, v);
    assert(env1.drop_last() =~= env.drop_last());
}

} // verus!
