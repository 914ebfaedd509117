use eldiro::env::Env;
use eldiro::expr::{Block, BindingUsage, Expr, FuncCall, Number};
use eldiro::model::Op;
use eldiro::stmt::{FuncDef, Stmt};
use eldiro::val::Val;

fn num(n: i32) -> Box<Expr> {
    Box::new(Expr::Number(Number(n)))
}

fn operation(a: i32, b: i32, op: Op) -> Expr {
    Expr::Operation { lhs: num(a), rhs: num(b), op }
}

#[test]
fn eval_func_call() {
    let mut env = Env::default();

    env.store_func(
        "add".to_string(),
        vec!["x".to_string(), "y".to_string()],
        Stmt::Expr(Expr::Operation {
            lhs: Box::new(Expr::BindingUsage(BindingUsage { name: "x".to_string() })),
            rhs: Box::new(Expr::BindingUsage(BindingUsage { name: "y".to_string() })),
            op: Op::Add,
        }),
    );

    assert_eq!(
        Expr::FuncCall(FuncCall {
            callee: "add".to_string(),
            params: vec![Expr::Number(Number(2)), Expr::Number(Number(2))],
        })
        .eval(&env),
        Ok(Val::Number(4)),
    );
}

#[test]
fn eval_func_def() {
    assert_eq!(
        Stmt::FuncDef(FuncDef {
            name: "always_return_one".to_string(),
            params: Vec::new(),
            body: Box::new(Stmt::Expr(Expr::Number(Number(1)))),
        })
        .eval(&mut Env::default()),
        Ok(Val::Unit),
    );
}

#[test]
fn eval_non_number_operation() {
    assert_eq!(
        Expr::Operation {
            lhs: num(10),
            rhs: Box::new(Expr::Block(Block { stmts: Vec::new() })),
            op: Op::Add,
        }
        .eval(&Env::default()),
        Err("cannot evaluate operation whose left-hand side and right-hand side are not both numbers".to_string()),
    );
}

#[test]
fn parse_one_plus_two() {
    assert_eq!(Expr::new("1+2"), Ok(("", operation(1, 2, Op::Add))));
}

#[test]
fn parse_expr_with_whitespace() {
    assert_eq!(Expr::new("2 * 2"), Ok(("", operation(2, 2, Op::Mul))));
}

#[test]
fn eval_add() {
    assert_eq!(operation(10, 10, Op::Add).eval(&Env::default()), Ok(Val::Number(20)));
}

#[test]
fn eval_sub() {
    assert_eq!(operation(1, 5, Op::Sub).eval(&Env::default()), Ok(Val::Number(-4)));
}

#[test]
fn eval_mul() {
    assert_eq!(operation(5, 6, Op::Mul).eval(&Env::default()), Ok(Val::Number(30)));
}

#[test]
fn eval_div() {
    assert_eq!(operation(200, 20, Op::Div).eval(&Env::default()), Ok(Val::Number(10)));
}

#[test]
fn parse_binding_usage() {
    assert_eq!(
        BindingUsage::new("abc"),
        Ok(("", BindingUsage { name: "abc".to_string() })),
    );
}

#[test]
fn eval_existing_binding_usage() {
    let mut env = Env::default();
    env.store_binding("foo".to_string(), Val::Number(10));

    assert_eq!(
        BindingUsage { name: "foo".to_string() }.eval(&env),
        Ok(Val::Number(10)),
    );
}

#[test]
fn parse_number_literal() {
    assert_eq!(Number::new("42"), Ok(("", Number(42))));
    assert_eq!(Number::new("42abc"), Ok(("abc", Number(42))));
    assert!(Number::new("abc").is_err());
    assert!(Number::new("").is_err());
}

#[test]
fn parse_number_largest_and_too_large() {
    assert_eq!(Number::new("2147483647"), Ok(("", Number(2147483647))));
    assert!(Number::new("2147483648").is_err());
    assert!(Number::new("99999999999999999999").is_err());
}

#[test]
fn parse_operators() {
    assert_eq!(Op::new("+1"), Ok(("1", Op::Add)));
    assert_eq!(Op::new("-"), Ok(("", Op::Sub)));
    assert_eq!(Op::new("*"), Ok(("", Op::Mul)));
    assert_eq!(Op::new("/"), Ok(("", Op::Div)));
    assert!(Op::new("%").is_err());
    assert!(Op::new("").is_err());
}

#[test]
fn parse_whitespace_either_side() {
    assert_eq!(Expr::new("2*2"), Ok(("", operation(2, 2, Op::Mul))));
    assert_eq!(Expr::new("2 *2"), Ok(("", operation(2, 2, Op::Mul))));
    assert_eq!(Expr::new("2* 2"), Ok(("", operation(2, 2, Op::Mul))));
}

#[test]
fn parse_chained_operation_stops_after_one() {
    assert_eq!(Expr::new("1+2+3"), Ok(("+3", operation(1, 2, Op::Add))));
}

#[test]
fn parse_func_call_with_args() {
    assert_eq!(
        Expr::new("add 1 2"),
        Ok((
            "",
            Expr::FuncCall(FuncCall {
                callee: "add".to_string(),
                params: vec![Expr::Number(Number(1)), Expr::Number(Number(2))],
            }),
        )),
    );
}

#[test]
fn parse_block_of_statements() {
    assert_eq!(
        Expr::new("{ 1 }"),
        Ok(("", Expr::Block(Block { stmts: vec![Stmt::Expr(Expr::Number(Number(1)))] }))),
    );
    assert_eq!(Expr::new("{}"), Ok(("", Expr::Block(Block { stmts: Vec::new() }))));
    assert!(Expr::new("{ 1").is_err());
}

#[test]
fn eval_div_truncates_toward_zero() {
    let e = Expr::Operation {
        lhs: Box::new(operation(0, 7, Op::Sub)),
        rhs: num(2),
        op: Op::Div,
    };
    assert_eq!(e.eval(&Env::default()), Ok(Val::Number(-3)));
    assert_eq!(operation(7, 2, Op::Div).eval(&Env::default()), Ok(Val::Number(3)));
}

#[test]
fn eval_div_by_zero_fails() {
    assert_eq!(
        operation(1, 0, Op::Div).eval(&Env::default()),
        Err("attempt to divide by zero".to_string()),
    );
}

#[test]
fn eval_overflow_fails() {
    assert_eq!(
        operation(2147483647, 1, Op::Add).eval(&Env::default()),
        Err("arithmetic overflow".to_string()),
    );
    assert_eq!(
        operation(65536, 65536, Op::Mul).eval(&Env::default()),
        Err("arithmetic overflow".to_string()),
    );
}

#[test]
fn eval_missing_binding_fails() {
    assert_eq!(
        BindingUsage { name: "nope".to_string() }.eval(&Env::default()),
        Err("binding with name 'nope' does not exist".to_string()),
    );
}

#[test]
fn eval_binding_usage_calls_zero_arg_function() {
    let mut env = Env::default();
    env.store_func("one".to_string(), Vec::new(), Stmt::Expr(Expr::Number(Number(1))));
    assert_eq!(BindingUsage { name: "one".to_string() }.eval(&env), Ok(Val::Number(1)));
}

#[test]
fn eval_binding_usage_ignores_function_with_params() {
    let mut env = Env::default();
    env.store_func(
        "id".to_string(),
        vec!["x".to_string()],
        Stmt::Expr(Expr::BindingUsage(BindingUsage { name: "x".to_string() })),
    );
    assert_eq!(
        BindingUsage { name: "id".to_string() }.eval(&env),
        Err("binding with name 'id' does not exist".to_string()),
    );
}

#[test]
fn eval_missing_function_fails() {
    let call = FuncCall { callee: "f".to_string(), params: vec![Expr::Number(Number(1))] };
    assert_eq!(
        call.eval(&Env::default()),
        Err("function with name 'f' does not exist".to_string()),
    );
}

#[test]
fn eval_arity_mismatch_fails() {
    let mut env = Env::default();
    env.store_func("one".to_string(), Vec::new(), Stmt::Expr(Expr::Number(Number(1))));
    let call = FuncCall { callee: "one".to_string(), params: vec![Expr::Number(Number(1))] };
    assert_eq!(
        call.eval(&env),
        Err("wrong number of arguments to function 'one'".to_string()),
    );
}

#[test]
fn eval_empty_block_is_unit() {
    assert_eq!(Block { stmts: Vec::new() }.eval(&Env::default()), Ok(Val::Unit));
}

#[test]
fn eval_later_binding_replaces_earlier() {
    let mut env = Env::default();
    env.store_binding("a".to_string(), Val::Number(1));
    env.store_binding("a".to_string(), Val::Number(2));
    assert_eq!(BindingUsage { name: "a".to_string() }.eval(&env), Ok(Val::Number(2)));
}

#[test]
fn eval_later_function_replaces_earlier() {
    let mut env = Env::default();
    env.store_func("f".to_string(), Vec::new(), Stmt::Expr(Expr::Number(Number(1))));
    env.store_func("f".to_string(), Vec::new(), Stmt::Expr(Expr::Number(Number(2))));
    let call = FuncCall { callee: "f".to_string(), params: Vec::new() };
    assert_eq!(call.eval(&env), Ok(Val::Number(2)));
}

#[test]
fn eval_call_evaluates_args_in_caller_scope() {
    let mut env = Env::default();
    env.store_binding("a".to_string(), Val::Number(7));
    env.store_func(
        "id".to_string(),
        vec!["x".to_string()],
        Stmt::Expr(Expr::BindingUsage(BindingUsage { name: "x".to_string() })),
    );
    let call = FuncCall {
        callee: "id".to_string(),
        params: vec![Expr::BindingUsage(BindingUsage { name: "a".to_string() })],
    };
    assert_eq!(call.eval(&env), Ok(Val::Number(7)));
}
