use eldiro::env::Env;
use eldiro::evaluate;
use eldiro::expr::{BindingUsage, Expr, Number};
use eldiro::model::Op;
use eldiro::stmt::{BindingDef, FuncDef, Stmt};
use eldiro::val::Val;

#[test]
fn parse_expr() {
    assert_eq!(
        Stmt::new("1+1"),
        Ok((
            "",
            Stmt::Expr(Expr::Operation {
                lhs: Box::new(Expr::Number(Number(1))),
                rhs: Box::new(Expr::Number(Number(1))),
                op: Op::Add,
            }),
        )),
    );
}

#[test]
fn parse_func_def() {
    assert_eq!(
        Stmt::new("fn identity x => x"),
        Ok((
            "",
            Stmt::FuncDef(FuncDef {
                name: "identity".to_string(),
                params: vec!["x".to_string()],
                body: Box::new(Stmt::Expr(Expr::BindingUsage(BindingUsage {
                    name: "x".to_string(),
                }))),
            }),
        )),
    );
}

#[test]
fn parse_binding_def() {
    assert_eq!(
        Stmt::new("let a = 10"),
        Ok((
            "",
            Stmt::BindingDef(BindingDef {
                name: "a".to_string(),
                val: Expr::Number(Number(10)),
            }),
        )),
    );
    assert_eq!(
        BindingDef::new("let b=1"),
        Ok(("", BindingDef { name: "b".to_string(), val: Expr::Number(Number(1)) })),
    );
    assert!(BindingDef::new("leta = 1").is_err());
}

#[test]
fn evaluate_literal() {
    assert_eq!(evaluate("42"), Ok(Val::Number(42)));
}

#[test]
fn evaluate_one_plus_two() {
    assert_eq!(evaluate("1+2"), Ok(Val::Number(3)));
}

#[test]
fn evaluate_two_times_two() {
    assert_eq!(evaluate("2 * 2"), Ok(Val::Number(4)));
    assert_eq!(evaluate("2*2"), Ok(Val::Number(4)));
}

#[test]
fn evaluate_each_operator() {
    assert_eq!(evaluate("7 + 3"), Ok(Val::Number(10)));
    assert_eq!(evaluate("7 - 3"), Ok(Val::Number(4)));
    assert_eq!(evaluate("3 - 7"), Ok(Val::Number(-4)));
    assert_eq!(evaluate("7 * 3"), Ok(Val::Number(21)));
    assert_eq!(evaluate("7 / 3"), Ok(Val::Number(2)));
}

#[test]
fn evaluate_declarations_give_unit() {
    assert_eq!(evaluate("let a = 5"), Ok(Val::Unit));
    assert_eq!(evaluate("let a = {}"), Ok(Val::Unit));
    assert_eq!(evaluate("fn f x => x"), Ok(Val::Unit));
}

#[test]
fn evaluate_block_with_function() {
    assert_eq!(evaluate("{ fn add x y => x + y\n add 2 3 }"), Ok(Val::Number(5)));
    assert_eq!(evaluate("{ let a = 4\n let b = a * 2\n b }"), Ok(Val::Number(8)));
}

#[test]
fn evaluate_rejects_trailing_input() {
    assert_eq!(
        evaluate("1+2+3"),
        Err("input was not consumed fully by parser".to_string()),
    );
}

#[test]
fn evaluate_rejects_unparsable_input() {
    assert!(evaluate("+").is_err());
    assert!(evaluate("").is_err());
}

#[test]
fn evaluate_unbounded_recursion_stops() {
    assert_eq!(
        evaluate("{ fn f => f\n f }"),
        Err("evaluation nested too deeply".to_string()),
    );
}

#[test]
fn block_scope_does_not_leak() {
    let mut env = Env::default();
    assert_eq!(Stmt::new("let a = 1").unwrap().1.eval(&mut env), Ok(Val::Unit));
    let (_, inner) = Stmt::new("{ let a = 2 }").unwrap();
    assert_eq!(inner.eval(&mut env), Ok(Val::Unit));
    assert_eq!(Stmt::new("a").unwrap().1.eval(&mut env), Ok(Val::Number(1)));
}

#[test]
fn func_def_then_call() {
    let mut env = Env::default();
    let (_, def) = Stmt::new("fn add x y => x + y").unwrap();
    assert_eq!(def.eval(&mut env), Ok(Val::Unit));
    let (_, call) = Stmt::new("add 2 2").unwrap();
    assert_eq!(call.eval(&mut env), Ok(Val::Number(4)));
}
