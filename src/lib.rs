//! A small interpreter: parsers that turn source text into a syntax tree and
//! a tree-walking evaluator that reduces the tree to a value in an
//! environment of bindings and functions.
use vstd::prelude::*;

pub mod env;
pub mod eval;
pub mod expr;
pub mod grammar;
pub mod laws;
pub mod model;
pub mod semantics;
pub mod stmt;
pub mod utils;
pub mod val;

use crate::env::Env;
use crate::grammar::parse_stmt;
use crate::model::empty_scope;
use crate::semantics::{eval_stmt, result_view, MAX_DEPTH};
use crate::stmt::Stmt;
use crate::val::Val;

verus! {

pub open spec fn trailing_input_msg() -> Seq<char> {
    "input was not consumed fully by parser"@
}

/// What `evaluate` gives for `s`, when `s` parses as a statement.
pub open spec fn evaluation(s: Seq<char>) -> Result<Val, Seq<char>> {
    let (rest, st) = parse_stmt(s)->0;
    if rest.len() > 0 {
        Err(trailing_input_msg())
    } else {
        eval_stmt(st, seq![empty_scope()], MAX_DEPTH as nat).1
    }
}

/// Parses `source` as one statement, all of it, and evaluates that statement
/// in a fresh environment.
pub fn evaluate(source: &str) -> (r: Result<Val, String>)
    ensures
        parse_stmt(source@) is None ==> r is Err,
        parse_stmt(source@) is Some ==> result_view(r) == evaluation(source@),
{
    let (rest, stmt) = match Stmt::new(source) {
        Ok(x) => x,
        Err(m) => return Err(m),
    };
    if rest.unicode_len() != 0 {
        return Err(String::from_str("input was not consumed fully by parser"));
    }
    let mut env = Env::default();
    stmt.eval(&mut env)
}

} // verus!
