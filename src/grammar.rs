use vstd::prelude::*;

use crate::model::{ExprM, Op, StmtM};
use crate::utils::{ident_split, run_len, skip_run, tag_rest, CharClass};

verus! {

/// `s` with leading whitespace removed.
pub open spec fn ws(s: Seq<char>) -> Seq<char> {
    skip_run(CharClass::Whitespace, s)
}

/// `s` with leading spaces removed.
pub open spec fn spaces(s: Seq<char>) -> Seq<char> {
    skip_run(CharClass::Space, s)
}

/// The value of a run of decimal digits.
pub open spec fn digits_value(d: Seq<char>) -> int
    decreases d.len(),
{
    if d.len() == 0 {
        0
    } else {
        digits_value(d.drop_last()) * 10 + (d.last() as int - '0' as int)
    }
}

/// A numeric literal: a run of digits whose value fits in an `i32`.
pub open spec fn parse_number(s: Seq<char>) -> Option<(Seq<char>, i32)> {
    let n = run_len(CharClass::Digit, s);
    let v = digits_value(s.subrange(0, n as int));
    if n > 0 && v <= i32::MAX {
        Some((s.subrange(n as int, s.len() as int), v as i32))
    } else {
        None
    }
}

/// One operator character.
pub open spec fn parse_op(s: Seq<char>) -> Option<(Seq<char>, Op)> {
    if s.len() == 0 {
        None
    } else if s[0] == '+' {
        Some((s.drop_first(), Op::Add))
    } else if s[0] == '-' {
        Some((s.drop_first(), Op::Sub))
    } else if s[0] == '*' {
        Some((s.drop_first(), Op::Mul))
    } else if s[0] == '/' {
        Some((s.drop_first(), Op::Div))
    } else {
        None
    }
}

pub open spec fn parse_binding_usage(s: Seq<char>) -> Option<(Seq<char>, ExprM)> {
    match ident_split(s) {
        Some((rest, name)) => Some((rest, ExprM::BindingUsage(name))),
        None => None,
    }
}

/// `expr := operation | non_operation`: the first that succeeds.
pub open spec fn parse_expr(s: Seq<char>) -> Option<(Seq<char>, ExprM)>
    decreases s.len(), 3nat,
{
    match parse_operation(s) {
        Some(r) => Some(r),
        None => parse_non_operation(s),
    }
}

/// `operation := non_operation ws op ws non_operation`.
pub open spec fn parse_operation(s: Seq<char>) -> Option<(Seq<char>, ExprM)>
    decreases s.len(), 2nat,
{
    match parse_non_operation(s) {
        None => None,
        Some((r1, lhs)) => match parse_op(ws(r1)) {
            None => None,
            Some((r2, op)) => if ws(r2).len() < s.len() {
                match parse_non_operation(ws(r2)) {
                    None => None,
                    Some((r3, rhs)) => Some(
                        (r3, ExprM::Operation { lhs: Box::new(lhs), rhs: Box::new(rhs), op }),
                    ),
                }
            } else {
                None
            },
        },
    }
}

/// `non_operation := number | func_call | binding_usage | block`, tried in
/// that order.
pub open spec fn parse_non_operation(s: Seq<char>) -> Option<(Seq<char>, ExprM)>
    decreases s.len(), 1nat,
{
    match parse_number(s) {
        Some((r, n)) => Some((r, ExprM::Number(n))),
        None => match parse_func_call(s) {
            Some(r) => Some(r),
            None => match parse_binding_usage(s) {
                Some(r) => Some(r),
                None => parse_block(s),
            },
        },
    }
}

/// `func_call := ident spaces (expr spaces)+`.
pub open spec fn parse_func_call(s: Seq<char>) -> Option<(Seq<char>, ExprM)>
    decreases s.len(), 0nat,
{
    match ident_split(s) {
        None => None,
        Some((r1, callee)) => {
            let r2 = spaces(r1);
            if r2.len() < s.len() {
                let (r3, args) = parse_args(r2);
                if args.len() > 0 {
                    Some((r3, ExprM::FuncCall(callee, args)))
                } else {
                    None
                }
            } else {
                None
            }
        },
    }
}

/// As many expressions as parse, each followed by optional spaces.
pub open spec fn parse_args(s: Seq<char>) -> (Seq<char>, Seq<ExprM>)
    decreases s.len(), 4nat,
{
    match parse_expr(s) {
        Some((r1, e)) => {
            let r2 = spaces(r1);
            if r2.len() < s.len() {
                let (r3, es) = parse_args(r2);
                (r3, seq![e] + es)
            } else {
                (s, seq![])
            }
        },
        None => (s, seq![]),
    }
}

/// `block := "{" ws (stmt ws)* ws "}"`.
pub open spec fn parse_block(s: Seq<char>) -> Option<(Seq<char>, ExprM)>
    decreases s.len(), 0nat,
{
    match tag_rest("{"@, s) {
        None => None,
        Some(r1) => {
            let r2 = ws(r1);
            if r2.len() < s.len() {
                let (r3, stmts) = parse_stmts(r2);
                match tag_rest("}"@, ws(r3)) {
                    Some(r4) => Some((r4, ExprM::Block(stmts))),
                    None => None,
                }
            } else {
                None
            }
        },
    }
}

/// As many statements as parse, each followed by optional whitespace.
pub open spec fn parse_stmts(s: Seq<char>) -> (Seq<char>, Seq<StmtM>)
    decreases s.len(), 6nat,
{
    match parse_stmt(s) {
        Some((r1, st)) => {
            let r2 = ws(r1);
            if r2.len() < s.len() {
                let (r3, sts) = parse_stmts(r2);
                (r3, seq![st] + sts)
            } else {
                (s, seq![])
            }
        },
        None => (s, seq![]),
    }
}

/// `stmt := binding_def | func_def | expr`, tried in that order.
pub open spec fn parse_stmt(s: Seq<char>) -> Option<(Seq<char>, StmtM)>
    decreases s.len(), 5nat,
{
    match parse_binding_def(s) {
        Some(r) => Some(r),
        None => match parse_func_def(s) {
            Some(r) => Some(r),
            None => match parse_expr(s) {
                Some((r, e)) => Some((r, StmtM::Expr(e))),
                None => None,
            },
        },
    }
}

/// `binding_def := "let" ws1 ident ws "=" ws expr`.
pub open spec fn parse_binding_def(s: Seq<char>) -> Option<(Seq<char>, StmtM)>
    decreases s.len(), 4nat,
{
    match tag_rest("let"@, s) {
        None => None,
        Some(r1) => if run_len(CharClass::Whitespace, r1) == 0 {
            None
        } else {
            match ident_split(ws(r1)) {
                None => None,
                Some((r2, name)) => match tag_rest("="@, ws(r2)) {
                    None => None,
                    Some(r3) => {
                        let r4 = ws(r3);
                        if r4.len() < s.len() {
                            match parse_expr(r4) {
                                Some((r5, e)) => Some((r5, StmtM::BindingDef(name, e))),
                                None => None,
                            }
                        } else {
                            None
                        }
                    },
                },
            }
        },
    }
}

/// Identifiers, each followed by optional whitespace.
pub open spec fn parse_params(s: Seq<char>) -> (Seq<char>, Seq<Seq<char>>)
    decreases s.len(),
{
    match ident_split(s) {
        Some((r1, p)) => {
            let r2 = ws(r1);
            if r2.len() < s.len() {
                let (r3, ps) = parse_params(r2);
                (r3, seq![p] + ps)
            } else {
                (s, seq![])
            }
        },
        None => (s, seq![]),
    }
}

/// `func_def := "fn" ws1 ident ws (ident ws)* "=>" ws stmt`.
pub open spec fn parse_func_def(s: Seq<char>) -> Option<(Seq<char>, StmtM)>
    decreases s.len(), 4nat,
{
    match tag_rest("fn"@, s) {
        None => None,
        Some(r1) => if run_len(CharClass::Whitespace, r1) == 0 {
            None
        } else {
            match ident_split(ws(r1)) {
                None => None,
                Some((r2, name)) => {
                    let (r3, params) = parse_params(ws(r2));
                    match tag_rest("=>"@, r3) {
                        None => None,
                        Some(r4) => {
                            let r5 = ws(r4);
                            if r5.len() < s.len() {
                                match parse_stmt(r5) {
                                    Some((r6, body)) => Some(
                                        (r6, StmtM::FuncDef(name, params, Box::new(body))),
                                    ),
                                    None => None,
                                }
                            } else {
                                None
                            }
                        },
                    }
                },
            }
        },
    }
}

} // verus!
