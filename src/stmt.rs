use vstd::prelude::*;

use crate::expr::Expr;
use crate::grammar::{self, parse_binding_def, parse_func_def, parse_stmt};
use crate::model::{ExprM, StmtM};
use crate::env::duplicate_names;
use crate::utils::{extract_ident, extract_whitespace, extract_whitespace1, tag};

verus! {

/// `let <name> = <expr>`.
#[derive(Debug, PartialEq)]
pub struct BindingDef {
    pub name: String,
    pub val: Expr,
}

/// `fn <name> <param>* => <body>`.
#[derive(Debug, PartialEq)]
pub struct FuncDef {
    pub name: String,
    pub params: Vec<String>,
    pub body: Box<Stmt>,
}

/// A statement: a binding declaration, a bare expression or a function
/// declaration.
#[derive(Debug, PartialEq)]
pub enum Stmt {
    BindingDef(BindingDef),
    Expr(Expr),
    FuncDef(FuncDef),
}

impl Stmt {
    pub open spec fn view(&self) -> StmtM
        decreases self,
    {
        match self {
            Stmt::BindingDef(d) => StmtM::BindingDef(d.name@, d.val.view()),
            Stmt::Expr(e) => StmtM::Expr(e.view()),
            Stmt::FuncDef(d) => StmtM::FuncDef(
                d.name@,
                d.params@.map_values(|p: String| p@),
                Box::new(d.body.view()),
            ),
        }
    }
}

/// The mathematical forms of a sequence of statements.
pub open spec fn stmts_view(v: Seq<Stmt>) -> Seq<StmtM> {
    Seq::new(v.len(), |i: int| v[i]@)
}

/// The names held by a sequence of strings.
pub open spec fn names_view(v: Seq<String>) -> Seq<Seq<char>> {
    v.map_values(|p: String| p@)
}

/// As many statements as parse, each followed by optional whitespace.
pub fn parse_stmts(s: &str) -> (r: (&str, Vec<Stmt>))
    ensures
        r.0@ == grammar::parse_stmts(s@).0,
        stmts_view(r.1@) == grammar::parse_stmts(s@).1,
        r.0@.len() <= s@.len(),
    decreases s@.len(), 6nat,
{
    match Stmt::new(s) {
        Ok((s1, st)) => {
            let (s2, _) = extract_whitespace(s1);
            let (s3, mut sts) = parse_stmts(s2);
            let ghost tail = sts@;
            sts.insert(0, st);
            assert(stmts_view(sts@) =~= seq![st@] + stmts_view(tail));
            (s3, sts)
        },
        Err(_) => (s, Vec::new()),
    }
}

/// Identifiers, each followed by optional whitespace.
fn parse_params(s: &str) -> (r: (&str, Vec<String>))
    ensures
        r.0@ == grammar::parse_params(s@).0,
        names_view(r.1@) == grammar::parse_params(s@).1,
        r.0@.len() <= s@.len(),
    decreases s@.len(),
{
    match extract_ident(s) {
        Ok((s1, p)) => {
            let (s2, _) = extract_whitespace(s1);
            let (s3, mut ps) = parse_params(s2);
            let ghost tail = ps@;
            ps.insert(0, String::from_str(p));
            assert(names_view(ps@) =~= seq![p@] + names_view(tail));
            (s3, ps)
        },
        Err(_) => (s, Vec::new()),
    }
}

impl BindingDef {
    pub fn new(s: &str) -> (r: Result<(&str, BindingDef), String>)
        ensures
            r is Ok <==> parse_binding_def(s@) is Some,
            r matches Ok((rest, d)) ==> parse_binding_def(s@) == Some(
                (rest@, StmtM::BindingDef(d.name@, d.val@)),
            ) && rest@.len() < s@.len(),
        decreases s@.len(), 4nat,
    {
        proof {
            reveal_strlit("let");
            reveal_strlit("=");
        }
        let s1 = match tag("let", s) {
            Ok(r) => r,
            Err(e) => return Err(e),
        };
        let (s2, _) = match extract_whitespace1(s1) {
            Ok(r) => r,
            Err(e) => return Err(e),
        };
        let (s3, name) = match extract_ident(s2) {
            Ok(r) => r,
            Err(e) => return Err(e),
        };
        let (s4, _) = extract_whitespace(s3);
        let s5 = match tag("=", s4) {
            Ok(r) => r,
            Err(e) => return Err(e),
        };
        let (s6, _) = extract_whitespace(s5);
        match Expr::new(s6) {
            Ok((s7, val)) => Ok((s7, BindingDef { name: String::from_str(name), val })),
            Err(e) => Err(e),
        }
    }
}

impl FuncDef {
    pub fn new(s: &str) -> (r: Result<(&str, FuncDef), String>)
        ensures
            r is Ok <==> parse_func_def(s@) is Some,
            r matches Ok((rest, d)) ==> parse_func_def(s@) == Some(
                (rest@, StmtM::FuncDef(d.name@, names_view(d.params@), Box::new(d.body@))),
            ) && rest@.len() < s@.len(),
        decreases s@.len(), 4nat,
    {
        proof {
            reveal_strlit("fn");
            reveal_strlit("=>");
        }
        let s1 = match tag("fn", s) {
            Ok(r) => r,
            Err(e) => return Err(e),
        };
        let (s2, _) = match extract_whitespace1(s1) {
            Ok(r) => r,
            Err(e) => return Err(e),
        };
        let (s3, name) = match extract_ident(s2) {
            Ok(r) => r,
            Err(e) => return Err(e),
        };
        let (s4, _) = extract_whitespace(s3);
        let (s5, params) = parse_params(s4);
        let s6 = match tag("=>", s5) {
            Ok(r) => r,
            Err(e) => return Err(e),
        };
        let (s7, _) = extract_whitespace(s6);
        match Stmt::new(s7) {
            Ok((s8, body)) => Ok(
                (s8, FuncDef { name: String::from_str(name), params, body: Box::new(body) }),
            ),
            Err(e) => Err(e),
        }
    }
}

impl Stmt {
    pub fn new(s: &str) -> (r: Result<(&str, Stmt), String>)
        ensures
            r is Ok <==> parse_stmt(s@) is Some,
            r matches Ok((rest, st)) ==> parse_stmt(s@) == Some((rest@, st@)) && rest@.len()
                < s@.len(),
        decreases s@.len(), 5nat,
    {
        if let Ok((rest, d)) = BindingDef::new(s) {
            return Ok((rest, Stmt::BindingDef(d)));
        }
        if let Ok((rest, d)) = FuncDef::new(s) {
            return Ok((rest, Stmt::FuncDef(d)));
        }
        match Expr::new(s) {
            Ok((rest, e)) => Ok((rest, Stmt::Expr(e))),
            Err(e) => Err(e),
        }
    }
}

} // verus!

verus! {

impl Stmt {
    /// A copy of this statement tree.
    pub fn duplicate(&self) -> (r: Stmt)
        ensures
            r@ == self@,
        decreases self,
    {
        match self {
            Stmt::BindingDef(d) => Stmt::BindingDef(
                BindingDef { name: d.name.clone(), val: d.val.duplicate() },
            ),
            Stmt::Expr(e) => Stmt::Expr(e.duplicate()),
            Stmt::FuncDef(d) => Stmt::FuncDef(
                FuncDef {
                    name: d.name.clone(),
                    params: duplicate_names(&d.params),
                    body: Box::new(d.body.duplicate()),
                },
            ),
        }
    }
}

} // verus!
