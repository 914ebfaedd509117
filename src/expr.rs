use vstd::prelude::*;

use crate::grammar::{
    self, digits_value, parse_block, parse_expr, parse_func_call, parse_non_operation,
    parse_number, parse_op, parse_operation,
};
use crate::model::{ExprM, Op, StmtM};
use crate::stmt::{parse_stmts, stmts_view, Stmt};
use crate::utils::{
    extract_digits, extract_ident, extract_spaces, extract_whitespace, ident_split, in_class,
    lemma_run_len_bound, tag, CharClass,
};

verus! {

broadcast use vstd::std_specs::vec::axiom_vec_index_decreases;

/// A numeric literal.
#[derive(Debug, Clone, PartialEq, Eq, Structural)]
pub struct Number(pub i32);

/// A reference to a binding by name.
#[derive(Debug, PartialEq)]
pub struct BindingUsage {
    pub name: String,
}

/// A braced sequence of statements, evaluated in a scope of its own.
#[derive(Debug, PartialEq)]
pub struct Block {
    pub stmts: Vec<Stmt>,
}

/// A call of a function by name with argument expressions.
#[derive(Debug, PartialEq)]
pub struct FuncCall {
    pub callee: String,
    pub params: Vec<Expr>,
}

/// An expression: a number, one binary operation, a name, a block or a call.
#[derive(Debug, PartialEq)]
pub enum Expr {
    Number(Number),
    Operation { lhs: Box<Expr>, rhs: Box<Expr>, op: Op },
    BindingUsage(BindingUsage),
    Block(Block),
    FuncCall(FuncCall),
}

impl Expr {
    pub open spec fn view(&self) -> ExprM
        decreases self,
    {
        match self {
            Expr::Number(n) => ExprM::Number(n.0),
            Expr::Operation { lhs, rhs, op } => ExprM::Operation {
                lhs: Box::new(lhs.view()),
                rhs: Box::new(rhs.view()),
                op: *op,
            },
            Expr::BindingUsage(b) => ExprM::BindingUsage(b.name@),
            Expr::Block(b) => ExprM::Block(
                Seq::new(b.stmts@.len(), |i: int| if 0 <= i < b.stmts@.len() { b.stmts@[i].view() } else { arbitrary() })
            ),
            Expr::FuncCall(c) => ExprM::FuncCall(
                c.callee@,
                Seq::new(c.params@.len(), |i: int| if 0 <= i < c.params@.len() { c.params@[i].view() } else { arbitrary() }),
            ),
        }
    }
}

} // verus!

verus! {

/// The mathematical forms of a sequence of expressions.
pub open spec fn exprs_view(v: Seq<Expr>) -> Seq<ExprM> {
    Seq::new(v.len(), |i: int| v[i]@)
}

/// Value of a run of digits, when it fits in an `i32`.
fn digits_to_i32(d: &str) -> (r: Option<i32>)
    requires
        forall|i: int| 0 <= i < d@.len() ==> in_class(#[trigger] d@[i], CharClass::Digit),
    ensures
        r == (if digits_value(d@) <= i32::MAX {
            Some(digits_value(d@) as i32)
        } else {
            None
        }),
{
    let len = d.unicode_len();
    let mut v: i32 = 0;
    let mut i: usize = 0;
    while i < len
        invariant
            i <= len == d@.len(),
            forall|j: int| 0 <= j < d@.len() ==> in_class(#[trigger] d@[j], CharClass::Digit),
            v == digits_value(d@.subrange(0, i as int)),
            0 <= v,
        decreases len - i,
    {
        let c = d.get_char(i);
        let digit = (c as u32 - '0' as u32) as i32;
        proof {
            assert(d@.subrange(0, i + 1).drop_last() =~= d@.subrange(0, i as int));
        }
        if v > (i32::MAX - digit) / 10 {
            proof {
                lemma_digits_value_mono(d@, (i + 1) as nat, d@.len());
                assert(d@.subrange(0, d@.len() as int) =~= d@);
            }
            return None;
        }
        assert(0 <= v * 10 + digit <= i32::MAX) by (nonlinear_arith)
            requires
                0 <= v <= (i32::MAX - digit) / 10,
                0 <= digit <= 9,
        ;
        v = v * 10 + digit;
        i = i + 1;
    }
    proof {
        assert(d@.subrange(0, len as int) =~= d@);
    }
    Some(v)
}

proof fn lemma_digits_value_mono(d: Seq<char>, j: nat, k: nat)
    requires
        j <= k <= d.len(),
        forall|i: int| 0 <= i < d.len() ==> in_class(#[trigger] d[i], CharClass::Digit),
    ensures
        0 <= digits_value(d.subrange(0, j as int)) <= digits_value(d.subrange(0, k as int)),
    decreases k,
{
    if k > 0 {
        assert(d.subrange(0, k as int).drop_last() =~= d.subrange(0, k - 1));
        assert(in_class(d[k - 1], CharClass::Digit));
        if j < k {
            lemma_digits_value_mono(d, j, (k - 1) as nat);
        } else {
            lemma_digits_value_mono(d, (k - 1) as nat, (k - 1) as nat);
        }
    }
}

impl Number {
    pub fn new(s: &str) -> (r: Result<(&str, Number), String>)
        ensures
            r is Ok <==> parse_number(s@) is Some,
            r matches Ok((rest, n)) ==> parse_number(s@) == Some((rest@, n.0)) && rest@.len()
                < s@.len(),
    {
        proof {
            lemma_run_len_bound(CharClass::Digit, s@);
        }
        match extract_digits(s) {
            Err(e) => Err(e),
            Ok((rest, digits)) => match digits_to_i32(digits) {
                Some(v) => Ok((rest, Number(v))),
                None => Err(String::from_str("number too large")),
            },
        }
    }
}

impl Op {
    pub fn new(s: &str) -> (r: Result<(&str, Op), String>)
        ensures
            r is Ok <==> parse_op(s@) is Some,
            r matches Ok((rest, op)) ==> parse_op(s@) == Some((rest@, op)) && rest@.len()
                < s@.len(),
    {
        let len = s.unicode_len();
        if len == 0 {
            return Err(String::from_str("expected an operator"));
        }
        let c = s.get_char(0);
        let rest = s.substring_char(1, len);
        assert(rest@ =~= s@.drop_first());
        if c == '+' {
            Ok((rest, Op::Add))
        } else if c == '-' {
            Ok((rest, Op::Sub))
        } else if c == '*' {
            Ok((rest, Op::Mul))
        } else if c == '/' {
            Ok((rest, Op::Div))
        } else {
            Err(String::from_str("expected an operator"))
        }
    }
}

impl BindingUsage {
    pub fn new(s: &str) -> (r: Result<(&str, BindingUsage), String>)
        ensures
            r is Ok <==> ident_split(s@) is Some,
            r matches Ok((rest, b)) ==> ident_split(s@) == Some((rest@, b.name@)) && rest@.len()
                < s@.len(),
    {
        match extract_ident(s) {
            Err(e) => Err(e),
            Ok((rest, name)) => Ok((rest, BindingUsage { name: String::from_str(name) })),
        }
    }
}

impl FuncCall {
    pub fn new(s: &str) -> (r: Result<(&str, FuncCall), String>)
        ensures
            r is Ok <==> parse_func_call(s@) is Some,
            r matches Ok((rest, c)) ==> parse_func_call(s@) == Some(
                (rest@, ExprM::FuncCall(c.callee@, exprs_view(c.params@))),
            ) && rest@.len() < s@.len(),
        decreases s@.len(), 0nat,
    {
        match extract_ident(s) {
            Err(e) => Err(e),
            Ok((s1, callee)) => {
                let s2 = extract_spaces(s1);
                let (s3, params) = parse_args(s2);
                if params.len() == 0 {
                    Err(String::from_str("expected a sequence with more than one item"))
                } else {
                    Ok((s3, FuncCall { callee: String::from_str(callee), params }))
                }
            },
        }
    }
}

/// As many expressions as parse, each followed by optional spaces.
fn parse_args(s: &str) -> (r: (&str, Vec<Expr>))
    ensures
        r.0@ == grammar::parse_args(s@).0,
        exprs_view(r.1@) == grammar::parse_args(s@).1,
        r.0@.len() <= s@.len(),
    decreases s@.len(), 4nat,
{
    match Expr::new(s) {
        Ok((s1, e)) => {
            let s2 = extract_spaces(s1);
            let (s3, mut es) = parse_args(s2);
            let ghost tail = es@;
            es.insert(0, e);
            assert(exprs_view(es@) =~= seq![e@] + exprs_view(tail));
            (s3, es)
        },
        Err(_) => (s, Vec::new()),
    }
}

impl Block {
    pub fn new(s: &str) -> (r: Result<(&str, Block), String>)
        ensures
            r is Ok <==> parse_block(s@) is Some,
            r matches Ok((rest, b)) ==> parse_block(s@) == Some(
                (rest@, ExprM::Block(stmts_view(b.stmts@))),
            ) && rest@.len() < s@.len(),
        decreases s@.len(), 0nat,
    {
        proof {
            reveal_strlit("{");
            reveal_strlit("}");
        }
        match tag("{", s) {
            Err(e) => Err(e),
            Ok(s1) => {
                let (s2, _) = extract_whitespace(s1);
                let (s3, stmts) = parse_stmts(s2);
                let (s4, _) = extract_whitespace(s3);
                match tag("}", s4) {
                    Err(e) => Err(e),
                    Ok(s5) => Ok((s5, Block { stmts })),
                }
            },
        }
    }
}

impl Expr {
    pub fn new(s: &str) -> (r: Result<(&str, Expr), String>)
        ensures
            r is Ok <==> parse_expr(s@) is Some,
            r matches Ok((rest, e)) ==> parse_expr(s@) == Some((rest@, e@)) && rest@.len()
                < s@.len(),
        decreases s@.len(), 3nat,
    {
        match Self::new_operation(s) {
            Ok(r) => Ok(r),
            Err(_) => Self::new_non_operation(s),
        }
    }

    pub fn new_non_operation(s: &str) -> (r: Result<(&str, Expr), String>)
        ensures
            r is Ok <==> parse_non_operation(s@) is Some,
            r matches Ok((rest, e)) ==> parse_non_operation(s@) == Some((rest@, e@))
                && rest@.len() < s@.len(),
        decreases s@.len(), 1nat,
    {
        if let Ok(r) = Self::new_number(s) {
            return Ok(r);
        }
        if let Ok((rest, c)) = FuncCall::new(s) {
            let e = Expr::FuncCall(c);
            assert(e@ == ExprM::FuncCall(c.callee@, exprs_view(c.params@))) by {
                assert(exprs_view(c.params@) =~= e@->FuncCall_1);
            }
            return Ok((rest, e));
        }
        if let Ok((rest, b)) = BindingUsage::new(s) {
            return Ok((rest, Expr::BindingUsage(b)));
        }
        match Block::new(s) {
            Ok((rest, b)) => {
                let e = Expr::Block(b);
                assert(e@ == ExprM::Block(stmts_view(b.stmts@))) by {
                    assert(stmts_view(b.stmts@) =~= e@->Block_0);
                }
                Ok((rest, e))
            },
            Err(e) => Err(e),
        }
    }

    pub fn new_operation(s: &str) -> (r: Result<(&str, Expr), String>)
        ensures
            r is Ok <==> parse_operation(s@) is Some,
            r matches Ok((rest, e)) ==> parse_operation(s@) == Some((rest@, e@)) && rest@.len()
                < s@.len(),
        decreases s@.len(), 2nat,
    {
        let (s1, lhs) = match Self::new_non_operation(s) {
            Ok(r) => r,
            Err(e) => return Err(e),
        };
        let (s2, _) = extract_whitespace(s1);
        let (s3, op) = match Op::new(s2) {
            Ok(r) => r,
            Err(e) => return Err(e),
        };
        let (s4, _) = extract_whitespace(s3);
        let (s5, rhs) = match Self::new_non_operation(s4) {
            Ok(r) => r,
            Err(e) => return Err(e),
        };
        Ok((s5, Expr::Operation { lhs: Box::new(lhs), rhs: Box::new(rhs), op }))
    }

    pub fn new_number(s: &str) -> (r: Result<(&str, Expr), String>)
        ensures
            r is Ok <==> parse_number(s@) is Some,
            r matches Ok((rest, e)) ==> rest@.len() < s@.len() && rest@ == (parse_number(s@)->0).0
                && e@ == ExprM::Number((parse_number(s@)->0).1),
    {
        match Number::new(s) {
            Ok((rest, n)) => Ok((rest, Expr::Number(n))),
            Err(e) => Err(e),
        }
    }
}

} // verus!

verus! {

impl Expr {
    /// A copy of this expression tree.
    #[verifier::loop_isolation(false)]
    pub fn duplicate(&self) -> (r: Expr)
        ensures
            r@ == self@,
        decreases self,
    {
        match self {
            Expr::Number(n) => Expr::Number(Number(n.0)),
            Expr::Operation { lhs, rhs, op } => Expr::Operation {
                lhs: Box::new(lhs.duplicate()),
                rhs: Box::new(rhs.duplicate()),
                op: *op,
            },
            Expr::BindingUsage(b) => Expr::BindingUsage(BindingUsage { name: b.name.clone() }),
            Expr::Block(b) => {
                let mut stmts: Vec<Stmt> = Vec::new();
                let mut i: usize = 0;
                while i < b.stmts.len()
                    invariant
                        i <= b.stmts@.len(),
                        stmts@.len() == i,
                        forall|j: int| 0 <= j < i ==> (#[trigger] stmts@[j])@ == b.stmts@[j]@,
                    decreases b.stmts@.len() - i,
                {
                    proof {
                        assert(decreases_to!(b.stmts => b.stmts@[i as int]));
                    }
                    stmts.push(b.stmts[i].duplicate());
                    i = i + 1;
                }
                let r = Expr::Block(Block { stmts });
                assert(r@->Block_0 =~= self@->Block_0);
                r
            },
            Expr::FuncCall(c) => {
                let mut params: Vec<Expr> = Vec::new();
                let mut i: usize = 0;
                while i < c.params.len()
                    invariant
                        i <= c.params@.len(),
                        params@.len() == i,
                        forall|j: int| 0 <= j < i ==> (#[trigger] params@[j])@ == c.params@[j]@,
                    decreases c.params@.len() - i,
                {
                    proof {
                        assert(decreases_to!(c.params => c.params@[i as int]));
                    }
                    params.push(c.params[i].duplicate());
                    i = i + 1;
                }
                let r = Expr::FuncCall(FuncCall { callee: c.callee.clone(), params });
                assert(r@->FuncCall_1 =~= self@->FuncCall_1);
                r
            },
        }
    }
}

} // verus!
