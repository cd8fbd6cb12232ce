use crate::tokens::{Token, ValueType};
use vstd::prelude::*;

verus! {

/// An expression tree. Name-use sites (variable, assignment, `this`,
/// `super`) carry a node id, unique per occurrence, that the resolver
/// keys its scope record by.
pub enum Expr {
    Binary(Box<BinaryExpression>),
    Logical(Box<LogicalExpression>),
    Grouping(Box<GroupingExpression>),
    Literal(LiteralExpression),
    Unary(Box<UnaryExpression>),
    Variable(VariableExpression),
    Assignment(Box<AssignmentExpression>),
    Call(Box<CallExpression>),
    Get(Box<GetExpression>),
    SetProp(Box<SetExpression>),
    This(ThisExpression),
    Super(SuperExpression),
}

pub struct BinaryExpression {
    pub left: Expr,
    pub operator: Token,
    pub right: Expr,
}

pub struct LogicalExpression {
    pub left: Expr,
    pub operator: Token,
    pub right: Expr,
}

pub struct GroupingExpression {
    pub expression: Expr,
}

pub struct LiteralExpression {
    pub value: Option<ValueType>,
}

pub struct UnaryExpression {
    pub operator: Token,
    pub expression: Expr,
}

pub struct VariableExpression {
    pub name: Token,
    pub id: usize,
}

pub struct AssignmentExpression {
    pub name: Token,
    pub value: Expr,
    pub id: usize,
}

pub struct CallExpression {
    pub callee: Expr,
    pub args: Vec<Expr>,
    pub end_parenthese: Token,
}

pub struct GetExpression {
    pub object: Expr,
    pub name: Token,
}

pub struct SetExpression {
    pub object: Expr,
    pub name: Token,
    pub value: Expr,
}

pub struct ThisExpression {
    pub keyword: Token,
    pub id: usize,
}

pub struct SuperExpression {
    pub keyword: Token,
    pub method: Token,
    pub id: usize,
}

/// Every node id in the expression lies below `n_ids`.
pub open spec fn expr_wf(e: Expr, n_ids: int) -> bool
    decreases e,
{
    match e {
        Expr::Binary(b) => expr_wf(b.left, n_ids) && expr_wf(b.right, n_ids),
        Expr::Logical(b) => expr_wf(b.left, n_ids) && expr_wf(b.right, n_ids),
        Expr::Grouping(g) => expr_wf(g.expression, n_ids),
        Expr::Literal(_) => true,
        Expr::Unary(u) => expr_wf(u.expression, n_ids),
        Expr::Variable(v) => v.id < n_ids,
        Expr::Assignment(a) => a.id < n_ids && expr_wf(a.value, n_ids),
        Expr::Call(c) => expr_wf(c.callee, n_ids) && (forall|i: int|
            0 <= i < c.args@.len() ==> expr_wf(#[trigger] c.args@[i], n_ids)),
        Expr::Get(g) => expr_wf(g.object, n_ids),
        Expr::SetProp(s) => expr_wf(s.object, n_ids) && expr_wf(s.value, n_ids),
        Expr::This(t) => t.id < n_ids,
        Expr::Super(s) => s.id < n_ids,
    }
}

/// A well-formed expression stays well formed when the id bound grows.
pub proof fn lemma_expr_wf_mono(e: Expr, n1: int, n2: int)
    requires
        expr_wf(e, n1),
        n1 <= n2,
    ensures
        expr_wf(e, n2),
    decreases e,
{
    match e {
        Expr::Binary(b) => {
            lemma_expr_wf_mono(b.left, n1, n2);
            lemma_expr_wf_mono(b.right, n1, n2);
        },
        Expr::Logical(b) => {
            lemma_expr_wf_mono(b.left, n1, n2);
            lemma_expr_wf_mono(b.right, n1, n2);
        },
        Expr::Grouping(g) => {
            lemma_expr_wf_mono(g.expression, n1, n2);
        },
        Expr::Literal(_) => {},
        Expr::Unary(u) => {
            lemma_expr_wf_mono(u.expression, n1, n2);
        },
        Expr::Variable(_) => {},
        Expr::Assignment(a) => {
            lemma_expr_wf_mono(a.value, n1, n2);
        },
        Expr::Call(c) => {
            lemma_expr_wf_mono(c.callee, n1, n2);
            assert forall|i: int| 0 <= i < c.args@.len() implies expr_wf(
                #[trigger] c.args@[i],
                n2,
            ) by {
                lemma_expr_wf_mono(c.args@[i], n1, n2);
            }
        },
        Expr::Get(g) => {
            lemma_expr_wf_mono(g.object, n1, n2);
        },
        Expr::SetProp(s) => {
            lemma_expr_wf_mono(s.object, n1, n2);
            lemma_expr_wf_mono(s.value, n1, n2);
        },
        Expr::This(_) => {},
        Expr::Super(_) => {},
    }
}

} // verus!
