use crate::expression::{expr_wf, lemma_expr_wf_mono, Expr, VariableExpression};
use crate::tokens::Token;
use vstd::prelude::*;

verus! {

/// A statement. Function declarations do not hold their body inline:
/// the parser hoists every function (and method) into the program's
/// function table and the statement keeps the table index, so a function
/// value is a plain index pair at runtime.
pub enum Stmt {
    Expression(Box<ExpressionStatement>),
    If(Box<IfStatement>),
    Print(Box<PrintStatement>),
    While(Box<WhileStatement>),
    For(Box<ForStatement>),
    Var(Box<VarStatement>),
    Block(Box<BlockStatement>),
    Function(usize),
    Return(Box<ReturnStatement>),
    Class(Box<ClassStatement>),
}

pub struct ExpressionStatement {
    pub expression: Expr,
}

pub struct IfStatement {
    pub condition: Expr,
    pub then_branch: Stmt,
    pub else_branch: Option<Stmt>,
}

pub struct PrintStatement {
    pub keyword: Token,
    pub expression: Expr,
}

pub struct WhileStatement {
    pub condition: Expr,
    pub body: Stmt,
}

pub struct ForStatement {
    pub initializer: Option<Stmt>,
    pub condition: Option<Expr>,
    pub updator: Option<Expr>,
    pub body: Stmt,
}

pub struct VarStatement {
    pub name: Token,
    pub initializer: Option<Expr>,
}

pub struct BlockStatement {
    pub statements: Vec<Stmt>,
}

/// A function or method declaration: name, parameters, body.
pub struct FunctionStatement {
    pub name: Token,
    pub params: Vec<Token>,
    pub body: Vec<Stmt>,
}

pub struct ReturnStatement {
    pub keyword: Token,
    pub value: Expr,
}

/// A class declaration; the methods are indices into the program's
/// function table.
pub struct ClassStatement {
    pub name: Token,
    pub superclass: Option<VariableExpression>,
    pub methods: Vec<usize>,
}

/// Every node id lies below `n_ids` and every function-table index lies
/// below `n_funs`.
pub open spec fn stmt_wf(s: Stmt, n_ids: int, n_funs: int) -> bool
    decreases s,
{
    match s {
        Stmt::Expression(e) => expr_wf(e.expression, n_ids),
        Stmt::If(i) => expr_wf(i.condition, n_ids) && stmt_wf(i.then_branch, n_ids, n_funs)
            && (match i.else_branch {
            Some(e) => stmt_wf(e, n_ids, n_funs),
            None => true,
        }),
        Stmt::Print(p) => expr_wf(p.expression, n_ids),
        Stmt::While(w) => expr_wf(w.condition, n_ids) && stmt_wf(w.body, n_ids, n_funs),
        Stmt::For(f) => (match f.initializer {
            Some(i) => stmt_wf(i, n_ids, n_funs),
            None => true,
        }) && (match f.condition {
            Some(c) => expr_wf(c, n_ids),
            None => true,
        }) && (match f.updator {
            Some(u) => expr_wf(u, n_ids),
            None => true,
        }) && stmt_wf(f.body, n_ids, n_funs),
        Stmt::Var(v) => match v.initializer {
            Some(i) => expr_wf(i, n_ids),
            None => true,
        },
        Stmt::Block(b) => forall|i: int|
            0 <= i < b.statements@.len() ==> stmt_wf(#[trigger] b.statements@[i], n_ids, n_funs),
        Stmt::Function(f) => f < n_funs,
        Stmt::Return(r) => expr_wf(r.value, n_ids),
        Stmt::Class(c) => (match c.superclass {
            Some(v) => v.id < n_ids,
            None => true,
        }) && (forall|i: int| 0 <= i < c.methods@.len() ==> #[trigger] c.methods@[i] < n_funs),
    }
}

pub open spec fn stmts_wf(ss: Seq<Stmt>, n_ids: int, n_funs: int) -> bool {
    forall|i: int| 0 <= i < ss.len() ==> stmt_wf(#[trigger] ss[i], n_ids, n_funs)
}

/// A well-formed statement stays well formed when the bounds grow.
pub proof fn lemma_stmt_wf_mono(s: Stmt, n1: int, n2: int, f1: int, f2: int)
    requires
        stmt_wf(s, n1, f1),
        n1 <= n2,
        f1 <= f2,
    ensures
        stmt_wf(s, n2, f2),
    decreases s,
{
    match s {
        Stmt::Expression(e) => {
            lemma_expr_wf_mono(e.expression, n1, n2);
        },
        Stmt::If(i) => {
            lemma_expr_wf_mono(i.condition, n1, n2);
            lemma_stmt_wf_mono(i.then_branch, n1, n2, f1, f2);
            match i.else_branch {
                Some(e) => lemma_stmt_wf_mono(e, n1, n2, f1, f2),
                None => {},
            }
        },
        Stmt::Print(p) => {
            lemma_expr_wf_mono(p.expression, n1, n2);
        },
        Stmt::While(w) => {
            lemma_expr_wf_mono(w.condition, n1, n2);
            lemma_stmt_wf_mono(w.body, n1, n2, f1, f2);
        },
        Stmt::For(f) => {
            match f.initializer {
                Some(i) => lemma_stmt_wf_mono(i, n1, n2, f1, f2),
                None => {},
            }
            match f.condition {
                Some(c) => lemma_expr_wf_mono(c, n1, n2),
                None => {},
            }
            match f.updator {
                Some(u) => lemma_expr_wf_mono(u, n1, n2),
                None => {},
            }
            lemma_stmt_wf_mono(f.body, n1, n2, f1, f2);
        },
        Stmt::Var(v) => {
            match v.initializer {
                Some(i) => lemma_expr_wf_mono(i, n1, n2),
                None => {},
            }
        },
        Stmt::Block(b) => {
            assert forall|i: int| 0 <= i < b.statements@.len() implies stmt_wf(
                #[trigger] b.statements@[i],
                n2,
                f2,
            ) by {
                lemma_stmt_wf_mono(b.statements@[i], n1, n2, f1, f2);
            }
        },
        Stmt::Function(_) => {},
        Stmt::Return(r) => {
            lemma_expr_wf_mono(r.value, n1, n2);
        },
        Stmt::Class(_) => {},
    }
}

pub proof fn lemma_stmts_wf_mono(ss: Seq<Stmt>, n1: int, n2: int, f1: int, f2: int)
    requires
        stmts_wf(ss, n1, f1),
        n1 <= n2,
        f1 <= f2,
    ensures
        stmts_wf(ss, n2, f2),
{
    assert forall|i: int| 0 <= i < ss.len() implies stmt_wf(#[trigger] ss[i], n2, f2) by {
        lemma_stmt_wf_mono(ss[i], n1, n2, f1, f2);
    }
}

/// A well-formed function table stays well formed when the id bound grows.
pub proof fn lemma_functions_wf_mono(funs: Seq<FunctionStatement>, n1: int, n2: int)
    requires
        functions_wf(funs, n1),
        n1 <= n2,
    ensures
        functions_wf(funs, n2),
{
    assert forall|i: int| 0 <= i < funs.len() implies stmts_wf(#[trigger] funs[i].body@, n2, i) by {
        lemma_stmts_wf_mono(funs[i].body@, n1, n2, i, i);
    }
}

/// A whole parsed program: the top-level statements, the hoisted function
/// table, and how many name-use ids were handed out.
pub struct Program {
    pub statements: Vec<Stmt>,
    pub functions: Vec<FunctionStatement>,
    pub id_count: usize,
}

/// Each function's body may only refer to functions hoisted before it,
/// which is what makes every walk of the program terminate.
pub open spec fn functions_wf(funs: Seq<FunctionStatement>, n_ids: int) -> bool {
    forall|i: int| 0 <= i < funs.len() ==> stmts_wf(#[trigger] funs[i].body@, n_ids, i)
}

pub open spec fn program_wf(p: Program) -> bool {
    stmts_wf(p.statements@, p.id_count as int, p.functions@.len() as int) && functions_wf(
        p.functions@,
        p.id_count as int,
    )
}

} // verus!
