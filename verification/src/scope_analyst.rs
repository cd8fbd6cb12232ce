use crate::expression::{expr_wf, Expr, VariableExpression};
use crate::statement::{program_wf, stmt_wf, stmts_wf, Program, ReturnStatement, Stmt};
use crate::tokens::{Error, Token};
use vstd::prelude::*;

verus! {

/// What kind of function body the resolver is currently inside.
#[derive(Debug, Copy, Clone, PartialEq, Eq, Structural)]
pub enum FunctionType {
    NoFunction,
    Function,
    Method,
    Initializer,
}

/// What kind of class body the resolver is currently inside.
#[derive(Debug, Copy, Clone, PartialEq, Eq, Structural)]
pub enum ClassType {
    NoClass,
    Class,
    SubClass,
}

/// The static pre-pass: one walk over the AST that assigns each name-use
/// site the lexical distance to the scope that will hold the name at run
/// time, and diagnoses misuse of `this`, `super`, `return` and
/// self-inheritance. A scope entry maps a name to whether its initializer
/// has finished; names absent from every scope resolve to the globals.
pub struct ScopeAnalyst {
    pub scopes: Vec<Vec<(String, bool)>>,
    pub scope_record: Vec<Option<usize>>,
    pub function_type: FunctionType,
    pub class_type: ClassType,
    pub errors: Vec<Error>,
}

/// The newest entry for `name` in one scope, if any.
pub open spec fn scope_lookup(scope: Seq<(String, bool)>, name: Seq<char>) -> Option<bool>
    decreases scope.len(),
{
    if scope.len() == 0 {
        None
    } else if scope.last().0@ == name {
        Some(scope.last().1)
    } else {
        scope_lookup(scope.drop_last(), name)
    }
}

/// The depth the resolver records for a name: the distance from the
/// innermost scope to the nearest scope declaring it, or nothing when no
/// scope does (such a name resolves globally at run time).
pub open spec fn spec_scope_depth(scopes: Seq<Vec<(String, bool)>>, name: Seq<char>) -> Option<int>
    decreases scopes.len(),
{
    if scopes.len() == 0 {
        None
    } else if scope_lookup(scopes.last()@, name) is Some {
        Some(0)
    } else {
        match spec_scope_depth(scopes.drop_last(), name) {
            Some(d) => Some(d + 1),
            None => None,
        }
    }
}

/// The resolver only appends diagnostics; none is dropped or rewritten.
pub open spec fn errors_extended(post: ScopeAnalyst, pre: ScopeAnalyst) -> bool {
    &&& post.errors@.len() >= pre.errors@.len()
    &&& forall|i: int| 0 <= i < pre.errors@.len() ==> #[trigger] post.errors@[i] == pre.errors@[i]
}

/// A diagnostic with the given position and message stands at index `at`.
pub open spec fn diag_at(a: ScopeAnalyst, at: int, line: u32, column: u32, msg: Seq<char>) -> bool {
    &&& a.errors@.len() > at
    &&& a.errors@[at].line == line
    &&& a.errors@[at].column == column
    &&& a.errors@[at].message@ == msg
}

impl ScopeAnalyst {
    /// Makes an analyst for a program that handed out `id_count` node ids;
    /// the scope record has one slot per id, all still empty.
    pub fn new(id_count: usize) -> (r: Self)
        ensures
            r.scope_record@.len() == id_count,
            forall|i: int| 0 <= i < id_count ==> r.scope_record@[i] is None,
            r.scopes@.len() == 0,
            r.function_type == FunctionType::NoFunction,
            r.class_type == ClassType::NoClass,
            r.errors@.len() == 0,
    {
        let mut scope_record: Vec<Option<usize>> = Vec::new();
        let mut i: usize = 0;
        while i < id_count
            invariant
                i <= id_count,
                scope_record@.len() == i,
                forall|j: int| 0 <= j < i ==> scope_record@[j] is None,
            decreases id_count - i,
        {
            scope_record.push(None);
            i = i + 1;
        }
        ScopeAnalyst {
            scopes: Vec::new(),
            scope_record,
            function_type: FunctionType::NoFunction,
            class_type: ClassType::NoClass,
            errors: Vec::new(),
        }
    }

    /// Resolves the whole program, filling the scope record.
    pub fn analysis(&mut self, program: &Program)
        requires
            program_wf(*program),
            old(self).scope_record@.len() == program.id_count,
            old(self).scopes@.len() == 0,
        ensures
            final(self).scope_record@.len() == old(self).scope_record@.len(),
            final(self).scopes@.len() == 0,
            errors_extended(*final(self), *old(self)),
    {
        let bound = program.functions.len();
        self.evaluate_statement_list(program, &program.statements, bound);
    }

    fn evaluate_statement_list(&mut self, program: &Program, stmts: &Vec<Stmt>, bound: usize)
        requires
            program_wf(*program),
            old(self).scope_record@.len() == program.id_count,
            stmts_wf(stmts@, program.id_count as int, bound as int),
            bound <= program.functions@.len(),
        ensures
            final(self).scope_record@.len() == old(self).scope_record@.len(),
            final(self).scopes@.len() == old(self).scopes@.len(),
            final(self).function_type == old(self).function_type,
            final(self).class_type == old(self).class_type,
            errors_extended(*final(self), *old(self)),
        decreases bound, stmts, 1int,
    {
        let n = stmts.len();
        let mut i: usize = 0;
        while i < n
            invariant
                i <= n,
                n == stmts@.len(),
                program_wf(*program),
                self.scope_record@.len() == program.id_count,
                stmts_wf(stmts@, program.id_count as int, bound as int),
                bound <= program.functions@.len(),
                self.scopes@.len() == old(self).scopes@.len(),
                self.function_type == old(self).function_type,
                self.class_type == old(self).class_type,
                errors_extended(*self, *old(self)),
            decreases n - i,
        {
            self.evaluate_statement_item(program, &stmts[i], bound);
            i = i + 1;
        }
    }

    fn evaluate_statement_item(&mut self, program: &Program, stmt: &Stmt, bound: usize)
        requires
            program_wf(*program),
            old(self).scope_record@.len() == program.id_count,
            stmt_wf(*stmt, program.id_count as int, bound as int),
            bound <= program.functions@.len(),
        ensures
            final(self).scope_record@.len() == old(self).scope_record@.len(),
            final(self).scopes@.len() == old(self).scopes@.len(),
            final(self).function_type == old(self).function_type,
            final(self).class_type == old(self).class_type,
            errors_extended(*final(self), *old(self)),
            *stmt matches Stmt::Class(c) ==> c.superclass matches Some(sv) ==> sv.name.lexeme@
                == c.name.lexeme@ ==> diag_at(
                *final(self),
                old(self).errors@.len() as int,
                c.name.line,
                c.name.column,
                "A class can't inherit from itself"@,
            ),
        decreases bound, stmt, 0int,
    {
        match stmt {
            Stmt::Function(fun_idx) => {
                let f_name = program.functions[*fun_idx].name.clone();
                self.declare(&f_name);
                self.define(&f_name);
                self.evaluate_function(program, *fun_idx, FunctionType::Function);
            },
            Stmt::If(stmt_if) => {
                self.evaluate_expression_item(&stmt_if.condition);
                self.evaluate_statement_item(program, &stmt_if.then_branch, bound);
                match &stmt_if.else_branch {
                    Some(else_branch) => {
                        self.evaluate_statement_item(program, else_branch, bound);
                    },
                    None => {},
                }
            },
            Stmt::Expression(stmt_expression) => {
                self.evaluate_expression_item(&stmt_expression.expression);
            },
            Stmt::Print(stmt_print) => {
                self.evaluate_expression_item(&stmt_print.expression);
            },
            Stmt::While(stmt_while) => {
                self.evaluate_expression_item(&stmt_while.condition);
                self.evaluate_statement_item(program, &stmt_while.body, bound);
            },
            Stmt::For(stmt_for) => {
                self.scopes.push(Vec::new());
                match &stmt_for.initializer {
                    Some(initializer) => {
                        self.evaluate_statement_item(program, initializer, bound);
                    },
                    None => {},
                }
                match &stmt_for.condition {
                    Some(condition) => {
                        self.evaluate_expression_item(condition);
                    },
                    None => {},
                }
                match &stmt_for.updator {
                    Some(updator) => {
                        self.evaluate_expression_item(updator);
                    },
                    None => {},
                }
                self.evaluate_statement_item(program, &stmt_for.body, bound);
                self.scopes.pop();
            },
            Stmt::Var(stmt_var) => {
                self.declare(&stmt_var.name);
                match &stmt_var.initializer {
                    Some(initializer) => {
                        self.evaluate_expression_item(initializer);
                    },
                    None => {},
                }
                self.define(&stmt_var.name);
            },
            Stmt::Block(stmt_block) => {
                self.scopes.push(Vec::new());
                self.evaluate_statement_list(program, &stmt_block.statements, bound);
                self.scopes.pop();
            },
            Stmt::Return(stmt_return) => {
                self.visit_return_stmt(stmt_return);
            },
            Stmt::Class(stmt_class) => {
                let previous_class_type = self.class_type;
                self.class_type = ClassType::Class;
                self.declare(&stmt_class.name);

                let mut has_superclass = false;
                match &stmt_class.superclass {
                    Some(superclass) => {
                        if superclass.name.lexeme == stmt_class.name.lexeme {
                            self.errors.push(
                                Error {
                                    line: stmt_class.name.line,
                                    column: stmt_class.name.column,
                                    message: "A class can't inherit from itself".to_owned(),
                                },
                            );
                        }
                        self.visit_variable_expr(superclass);
                        let mut super_scope: Vec<(String, bool)> = Vec::new();
                        super_scope.push(("super".to_owned(), true));
                        self.scopes.push(super_scope);
                        self.class_type = ClassType::SubClass;
                        has_superclass = true;
                    },
                    None => {},
                }

                let mut this_scope: Vec<(String, bool)> = Vec::new();
                this_scope.push(("this".to_owned(), true));
                self.scopes.push(this_scope);

                let init_key: String = "init".to_owned();
                let m = stmt_class.methods.len();
                let mut i: usize = 0;
                while i < m
                    invariant
                        i <= m,
                        m == stmt_class.methods@.len(),
                        program_wf(*program),
                        self.scope_record@.len() == program.id_count,
                        forall|j: int| 0 <= j < m ==> #[trigger] stmt_class.methods@[j] < bound,
                        bound <= program.functions@.len(),
                        self.scopes@.len() == old(self).scopes@.len() + 1 + (if has_superclass {
                            1int
                        } else {
                            0int
                        }),
                        self.function_type == old(self).function_type,
                        errors_extended(*self, *old(self)),
                        stmt_class.superclass matches Some(sv) ==> sv.name.lexeme@
                            == stmt_class.name.lexeme@ ==> diag_at(
                            *self,
                            old(self).errors@.len() as int,
                            stmt_class.name.line,
                            stmt_class.name.column,
                            "A class can't inherit from itself"@,
                        ),
                    decreases m - i,
                {
                    let method_idx = stmt_class.methods[i];
                    if program.functions[method_idx].name.lexeme == init_key {
                        self.evaluate_function(program, method_idx, FunctionType::Initializer);
                    } else {
                        self.evaluate_function(program, method_idx, FunctionType::Method);
                    }
                    i = i + 1;
                }
                self.scopes.pop();

                if has_superclass {
                    self.scopes.pop();
                }

                self.define(&stmt_class.name);
                self.class_type = previous_class_type;
            },
        }
    }

    fn visit_return_stmt(&mut self, stmt: &ReturnStatement)
        requires
            expr_wf(stmt.value, old(self).scope_record@.len() as int),
        ensures
            final(self).scope_record@.len() == old(self).scope_record@.len(),
            final(self).scopes@.len() == old(self).scopes@.len(),
            final(self).function_type == old(self).function_type,
            final(self).class_type == old(self).class_type,
            errors_extended(*final(self), *old(self)),
            old(self).function_type == FunctionType::NoFunction ==> diag_at(
                *final(self),
                old(self).errors@.len() as int,
                stmt.keyword.line,
                stmt.keyword.column,
                "Can't return from top-level code"@,
            ),
            old(self).function_type == FunctionType::Initializer ==> !(stmt.value matches
                Expr::Literal(l) && l.value is None) ==> diag_at(
                *final(self),
                old(self).errors@.len() as int,
                stmt.keyword.line,
                stmt.keyword.column,
                "Can't return a value from an initializer"@,
            ),
    {
        match self.function_type {
            FunctionType::NoFunction => {
                self.errors.push(
                    Error {
                        line: stmt.keyword.line,
                        column: stmt.keyword.column,
                        message: "Can't return from top-level code".to_owned(),
                    },
                );
            },
            _ => {},
        }
        let is_bare_nil = match &stmt.value {
            Expr::Literal(literal_expr) => literal_expr.value.is_none(),
            _ => false,
        };
        if !is_bare_nil {
            match self.function_type {
                FunctionType::Initializer => {
                    self.errors.push(
                        Error {
                            line: stmt.keyword.line,
                            column: stmt.keyword.column,
                            message: "Can't return a value from an initializer".to_owned(),
                        },
                    );
                },
                _ => {},
            }
        }
        self.evaluate_expression_item(&stmt.value);
    }

    /// Resolves one function or method body inside a fresh scope that
    /// binds the parameters.
    fn evaluate_function(&mut self, program: &Program, fun_idx: usize, function_type: FunctionType)
        requires
            program_wf(*program),
            old(self).scope_record@.len() == program.id_count,
            fun_idx < program.functions@.len(),
        ensures
            final(self).scope_record@.len() == old(self).scope_record@.len(),
            final(self).scopes@.len() == old(self).scopes@.len(),
            final(self).function_type == old(self).function_type,
            final(self).class_type == old(self).class_type,
            errors_extended(*final(self), *old(self)),
        decreases fun_idx, program.functions@[fun_idx as int].body, 2int,
    {
        let previous_function_type = self.function_type;
        self.function_type = function_type;

        self.scopes.push(Vec::new());

        let np = program.functions[fun_idx].params.len();
        let mut i: usize = 0;
        while i < np
            invariant
                i <= np,
                program_wf(*program),
                self.scope_record@.len() == program.id_count,
                fun_idx < program.functions@.len(),
                np == program.functions@[fun_idx as int].params@.len(),
                self.scopes@.len() == old(self).scopes@.len() + 1,
                self.class_type == old(self).class_type,
                errors_extended(*self, *old(self)),
            decreases np - i,
        {
            let param = program.functions[fun_idx].params[i].clone();
            self.declare(&param);
            self.define(&param);
            i = i + 1;
        }
        proof {
            assert(stmts_wf(
                program.functions@[fun_idx as int].body@,
                program.id_count as int,
                fun_idx as int,
            ));
        }
        self.evaluate_statement_list(program, &program.functions[fun_idx].body, fun_idx);

        self.scopes.pop();

        self.function_type = previous_function_type;
    }

    fn evaluate_expression_list(&mut self, exprs: &Vec<Expr>)
        requires
            forall|i: int|
                0 <= i < exprs@.len() ==> expr_wf(
                    #[trigger] exprs@[i],
                    old(self).scope_record@.len() as int,
                ),
        ensures
            final(self).scope_record@.len() == old(self).scope_record@.len(),
            final(self).scopes == old(self).scopes,
            final(self).scopes@.len() == old(self).scopes@.len(),
            final(self).function_type == old(self).function_type,
            final(self).class_type == old(self).class_type,
            errors_extended(*final(self), *old(self)),
        decreases exprs,
    {
        let n = exprs.len();
        let mut i: usize = 0;
        while i < n
            invariant
                i <= n,
                n == exprs@.len(),
                self.scope_record@.len() == old(self).scope_record@.len(),
                forall|j: int|
                    0 <= j < exprs@.len() ==> expr_wf(
                        #[trigger] exprs@[j],
                        self.scope_record@.len() as int,
                    ),
                self.scopes == old(self).scopes,
                self.scopes@.len() == old(self).scopes@.len(),
                self.function_type == old(self).function_type,
                self.class_type == old(self).class_type,
                errors_extended(*self, *old(self)),
            decreases n - i,
        {
            self.evaluate_expression_item(&exprs[i]);
            i = i + 1;
        }
    }

    fn evaluate_expression_item(&mut self, expr: &Expr)
        requires
            expr_wf(*expr, old(self).scope_record@.len() as int),
        ensures
            final(self).scope_record@.len() == old(self).scope_record@.len(),
            final(self).scopes@.len() == old(self).scopes@.len(),
            final(self).function_type == old(self).function_type,
            final(self).class_type == old(self).class_type,
            errors_extended(*final(self), *old(self)),
            final(self).scopes == old(self).scopes,
            *expr matches Expr::Variable(v) ==> final(self).scope_record@ == (match
                spec_scope_depth(old(self).scopes@, v.name.lexeme@) {
                Some(d) => old(self).scope_record@.update(v.id as int, Some(d as usize)),
                None => old(self).scope_record@,
            }),
            *expr matches Expr::This(t) ==> final(self).scope_record@ == (match spec_scope_depth(
                old(self).scopes@,
                t.keyword.lexeme@,
            ) {
                Some(d) => old(self).scope_record@.update(t.id as int, Some(d as usize)),
                None => old(self).scope_record@,
            }),
            *expr matches Expr::Super(sp) ==> final(self).scope_record@ == (match spec_scope_depth(
                old(self).scopes@,
                sp.keyword.lexeme@,
            ) {
                Some(d) => old(self).scope_record@.update(sp.id as int, Some(d as usize)),
                None => old(self).scope_record@,
            }),
            *expr matches Expr::Assignment(a) ==> spec_scope_depth(
                old(self).scopes@,
                a.name.lexeme@,
            ) matches Some(d) ==> final(self).scope_record@[a.id as int] == Some(d as usize),
            *expr matches Expr::This(t) ==> old(self).class_type == ClassType::NoClass
                ==> diag_at(
                *final(self),
                old(self).errors@.len() as int,
                t.keyword.line,
                t.keyword.column,
                "Can't use \"this\" outside of a class"@,
            ),
            *expr matches Expr::Super(sp) ==> old(self).class_type == ClassType::NoClass
                ==> diag_at(
                *final(self),
                old(self).errors@.len() as int,
                sp.keyword.line,
                sp.keyword.column,
                "Can't use \"super\" outside of a class"@,
            ),
            *expr matches Expr::Super(sp) ==> old(self).class_type == ClassType::Class
                ==> diag_at(
                *final(self),
                old(self).errors@.len() as int,
                sp.keyword.line,
                sp.keyword.column,
                "Can't use \"super\" in a class with no superclass"@,
            ),
        decreases expr,
    {
        match expr {
            Expr::Binary(expr_binary) => {
                self.evaluate_expression_item(&expr_binary.left);
                self.evaluate_expression_item(&expr_binary.right);
            },
            Expr::Logical(expr_logical) => {
                self.evaluate_expression_item(&expr_logical.left);
                self.evaluate_expression_item(&expr_logical.right);
            },
            Expr::Grouping(expr_grouping) => {
                self.evaluate_expression_item(&expr_grouping.expression);
            },
            Expr::Literal(_) => {},
            Expr::Unary(expr_unary) => {
                self.evaluate_expression_item(&expr_unary.expression);
            },
            Expr::Variable(expr_variable) => {
                self.visit_variable_expr(expr_variable);
            },
            Expr::Assignment(expr_assignment) => {
                self.evaluate_expression_item(&expr_assignment.value);
                self.calculate(expr_assignment.id, &expr_assignment.name);
            },
            Expr::Call(expr_call) => {
                self.evaluate_expression_item(&expr_call.callee);
                self.evaluate_expression_list(&expr_call.args);
            },
            Expr::Get(expr_get) => {
                self.evaluate_expression_item(&expr_get.object);
            },
            Expr::SetProp(expr_set) => {
                self.evaluate_expression_item(&expr_set.value);
                self.evaluate_expression_item(&expr_set.object);
            },
            Expr::This(expr_this) => {
                match self.class_type {
                    ClassType::NoClass => {
                        self.errors.push(
                            Error {
                                line: expr_this.keyword.line,
                                column: expr_this.keyword.column,
                                message: "Can't use \"this\" outside of a class".to_owned(),
                            },
                        );
                    },
                    _ => {},
                }
                self.calculate(expr_this.id, &expr_this.keyword);
            },
            Expr::Super(expr_super) => {
                match self.class_type {
                    ClassType::NoClass => {
                        self.errors.push(
                            Error {
                                line: expr_super.keyword.line,
                                column: expr_super.keyword.column,
                                message: "Can't use \"super\" outside of a class".to_owned(),
                            },
                        );
                    },
                    ClassType::Class => {
                        self.errors.push(
                            Error {
                                line: expr_super.keyword.line,
                                column: expr_super.keyword.column,
                                message: "Can't use \"super\" in a class with no superclass".to_owned(),
                            },
                        );
                    },
                    _ => {},
                }
                self.calculate(expr_super.id, &expr_super.keyword);
            },
        }
    }

    fn visit_variable_expr(&mut self, expr: &VariableExpression)
        requires
            expr.id < old(self).scope_record@.len(),
        ensures
            final(self).scope_record@.len() == old(self).scope_record@.len(),
            final(self).scopes@.len() == old(self).scopes@.len(),
            final(self).function_type == old(self).function_type,
            final(self).class_type == old(self).class_type,
            errors_extended(*final(self), *old(self)),
            final(self).scopes == old(self).scopes,
            final(self).scope_record@ == (match spec_scope_depth(
                old(self).scopes@,
                expr.name.lexeme@,
            ) {
                Some(d) => old(self).scope_record@.update(expr.id as int, Some(d as usize)),
                None => old(self).scope_record@,
            }),
            old(self).scopes@.len() > 0 ==> scope_lookup(
                old(self).scopes@.last()@,
                expr.name.lexeme@,
            ) == Some(false) ==> diag_at(
                *final(self),
                old(self).errors@.len() as int,
                expr.name.line,
                expr.name.column,
                "Can't read local variable in its own initializer"@,
            ),
    {
        let depth = self.scopes.len();
        if depth != 0 {
            match self.scope_lookup_in(depth - 1, &expr.name.lexeme) {
                Some(flag) => {
                    if !flag {
                        self.errors.push(
                            Error {
                                line: expr.name.line,
                                column: expr.name.column,
                                message: "Can't read local variable in its own initializer".to_owned(),
                            },
                        );
                    }
                },
                None => {},
            }
        }
        self.calculate(expr.id, &expr.name);
    }

    /// Records, for the name-use site `id`, the distance from the
    /// innermost scope to the nearest scope that declares the name; a name
    /// declared in no scope stays unrecorded and will resolve globally.
    fn calculate(&mut self, id: usize, token: &Token)
        requires
            id < old(self).scope_record@.len(),
        ensures
            final(self).scope_record@.len() == old(self).scope_record@.len(),
            final(self).scopes == old(self).scopes,
            final(self).function_type == old(self).function_type,
            final(self).class_type == old(self).class_type,
            final(self).errors == old(self).errors,
            final(self).scope_record@ == (match spec_scope_depth(
                old(self).scopes@,
                token.lexeme@,
            ) {
                Some(d) => old(self).scope_record@.update(id as int, Some(d as usize)),
                None => old(self).scope_record@,
            }),
    {
        let depth = self.scopes.len();
        proof {
            assert(self.scopes@.take(depth as int) =~= self.scopes@);
        }
        let mut pos: usize = 0;
        while pos < depth
            invariant
                depth == self.scopes@.len(),
                pos <= depth,
                self.scope_record@.len() == old(self).scope_record@.len(),
                self.scope_record == old(self).scope_record,
                self.scopes == old(self).scopes,
                self.function_type == old(self).function_type,
                self.class_type == old(self).class_type,
                self.errors == old(self).errors,
                id < self.scope_record@.len(),
                spec_scope_depth(self.scopes@, token.lexeme@) == (match spec_scope_depth(
                    self.scopes@.take(depth - pos),
                    token.lexeme@,
                ) {
                    Some(d) => Some(d + pos),
                    None => None::<int>,
                }),
            decreases depth - pos,
        {
            proof {
                assert(self.scopes@.take(depth - pos).last() == self.scopes@[depth - 1 - pos]);
                assert(self.scopes@.take(depth - pos).drop_last() =~= self.scopes@.take(
                    depth - pos - 1,
                ));
            }
            if self.scope_lookup_in(depth - 1 - pos, &token.lexeme).is_some() {
                self.scope_record[id] = Some(pos);
                return ;
            }
            pos = pos + 1;
        }
        proof {
            assert(self.scopes@.take(0) =~= Seq::<Vec<(String, bool)>>::empty());
        }
    }

    /// The newest entry for `name` in the scope at index `idx`.
    fn scope_lookup_in(&self, idx: usize, name: &String) -> (r: Option<bool>)
        requires
            idx < self.scopes@.len(),
        ensures
            r == scope_lookup(self.scopes@[idx as int]@, name@),
    {
        let m = self.scopes[idx].len();
        assert(self.scopes@[idx as int]@.take(m as int) =~= self.scopes@[idx as int]@);
        let mut i: usize = m;
        while i > 0
            invariant
                idx < self.scopes@.len(),
                i <= self.scopes@[idx as int]@.len(),
                scope_lookup(self.scopes@[idx as int]@, name@) == scope_lookup(
                    self.scopes@[idx as int]@.take(i as int),
                    name@,
                ),
            decreases i,
        {
            assert(self.scopes@[idx as int]@.take(i as int).last() == self.scopes@[idx as int]@[i
                - 1]);
            assert(self.scopes@[idx as int]@.take(i as int).drop_last() =~= self.scopes@[
                idx as int]@.take(i - 1));
            if self.scopes[idx][i - 1].0 == *name {
                return Some(self.scopes[idx][i - 1].1);
            }
            i = i - 1;
        }
        assert(self.scopes@[idx as int]@.take(0) =~= Seq::<(String, bool)>::empty());
        None
    }

    /// Marks `name` declared in the innermost scope, its initializer not
    /// yet finished. Outside every scope this is a global: nothing to do.
    fn declare(&mut self, name: &Token)
        ensures
            final(self).scope_record == old(self).scope_record,
            final(self).scopes@.len() == old(self).scopes@.len(),
            final(self).function_type == old(self).function_type,
            final(self).class_type == old(self).class_type,
            final(self).errors == old(self).errors,
    {
        let depth = self.scopes.len();
        if depth != 0 {
            self.scopes[depth - 1].push((name.lexeme.clone(), false));
        }
    }

    /// Marks `name` fully defined in the innermost scope.
    fn define(&mut self, name: &Token)
        ensures
            final(self).scope_record == old(self).scope_record,
            final(self).scopes@.len() == old(self).scopes@.len(),
            final(self).function_type == old(self).function_type,
            final(self).class_type == old(self).class_type,
            final(self).errors == old(self).errors,
    {
        let depth = self.scopes.len();
        if depth != 0 {
            self.scopes[depth - 1].push((name.lexeme.clone(), true));
        }
    }
}

} // verus!
