use crate::expression::{
    expr_wf, lemma_expr_wf_mono, AssignmentExpression, BinaryExpression, CallExpression, Expr,
    GetExpression, GroupingExpression, LiteralExpression, LogicalExpression, SetExpression,
    SuperExpression, ThisExpression, UnaryExpression, VariableExpression,
};
use crate::statement::{
    functions_wf, lemma_functions_wf_mono, lemma_stmt_wf_mono, lemma_stmts_wf_mono,
    stmt_wf, stmts_wf, BlockStatement,
    ClassStatement, ExpressionStatement, ForStatement, FunctionStatement, IfStatement,
    PrintStatement, ReturnStatement, Stmt, VarStatement, WhileStatement,
};
use crate::tokens::{Error, Token, TokensType};
use vstd::prelude::*;

verus! {

/// Which kind of callable a `fun`-style declaration introduces; it only
/// picks the wording of diagnostics.
enum FunType {
    Function,
    Method,
}

/// Recursive-descent parser over the scanner's token stream.
pub struct Parser {
    pub tokens: Vec<Token>,
    pub current: usize,
    pub statements: Vec<Stmt>,
    pub functions: Vec<FunctionStatement>,
    pub errors: Vec<Error>,
    pub id_count: usize,
}

/// The token kinds that can begin a declaration; panic-mode recovery
/// stops just before one of them.
pub open spec fn spec_sync_point(t: TokensType) -> bool {
    t == TokensType::Class || t == TokensType::Fun || t == TokensType::Var || t == TokensType::For
        || t == TokensType::If || t == TokensType::While || t == TokensType::Print || t
        == TokensType::Return
}

/// The lookahead that makes an expression an assignment target: an
/// identifier immediately followed by `=`.
pub open spec fn assign_lookahead(pre: Parser) -> bool {
    &&& pre.tokens@[pre.current as int].token_type == TokensType::Identifier
    &&& pre.current + 1 < pre.tokens@.len()
    &&& pre.tokens@[pre.current + 1].token_type == TokensType::Equal
}

/// A grammar level handed the variable read through untouched: the
/// result is the variable node for the identifier at the cursor, exactly
/// one token was consumed, and one node id was handed out.
pub open spec fn passed_variable(post: Parser, pre: Parser, e: Expr) -> bool {
    &&& (e matches Expr::Variable(v) && v.name == pre.tokens@[pre.current as int] && v.id
        == pre.id_count)
    &&& post.current == pre.current + 1
    &&& post.id_count == pre.id_count + 1
}

/// What every parsing step preserves: the token stream itself, the
/// invariant, and the monotone growth of position, ids and function table.
pub open spec fn carried(post: Parser, pre: Parser) -> bool {
    &&& post.inv()
    &&& post.tokens == pre.tokens
    &&& post.statements == pre.statements
    &&& post.current >= pre.current
    &&& post.id_count >= pre.id_count
    &&& post.functions@.len() >= pre.functions@.len()
}

impl Parser {
    /// The token stream is nonempty and ends with `Eof`, the cursor is on a
    /// live token, ids never outnumber consumed tokens, and every hoisted
    /// function body only refers to functions hoisted before it.
    pub open spec fn inv(self) -> bool {
        &&& self.tokens@.len() > 0
        &&& self.tokens@.last().token_type == TokensType::Eof
        &&& self.current < self.tokens@.len()
        &&& self.id_count <= self.current
        &&& functions_wf(self.functions@, self.id_count as int)
    }

    pub fn new(tokens: Vec<Token>) -> (r: Self)
        requires
            tokens@.len() > 0,
            tokens@.last().token_type == TokensType::Eof,
        ensures
            r.inv(),
            r.tokens == tokens,
            r.current == 0,
            r.statements@.len() == 0,
            r.functions@.len() == 0,
            r.errors@.len() == 0,
            r.id_count == 0,
    {
        Parser {
            tokens,
            current: 0,
            statements: Vec::new(),
            functions: Vec::new(),
            errors: Vec::new(),
            id_count: 0,
        }
    }

    fn is_end(&self) -> (r: bool)
        requires
            self.inv(),
        ensures
            r == (self.tokens@[self.current as int].token_type == TokensType::Eof),
    {
        self.tokens[self.current].token_type == TokensType::Eof
    }

    fn check(&self, token_type: TokensType) -> (r: bool)
        requires
            self.inv(),
        ensures
            r == (self.tokens@[self.current as int].token_type == token_type && self.tokens@[
                self.current as int].token_type != TokensType::Eof),
    {
        if self.is_end() {
            return false;
        }
        token_type == self.tokens[self.current].token_type
    }

    fn advance(&mut self)
        requires
            old(self).inv(),
        ensures
            carried(*final(self), *old(self)),
            final(self).id_count == old(self).id_count,
            final(self).functions == old(self).functions,
            final(self).errors == old(self).errors,
            old(self).tokens@[old(self).current as int].token_type != TokensType::Eof ==> final(self).current == old(self).current + 1,
            old(self).tokens@[old(self).current as int].token_type == TokensType::Eof ==> final(self).current == old(self).current,
    {
        let n = self.tokens.len();
        if !self.is_end() {
            assert(self.current < n);
            self.current = self.current + 1;
        }
    }

    fn previous_cloned(&self) -> (r: Token)
        requires
            self.inv(),
            self.current > 0,
        ensures
            r == self.tokens@[self.current - 1],
    {
        self.tokens[self.current - 1].clone()
    }

    /// Hands out the next name-use node id. Ids never outnumber consumed
    /// tokens, so the counter cannot overflow.
    fn fresh_id(&mut self) -> (r: usize)
        requires
            old(self).inv(),
            old(self).id_count < old(self).current,
        ensures
            final(self).inv(),
            r == old(self).id_count,
            final(self).id_count == old(self).id_count + 1,
            final(self).tokens == old(self).tokens,
            final(self).current == old(self).current,
            final(self).statements == old(self).statements,
            final(self).functions == old(self).functions,
            final(self).errors == old(self).errors,
    {
        let n = self.tokens.len();
        assert(self.id_count < n);
        let id = self.id_count;
        self.id_count = self.id_count + 1;
        proof {
            lemma_functions_wf_mono(self.functions@, id as int, self.id_count as int);
        }
        id
    }

    fn match_token(&mut self, token_type: TokensType) -> (r: bool)
        requires
            old(self).inv(),
        ensures
            carried(*final(self), *old(self)),
            final(self).id_count == old(self).id_count,
            final(self).functions == old(self).functions,
            final(self).errors == old(self).errors,
            r == (old(self).tokens@[old(self).current as int].token_type == token_type && old(
                self,
            ).tokens@[old(self).current as int].token_type != TokensType::Eof),
            r ==> final(self).current == old(self).current + 1 && old(self).tokens@[old(self).current as int].token_type == token_type && token_type != TokensType::Eof,
            !r ==> *final(self) == *old(self),
    {
        if self.check(token_type) {
            self.advance();
            return true;
        }
        false
    }

    /// Takes the expected token and steps past it; otherwise records a
    /// diagnostic at the previous token and fails.
    fn consume(&mut self, token_type: TokensType, message: String) -> (r: Result<Token, ()>)
        requires
            old(self).inv(),
            old(self).current > 0,
        ensures
            carried(*final(self), *old(self)),
            final(self).id_count == old(self).id_count,
            final(self).functions == old(self).functions,
            r matches Ok(t) ==> final(self).current == old(self).current + 1 && t == old(self).tokens@[old(self).current as int] && t.token_type == token_type,
            r is Err ==> final(self).current == old(self).current && !(old(self).tokens@[old(self).current as int].token_type == token_type && token_type != TokensType::Eof),
    {
        if self.check(token_type) {
            let t = self.tokens[self.current].clone();
            self.advance();
            return Ok(t);
        }
        let prev = self.previous_cloned();
        self.errors.push(Error { line: prev.line, column: prev.column, message });
        Err(())
    }

    /// Skips tokens until just past a `;` or just before a token that can
    /// begin a declaration, to bound cascade errors.
    fn synchronize(&mut self)
        requires
            old(self).inv(),
        ensures
            carried(*final(self), *old(self)),
            final(self).id_count == old(self).id_count,
            final(self).functions == old(self).functions,
            final(self).tokens@[final(self).current as int].token_type == TokensType::Eof || (final(self).current > 0 && final(self).tokens@[final(self).current - 1].token_type
                == TokensType::Semicolon) || spec_sync_point(
                final(self).tokens@[final(self).current as int].token_type,
            ),
            old(self).tokens@[old(self).current as int].token_type != TokensType::Eof ==> final(self).current > old(self).current,
    {
        self.advance();
        while !self.is_end()
            invariant
                self.inv(),
                self.tokens == old(self).tokens,
                self.statements == old(self).statements,
                self.current >= old(self).current,
                old(self).tokens@[old(self).current as int].token_type != TokensType::Eof
                    ==> self.current > old(self).current,
                self.id_count == old(self).id_count,
                self.functions == old(self).functions,
            decreases self.tokens@.len() - self.current, 36int,
        {
            if self.current > 0 {
                if self.tokens[self.current - 1].token_type == TokensType::Semicolon {
                    return ;
                }
            }
            let t = self.tokens[self.current].token_type;
            match t {
                TokensType::Class | TokensType::Fun | TokensType::Var | TokensType::For
                    | TokensType::If | TokensType::While | TokensType::Print
                    | TokensType::Return => {
                    return ;
                },
                _ => {},
            }
            self.advance();
        }
    }

    /// Parses the whole token stream. On the first syntax error the
    /// diagnostic is recorded, the parser synchronizes, and parsing stops;
    /// the statements gathered so far are kept.
    pub fn parse(&mut self)
        requires
            old(self).inv(),
            old(self).statements@.len() == 0,
        ensures
            final(self).inv(),
            final(self).tokens == old(self).tokens,
            stmts_wf(
                final(self).statements@,
                final(self).id_count as int,
                final(self).functions@.len() as int,
            ),
    {
        while !self.is_end()
            invariant
                self.inv(),
                self.tokens == old(self).tokens,
                stmts_wf(self.statements@, self.id_count as int, self.functions@.len() as int),
            decreases self.tokens@.len() - self.current, 36int,
        {
            let ghost pre = *self;
            match self.declaration() {
                Ok(stmt) => {
                    proof {
                        lemma_stmts_wf_mono(
                            pre.statements@,
                            pre.id_count as int,
                            self.id_count as int,
                            pre.functions@.len() as int,
                            self.functions@.len() as int,
                        );
                    }
                    self.statements.push(stmt);
                },
                Err(_) => {
                    proof {
                        lemma_stmts_wf_mono(
                            pre.statements@,
                            pre.id_count as int,
                            self.id_count as int,
                            pre.functions@.len() as int,
                            self.functions@.len() as int,
                        );
                    }
                    self.synchronize();
                    return ;
                },
            }
        }
    }

    fn declaration(&mut self) -> (r: Result<Stmt, ()>)
        requires
            old(self).inv(),
        ensures
            carried(*final(self), *old(self)),
            r matches Ok(s) ==> stmt_wf(
                s,
                final(self).id_count as int,
                final(self).functions@.len() as int,
            ) && final(self).current > old(self).current,
            r matches Ok(s) ==> (match old(self).tokens@[old(self).current as int].token_type {
                TokensType::Fun => s is Function,
                TokensType::Class => s is Class,
                TokensType::Var => s is Var,
                TokensType::If => s is If,
                TokensType::Print => s is Print,
                TokensType::Return => s is Return,
                TokensType::While => s is While,
                TokensType::For => s is For,
                TokensType::LeftBrace => s is Block,
                _ => true,
            }),
        decreases self.tokens@.len() - self.current, 34int,
    {
        if self.match_token(TokensType::Fun) {
            let idx = self.fun_decl(FunType::Function)?;
            return Ok(Stmt::Function(idx));
        }
        if self.match_token(TokensType::Class) {
            let c = self.class_decl()?;
            return Ok(Stmt::Class(Box::new(c)));
        }
        if self.match_token(TokensType::Var) {
            let v = self.var_decl()?;
            return Ok(Stmt::Var(Box::new(v)));
        }
        self.statement()
    }

    /// Parses a function or method declaration, hoists it into the function
    /// table, and returns its index.
    fn fun_decl(&mut self, fun_type: FunType) -> (r: Result<usize, ()>)
        requires
            old(self).inv(),
            old(self).current > 0,
        ensures
            carried(*final(self), *old(self)),
            r matches Ok(i) ==> i < final(self).functions@.len() && final(self).current > old(self).current,
            r matches Ok(i) ==> final(self).functions@[i as int].name == old(self).tokens@[old(self).current as int],
            old(self).current + 4 < old(self).tokens@.len() ==> (old(self).tokens@[old(self).current as int].token_type == TokensType::Identifier && old(self).tokens@[old(self).current + 1].token_type == TokensType::LeftParen && old(self).tokens@[old(self).current
                + 2].token_type == TokensType::RightParen && old(self).tokens@[old(self).current
                + 3].token_type == TokensType::LeftBrace && old(self).tokens@[old(self).current
                + 4].token_type == TokensType::RightBrace) ==> (r matches Ok(i) && final(self).functions@[i as int].params@.len() == 0 && final(self).functions@[i as int].body@.len()
                == 0 && final(self).current == old(self).current + 5),
        decreases self.tokens@.len() - self.current, 13int,
    {
        let name = match fun_type {
            FunType::Function => self.consume(
                TokensType::Identifier,
                "Expect function name".to_owned(),
            )?,
            FunType::Method => self.consume(TokensType::Identifier, "Expect method name".to_owned())?,
        };
        self.consume(TokensType::LeftParen, "Expect \"(\" after the name".to_owned())?;

        let mut params: Vec<Token> = Vec::new();
        if !self.check(TokensType::RightParen) {
            loop
                invariant
                    self.inv(),
                    self.current > 0,
                    self.tokens == old(self).tokens,
                    self.statements == old(self).statements,
                    self.current >= old(self).current,
                    self.id_count >= old(self).id_count,
                    self.functions@.len() >= old(self).functions@.len(),
                    old(self).current + 2 < old(self).tokens@.len() ==> old(self).tokens@[old(self).current + 2].token_type != TokensType::RightParen,
                decreases self.tokens@.len() - self.current, 36int,
            {
                let param = self.consume(TokensType::Identifier, "Expect parameter name".to_owned())?;
                params.push(param);
                if !self.match_token(TokensType::Comma) {
                    break ;
                }
            }
        }
        self.consume(TokensType::RightParen, "Expect \")\" after parameters".to_owned())?;
        self.consume(TokensType::LeftBrace, "Expect \"{\" before the body".to_owned())?;

        let body = self.block()?;
        let ghost before_push = self.functions@;
        let ghost body_view = body@;
        let idx = self.functions.len();
        self.functions.push(FunctionStatement { name, params, body });
        proof {
            assert forall|i: int| 0 <= i < self.functions@.len() implies stmts_wf(
                #[trigger] self.functions@[i].body@,
                self.id_count as int,
                i,
            ) by {
                if i < before_push.len() {
                    assert(self.functions@[i] == before_push[i]);
                } else {
                    assert(self.functions@[i].body@ == body_view);
                }
            }
        }
        Ok(idx)
    }

    fn class_decl(&mut self) -> (r: Result<ClassStatement, ()>)
        requires
            old(self).inv(),
            old(self).current > 0,
        ensures
            carried(*final(self), *old(self)),
            r matches Ok(c) ==> stmt_wf(
                Stmt::Class(Box::new(c)),
                final(self).id_count as int,
                final(self).functions@.len() as int,
            ) && final(self).current > old(self).current,
        decreases self.tokens@.len() - self.current, 13int,
    {
        let name = self.consume(TokensType::Identifier, "Expect class name".to_owned())?;

        let mut superclass: Option<VariableExpression> = None;
        if self.match_token(TokensType::Less) {
            self.consume(TokensType::Identifier, "Expect superclass name".to_owned())?;
            let superclass_name = self.previous_cloned();
            let id = self.fresh_id();
            superclass = Some(VariableExpression { name: superclass_name, id });
        }
        self.consume(TokensType::LeftBrace, "Expect \"{\" before class body".to_owned())?;

        let mut methods: Vec<usize> = Vec::new();
        while !self.check(TokensType::RightBrace) && !self.is_end()
            invariant
                self.inv(),
                self.current > 0,
                self.tokens == old(self).tokens,
                self.statements == old(self).statements,
                self.current > old(self).current,
                self.id_count >= old(self).id_count,
                self.functions@.len() >= old(self).functions@.len(),
                forall|i: int|
                    0 <= i < methods@.len() ==> #[trigger] methods@[i] < self.functions@.len(),
                superclass matches Some(v) ==> v.id < self.id_count,
            decreases self.tokens@.len() - self.current, 36int,
        {
            let idx = self.fun_decl(FunType::Method)?;
            methods.push(idx);
        }

        self.consume(TokensType::RightBrace, "Expect \"}\" after class body".to_owned())?;

        Ok(ClassStatement { name, superclass, methods })
    }

    fn var_decl(&mut self) -> (r: Result<VarStatement, ()>)
        requires
            old(self).inv(),
            old(self).current > 0,
        ensures
            carried(*final(self), *old(self)),
            r matches Ok(v) ==> stmt_wf(
                Stmt::Var(Box::new(v)),
                final(self).id_count as int,
                final(self).functions@.len() as int,
            ) && final(self).current > old(self).current,
            old(self).current + 1 < old(self).tokens@.len() ==> (old(self).tokens@[old(self).current as int].token_type == TokensType::Identifier && old(self).tokens@[old(self).current + 1].token_type == TokensType::Semicolon) ==> (r matches Ok(v) && v.name == old(self).tokens@[old(self).current as int] && v.initializer is None && final(self).current == old(self).current + 2),
        decreases self.tokens@.len() - self.current, 13int,
    {
        let name = self.consume(TokensType::Identifier, "Expect variable name".to_owned())?;
        let mut initializer: Option<Expr> = None;

        if self.match_token(TokensType::Equal) {
            initializer = Some(self.expression()?);
        }
        self.consume(
            TokensType::Semicolon,
            "Expect \";\" after variable declaration".to_owned(),
        )?;
        Ok(VarStatement { name, initializer })
    }

    /// Parses the statements of a brace-delimited block, up to and past the
    /// closing brace.
    fn block(&mut self) -> (r: Result<Vec<Stmt>, ()>)
        requires
            old(self).inv(),
            old(self).current > 0,
        ensures
            carried(*final(self), *old(self)),
            r matches Ok(ss) ==> stmts_wf(
                ss@,
                final(self).id_count as int,
                final(self).functions@.len() as int,
            ) && final(self).current > old(self).current,
            old(self).tokens@[old(self).current as int].token_type == TokensType::RightBrace ==> (
            r matches Ok(ss) && ss@.len() == 0 && final(self).current == old(self).current + 1
                && final(self).id_count == old(self).id_count && final(self).functions == old(self).functions),
        decreases self.tokens@.len() - self.current, 35int,
    {
        let mut statements: Vec<Stmt> = Vec::new();

        if self.check(TokensType::RightBrace) {
            self.consume(TokensType::RightBrace, "Expect \"}\" after block".to_owned())?;
            return Ok(statements);
        }

        while !self.check(TokensType::RightBrace) && !self.is_end()
            invariant
                self.inv(),
                self.current > 0,
                self.tokens == old(self).tokens,
                self.statements == old(self).statements,
                self.current >= old(self).current,
                self.id_count >= old(self).id_count,
                self.functions@.len() >= old(self).functions@.len(),
                stmts_wf(statements@, self.id_count as int, self.functions@.len() as int),
                old(self).tokens@[old(self).current as int].token_type != TokensType::RightBrace,
            decreases self.tokens@.len() - self.current, 36int,
        {
            let ghost pre = *self;
            let stmt = self.declaration()?;
            proof {
                lemma_stmts_wf_mono(
                    statements@,
                    pre.id_count as int,
                    self.id_count as int,
                    pre.functions@.len() as int,
                    self.functions@.len() as int,
                );
            }
            statements.push(stmt);
        }

        self.consume(TokensType::RightBrace, "Expect \"}\" after block".to_owned())?;
        Ok(statements)
    }

    fn statement(&mut self) -> (r: Result<Stmt, ()>)
        requires
            old(self).inv(),
        ensures
            carried(*final(self), *old(self)),
            r matches Ok(s) ==> stmt_wf(
                s,
                final(self).id_count as int,
                final(self).functions@.len() as int,
            ) && final(self).current > old(self).current,
            r matches Ok(s) ==> (match old(self).tokens@[old(self).current as int].token_type {
                TokensType::If => s is If,
                TokensType::Print => s is Print,
                TokensType::Return => s is Return,
                TokensType::While => s is While,
                TokensType::For => s is For,
                TokensType::LeftBrace => s is Block,
                _ => true,
            }),
        decreases self.tokens@.len() - self.current, 33int,
    {
        if self.match_token(TokensType::If) {
            return self.if_stmt();
        }
        if self.match_token(TokensType::Print) {
            return self.print_stmt();
        }
        if self.match_token(TokensType::Return) {
            return self.return_stmt();
        }
        if self.match_token(TokensType::While) {
            return self.while_stmt();
        }
        if self.match_token(TokensType::For) {
            return self.for_stmt();
        }
        if self.match_token(TokensType::LeftBrace) {
            let statements = self.block()?;
            return Ok(Stmt::Block(Box::new(BlockStatement { statements })));
        }
        self.expr_stmt()
    }

    fn if_stmt(&mut self) -> (r: Result<Stmt, ()>)
        requires
            old(self).inv(),
            old(self).current > 0,
        ensures
            carried(*final(self), *old(self)),
            r matches Ok(s) ==> stmt_wf(
                s,
                final(self).id_count as int,
                final(self).functions@.len() as int,
            ) && final(self).current > old(self).current,
            r matches Ok(s) ==> s is If,
        decreases self.tokens@.len() - self.current, 13int,
    {
        self.consume(TokensType::LeftParen, "Expect \"(\" after \"if\"".to_owned())?;
        let condition = self.expression()?;
        self.consume(TokensType::RightParen, "Expect \")\" after if condition".to_owned())?;

        let ghost mid1 = *self;
        let then_branch = self.statement()?;
        let mut else_branch: Option<Stmt> = None;
        let ghost mid2 = *self;
        if self.match_token(TokensType::Else) {
            else_branch = Some(self.statement()?);
        }
        proof {
            lemma_expr_wf_mono(condition, mid1.id_count as int, self.id_count as int);
            lemma_stmt_wf_mono(
                then_branch,
                mid2.id_count as int,
                self.id_count as int,
                mid2.functions@.len() as int,
                self.functions@.len() as int,
            );
        }
        Ok(Stmt::If(Box::new(IfStatement { condition, then_branch, else_branch })))
    }

    fn print_stmt(&mut self) -> (r: Result<Stmt, ()>)
        requires
            old(self).inv(),
            old(self).current > 0,
        ensures
            carried(*final(self), *old(self)),
            r matches Ok(s) ==> stmt_wf(
                s,
                final(self).id_count as int,
                final(self).functions@.len() as int,
            ) && final(self).current > old(self).current,
            r matches Ok(s) ==> s is Print,
        decreases self.tokens@.len() - self.current, 12int,
    {
        let keyword = self.previous_cloned();
        let expression = self.expression()?;
        self.consume(TokensType::Semicolon, "Expect \";\" after value".to_owned())?;
        Ok(Stmt::Print(Box::new(PrintStatement { keyword, expression })))
    }

    fn return_stmt(&mut self) -> (r: Result<Stmt, ()>)
        requires
            old(self).inv(),
            old(self).current > 0,
        ensures
            carried(*final(self), *old(self)),
            r matches Ok(s) ==> stmt_wf(
                s,
                final(self).id_count as int,
                final(self).functions@.len() as int,
            ) && final(self).current > old(self).current,
            r matches Ok(s) ==> s is Return,
            old(self).tokens@[old(self).current as int].token_type == TokensType::Semicolon ==> (
            r matches Ok(s) && s matches Stmt::Return(rs) && rs.value matches Expr::Literal(l)
                && l.value is None && rs.keyword == old(self).tokens@[old(self).current - 1]),
        decreases self.tokens@.len() - self.current, 12int,
    {
        let keyword = self.previous_cloned();
        let value: Expr;
        if self.check(TokensType::Semicolon) {
            value = Expr::Literal(LiteralExpression { value: None });
        } else {
            value = self.expression()?;
        }
        self.consume(TokensType::Semicolon, "Expect \";\" after return value".to_owned())?;
        Ok(Stmt::Return(Box::new(ReturnStatement { keyword, value })))
    }

    fn while_stmt(&mut self) -> (r: Result<Stmt, ()>)
        requires
            old(self).inv(),
            old(self).current > 0,
        ensures
            carried(*final(self), *old(self)),
            r matches Ok(s) ==> stmt_wf(
                s,
                final(self).id_count as int,
                final(self).functions@.len() as int,
            ) && final(self).current > old(self).current,
            r matches Ok(s) ==> s is While,
        decreases self.tokens@.len() - self.current, 13int,
    {
        self.consume(TokensType::LeftParen, "Expect \"(\" after \"while\"".to_owned())?;
        let condition = self.expression()?;
        self.consume(TokensType::RightParen, "Expect \")\" after condition".to_owned())?;
        let ghost mid = *self;
        let body = self.statement()?;
        proof {
            lemma_expr_wf_mono(condition, mid.id_count as int, self.id_count as int);
        }
        Ok(Stmt::While(Box::new(WhileStatement { condition, body })))
    }

    fn for_stmt(&mut self) -> (r: Result<Stmt, ()>)
        requires
            old(self).inv(),
            old(self).current > 0,
        ensures
            carried(*final(self), *old(self)),
            r matches Ok(s) ==> stmt_wf(
                s,
                final(self).id_count as int,
                final(self).functions@.len() as int,
            ) && final(self).current > old(self).current,
            r matches Ok(s) ==> s is For,
            old(self).current + 1 < old(self).tokens@.len() ==> (old(self).tokens@[old(self).current as int].token_type == TokensType::LeftParen && old(self).tokens@[old(self).current + 1].token_type == TokensType::RightParen) ==> r is Err,
        decreases self.tokens@.len() - self.current, 13int,
    {
        self.consume(TokensType::LeftParen, "Expect \"(\" after \"for\"".to_owned())?;

        if self.check(TokensType::RightParen) {
            let t = self.tokens[self.current].clone();
            self.errors.push(
                Error {
                    line: t.line,
                    column: t.column,
                    message: "There is nothing exist in the parenthese of \"for\"".to_owned(),
                },
            );
            return Err(());
        }
        let mut initializer: Option<Stmt> = None;
        let mut condition: Option<Expr> = None;
        let mut updator: Option<Expr> = None;

        if !self.check(TokensType::Semicolon) {
            initializer = Some(self.declaration()?);
        } else {
            self.advance();
        }

        let ghost mid1 = *self;
        if !self.match_token(TokensType::Semicolon) {
            condition = Some(self.expression()?);
            self.consume(
                TokensType::Semicolon,
                "Expect \";\" after the condition of \"for\"".to_owned(),
            )?;
        }

        let ghost mid2 = *self;
        if !self.match_token(TokensType::RightParen) {
            updator = Some(self.expression()?);
            self.consume(
                TokensType::RightParen,
                "Expect \")\" after the parenthese of \"for\"".to_owned(),
            )?;
        }
        let ghost mid3 = *self;
        let body = self.statement()?;

        proof {
            match &initializer {
                Some(i) => lemma_stmt_wf_mono(
                    *i,
                    mid1.id_count as int,
                    self.id_count as int,
                    mid1.functions@.len() as int,
                    self.functions@.len() as int,
                ),
                None => {},
            }
            match &condition {
                Some(c) => lemma_expr_wf_mono(*c, mid2.id_count as int, self.id_count as int),
                None => {},
            }
            match &updator {
                Some(u) => lemma_expr_wf_mono(*u, mid3.id_count as int, self.id_count as int),
                None => {},
            }
        }
        Ok(Stmt::For(Box::new(ForStatement { initializer, condition, updator, body })))
    }

    fn expr_stmt(&mut self) -> (r: Result<Stmt, ()>)
        requires
            old(self).inv(),
        ensures
            carried(*final(self), *old(self)),
            r matches Ok(s) ==> stmt_wf(
                s,
                final(self).id_count as int,
                final(self).functions@.len() as int,
            ) && final(self).current > old(self).current,
        decreases self.tokens@.len() - self.current, 12int,
    {
        let expression = self.expression()?;
        self.consume(TokensType::Semicolon, "Expect \";\" after expression".to_owned())?;
        Ok(Stmt::Expression(Box::new(ExpressionStatement { expression })))
    }

    fn expression(&mut self) -> (r: Result<Expr, ()>)
        requires
            old(self).inv(),
        ensures
            carried(*final(self), *old(self)),
            r matches Ok(e) ==> expr_wf(e, final(self).id_count as int) && final(self).current
                > old(self).current,
            r matches Ok(e) ==> assign_lookahead(*old(self)) ==> (e matches Expr::Assignment(a)
                && a.name == old(self).tokens@[old(self).current as int] && a.id == old(self).id_count),
        decreases self.tokens@.len() - self.current, 10int,
    {
        self.assignment()
    }

    /// Parses an assignment by first parsing a target expression; a
    /// variable target becomes an assignment node (reusing the variable's
    /// node id), a property access becomes a property write, and anything
    /// else is an invalid assignment target.
    fn assignment(&mut self) -> (r: Result<Expr, ()>)
        requires
            old(self).inv(),
        ensures
            carried(*final(self), *old(self)),
            r matches Ok(e) ==> expr_wf(e, final(self).id_count as int) && final(self).current
                > old(self).current,
            r matches Ok(e) ==> assign_lookahead(*old(self)) ==> (e matches Expr::Assignment(a)
                && a.name == old(self).tokens@[old(self).current as int] && a.id == old(self).id_count),
        decreases self.tokens@.len() - self.current, 9int,
    {
        let expression = self.logic_or()?;

        if self.match_token(TokensType::Equal) {
            let equals = self.previous_cloned();
            let ghost mid = *self;
            let value = self.assignment()?;
            proof {
                lemma_expr_wf_mono(expression, mid.id_count as int, self.id_count as int);
            }
            match expression {
                Expr::Variable(variable) => {
                    return Ok(
                        Expr::Assignment(
                            Box::new(
                                AssignmentExpression {
                                    name: variable.name,
                                    value,
                                    id: variable.id,
                                },
                            ),
                        ),
                    );
                },
                Expr::Get(get_expression) => {
                    let g = *get_expression;
                    return Ok(
                        Expr::SetProp(
                            Box::new(SetExpression { object: g.object, name: g.name, value }),
                        ),
                    );
                },
                _ => {},
            }
            self.errors.push(
                Error {
                    line: equals.line,
                    column: equals.column,
                    message: "Invalid assignment target".to_owned(),
                },
            );
            return Err(());
        }
        Ok(expression)
    }

    fn logic_or(&mut self) -> (r: Result<Expr, ()>)
        requires
            old(self).inv(),
        ensures
            carried(*final(self), *old(self)),
            r matches Ok(e) ==> expr_wf(e, final(self).id_count as int) && final(self).current
                > old(self).current,
            assign_lookahead(*old(self)) ==> (r matches Ok(e) && passed_variable(
                *final(self),
                *old(self),
                e,
            )),
        decreases self.tokens@.len() - self.current, 8int,
    {
        let mut expression = self.logic_and()?;

        while self.match_token(TokensType::Or)
            invariant
                self.inv(),
                self.tokens == old(self).tokens,
                self.statements == old(self).statements,
                self.current > old(self).current,
                self.id_count >= old(self).id_count,
                self.functions@.len() >= old(self).functions@.len(),
                expr_wf(expression, self.id_count as int),
                assign_lookahead(*old(self)) ==> passed_variable(*self, *old(self), expression),
            decreases self.tokens@.len() - self.current, 36int,
        {
            let operator = self.previous_cloned();
            let ghost mid = *self;
            let right = self.logic_and()?;
            proof {
                lemma_expr_wf_mono(expression, mid.id_count as int, self.id_count as int);
            }
            expression = Expr::Logical(
                Box::new(LogicalExpression { left: expression, operator, right }),
            );
        }
        Ok(expression)
    }

    fn logic_and(&mut self) -> (r: Result<Expr, ()>)
        requires
            old(self).inv(),
        ensures
            carried(*final(self), *old(self)),
            r matches Ok(e) ==> expr_wf(e, final(self).id_count as int) && final(self).current
                > old(self).current,
            assign_lookahead(*old(self)) ==> (r matches Ok(e) && passed_variable(
                *final(self),
                *old(self),
                e,
            )),
        decreases self.tokens@.len() - self.current, 7int,
    {
        let mut expression = self.equality()?;

        while self.match_token(TokensType::And)
            invariant
                self.inv(),
                self.tokens == old(self).tokens,
                self.statements == old(self).statements,
                self.current > old(self).current,
                self.id_count >= old(self).id_count,
                self.functions@.len() >= old(self).functions@.len(),
                expr_wf(expression, self.id_count as int),
                assign_lookahead(*old(self)) ==> passed_variable(*self, *old(self), expression),
            decreases self.tokens@.len() - self.current, 36int,
        {
            let operator = self.previous_cloned();
            let ghost mid = *self;
            let right = self.equality()?;
            proof {
                lemma_expr_wf_mono(expression, mid.id_count as int, self.id_count as int);
            }
            expression = Expr::Logical(
                Box::new(LogicalExpression { left: expression, operator, right }),
            );
        }
        Ok(expression)
    }

    fn equality(&mut self) -> (r: Result<Expr, ()>)
        requires
            old(self).inv(),
        ensures
            carried(*final(self), *old(self)),
            r matches Ok(e) ==> expr_wf(e, final(self).id_count as int) && final(self).current
                > old(self).current,
            assign_lookahead(*old(self)) ==> (r matches Ok(e) && passed_variable(
                *final(self),
                *old(self),
                e,
            )),
        decreases self.tokens@.len() - self.current, 6int,
    {
        let mut expression = self.comparison()?;

        loop
            invariant
                self.inv(),
                self.tokens == old(self).tokens,
                self.statements == old(self).statements,
                self.current > old(self).current,
                self.id_count >= old(self).id_count,
                self.functions@.len() >= old(self).functions@.len(),
                expr_wf(expression, self.id_count as int),
                assign_lookahead(*old(self)) ==> passed_variable(*self, *old(self), expression),
            decreases self.tokens@.len() - self.current, 36int,
        {
            if !self.match_token(TokensType::BangEqual) && !self.match_token(
                TokensType::EqualEqual,
            ) {
                break ;
            }
            let operator = self.previous_cloned();
            let ghost mid = *self;
            let right = self.comparison()?;
            proof {
                lemma_expr_wf_mono(expression, mid.id_count as int, self.id_count as int);
            }
            expression = Expr::Binary(
                Box::new(BinaryExpression { left: expression, operator, right }),
            );
        }
        Ok(expression)
    }

    fn comparison(&mut self) -> (r: Result<Expr, ()>)
        requires
            old(self).inv(),
        ensures
            carried(*final(self), *old(self)),
            r matches Ok(e) ==> expr_wf(e, final(self).id_count as int) && final(self).current
                > old(self).current,
            assign_lookahead(*old(self)) ==> (r matches Ok(e) && passed_variable(
                *final(self),
                *old(self),
                e,
            )),
        decreases self.tokens@.len() - self.current, 5int,
    {
        let mut expression = self.term()?;

        loop
            invariant
                self.inv(),
                self.tokens == old(self).tokens,
                self.statements == old(self).statements,
                self.current > old(self).current,
                self.id_count >= old(self).id_count,
                self.functions@.len() >= old(self).functions@.len(),
                expr_wf(expression, self.id_count as int),
                assign_lookahead(*old(self)) ==> passed_variable(*self, *old(self), expression),
            decreases self.tokens@.len() - self.current, 36int,
        {
            if !self.match_token(TokensType::Greater) && !self.match_token(
                TokensType::GreaterEqual,
            ) && !self.match_token(TokensType::Less) && !self.match_token(TokensType::LessEqual) {
                break ;
            }
            let operator = self.previous_cloned();
            let ghost mid = *self;
            let right = self.term()?;
            proof {
                lemma_expr_wf_mono(expression, mid.id_count as int, self.id_count as int);
            }
            expression = Expr::Binary(
                Box::new(BinaryExpression { left: expression, operator, right }),
            );
        }
        Ok(expression)
    }

    fn term(&mut self) -> (r: Result<Expr, ()>)
        requires
            old(self).inv(),
        ensures
            carried(*final(self), *old(self)),
            r matches Ok(e) ==> expr_wf(e, final(self).id_count as int) && final(self).current
                > old(self).current,
            assign_lookahead(*old(self)) ==> (r matches Ok(e) && passed_variable(
                *final(self),
                *old(self),
                e,
            )),
        decreases self.tokens@.len() - self.current, 4int,
    {
        let mut expression = self.factor()?;

        loop
            invariant
                self.inv(),
                self.tokens == old(self).tokens,
                self.statements == old(self).statements,
                self.current > old(self).current,
                self.id_count >= old(self).id_count,
                self.functions@.len() >= old(self).functions@.len(),
                expr_wf(expression, self.id_count as int),
                assign_lookahead(*old(self)) ==> passed_variable(*self, *old(self), expression),
            decreases self.tokens@.len() - self.current, 36int,
        {
            if !self.match_token(TokensType::Minus) && !self.match_token(TokensType::Plus) {
                break ;
            }
            let operator = self.previous_cloned();
            let ghost mid = *self;
            let right = self.factor()?;
            proof {
                lemma_expr_wf_mono(expression, mid.id_count as int, self.id_count as int);
            }
            expression = Expr::Binary(
                Box::new(BinaryExpression { left: expression, operator, right }),
            );
        }
        Ok(expression)
    }

    fn factor(&mut self) -> (r: Result<Expr, ()>)
        requires
            old(self).inv(),
        ensures
            carried(*final(self), *old(self)),
            r matches Ok(e) ==> expr_wf(e, final(self).id_count as int) && final(self).current
                > old(self).current,
            assign_lookahead(*old(self)) ==> (r matches Ok(e) && passed_variable(
                *final(self),
                *old(self),
                e,
            )),
        decreases self.tokens@.len() - self.current, 3int,
    {
        let mut expression = self.unary()?;

        loop
            invariant
                self.inv(),
                self.tokens == old(self).tokens,
                self.statements == old(self).statements,
                self.current > old(self).current,
                self.id_count >= old(self).id_count,
                self.functions@.len() >= old(self).functions@.len(),
                expr_wf(expression, self.id_count as int),
                assign_lookahead(*old(self)) ==> passed_variable(*self, *old(self), expression),
            decreases self.tokens@.len() - self.current, 36int,
        {
            if !self.match_token(TokensType::Slash) && !self.match_token(TokensType::Star) {
                break ;
            }
            let operator = self.previous_cloned();
            let ghost mid = *self;
            let right = self.unary()?;
            proof {
                lemma_expr_wf_mono(expression, mid.id_count as int, self.id_count as int);
            }
            expression = Expr::Binary(
                Box::new(BinaryExpression { left: expression, operator, right }),
            );
        }
        Ok(expression)
    }

    fn unary(&mut self) -> (r: Result<Expr, ()>)
        requires
            old(self).inv(),
        ensures
            carried(*final(self), *old(self)),
            r matches Ok(e) ==> expr_wf(e, final(self).id_count as int) && final(self).current
                > old(self).current,
            assign_lookahead(*old(self)) ==> (r matches Ok(e) && passed_variable(
                *final(self),
                *old(self),
                e,
            )),
        decreases self.tokens@.len() - self.current, 2int,
    {
        if self.match_token(TokensType::Bang) || self.match_token(TokensType::Minus) {
            let operator = self.previous_cloned();
            let right = self.unary()?;
            return Ok(Expr::Unary(Box::new(UnaryExpression { operator, expression: right })));
        }
        self.call()
    }

    fn call(&mut self) -> (r: Result<Expr, ()>)
        requires
            old(self).inv(),
        ensures
            carried(*final(self), *old(self)),
            r matches Ok(e) ==> expr_wf(e, final(self).id_count as int) && final(self).current
                > old(self).current,
            assign_lookahead(*old(self)) ==> (r matches Ok(e) && passed_variable(
                *final(self),
                *old(self),
                e,
            )),
        decreases self.tokens@.len() - self.current, 1int,
    {
        let mut expression = self.primary()?;

        loop
            invariant
                self.inv(),
                self.tokens == old(self).tokens,
                self.statements == old(self).statements,
                self.current > old(self).current,
                self.id_count >= old(self).id_count,
                self.functions@.len() >= old(self).functions@.len(),
                expr_wf(expression, self.id_count as int),
                assign_lookahead(*old(self)) ==> passed_variable(*self, *old(self), expression),
            decreases self.tokens@.len() - self.current, 36int,
        {
            if self.match_token(TokensType::LeftParen) {
                expression = self.finish_call(expression)?;
            } else if self.match_token(TokensType::Dot) {
                let name = self.consume(
                    TokensType::Identifier,
                    "Expect property name after \".\"".to_owned(),
                )?;
                expression = Expr::Get(Box::new(GetExpression { object: expression, name }));
            } else {
                break ;
            }
        }
        Ok(expression)
    }

    /// Parses the arguments and closing parenthesis of a call whose `(` has
    /// just been consumed.
    fn finish_call(&mut self, callee: Expr) -> (r: Result<Expr, ()>)
        requires
            old(self).inv(),
            old(self).current > 0,
            expr_wf(callee, old(self).id_count as int),
        ensures
            carried(*final(self), *old(self)),
            r matches Ok(e) ==> expr_wf(e, final(self).id_count as int),
        decreases self.tokens@.len() - self.current, 11int,
    {
        let mut args: Vec<Expr> = Vec::new();

        loop
            invariant
                self.inv(),
                self.current > 0,
                self.tokens == old(self).tokens,
                self.statements == old(self).statements,
                self.current >= old(self).current,
                self.id_count >= old(self).id_count,
                self.functions@.len() >= old(self).functions@.len(),
                forall|i: int|
                    0 <= i < args@.len() ==> expr_wf(#[trigger] args@[i], self.id_count as int),
            decreases self.tokens@.len() - self.current, 36int,
        {
            if !self.check(TokensType::RightParen) {
                let ghost mid = *self;
                let arg = self.expression()?;
                proof {
                    assert forall|i: int| 0 <= i < args@.len() implies expr_wf(
                        #[trigger] args@[i],
                        self.id_count as int,
                    ) by {
                        lemma_expr_wf_mono(args@[i], mid.id_count as int, self.id_count as int);
                    }
                }
                args.push(arg);
            }
            if !self.match_token(TokensType::Comma) {
                break ;
            }
        }

        let end_parenthese = self.consume(
            TokensType::RightParen,
            "Expect \")\" after arguments".to_owned(),
        )?;
        proof {
            lemma_expr_wf_mono(callee, old(self).id_count as int, self.id_count as int);
        }
        Ok(Expr::Call(Box::new(CallExpression { callee, args, end_parenthese })))
    }

    fn primary(&mut self) -> (r: Result<Expr, ()>)
        requires
            old(self).inv(),
        ensures
            carried(*final(self), *old(self)),
            r matches Ok(e) ==> expr_wf(e, final(self).id_count as int) && final(self).current
                > old(self).current,
            (old(self).tokens@[old(self).current as int].token_type == TokensType::Number || old(
                self,
            ).tokens@[old(self).current as int].token_type == TokensType::String) ==> (r matches
                Ok(e) && e matches Expr::Literal(l) && l.value == old(self).tokens@[old(
                self,
            ).current as int].literal && final(self).current == old(self).current + 1),
            old(self).tokens@[old(self).current as int].token_type == TokensType::True ==> (
            r matches Ok(e) && e matches Expr::Literal(l) && l.value == Some(
                crate::tokens::ValueType::Bool(true),
            )),
            old(self).tokens@[old(self).current as int].token_type == TokensType::False ==> (
            r matches Ok(e) && e matches Expr::Literal(l) && l.value == Some(
                crate::tokens::ValueType::Bool(false),
            )),
            old(self).tokens@[old(self).current as int].token_type == TokensType::Nil ==> (
            r matches Ok(e) && e matches Expr::Literal(l) && l.value is None),
            old(self).tokens@[old(self).current as int].token_type == TokensType::Identifier ==> (
            r matches Ok(e) && e matches Expr::Variable(v) && v.name == old(self).tokens@[old(
                self,
            ).current as int] && v.id == old(self).id_count && final(self).current == old(
                self,
            ).current + 1 && final(self).id_count == old(self).id_count + 1),
            old(self).tokens@[old(self).current as int].token_type == TokensType::This ==> (
            r matches Ok(e) && e matches Expr::This(t) && t.keyword == old(self).tokens@[old(
                self,
            ).current as int] && t.id == old(self).id_count),
        decreases self.tokens@.len() - self.current, 0int,
    {
        if self.match_token(TokensType::Number) || self.match_token(TokensType::String) {
            let literal = self.previous_cloned().literal;
            return Ok(Expr::Literal(LiteralExpression { value: literal }));
        }
        if self.match_token(TokensType::True) {
            return Ok(
                Expr::Literal(
                    LiteralExpression { value: Some(crate::tokens::ValueType::Bool(true)) },
                ),
            );
        }
        if self.match_token(TokensType::False) {
            return Ok(
                Expr::Literal(
                    LiteralExpression { value: Some(crate::tokens::ValueType::Bool(false)) },
                ),
            );
        }
        if self.match_token(TokensType::Nil) {
            return Ok(Expr::Literal(LiteralExpression { value: None }));
        }
        if self.match_token(TokensType::This) {
            let keyword = self.previous_cloned();
            let id = self.fresh_id();
            return Ok(Expr::This(ThisExpression { keyword, id }));
        }
        if self.match_token(TokensType::Super) {
            let keyword = self.previous_cloned();
            self.consume(TokensType::Dot, "Expect \".\" after \"super\"".to_owned())?;
            self.consume(TokensType::Identifier, "Expect superclass method name".to_owned())?;
            let method = self.previous_cloned();
            let id = self.fresh_id();
            return Ok(Expr::Super(SuperExpression { keyword, method, id }));
        }
        if self.match_token(TokensType::Identifier) {
            let name = self.previous_cloned();
            let id = self.fresh_id();
            return Ok(Expr::Variable(VariableExpression { name, id }));
        }
        if self.match_token(TokensType::LeftParen) {
            let inner = self.expression()?;
            self.consume(TokensType::RightParen, "Expect \")\" after expression".to_owned())?;
            return Ok(Expr::Grouping(Box::new(GroupingExpression { expression: inner })));
        }

        let t = self.tokens[self.current].clone();
        self.errors.push(
            Error {
                line: t.line,
                column: t.column,
                message: "Unexpected token".to_owned().concat(t.lexeme.as_str()),
            },
        );
        Err(())
    }
}

} // verus!
