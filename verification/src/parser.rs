//! Recursive descent over the token stream, building statements and
//! expressions with the grammar's precedence. Every variable, assignment,
//! `nafs` and `ulya` node receives a fresh numeric id for the resolver.
use crate::ast::{Expr, Stmt};
use crate::error::ParseError;
use crate::literal::Literal;
use crate::token::{Token, TokenType};
use std::rc::Rc;
use vstd::prelude::*;

verus! {

pub struct Parser<'a> {
    pub tokens: &'a Vec<Token>,
    pub current: usize,
    pub next_id: usize,
}

impl<'a> Parser<'a> {
    pub open spec fn wf(self) -> bool {
        &&& self.tokens@.len() > 0
        &&& self.current < self.tokens@.len()
        &&& self.tokens@.last().token_type == TokenType::Eof
    }

    /// What every parsing step preserves: the same token stream, a cursor
    /// that only moves forward, and ids that only grow.
    pub open spec fn steps_from(self, post: Self) -> bool {
        &&& post.wf()
        &&& post.tokens == self.tokens
        &&& post.current >= self.current
        &&& post.next_id >= self.next_id
    }

    pub fn init(tokens: &'a Vec<Token>, start_id: usize) -> (r: Self)
        requires
            tokens@.len() > 0,
            tokens@.last().token_type == TokenType::Eof,
        ensures
            r.wf(),
            r.tokens == tokens,
            r.next_id == start_id,
    {
        Parser { tokens, current: 0, next_id: start_id }
    }

    fn fresh_id(&mut self) -> (r: usize)
        ensures
            final(self).tokens == old(self).tokens,
            final(self).current == old(self).current,
            final(self).next_id >= old(self).next_id,
    {
        let id = self.next_id;
        if self.next_id < usize::MAX {
            self.next_id = self.next_id + 1;
        }
        id
    }

    fn peek(&self) -> (r: &'a Token)
        requires
            self.wf(),
        ensures
            *r == self.tokens@[self.current as int],
    {
        &self.tokens[self.current]
    }

    fn end(&self) -> (r: bool)
        requires
            self.wf(),
        ensures
            r == (self.tokens@[self.current as int].token_type == TokenType::Eof),
    {
        self.peek().token_type == TokenType::Eof
    }

    fn previous(&self) -> (r: &'a Token)
        requires
            self.wf(),
            self.current > 0,
        ensures
            *r == self.tokens@[self.current - 1],
    {
        &self.tokens[self.current - 1]
    }

    fn check(&self, token_type: TokenType) -> (r: bool)
        requires
            self.wf(),
        ensures
            r == (self.tokens@[self.current as int].token_type == token_type
                && self.tokens@[self.current as int].token_type != TokenType::Eof),
    {
        if self.end() {
            false
        } else {
            self.peek().token_type == token_type
        }
    }

    fn advance(&mut self) -> (r: &'a Token)
        requires
            old(self).wf(),
        ensures
            old(self).steps_from(*final(self)),
            final(self).next_id == old(self).next_id,
            final(self).current <= old(self).current + 1,
            old(self).tokens@[old(self).current as int].token_type != TokenType::Eof
                ==> final(self).current == old(self).current + 1,
            *r == old(self).tokens@[final(self).current - 1]
                || (final(self).current == 0 && *r == old(self).tokens@[0]),
    {
        let n = self.tokens.len();
        if !self.end() {
            proof {
                assert(self.current != self.tokens@.len() - 1);
            }
            self.current = self.current + 1;
        }
        if self.current > 0 {
            self.previous()
        } else {
            self.peek()
        }
    }

    fn match_type(&mut self, token_type: TokenType) -> (r: bool)
        requires
            old(self).wf(),
        ensures
            old(self).steps_from(*final(self)),
            final(self).next_id == old(self).next_id,
            r == (old(self).tokens@[old(self).current as int].token_type == token_type
                && old(self).tokens@[old(self).current as int].token_type != TokenType::Eof),
            r ==> final(self).current == old(self).current + 1,
            !r ==> final(self).current == old(self).current,
    {
        if self.check(token_type) {
            let _ = self.advance();
            true
        } else {
            false
        }
    }

    fn error(&self, token: &Token, message: &str) -> (r: ParseError) {
        ParseError::init(Token::copy(token), String::from_str(message))
    }

    fn consume(&mut self, token_type: TokenType, message: &str) -> (r: Result<
        &'a Token,
        ParseError,
    >)
        requires
            old(self).wf(),
        ensures
            old(self).steps_from(*final(self)),
            final(self).next_id == old(self).next_id,
            r is Ok ==> final(self).current == old(self).current + 1,
            (r matches Ok(t) ==> *t == old(self).tokens@[old(self).current as int]
                && t.token_type == token_type),
            r is Err ==> final(self).current == old(self).current,
    {
        if self.check(token_type) {
            Ok(self.advance())
        } else {
            Err(self.error(self.peek(), message))
        }
    }

    fn expression(&mut self) -> (r: Result<Expr, ParseError>)
        requires
            old(self).wf(),
        ensures
            old(self).steps_from(*final(self)),
            r is Ok ==> final(self).current > old(self).current,
        decreases self.tokens@.len() - self.current, 20int,
    {
        self.assignment()
    }

    fn assignment(&mut self) -> (r: Result<Expr, ParseError>)
        requires
            old(self).wf(),
        ensures
            old(self).steps_from(*final(self)),
            r is Ok ==> final(self).current > old(self).current,
        decreases self.tokens@.len() - self.current, 19int,
    {
        let expr = self.or()?;
        if self.match_type(TokenType::Equal) {
            let equals = Token::copy(self.previous());
            let value = self.assignment()?;
            match expr {
                Expr::Variable { id, name } => {
                    return Ok(Expr::Assign { id, name, value: Box::new(value) });
                },
                Expr::Get { object, name } => {
                    return Ok(Expr::SetProp { object, name, value: Box::new(value) });
                },
                Expr::GetIndexed { object, index, bracket } => {
                    return Ok(
                        Expr::SetIndexed { object, index, value: Box::new(value), bracket },
                    );
                },
                _ => {
                    return Err(self.error(&equals, "Invalid assignment target."));
                },
            }
        }
        Ok(expr)
    }

    fn or(&mut self) -> (r: Result<Expr, ParseError>)
        requires
            old(self).wf(),
        ensures
            old(self).steps_from(*final(self)),
            r is Ok ==> final(self).current > old(self).current,
        decreases self.tokens@.len() - self.current, 18int,
    {
        let mut expr = self.and()?;
        loop
            invariant
                self.wf(),
                old(self).steps_from(*self),
                self.current > old(self).current,
            decreases self.tokens@.len() - self.current,
        {
            if self.match_type(TokenType::Or) {
                let operator = Token::copy(self.previous());
                let right = self.and()?;
                expr = Expr::Logical {
                    left: Box::new(expr),
                    operator,
                    right: Box::new(right),
                };
            } else {
                break ;
            }
        }
        Ok(expr)
    }

    fn and(&mut self) -> (r: Result<Expr, ParseError>)
        requires
            old(self).wf(),
        ensures
            old(self).steps_from(*final(self)),
            r is Ok ==> final(self).current > old(self).current,
        decreases self.tokens@.len() - self.current, 17int,
    {
        let mut expr = self.equality()?;
        loop
            invariant
                self.wf(),
                old(self).steps_from(*self),
                self.current > old(self).current,
            decreases self.tokens@.len() - self.current,
        {
            if self.match_type(TokenType::And) {
                let operator = Token::copy(self.previous());
                let right = self.equality()?;
                expr = Expr::Logical {
                    left: Box::new(expr),
                    operator,
                    right: Box::new(right),
                };
            } else {
                break ;
            }
        }
        Ok(expr)
    }

    fn equality(&mut self) -> (r: Result<Expr, ParseError>)
        requires
            old(self).wf(),
        ensures
            old(self).steps_from(*final(self)),
            r is Ok ==> final(self).current > old(self).current,
        decreases self.tokens@.len() - self.current, 16int,
    {
        let mut expr = self.comparison()?;
        loop
            invariant
                self.wf(),
                old(self).steps_from(*self),
                self.current > old(self).current,
            decreases self.tokens@.len() - self.current,
        {
            if self.match_type(TokenType::BangEqual) || self.match_type(TokenType::EqualEqual) {
                let operator = Token::copy(self.previous());
                let right = self.comparison()?;
                expr = Expr::Binary {
                    left: Box::new(expr),
                    operator,
                    right: Box::new(right),
                };
            } else {
                break ;
            }
        }
        Ok(expr)
    }

    fn comparison(&mut self) -> (r: Result<Expr, ParseError>)
        requires
            old(self).wf(),
        ensures
            old(self).steps_from(*final(self)),
            r is Ok ==> final(self).current > old(self).current,
        decreases self.tokens@.len() - self.current, 15int,
    {
        let mut expr = self.term()?;
        loop
            invariant
                self.wf(),
                old(self).steps_from(*self),
                self.current > old(self).current,
            decreases self.tokens@.len() - self.current,
        {
            if self.match_type(TokenType::Greater) || self.match_type(TokenType::GreaterEqual)
                || self.match_type(TokenType::Less) || self.match_type(TokenType::LessEqual) {
                let operator = Token::copy(self.previous());
                let right = self.term()?;
                expr = Expr::Binary {
                    left: Box::new(expr),
                    operator,
                    right: Box::new(right),
                };
            } else {
                break ;
            }
        }
        Ok(expr)
    }

    fn term(&mut self) -> (r: Result<Expr, ParseError>)
        requires
            old(self).wf(),
        ensures
            old(self).steps_from(*final(self)),
            r is Ok ==> final(self).current > old(self).current,
        decreases self.tokens@.len() - self.current, 14int,
    {
        let mut expr = self.factor()?;
        loop
            invariant
                self.wf(),
                old(self).steps_from(*self),
                self.current > old(self).current,
            decreases self.tokens@.len() - self.current,
        {
            if self.match_type(TokenType::Minus) || self.match_type(TokenType::Plus) {
                let operator = Token::copy(self.previous());
                let right = self.factor()?;
                expr = Expr::Binary {
                    left: Box::new(expr),
                    operator,
                    right: Box::new(right),
                };
            } else {
                break ;
            }
        }
        Ok(expr)
    }

    fn factor(&mut self) -> (r: Result<Expr, ParseError>)
        requires
            old(self).wf(),
        ensures
            old(self).steps_from(*final(self)),
            r is Ok ==> final(self).current > old(self).current,
        decreases self.tokens@.len() - self.current, 13int,
    {
        let mut expr = self.unary()?;
        loop
            invariant
                self.wf(),
                old(self).steps_from(*self),
                self.current > old(self).current,
            decreases self.tokens@.len() - self.current,
        {
            if self.match_type(TokenType::Slash) || self.match_type(TokenType::Star) {
                let operator = Token::copy(self.previous());
                let right = self.unary()?;
                expr = Expr::Binary {
                    left: Box::new(expr),
                    operator,
                    right: Box::new(right),
                };
            } else {
                break ;
            }
        }
        Ok(expr)
    }

    fn unary(&mut self) -> (r: Result<Expr, ParseError>)
        requires
            old(self).wf(),
        ensures
            old(self).steps_from(*final(self)),
            r is Ok ==> final(self).current > old(self).current,
        decreases self.tokens@.len() - self.current, 12int,
    {
        if self.match_type(TokenType::Bang) || self.match_type(TokenType::Minus) {
            let operator = Token::copy(self.previous());
            let right = self.unary()?;
            return Ok(Expr::Unary { operator, right: Box::new(right) });
        }
        self.call()
    }

    fn call(&mut self) -> (r: Result<Expr, ParseError>)
        requires
            old(self).wf(),
        ensures
            old(self).steps_from(*final(self)),
            r is Ok ==> final(self).current > old(self).current,
        decreases self.tokens@.len() - self.current, 11int,
    {
        let mut expr = self.primary()?;
        loop
            invariant
                self.wf(),
                old(self).steps_from(*self),
                self.current > old(self).current,
            decreases self.tokens@.len() - self.current,
        {
            if self.match_type(TokenType::LeftParen) {
                expr = self.finish_call(expr)?;
            } else if self.match_type(TokenType::Dot) {
                let name = match self.consume(
                    TokenType::Identifier,
                    "Expect property name after '.'.",
                ) {
                    Ok(t) => Token::copy(t),
                    Err(e) => {
                        return Err(e);
                    },
                };
                expr = Expr::Get { object: Box::new(expr), name };
            } else if self.match_type(TokenType::LeftSquare) {
                let bracket = Token::copy(self.previous());
                let index = self.expression()?;
                let _ = self.consume(TokenType::RightSquare, "Expect ']' after index.")?;
                expr = Expr::GetIndexed {
                    object: Box::new(expr),
                    index: Box::new(index),
                    bracket,
                };
            } else {
                break ;
            }
        }
        Ok(expr)
    }

    /// Gathers the arguments after the opening parenthesis; more than 255 is
    /// a syntax error, never a panic.
    fn finish_call(&mut self, callee: Expr) -> (r: Result<Expr, ParseError>)
        requires
            old(self).wf(),
        ensures
            old(self).steps_from(*final(self)),
            (r matches Ok(e) ==> e matches Expr::Call { arguments, paren, .. }
                && arguments@.len() <= 255 && paren.token_type == TokenType::RightParen),
            r is Ok ==> final(self).current > old(self).current,
        decreases self.tokens@.len() - self.current, 21int,
    {
        let mut arguments: Vec<Expr> = Vec::new();
        if !self.check(TokenType::RightParen) {
            loop
                invariant
                    self.wf(),
                    old(self).steps_from(*self),
                    arguments@.len() <= 255,
                decreases self.tokens@.len() - self.current,
            {
                if arguments.len() >= 255 {
                    return Err(
                        self.error(self.peek(), "Can't have more than 255 arguments."),
                    );
                }
                let arg = self.expression()?;
                arguments.push(arg);
                if !self.match_type(TokenType::Comma) {
                    break ;
                }
            }
        }
        let paren = match self.consume(TokenType::RightParen, "Expect ')' after arguments.") {
            Ok(t) => Token::copy(t),
            Err(e) => {
                return Err(e);
            },
        };
        Ok(Expr::Call { callee: Box::new(callee), paren, arguments })
    }

    fn primary(&mut self) -> (r: Result<Expr, ParseError>)
        requires
            old(self).wf(),
        ensures
            old(self).steps_from(*final(self)),
            r is Ok ==> final(self).current > old(self).current,
        decreases self.tokens@.len() - self.current, 9int,
    {
        if self.match_type(TokenType::False) {
            return Ok(Expr::Literal { value: Some(Literal::Bool(false)) });
        }
        if self.match_type(TokenType::True) {
            return Ok(Expr::Literal { value: Some(Literal::Bool(true)) });
        }
        if self.match_type(TokenType::Nil) {
            return Ok(Expr::Literal { value: None });
        }
        if self.match_type(TokenType::String) || self.match_type(TokenType::Number) {
            let prev = self.previous();
            let value = match &prev.literal {
                Some(l) => Some(l.dup()),
                None => None,
            };
            return Ok(Expr::Literal { value });
        }
        if self.match_type(TokenType::This) {
            let keyword = Token::copy(self.previous());
            let id = self.fresh_id();
            return Ok(Expr::This { id, keyword });
        }
        if self.match_type(TokenType::Super) {
            let keyword = Token::copy(self.previous());
            let _ = self.consume(TokenType::Dot, "Expect '.' after 'ulya'.")?;
            let method = match self.consume(
                TokenType::Identifier,
                "Expect superclass method name.",
            ) {
                Ok(t) => Token::copy(t),
                Err(e) => {
                    return Err(e);
                },
            };
            let id = self.fresh_id();
            return Ok(Expr::Super { id, keyword, method });
        }
        if self.match_type(TokenType::Identifier) {
            let name = Token::copy(self.previous());
            let id = self.fresh_id();
            return Ok(Expr::Variable { id, name });
        }
        if self.match_type(TokenType::LeftParen) {
            let expr = self.expression()?;
            let _ = self.consume(TokenType::RightParen, "Expect ')' after expression.")?;
            return Ok(Expr::Grouping { expression: Box::new(expr) });
        }
        if self.match_type(TokenType::LeftSquare) {
            let mut values: Vec<Expr> = Vec::new();
            if !self.check(TokenType::RightSquare) {
                loop
                    invariant
                        self.wf(),
                        old(self).steps_from(*self),
                        self.current > old(self).current,
                    decreases self.tokens@.len() - self.current,
                {
                    let v = self.expression()?;
                    values.push(v);
                    if !self.match_type(TokenType::Comma) {
                        break ;
                    }
                }
            }
            let _ = self.consume(TokenType::RightSquare, "Expect ']' after array elements.")?;
            return Ok(Expr::Array { values });
        }
        Err(self.error(self.peek(), "Expect expression."))
    }

    fn print_stmt(&mut self) -> (r: Result<Stmt, ParseError>)
        requires
            old(self).wf(),
        ensures
            old(self).steps_from(*final(self)),
            r is Ok ==> final(self).current > old(self).current,
        decreases self.tokens@.len() - self.current, 22int,
    {
        let value = self.expression()?;
        let _ = self.consume(TokenType::Semicolon, "Expect ';' after value.")?;
        Ok(Stmt::Print { expression: value })
    }

    fn expression_stmt(&mut self) -> (r: Result<Stmt, ParseError>)
        requires
            old(self).wf(),
        ensures
            old(self).steps_from(*final(self)),
            r is Ok ==> final(self).current > old(self).current,
        decreases self.tokens@.len() - self.current, 22int,
    {
        let value = self.expression()?;
        let _ = self.consume(TokenType::Semicolon, "Expect ';' after value.")?;
        Ok(Stmt::Expression { expression: value })
    }

    fn var_declaration(&mut self) -> (r: Result<Stmt, ParseError>)
        requires
            old(self).wf(),
        ensures
            old(self).steps_from(*final(self)),
            r is Ok ==> final(self).current > old(self).current,
        decreases self.tokens@.len() - self.current, 22int,
    {
        let name = match self.consume(TokenType::Identifier, "Expect variable name.") {
            Ok(t) => Token::copy(t),
            Err(e) => {
                return Err(e);
            },
        };
        let mut initializer: Option<Expr> = None;
        if self.match_type(TokenType::Equal) {
            initializer = Some(self.expression()?);
        }
        let _ = self.consume(
            TokenType::Semicolon,
            "Expect ';' after variable declaration.",
        )?;
        Ok(Stmt::Var { name, initializer })
    }

    fn block(&mut self) -> (r: Result<Vec<Stmt>, ParseError>)
        requires
            old(self).wf(),
        ensures
            old(self).steps_from(*final(self)),
            r is Ok ==> final(self).current > old(self).current,
        decreases self.tokens@.len() - self.current, 31int,
    {
        let mut statements: Vec<Stmt> = Vec::new();
        loop
            invariant
                self.wf(),
                old(self).steps_from(*self),
            decreases self.tokens@.len() - self.current,
        {
            if !self.check(TokenType::RightBrace) && !self.end() {
                let s = self.declaration()?;
                statements.push(s);
            } else {
                break ;
            }
        }
        let _ = self.consume(TokenType::RightBrace, "Expect '}' after block.")?;
        Ok(statements)
    }

    fn statement(&mut self) -> (r: Result<Stmt, ParseError>)
        requires
            old(self).wf(),
        ensures
            old(self).steps_from(*final(self)),
            r is Ok ==> final(self).current > old(self).current,
        decreases self.tokens@.len() - self.current, 28int,
    {
        if self.match_type(TokenType::For) {
            return self.for_statement();
        }
        if self.match_type(TokenType::If) {
            return self.if_statement();
        }
        if self.match_type(TokenType::Print) {
            return self.print_stmt();
        }
        if self.match_type(TokenType::Return) {
            return self.return_stmt();
        }
        if self.match_type(TokenType::While) {
            return self.while_statement();
        }
        if self.match_type(TokenType::LeftBrace) {
            let statements = self.block()?;
            return Ok(Stmt::Block { statements });
        }
        self.expression_stmt()
    }

    fn return_stmt(&mut self) -> (r: Result<Stmt, ParseError>)
        requires
            old(self).wf(),
            old(self).current > 0,
        ensures
            old(self).steps_from(*final(self)),
            r is Ok ==> final(self).current > old(self).current,
        decreases self.tokens@.len() - self.current, 22int,
    {
        let keyword = Token::copy(self.previous());
        let mut value: Option<Expr> = None;
        if !self.check(TokenType::Semicolon) {
            value = Some(self.expression()?);
        }
        let _ = self.consume(TokenType::Semicolon, "Expect ';' after return value.")?;
        Ok(Stmt::Return { keyword, value })
    }

    /// Desugars `tawaf (init; cond; inc) body` into a block holding the
    /// initializer and a while loop, with the condition defaulting to true:
    /// what comes back is always that shape, a while loop possibly wrapped
    /// in the initializer's block.
    fn for_statement(&mut self) -> (r: Result<Stmt, ParseError>)
        requires
            old(self).wf(),
        ensures
            old(self).steps_from(*final(self)),
            r is Ok ==> final(self).current > old(self).current,
            (r matches Ok(s) ==> (s matches Stmt::While { .. } || (s matches Stmt::Block {
                statements,
            } && statements@.len() == 2 && statements@[1] matches Stmt::While { .. }))),
        decreases self.tokens@.len() - self.current, 26int,
    {
        let _ = self.consume(TokenType::LeftParen, "Expect '(' after 'tawaf'")?;
        let initializer: Option<Stmt>;
        if self.match_type(TokenType::Semicolon) {
            initializer = None;
        } else if self.match_type(TokenType::Var) {
            initializer = Some(self.var_declaration()?);
        } else {
            initializer = Some(self.expression_stmt()?);
        }
        let mut condition: Option<Expr> = None;
        if !self.check(TokenType::Semicolon) {
            condition = Some(self.expression()?);
        }
        let _ = self.consume(TokenType::Semicolon, "Expect ';' after loop condition.")?;
        let mut increment: Option<Expr> = None;
        if !self.check(TokenType::RightParen) {
            increment = Some(self.expression()?);
        }
        let _ = self.consume(TokenType::RightParen, "Expect ')' after 'tawaf' clauses.")?;
        let mut body = self.statement()?;
        match increment {
            Some(inc) => {
                let mut statements: Vec<Stmt> = Vec::new();
                statements.push(body);
                statements.push(Stmt::Expression { expression: inc });
                body = Stmt::Block { statements };
            },
            None => {},
        }
        let while_cond = match condition {
            Some(c) => c,
            None => Expr::Literal { value: Some(Literal::Bool(true)) },
        };
        body = Stmt::While { condition: while_cond, body: Box::new(body) };
        match initializer {
            Some(init_stmt) => {
                let mut statements: Vec<Stmt> = Vec::new();
                statements.push(init_stmt);
                statements.push(body);
                body = Stmt::Block { statements };
            },
            None => {},
        }
        Ok(body)
    }

    fn while_statement(&mut self) -> (r: Result<Stmt, ParseError>)
        requires
            old(self).wf(),
        ensures
            old(self).steps_from(*final(self)),
            r is Ok ==> final(self).current > old(self).current,
        decreases self.tokens@.len() - self.current, 26int,
    {
        let _ = self.consume(TokenType::LeftParen, "Expect '(' after 'baynama'")?;
        let condition = self.expression()?;
        let _ = self.consume(TokenType::RightParen, "Expect ')' after condition")?;
        let body = self.statement()?;
        Ok(Stmt::While { condition, body: Box::new(body) })
    }

    fn if_statement(&mut self) -> (r: Result<Stmt, ParseError>)
        requires
            old(self).wf(),
        ensures
            old(self).steps_from(*final(self)),
            r is Ok ==> final(self).current > old(self).current,
        decreases self.tokens@.len() - self.current, 26int,
    {
        let _ = self.consume(TokenType::LeftParen, "Expect '(' after 'shart'")?;
        let condition = self.expression()?;
        let _ = self.consume(TokenType::RightParen, "Expect ')' after shart condition")?;
        let then = self.statement()?;
        let mut else_branch: Option<Box<Stmt>> = None;
        if self.match_type(TokenType::Else) {
            let e = self.statement()?;
            else_branch = Some(Box::new(e));
        }
        Ok(Stmt::If { condition, then: Box::new(then), else_branch })
    }

    /// Parses a function or method declaration; more than 255 parameters is
    /// a syntax error.
    fn function(&mut self, kind: &str) -> (r: Result<Stmt, ParseError>)
        requires
            old(self).wf(),
        ensures
            old(self).steps_from(*final(self)),
            (r matches Ok(s) ==> s matches Stmt::Function { params, .. } && params@.len() <= 255),
            r is Ok ==> final(self).current > old(self).current,
        decreases self.tokens@.len() - self.current, 26int,
    {
        let name = match self.consume(TokenType::Identifier, "Expect a name.") {
            Ok(t) => Token::copy(t),
            Err(e) => {
                return Err(e);
            },
        };
        let _ = self.consume(TokenType::LeftParen, "Expect '(' after the name.")?;
        let mut params: Vec<Token> = Vec::new();
        if !self.check(TokenType::RightParen) {
            loop
                invariant
                    self.wf(),
                    old(self).steps_from(*self),
                    params@.len() <= 255,
                decreases self.tokens@.len() - self.current,
            {
                if params.len() >= 255 {
                    return Err(
                        self.error(self.peek(), "Can't have more than 255 parameters."),
                    );
                }
                let p = match self.consume(TokenType::Identifier, "Expect parameter name.") {
                    Ok(t) => Token::copy(t),
                    Err(e) => {
                        return Err(e);
                    },
                };
                params.push(p);
                if !self.match_type(TokenType::Comma) {
                    break ;
                }
            }
        }
        let _ = self.consume(TokenType::RightParen, "Expect ')' after parameters.")?;
        let _ = self.consume(TokenType::LeftBrace, "Expect '{' before the body.")?;
        let body = self.block()?;
        Ok(Stmt::Function { name, params: Rc::new(params), body: Rc::new(body) })
    }

    fn class_declaration(&mut self) -> (r: Result<Stmt, ParseError>)
        requires
            old(self).wf(),
        ensures
            old(self).steps_from(*final(self)),
            r is Ok ==> final(self).current > old(self).current,
        decreases self.tokens@.len() - self.current, 27int,
    {
        let name = match self.consume(TokenType::Identifier, "Expect class name.") {
            Ok(t) => Token::copy(t),
            Err(e) => {
                return Err(e);
            },
        };
        let mut superclass: Option<Expr> = None;
        if self.match_type(TokenType::Inherits) {
            let sname = match self.consume(TokenType::Identifier, "Expect superclass name.") {
                Ok(t) => Token::copy(t),
                Err(e) => {
                    return Err(e);
                },
            };
            let id = self.fresh_id();
            superclass = Some(Expr::Variable { id, name: sname });
        }
        let _ = self.consume(TokenType::LeftBrace, "Expect '{' before class body.")?;
        let mut methods: Vec<Stmt> = Vec::new();
        loop
            invariant
                self.wf(),
                old(self).steps_from(*self),
                self.current > old(self).current,
            decreases self.tokens@.len() - self.current,
        {
            if !self.check(TokenType::RightBrace) && !self.end() {
                let m = self.function("method")?;
                methods.push(m);
            } else {
                break ;
            }
        }
        let _ = self.consume(TokenType::RightBrace, "Expect '}' after class body.")?;
        Ok(Stmt::Class { name, superclass, methods })
    }

    /// Skips forward to the likely start of the next statement after a
    /// syntax error.
    fn synchronize(&mut self)
        requires
            old(self).wf(),
        ensures
            old(self).steps_from(*final(self)),
    {
        let _ = self.advance();
        loop
            invariant
                self.wf(),
                old(self).steps_from(*self),
            decreases self.tokens@.len() - self.current,
        {
            if self.end() {
                break ;
            }
            if self.current > 0 {
                if self.previous().token_type == TokenType::Semicolon {
                    break ;
                }
            }
            let t = self.peek().token_type;
            if t == TokenType::Class || t == TokenType::Fun || t == TokenType::Var || t
                == TokenType::For || t == TokenType::If || t == TokenType::While || t
                == TokenType::Print || t == TokenType::Return {
                break ;
            }
            let _ = self.advance();
        }
    }

    fn declaration(&mut self) -> (r: Result<Stmt, ParseError>)
        requires
            old(self).wf(),
        ensures
            old(self).steps_from(*final(self)),
            r is Ok ==> final(self).current > old(self).current,
        decreases self.tokens@.len() - self.current, 30int,
    {
        let res: Result<Stmt, ParseError>;
        if self.match_type(TokenType::Fun) {
            res = self.function("function");
        } else if self.match_type(TokenType::Var) {
            res = self.var_declaration();
        } else if self.match_type(TokenType::Class) {
            res = self.class_declaration();
        } else {
            res = self.statement();
        }
        match res {
            Ok(r_ok) => Ok(r_ok),
            Err(e) => {
                self.synchronize();
                Err(e)
            },
        }
    }

    /// Parses the whole stream: a statement list, or the first syntax error
    /// after recovery.
    pub fn parse(&mut self) -> (r: Result<Vec<Stmt>, ParseError>)
        requires
            old(self).wf(),
        ensures
            old(self).steps_from(*final(self)),
            r is Ok ==> final(self).tokens@[final(self).current as int].token_type
                == TokenType::Eof,
    {
        let mut statements: Vec<Stmt> = Vec::new();
        loop
            invariant
                self.wf(),
                old(self).steps_from(*self),
            decreases self.tokens@.len() - self.current,
        {
            if self.end() {
                return Ok(statements);
            }
            let s = self.declaration()?;
            statements.push(s);
        }
    }
}

} // verus!
