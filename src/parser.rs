use crate::ast::{
    BinaryOperator, Expression, FunctionDef, Item, Program, Statement, StructDef, UnaryOperator,
};
use crate::error::NomaError;
use crate::token::{kind_tag, Token, TokenType};
use vstd::prelude::*;

verus! {

/// The binary operator an equality token stands for.
pub open spec fn equality_op<V>(t: TokenType<V>) -> Option<BinaryOperator> {
    match t {
        TokenType::Equal => Some(BinaryOperator::Equal),
        TokenType::NotEq => Some(BinaryOperator::NotEqual),
        _ => None,
    }
}

/// The binary operator a comparison token stands for.
pub open spec fn comparison_op<V>(t: TokenType<V>) -> Option<BinaryOperator> {
    match t {
        TokenType::Lt => Some(BinaryOperator::Less),
        TokenType::Gt => Some(BinaryOperator::Greater),
        TokenType::LtEq => Some(BinaryOperator::LessEq),
        TokenType::GtEq => Some(BinaryOperator::GreaterEq),
        _ => None,
    }
}

/// The binary operator an additive token stands for.
pub open spec fn term_op<V>(t: TokenType<V>) -> Option<BinaryOperator> {
    match t {
        TokenType::Plus => Some(BinaryOperator::Add),
        TokenType::Minus => Some(BinaryOperator::Sub),
        _ => None,
    }
}

/// The binary operator a multiplicative token stands for; `%` shares the
/// division operator.
pub open spec fn factor_op<V>(t: TokenType<V>) -> Option<BinaryOperator> {
    match t {
        TokenType::Star => Some(BinaryOperator::Mul),
        TokenType::Slash => Some(BinaryOperator::Div),
        TokenType::Percent => Some(BinaryOperator::Div),
        _ => None,
    }
}

/// The text of an error.
pub open spec fn error_message(e: NomaError) -> Seq<char> {
    match e {
        NomaError::LexError { message, .. } => message@,
        NomaError::ParseError { message, .. } => message@,
    }
}

/// Recursive-descent parser over a token stream. Reading past the last
/// token yields `Eof`.
pub struct Parser<V> {
    tokens: Vec<Token<V>>,
    current: usize,
}

impl<V: Copy> Parser<V> {
    /// The tokens being parsed.
    pub closed spec fn spec_tokens(&self) -> Seq<Token<V>> {
        self.tokens@
    }

    /// The position of the next token to read.
    pub closed spec fn spec_current(&self) -> nat {
        self.current as nat
    }

    /// The kind of the token at `i`; `Eof` past the end.
    pub open spec fn kind_at(&self, i: int) -> TokenType<V> {
        if 0 <= i < self.spec_tokens().len() {
            self.spec_tokens()[i].token_type
        } else {
            TokenType::Eof
        }
    }

    /// The kind of the next token.
    pub open spec fn spec_peek(&self) -> TokenType<V> {
        self.kind_at(self.spec_current() as int)
    }

    /// The kind of the token read last.
    pub open spec fn last_read(&self) -> TokenType<V> {
        self.kind_at(self.spec_current() as int - 1)
    }

    /// The position never passes the end of the tokens.
    pub open spec fn wf(&self) -> bool {
        self.spec_current() <= self.spec_tokens().len()
    }

    /// Number of tokens not yet read.
    pub open spec fn remaining(&self) -> nat {
        (self.spec_tokens().len() - self.spec_current()) as nat
    }

    /// `self` reads the same tokens as `before`, from no earlier a position.
    pub open spec fn moved_on(&self, before: Self) -> bool {
        &&& self.wf()
        &&& self.spec_tokens() == before.spec_tokens()
        &&& before.spec_current() <= self.spec_current()
    }

    /// The error reported at the next token.
    pub open spec fn error_here(&self, e: NomaError) -> bool {
        let c = self.spec_current() as int;
        match e {
            NomaError::ParseError { message: _, line, column } => {
                &&& (c < self.spec_tokens().len() ==> line == self.spec_tokens()[c].line && column
                    == self.spec_tokens()[c].column)
                &&& (c >= self.spec_tokens().len() ==> line == 0 && column == 0)
            },
            _ => false,
        }
    }

    pub fn new(tokens: Vec<Token<V>>) -> (r: Self)
        ensures
            r.wf(),
            r.spec_tokens() == tokens@,
            r.spec_current() == 0,
    {
        Parser { tokens, current: 0 }
    }

    /// Parses items until the end of the tokens. A program of items starts
    /// with `fn` or `struct` and its last item ends with `}`.
    pub fn parse(&mut self) -> (r: Result<Program<V>, NomaError>)
        requires
            old(self).wf(),
        ensures
            final(self).moved_on(*old(self)),
            r is Ok ==> final(self).spec_peek() is Eof,
            r is Ok && r->Ok_0.items@.len() > 0 ==> final(self).last_read() is RBrace && (old(
                self,
            ).spec_peek() is Fn || old(self).spec_peek() is Struct),
            (old(self).spec_peek() is Eof) ==> (r is Ok && r->Ok_0.items@.len() == 0),
            (!(old(self).spec_peek() is Eof) && !(old(self).spec_peek() is Fn) && !(
            old(self).spec_peek() is Struct)) ==> (r is Err && old(self).error_here(r->Err_0)),
    {
        let mut program = Program::new();
        while !self.is_at_end()
            invariant
                self.moved_on(*old(self)),
                program.items@.len() == 0 ==> self.spec_current() == old(self).spec_current(),
                program.items@.len() > 0 ==> (old(self).spec_peek() is Fn || old(self).spec_peek() is Struct),
                program.items@.len() > 0 ==> self.last_read() is RBrace,
            decreases self.remaining(),
        {
            let item = self.parse_item()?;
            program.items.push(item);
        }
        Ok(program)
    }

    /// Parses a top-level item: a function or a struct.
    fn parse_item(&mut self) -> (r: Result<Item<V>, NomaError>)
        requires
            old(self).wf(),
        ensures
            final(self).moved_on(*old(self)),
            r is Ok ==> final(self).spec_current() > old(self).spec_current(),
            r matches Ok(Item::Function(_)) ==> old(self).spec_peek() is Fn,
            r matches Ok(Item::Struct(_)) ==> old(self).spec_peek() is Struct,
            r is Ok ==> final(self).last_read() is RBrace,
            !(old(self).spec_peek() is Fn) && !(old(self).spec_peek() is Struct) ==> r is Err
                && old(self).error_here(r->Err_0),
    {
        let t = self.peek();
        match t.token_type {
            TokenType::Fn => self.parse_function(),
            TokenType::Struct => self.parse_struct(),
            _ => Err(
                NomaError::ParseError {
                    message: "Expected 'fn' or 'struct'".to_owned(),
                    line: t.line,
                    column: t.column,
                },
            ),
        }
    }

    /// Parses `fn name(params) { body }`.
    fn parse_function(&mut self) -> (r: Result<Item<V>, NomaError>)
        requires
            old(self).wf(),
        ensures
            final(self).moved_on(*old(self)),
            r is Ok ==> final(self).spec_current() > old(self).spec_current() && r->Ok_0 is Function,
            r is Ok ==> old(self).spec_peek() is Fn && final(self).last_read() is RBrace,
            r matches Ok(Item::Function(f)) ==> old(self).kind_at(old(self).spec_current() as int + 1)
                == TokenType::<V>::Identifier(f.name),
    {
        self.consume(TokenType::Fn, "Expected 'fn'")?;
        let name = self.parse_identifier("Expected function name")?;
        self.consume(TokenType::LParen, "Expected '('")?;
        let mut params: Vec<String> = Vec::new();
        if !self.peek_is(TokenType::RParen) {
            loop
                invariant
                    self.moved_on(*old(self)),
                    self.spec_current() > old(self).spec_current(),
                decreases self.remaining(),
            {
                let p = self.parse_identifier("Expected parameter name")?;
                params.push(p);
                if !self.peek_is(TokenType::Comma) {
                    break ;
                }
                self.advance();
            }
        }
        self.consume(TokenType::RParen, "Expected ')'")?;
        self.consume(TokenType::LBrace, "Expected '{'")?;
        let body = self.parse_block()?;
        Ok(Item::Function(FunctionDef { name, params, body }))
    }

    /// Parses `struct Name { field: Type, ... }`.
    fn parse_struct(&mut self) -> (r: Result<Item<V>, NomaError>)
        requires
            old(self).wf(),
        ensures
            final(self).moved_on(*old(self)),
            r is Ok ==> final(self).spec_current() > old(self).spec_current() && r->Ok_0 is Struct,
            r is Ok ==> old(self).spec_peek() is Struct && final(self).last_read() is RBrace,
            r matches Ok(Item::Struct(d)) ==> old(self).kind_at(old(self).spec_current() as int + 1)
                == TokenType::<V>::Identifier(d.name),
    {
        self.consume(TokenType::Struct, "Expected 'struct'")?;
        let name = self.parse_identifier("Expected struct name")?;
        self.consume(TokenType::LBrace, "Expected '{'")?;
        let mut fields: Vec<(String, String)> = Vec::new();
        while !self.peek_is(TokenType::RBrace) && !self.is_at_end()
            invariant
                self.moved_on(*old(self)),
                self.spec_current() > old(self).spec_current(),
            decreases self.remaining(),
        {
            let field_name = self.parse_identifier("Expected field name")?;
            self.consume(TokenType::Colon, "Expected ':'")?;
            let field_type = self.parse_identifier("Expected field type")?;
            fields.push((field_name, field_type));
            if self.peek_is(TokenType::Comma) {
                self.advance();
            }
        }
        self.consume(TokenType::RBrace, "Expected '}'")?;
        Ok(Item::Struct(StructDef { name, fields }))
    }

    /// Parses statements up to and including the closing `}`.
    fn parse_block(&mut self) -> (r: Result<Vec<Statement<V>>, NomaError>)
        requires
            old(self).wf(),
        ensures
            final(self).moved_on(*old(self)),
            r is Ok ==> final(self).spec_current() > old(self).spec_current(),
            r is Ok ==> final(self).last_read() is RBrace,
    {
        let mut statements: Vec<Statement<V>> = Vec::new();
        while !self.peek_is(TokenType::RBrace) && !self.is_at_end()
            invariant
                self.moved_on(*old(self)),
            decreases self.remaining(),
        {
            let s = self.parse_statement()?;
            statements.push(s);
        }
        self.consume(TokenType::RBrace, "Expected '}'")?;
        Ok(statements)
    }

    /// Parses one statement.
    fn parse_statement(&mut self) -> (r: Result<Statement<V>, NomaError>)
        requires
            old(self).wf(),
        ensures
            final(self).moved_on(*old(self)),
            r is Ok ==> final(self).spec_current() > old(self).spec_current(),
            r matches Ok(Statement::LearnDeclaration { .. }) ==> old(self).spec_peek() is Learn,
            r matches Ok(Statement::LetDeclaration { .. }) ==> old(self).spec_peek() is Let,
            r matches Ok(Statement::Minimize(_)) ==> old(self).spec_peek() is Minimize,
            r matches Ok(Statement::Return(_)) ==> old(self).spec_peek() is Return,
            r is Ok ==> final(self).last_read() is Semicolon,
    {
        if self.peek_is(TokenType::Learn) {
            self.parse_learn_declaration()
        } else if self.peek_is(TokenType::Let) {
            self.parse_let_declaration()
        } else if self.peek_is(TokenType::Minimize) {
            self.parse_minimize()
        } else if self.peek_is(TokenType::Return) {
            self.parse_return()
        } else {
            let expr = self.parse_expression()?;
            self.consume(TokenType::Semicolon, "Expected ';'")?;
            Ok(Statement::Expression(expr))
        }
    }

    /// Parses `learn name = expr;`.
    fn parse_learn_declaration(&mut self) -> (r: Result<Statement<V>, NomaError>)
        requires
            old(self).wf(),
        ensures
            final(self).moved_on(*old(self)),
            r is Ok ==> final(self).spec_current() > old(self).spec_current()
                && r->Ok_0 is LearnDeclaration,
            r is Ok ==> old(self).spec_peek() is Learn && old(self).kind_at(old(self).spec_current() as int + 2)
                is Assign && final(self).last_read() is Semicolon,
            r matches Ok(Statement::LearnDeclaration { name, .. }) ==> old(self).kind_at(
                old(self).spec_current() as int + 1,
            ) == TokenType::<V>::Identifier(name),
    {
        self.consume(TokenType::Learn, "Expected 'learn'")?;
        let name = self.parse_identifier("Expected variable name")?;
        self.consume(TokenType::Assign, "Expected '='")?;
        let value = self.parse_expression()?;
        self.consume(TokenType::Semicolon, "Expected ';'")?;
        Ok(Statement::LearnDeclaration { name, value })
    }

    /// Parses `let name = expr;`.
    fn parse_let_declaration(&mut self) -> (r: Result<Statement<V>, NomaError>)
        requires
            old(self).wf(),
        ensures
            final(self).moved_on(*old(self)),
            r is Ok ==> final(self).spec_current() > old(self).spec_current()
                && r->Ok_0 is LetDeclaration,
            r is Ok ==> old(self).spec_peek() is Let && old(self).kind_at(old(self).spec_current() as int + 2)
                is Assign && final(self).last_read() is Semicolon,
            r matches Ok(Statement::LetDeclaration { name, .. }) ==> old(self).kind_at(
                old(self).spec_current() as int + 1,
            ) == TokenType::<V>::Identifier(name),
    {
        self.consume(TokenType::Let, "Expected 'let'")?;
        let name = self.parse_identifier("Expected variable name")?;
        self.consume(TokenType::Assign, "Expected '='")?;
        let value = self.parse_expression()?;
        self.consume(TokenType::Semicolon, "Expected ';'")?;
        Ok(Statement::LetDeclaration { name, value })
    }

    /// Parses `minimize expr;`.
    fn parse_minimize(&mut self) -> (r: Result<Statement<V>, NomaError>)
        requires
            old(self).wf(),
        ensures
            final(self).moved_on(*old(self)),
            r is Ok ==> final(self).spec_current() > old(self).spec_current() && r->Ok_0 is Minimize,
            r is Ok ==> old(self).spec_peek() is Minimize && final(self).last_read() is Semicolon,
    {
        self.consume(TokenType::Minimize, "Expected 'minimize'")?;
        let expr = self.parse_expression()?;
        self.consume(TokenType::Semicolon, "Expected ';'")?;
        Ok(Statement::Minimize(expr))
    }

    /// Parses `return;` or `return expr;`.
    fn parse_return(&mut self) -> (r: Result<Statement<V>, NomaError>)
        requires
            old(self).wf(),
        ensures
            final(self).moved_on(*old(self)),
            r is Ok ==> final(self).spec_current() > old(self).spec_current() && r->Ok_0 is Return,
            r is Ok ==> old(self).spec_peek() is Return && final(self).last_read() is Semicolon,
            r matches Ok(Statement::Return(None)) ==> old(self).kind_at(old(self).spec_current() as int + 1)
                is Semicolon,
    {
        self.consume(TokenType::Return, "Expected 'return'")?;
        let value = if self.peek_is(TokenType::Semicolon) {
            None
        } else {
            Some(self.parse_expression()?)
        };
        self.consume(TokenType::Semicolon, "Expected ';'")?;
        Ok(Statement::Return(value))
    }

    /// Parses an expression, lowest precedence first.
    fn parse_expression(&mut self) -> (r: Result<Expression<V>, NomaError>)
        requires
            old(self).wf(),
        ensures
            final(self).moved_on(*old(self)),
            r is Ok ==> final(self).spec_current() > old(self).spec_current(),
        decreases old(self).remaining(), 9nat,
    {
        self.parse_or()
    }

    /// Logical `or` level; the language has no such operator yet.
    fn parse_or(&mut self) -> (r: Result<Expression<V>, NomaError>)
        requires
            old(self).wf(),
        ensures
            final(self).moved_on(*old(self)),
            r is Ok ==> final(self).spec_current() > old(self).spec_current(),
        decreases old(self).remaining(), 8nat,
    {
        let expr = self.parse_and()?;
        Ok(expr)
    }

    /// Logical `and` level; the language has no such operator yet.
    fn parse_and(&mut self) -> (r: Result<Expression<V>, NomaError>)
        requires
            old(self).wf(),
        ensures
            final(self).moved_on(*old(self)),
            r is Ok ==> final(self).spec_current() > old(self).spec_current(),
        decreases old(self).remaining(), 7nat,
    {
        let expr = self.parse_equality()?;
        Ok(expr)
    }

    /// `==` and `!=`, left-associative.
    fn parse_equality(&mut self) -> (r: Result<Expression<V>, NomaError>)
        requires
            old(self).wf(),
        ensures
            final(self).moved_on(*old(self)),
            r is Ok ==> final(self).spec_current() > old(self).spec_current(),
        decreases old(self).remaining(), 6nat,
    {
        let mut expr = self.parse_comparison()?;
        loop
            invariant
                self.moved_on(*old(self)),
                self.spec_current() > old(self).spec_current(),
            decreases self.remaining(),
        {
            match self.match_equality() {
                Some(op) => {
                    let right = self.parse_comparison()?;
                    expr = Expression::BinaryOp { left: Box::new(expr), op, right: Box::new(right) };
                },
                None => break ,
            }
        }
        Ok(expr)
    }

    /// `<`, `>`, `<=`, `>=`, left-associative.
    fn parse_comparison(&mut self) -> (r: Result<Expression<V>, NomaError>)
        requires
            old(self).wf(),
        ensures
            final(self).moved_on(*old(self)),
            r is Ok ==> final(self).spec_current() > old(self).spec_current(),
        decreases old(self).remaining(), 5nat,
    {
        let mut expr = self.parse_term()?;
        loop
            invariant
                self.moved_on(*old(self)),
                self.spec_current() > old(self).spec_current(),
            decreases self.remaining(),
        {
            match self.match_comparison() {
                Some(op) => {
                    let right = self.parse_term()?;
                    expr = Expression::BinaryOp { left: Box::new(expr), op, right: Box::new(right) };
                },
                None => break ,
            }
        }
        Ok(expr)
    }

    /// `+` and `-`, left-associative.
    fn parse_term(&mut self) -> (r: Result<Expression<V>, NomaError>)
        requires
            old(self).wf(),
        ensures
            final(self).moved_on(*old(self)),
            r is Ok ==> final(self).spec_current() > old(self).spec_current(),
        decreases old(self).remaining(), 4nat,
    {
        let mut expr = self.parse_factor()?;
        loop
            invariant
                self.moved_on(*old(self)),
                self.spec_current() > old(self).spec_current(),
            decreases self.remaining(),
        {
            match self.match_term() {
                Some(op) => {
                    let right = self.parse_factor()?;
                    expr = Expression::BinaryOp { left: Box::new(expr), op, right: Box::new(right) };
                },
                None => break ,
            }
        }
        Ok(expr)
    }

    /// `*`, `/` and `%`, left-associative.
    fn parse_factor(&mut self) -> (r: Result<Expression<V>, NomaError>)
        requires
            old(self).wf(),
        ensures
            final(self).moved_on(*old(self)),
            r is Ok ==> final(self).spec_current() > old(self).spec_current(),
        decreases old(self).remaining(), 3nat,
    {
        let mut expr = self.parse_unary()?;
        loop
            invariant
                self.moved_on(*old(self)),
                self.spec_current() > old(self).spec_current(),
            decreases self.remaining(),
        {
            match self.match_factor() {
                Some(op) => {
                    let right = self.parse_unary()?;
                    expr = Expression::BinaryOp { left: Box::new(expr), op, right: Box::new(right) };
                },
                None => break ,
            }
        }
        Ok(expr)
    }

    /// Prefix `-`, right-associative.
    fn parse_unary(&mut self) -> (r: Result<Expression<V>, NomaError>)
        requires
            old(self).wf(),
        ensures
            final(self).moved_on(*old(self)),
            r is Ok ==> final(self).spec_current() > old(self).spec_current(),
            old(self).spec_peek() is Minus && r is Ok ==> r->Ok_0 matches Expression::UnaryOp {
                op: UnaryOperator::Neg,
                ..
            },
        decreases old(self).remaining(), 2nat,
    {
        if self.peek_is(TokenType::Minus) {
            self.advance();
            let expr = self.parse_unary()?;
            Ok(Expression::UnaryOp { op: UnaryOperator::Neg, expr: Box::new(expr) })
        } else {
            self.parse_postfix()
        }
    }

    /// A primary expression followed by call argument lists; only an
    /// identifier can be called.
    fn parse_postfix(&mut self) -> (r: Result<Expression<V>, NomaError>)
        requires
            old(self).wf(),
        ensures
            final(self).moved_on(*old(self)),
            r is Ok ==> final(self).spec_current() > old(self).spec_current(),
        decreases old(self).remaining(), 1nat,
    {
        let mut expr = self.parse_primary()?;
        loop
            invariant
                self.moved_on(*old(self)),
                self.spec_current() > old(self).spec_current(),
            decreases self.remaining(),
        {
            if !self.peek_is(TokenType::LParen) {
                break ;
            }
            let ghost here = self.remaining();
            self.advance();
            let mut args: Vec<Expression<V>> = Vec::new();
            if !self.peek_is(TokenType::RParen) {
                loop
                    invariant
                        self.moved_on(*old(self)),
                        self.spec_current() > old(self).spec_current(),
                        self.remaining() < here,
                    decreases self.remaining(),
                {
                    let a = self.parse_expression()?;
                    args.push(a);
                    if !self.peek_is(TokenType::Comma) {
                        break ;
                    }
                    self.advance();
                }
            }
            self.consume(TokenType::RParen, "Expected ')'")?;
            match expr {
                Expression::Identifier(name) => {
                    expr = Expression::Call { name, args };
                },
                _ => {
                    let t = self.peek();
                    return Err(
                        NomaError::ParseError {
                            message: "Can only call identifiers".to_owned(),
                            line: t.line,
                            column: t.column,
                        },
                    );
                },
            }
        }
        Ok(expr)
    }

    /// A number, an identifier, or a parenthesised expression.
    fn parse_primary(&mut self) -> (r: Result<Expression<V>, NomaError>)
        requires
            old(self).wf(),
        ensures
            final(self).moved_on(*old(self)),
            r is Ok ==> final(self).spec_current() > old(self).spec_current(),
            old(self).spec_peek() is Number ==> r == Ok::<Expression<V>, NomaError>(
                Expression::Number(old(self).spec_peek()->Number_0),
            ) && final(self).spec_current() == old(self).spec_current() + 1,
            old(self).spec_peek() is Identifier ==> r == Ok::<Expression<V>, NomaError>(
                Expression::Identifier(old(self).spec_peek()->Identifier_0),
            ) && final(self).spec_current() == old(self).spec_current() + 1,
            !(old(self).spec_peek() is Number) && !(old(self).spec_peek() is Identifier) && !(
            old(self).spec_peek() is LParen) ==> r is Err && old(self).error_here(r->Err_0)
                && final(self).spec_current() == old(self).spec_current(),
        decreases old(self).remaining(), 0nat,
    {
        let t = self.peek();
        match t.token_type {
            TokenType::Number(n) => {
                self.advance();
                Ok(Expression::Number(n))
            },
            TokenType::Identifier(name) => {
                self.advance();
                Ok(Expression::Identifier(name))
            },
            TokenType::LParen => {
                self.advance();
                let expr = self.parse_expression()?;
                self.consume(TokenType::RParen, "Expected ')'")?;
                Ok(expr)
            },
            _ => Err(
                NomaError::ParseError {
                    message: "Unexpected token".to_owned(),
                    line: t.line,
                    column: t.column,
                },
            ),
        }
    }

    /// Reads `==` or `!=` if it comes next.
    fn match_equality(&mut self) -> (r: Option<BinaryOperator>)
        requires
            old(self).wf(),
        ensures
            final(self).moved_on(*old(self)),
            r == equality_op(old(self).spec_peek()),
            final(self).spec_current() == old(self).spec_current() + if r is Some {
                1nat
            } else {
                0nat
            },
    {
        let t = self.peek();
        match t.token_type {
            TokenType::Equal => {
                self.advance();
                Some(BinaryOperator::Equal)
            },
            TokenType::NotEq => {
                self.advance();
                Some(BinaryOperator::NotEqual)
            },
            _ => None,
        }
    }

    /// Reads `<`, `>`, `<=` or `>=` if it comes next.
    fn match_comparison(&mut self) -> (r: Option<BinaryOperator>)
        requires
            old(self).wf(),
        ensures
            final(self).moved_on(*old(self)),
            r == comparison_op(old(self).spec_peek()),
            final(self).spec_current() == old(self).spec_current() + if r is Some {
                1nat
            } else {
                0nat
            },
    {
        let t = self.peek();
        match t.token_type {
            TokenType::Lt => {
                self.advance();
                Some(BinaryOperator::Less)
            },
            TokenType::Gt => {
                self.advance();
                Some(BinaryOperator::Greater)
            },
            TokenType::LtEq => {
                self.advance();
                Some(BinaryOperator::LessEq)
            },
            TokenType::GtEq => {
                self.advance();
                Some(BinaryOperator::GreaterEq)
            },
            _ => None,
        }
    }

    /// Reads `+` or `-` if it comes next.
    fn match_term(&mut self) -> (r: Option<BinaryOperator>)
        requires
            old(self).wf(),
        ensures
            final(self).moved_on(*old(self)),
            r == term_op(old(self).spec_peek()),
            final(self).spec_current() == old(self).spec_current() + if r is Some {
                1nat
            } else {
                0nat
            },
    {
        let t = self.peek();
        match t.token_type {
            TokenType::Plus => {
                self.advance();
                Some(BinaryOperator::Add)
            },
            TokenType::Minus => {
                self.advance();
                Some(BinaryOperator::Sub)
            },
            _ => None,
        }
    }

    /// Reads `*`, `/` or `%` if it comes next.
    fn match_factor(&mut self) -> (r: Option<BinaryOperator>)
        requires
            old(self).wf(),
        ensures
            final(self).moved_on(*old(self)),
            r == factor_op(old(self).spec_peek()),
            final(self).spec_current() == old(self).spec_current() + if r is Some {
                1nat
            } else {
                0nat
            },
    {
        let t = self.peek();
        match t.token_type {
            TokenType::Star => {
                self.advance();
                Some(BinaryOperator::Mul)
            },
            TokenType::Slash => {
                self.advance();
                Some(BinaryOperator::Div)
            },
            TokenType::Percent => {
                self.advance();
                Some(BinaryOperator::Div)
            },
            _ => None,
        }
    }

    /// Reads an identifier, or fails with `message` at the next token.
    fn parse_identifier(&mut self, message: &str) -> (r: Result<String, NomaError>)
        requires
            old(self).wf(),
        ensures
            final(self).moved_on(*old(self)),
            old(self).spec_peek() is Identifier ==> r == Ok::<String, NomaError>(
                old(self).spec_peek()->Identifier_0,
            ) && final(self).spec_current() == old(self).spec_current() + 1,
            !(old(self).spec_peek() is Identifier) ==> r is Err && old(self).error_here(r->Err_0)
                && error_message(r->Err_0) == message@ && final(self).spec_current()
                == old(self).spec_current(),
    {
        let t = self.peek();
        match t.token_type {
            TokenType::Identifier(name) => {
                self.advance();
                Ok(name)
            },
            _ => Err(
                NomaError::ParseError { message: message.to_owned(), line: t.line, column: t.column },
            ),
        }
    }

    /// Reads a token of the same variant as `token_type`, or fails with
    /// `message` at the next token.
    fn consume(&mut self, token_type: TokenType<V>, message: &str) -> (r: Result<(), NomaError>)
        requires
            old(self).wf(),
            !(token_type is Eof),
        ensures
            final(self).moved_on(*old(self)),
            r is Ok <==> kind_tag(old(self).spec_peek()) == kind_tag(token_type),
            r is Ok ==> final(self).spec_current() == old(self).spec_current() + 1,
            r is Err ==> old(self).error_here(r->Err_0) && error_message(r->Err_0) == message@
                && final(self).spec_current() == old(self).spec_current(),
    {
        let t = self.peek();
        if t.token_type.tag() == token_type.tag() {
            self.advance();
            Ok(())
        } else {
            Err(NomaError::ParseError { message: message.to_owned(), line: t.line, column: t.column })
        }
    }

    /// Whether the next token has the same variant as `token_type`.
    fn peek_is(&self, token_type: TokenType<V>) -> (r: bool)
        ensures
            r == (kind_tag(self.spec_peek()) == kind_tag(token_type)),
    {
        let t = self.peek();
        t.token_type.tag() == token_type.tag()
    }

    /// The next token; an `Eof` token at line 0, column 0 past the end.
    fn peek(&self) -> (r: Token<V>)
        ensures
            r.token_type == self.spec_peek(),
            self.spec_current() < self.spec_tokens().len() ==> r.line == self.spec_tokens()[self.spec_current() as int].line
                && r.column == self.spec_tokens()[self.spec_current() as int].column,
            self.spec_current() >= self.spec_tokens().len() ==> r.line == 0 && r.column == 0,
    {
        if self.current < self.tokens.len() {
            let t = &self.tokens[self.current];
            Token::new(t.token_type.duplicate(), t.line, t.column)
        } else {
            Token::new(TokenType::Eof, 0, 0)
        }
    }

    /// Moves to the next token unless at the end.
    fn advance(&mut self)
        requires
            old(self).wf(),
        ensures
            final(self).moved_on(*old(self)),
            (old(self).spec_peek() is Eof) ==> final(self).spec_current() == old(self).spec_current(),
            !(old(self).spec_peek() is Eof) ==> final(self).spec_current() == old(self).spec_current()
                + 1,
    {
        if self.current < self.tokens.len() && !self.is_at_end() {
            self.current = self.current + 1;
        }
    }

    /// Whether the next token is `Eof`.
    fn is_at_end(&self) -> (r: bool)
        ensures
            r == (self.spec_peek() is Eof),
    {
        let t = self.peek();
        match t.token_type {
            TokenType::Eof => true,
            _ => false,
        }
    }
}

} // verus!
