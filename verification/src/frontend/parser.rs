//! The parser: recursive descent over the tokens, one token of lookahead,
//! never going back.

use crate::ast::expr::{Expr, ExprView};
use crate::ast::stmt::{lemma_block_view, statements_view, Stmt, StmtView};
use crate::frontend::grammar::{
    check, is_boundary, kind_at, parse_assignment,
    parse_block_rest, parse_closed, parse_declaration, parse_expression,
    parse_expression_statement, parse_for, parse_for_initializer, parse_if, parse_level,
    parse_level_rest, parse_operand, parse_optional, parse_primary, parse_print, parse_program,
    parse_statement, parse_unary, parse_var_declaration, parse_while, remaining, synchronized,
    Level, Parsed,
};
use crate::frontend::literal::{is_number, string_literal};
use crate::frontend::syntax_error::{ParserError, ParserErrorView};
use crate::frontend::token::{Token, TokenType, TokenView};
use vstd::prelude::*;
use vstd::string::*;

verus! {

pub type ParserResult<T> = Result<T, ParserError>;

/// What the tokens are, each with its lexeme as a sequence of characters.
pub open spec fn token_views(tokens: Seq<Token>) -> Seq<TokenView> {
    Seq::new(tokens.len(), |i: int| tokens[i]@)
}

/// The result of parsing an expression, as mathematics.
pub open spec fn expr_parsed(r: ParserResult<Expr>, next: int) -> Parsed<ExprView> {
    Parsed {
        result: match r {
            Ok(e) => Ok(e@),
            Err(e) => Err(e@),
        },
        next,
    }
}

/// The result of parsing a statement, as mathematics.
pub open spec fn stmt_parsed(r: ParserResult<Stmt>, next: int) -> Parsed<StmtView> {
    Parsed {
        result: match r {
            Ok(s) => Ok(s@),
            Err(e) => Err(e@),
        },
        next,
    }
}

/// The result of parsing an expression that may be left out.
pub open spec fn optional_parsed(r: ParserResult<Option<Expr>>, next: int) -> Parsed<Option<ExprView>> {
    Parsed {
        result: match r {
            Ok(Some(e)) => Ok(Some(e@)),
            Ok(None) => Ok(None),
            Err(e) => Err(e@),
        },
        next,
    }
}

/// The result of parsing a statement that may be left out.
pub open spec fn optional_stmt_parsed(r: ParserResult<Option<Stmt>>, next: int) -> Parsed<
    Option<StmtView>,
> {
    Parsed {
        result: match r {
            Ok(Some(s)) => Ok(Some(s@)),
            Ok(None) => Ok(None),
            Err(e) => Err(e@),
        },
        next,
    }
}

/// The result of parsing a program.
pub open spec fn program_parsed(r: ParserResult<Vec<Stmt>>, next: int) -> Parsed<Seq<StmtView>> {
    Parsed {
        result: match r {
            Ok(statements) => Ok(statements_view(statements@)),
            Err(e) => Err(e@),
        },
        next,
    }
}

fn level_takes(level: Level, token_type: TokenType) -> (r: bool)
    ensures
        r == level.takes(token_type),
{
    match level {
        Level::Factor => token_type == TokenType::Slash || token_type == TokenType::Star,
        Level::Term => token_type == TokenType::Minus || token_type == TokenType::Plus,
        Level::Comparison => token_type == TokenType::Greater || token_type
            == TokenType::GreaterEqual || token_type == TokenType::Less || token_type
            == TokenType::LessEqual,
        Level::Equality => token_type == TokenType::EqualEqual || token_type
            == TokenType::BangEqual,
        Level::And => token_type == TokenType::And,
        Level::Or => token_type == TokenType::Or,
    }
}

fn combine(level: Level, left: Expr, operator: Token, right: Expr) -> (r: Expr)
    ensures
        r@ == level.combine(left@, operator@, right@),
{
    match level {
        Level::And | Level::Or => Expr::new_logical(left, operator, right),
        _ => Expr::new_binary(left, operator, right),
    }
}

fn is_boundary_type(token_type: TokenType) -> (r: bool)
    ensures
        r == is_boundary(token_type),
{
    token_type == TokenType::Class || token_type == TokenType::Fun || token_type == TokenType::Var
        || token_type == TokenType::For || token_type == TokenType::If || token_type
        == TokenType::While || token_type == TokenType::Print || token_type == TokenType::Return
        || token_type == TokenType::Eof
}

/// The parser: the tokens and the place among them where it stands.
#[derive(Debug)]
pub struct Parser<'a> {
    tokens: &'a [Token],
    current: usize,
}

impl<'a> Parser<'a> {
    /// The tokens being parsed.
    pub closed spec fn tokens(&self) -> Seq<TokenView> {
        token_views(self.tokens@)
    }

    /// How many tokens have been taken.
    pub closed spec fn position(&self) -> int {
        self.current as int
    }

    pub closed spec fn wf(&self) -> bool {
        self.current <= self.tokens@.len()
    }

    /// A parser is never behind where it was, and keeps its tokens.
    spec fn moved_on(&self, before: &Parser<'a>) -> bool {
        &&& self.wf()
        &&& self.tokens@ == before.tokens@
        &&& self.current >= before.current
    }

    /// A parser at the first of `tokens`.
    pub fn new(tokens: &'a [Token]) -> (r: Self)
        ensures
            r.wf(),
            r.tokens() == token_views(tokens@),
            r.position() == 0,
    {
        Self { tokens, current: 0 }
    }

    /// Takes the next token, if one is left.
    fn advance(&mut self) -> (r: Option<&'a Token>)
        requires
            old(self).wf(),
        ensures
            final(self).moved_on(old(self)),
            match r {
                Some(token) => old(self).current < old(self).tokens@.len() && *token == old(
                    self,
                ).tokens@[old(self).current as int] && final(self).current == old(self).current
                    + 1,
                None => old(self).current >= old(self).tokens@.len() && final(self).current == old(
                    self,
                ).current,
            },
    {
        if self.current < self.tokens.len() {
            let token = &self.tokens[self.current];
            self.current += 1;
            Some(token)
        } else {
            None
        }
    }

    /// The kind of the next token, if one is left.
    fn peek_type(&self) -> (r: Option<TokenType>)
        ensures
            r == kind_at(token_views(self.tokens@), self.current as int),
    {
        if self.current < self.tokens.len() {
            Some(self.tokens[self.current].token_type)
        } else {
            None
        }
    }

    /// Whether the next token is of kind `token_type`.
    fn check(&self, token_type: &TokenType) -> (r: bool)
        ensures
            r == check(token_views(self.tokens@), self.current as int, *token_type),
    {
        match self.peek_type() {
            Some(t) => t == *token_type,
            None => false,
        }
    }

    fn is_eof(&self) -> (r: bool)
        ensures
            r == check(token_views(self.tokens@), self.current as int, TokenType::Eof),
    {
        self.check(&TokenType::Eof)
    }

    /// Takes the next token if its kind is one of `token_types`.
    fn match_tokens(&mut self, token_types: &[TokenType]) -> (r: Option<Token>)
        requires
            old(self).wf(),
        ensures
            final(self).moved_on(old(self)),
            match r {
                Some(token) => {
                    &&& old(self).current < old(self).tokens@.len()
                    &&& token == old(self).tokens@[old(self).current as int]
                    &&& token_types@.contains(token.token_type)
                    &&& final(self).current == old(self).current + 1
                },
                None => {
                    &&& final(self).current == old(self).current
                    &&& forall|t: TokenType|
                        token_types@.contains(t) ==> !check(
                            token_views(old(self).tokens@),
                            old(self).current as int,
                            t,
                        )
                },
            },
    {
        let mut i: usize = 0;
        while i < token_types.len()
            invariant
                i <= token_types@.len(),
                self.wf(),
                self.tokens@ == old(self).tokens@,
                self.current == old(self).current,
                forall|k: int|
                    0 <= k < i ==> !check(
                        token_views(self.tokens@),
                        self.current as int,
                        token_types@[k],
                    ),
            decreases token_types@.len() - i,
        {
            if self.check(&token_types[i]) {
                let token = &self.tokens[self.current];
                self.current += 1;
                return Some(token.clone());
            }
            i += 1;
        }
        None
    }

    /// Takes the next token, which must be of kind `token_type`.
    fn consume(&mut self, token_type: TokenType) -> (r: ParserResult<&'a Token>)
        requires
            old(self).wf(),
        ensures
            final(self).moved_on(old(self)),
            match r {
                Ok(token) => {
                    &&& check(token_views(old(self).tokens@), old(self).current as int, token_type)
                    &&& *token == old(self).tokens@[old(self).current as int]
                    &&& final(self).current == old(self).current + 1
                },
                Err(e) => {
                    &&& !check(token_views(old(self).tokens@), old(self).current as int, token_type)
                    &&& e@ == (ParserErrorView::ExpectedToken { token_type })
                    &&& final(self).current == old(self).current
                },
            },
    {
        if !self.check(&token_type) {
            return Err(ParserError::ExpectedToken { token_type });
        }
        let token = &self.tokens[self.current];
        self.current += 1;
        Ok(token)
    }

    /// primary → NUMBER | STRING | "true" | "false" | "nil" | IDENTIFIER | "(" expression ")" ;
    fn primary(&mut self) -> (r: ParserResult<Expr>)
        requires
            old(self).wf(),
        ensures
            final(self).moved_on(old(self)),
            r is Ok ==> final(self).current > old(self).current,
            expr_parsed(r, final(self).current as int) == parse_primary(
                token_views(old(self).tokens@),
                old(self).current as int,
            ),
        decreases remaining(token_views(old(self).tokens@), old(self).current as int), 0nat,
    {
        match self.advance() {
            None => Err(ParserError::ExpectedExpression),
            Some(token) => {
                match token.token_type {
                    TokenType::True => Ok(Expr::BoolLiteral(true)),
                    TokenType::False => Ok(Expr::BoolLiteral(false)),
                    TokenType::Nil => Ok(Expr::Nil),
                    TokenType::Number => {
                        if is_number(token.lexeme.as_str()) {
                            Ok(Expr::NumberLiteral(token.lexeme.clone()))
                        } else {
                            Err(ParserError::InvalidNumber { lexeme: token.lexeme.clone() })
                        }
                    },
                    TokenType::String => Ok(
                        Expr::StringLiteral(string_literal(token.lexeme.as_str())),
                    ),
                    TokenType::Identifier => Ok(Expr::Variable { name: token.clone() }),
                    TokenType::LeftParen => {
                        // The expression comes before its closing parenthesis.
                        match self.expression() {
                            Err(e) => Err(e),
                            Ok(e) => match self.consume(TokenType::RightParen) {
                                Err(error) => Err(error),
                                Ok(_) => Ok(Expr::new_grouping(e)),
                            },
                        }
                    },
                    _ => Err(ParserError::ExpectedExpression),
                }
            },
        }
    }

    /// unary → ( "!" | "-" ) unary | primary ;
    fn unary(&mut self) -> (r: ParserResult<Expr>)
        requires
            old(self).wf(),
        ensures
            final(self).moved_on(old(self)),
            r is Ok ==> final(self).current > old(self).current,
            expr_parsed(r, final(self).current as int) == parse_unary(
                token_views(old(self).tokens@),
                old(self).current as int,
            ),
        decreases remaining(token_views(old(self).tokens@), old(self).current as int), 1nat,
    {
        if self.check(&TokenType::Bang) || self.check(&TokenType::Minus) {
            let operator = self.tokens[self.current].clone();
            self.current += 1;
            match self.unary() {
                Err(e) => Err(e),
                Ok(right) => Ok(Expr::new_unary(operator, right)),
            }
        } else {
            self.primary()
        }
    }

    /// An operand of `level`: an expression of the level below.
    fn operand(&mut self, level: Level) -> (r: ParserResult<Expr>)
        requires
            old(self).wf(),
        ensures
            final(self).moved_on(old(self)),
            r is Ok ==> final(self).current > old(self).current,
            expr_parsed(r, final(self).current as int) == parse_operand(
                token_views(old(self).tokens@),
                old(self).current as int,
                level,
            ),
        decreases remaining(token_views(old(self).tokens@), old(self).current as int), 3
                * level.height() + 1,
    {
        match level {
            Level::Factor => self.unary(),
            Level::Term => self.factor(),
            Level::Comparison => self.term(),
            Level::Equality => self.comparison(),
            Level::And => self.equality(),
            Level::Or => self.logic_and(),
        }
    }

    /// An expression of a binary level: operands with the level's operators
    /// between them, grouped to the left.
    fn binary(&mut self, level: Level) -> (r: ParserResult<Expr>)
        requires
            old(self).wf(),
        ensures
            final(self).moved_on(old(self)),
            r is Ok ==> final(self).current > old(self).current,
            expr_parsed(r, final(self).current as int) == parse_level(
                token_views(old(self).tokens@),
                old(self).current as int,
                level,
            ),
        decreases remaining(token_views(old(self).tokens@), old(self).current as int), 3
                * level.height() + 2,
    {
        let ghost tokens = token_views(self.tokens@);
        let ghost whole = parse_level(tokens, self.current as int, level);
        let mut expr = match self.operand(level) {
            Err(e) => {
                return Err(e);
            },
            Ok(e) => e,
        };
        while self.current < self.tokens.len() && level_takes(
            level,
            self.tokens[self.current].token_type,
        )
            invariant
                self.moved_on(old(self)),
                self.current > old(self).current,
                tokens == token_views(self.tokens@),
                whole == parse_level(tokens, old(self).current as int, level),
                whole == parse_level_rest(tokens, self.current as int, level, expr@),
            decreases self.tokens@.len() - self.current,
        {
            let operator = self.tokens[self.current].clone();
            self.current += 1;
            match self.operand(level) {
                Err(e) => {
                    return Err(e);
                },
                Ok(right) => {
                    expr = combine(level, expr, operator, right);
                },
            }
        }
        Ok(expr)
    }

    /// factor → unary ( ( "/" | "*" ) unary )* ;
    fn factor(&mut self) -> (r: ParserResult<Expr>)
        requires
            old(self).wf(),
        ensures
            final(self).moved_on(old(self)),
            r is Ok ==> final(self).current > old(self).current,
            expr_parsed(r, final(self).current as int) == parse_level(
                token_views(old(self).tokens@),
                old(self).current as int,
                Level::Factor,
            ),
        decreases remaining(token_views(old(self).tokens@), old(self).current as int), 6nat,
    {
        self.binary(Level::Factor)
    }

    /// term → factor ( ( "-" | "+" ) factor )* ;
    fn term(&mut self) -> (r: ParserResult<Expr>)
        requires
            old(self).wf(),
        ensures
            final(self).moved_on(old(self)),
            r is Ok ==> final(self).current > old(self).current,
            expr_parsed(r, final(self).current as int) == parse_level(
                token_views(old(self).tokens@),
                old(self).current as int,
                Level::Term,
            ),
        decreases remaining(token_views(old(self).tokens@), old(self).current as int), 9nat,
    {
        self.binary(Level::Term)
    }

    /// comparison → term ( ( ">" | ">=" | "<" | "<=" ) term )* ;
    fn comparison(&mut self) -> (r: ParserResult<Expr>)
        requires
            old(self).wf(),
        ensures
            final(self).moved_on(old(self)),
            r is Ok ==> final(self).current > old(self).current,
            expr_parsed(r, final(self).current as int) == parse_level(
                token_views(old(self).tokens@),
                old(self).current as int,
                Level::Comparison,
            ),
        decreases remaining(token_views(old(self).tokens@), old(self).current as int), 12nat,
    {
        self.binary(Level::Comparison)
    }

    /// equality → comparison ( ( "!=" | "==" ) comparison )* ;
    fn equality(&mut self) -> (r: ParserResult<Expr>)
        requires
            old(self).wf(),
        ensures
            final(self).moved_on(old(self)),
            r is Ok ==> final(self).current > old(self).current,
            expr_parsed(r, final(self).current as int) == parse_level(
                token_views(old(self).tokens@),
                old(self).current as int,
                Level::Equality,
            ),
        decreases remaining(token_views(old(self).tokens@), old(self).current as int), 15nat,
    {
        self.binary(Level::Equality)
    }

    /// logic_and → equality ( "and" equality )* ;
    fn logic_and(&mut self) -> (r: ParserResult<Expr>)
        requires
            old(self).wf(),
        ensures
            final(self).moved_on(old(self)),
            r is Ok ==> final(self).current > old(self).current,
            expr_parsed(r, final(self).current as int) == parse_level(
                token_views(old(self).tokens@),
                old(self).current as int,
                Level::And,
            ),
        decreases remaining(token_views(old(self).tokens@), old(self).current as int), 18nat,
    {
        self.binary(Level::And)
    }

    /// logic_or → logic_and ( "or" logic_and )* ;
    fn logic_or(&mut self) -> (r: ParserResult<Expr>)
        requires
            old(self).wf(),
        ensures
            final(self).moved_on(old(self)),
            r is Ok ==> final(self).current > old(self).current,
            expr_parsed(r, final(self).current as int) == parse_level(
                token_views(old(self).tokens@),
                old(self).current as int,
                Level::Or,
            ),
        decreases remaining(token_views(old(self).tokens@), old(self).current as int), 21nat,
    {
        self.binary(Level::Or)
    }

    /// assignment → IDENTIFIER "=" assignment | logic_or ;
    fn assignment(&mut self) -> (r: ParserResult<Expr>)
        requires
            old(self).wf(),
        ensures
            final(self).moved_on(old(self)),
            r is Ok ==> final(self).current > old(self).current,
            expr_parsed(r, final(self).current as int) == parse_assignment(
                token_views(old(self).tokens@),
                old(self).current as int,
            ),
        decreases remaining(token_views(old(self).tokens@), old(self).current as int), 22nat,
    {
        let expr = match self.logic_or() {
            Err(e) => {
                return Err(e);
            },
            Ok(e) => e,
        };
        if self.check(&TokenType::Equal) {
            let equals = self.tokens[self.current].clone();
            self.current += 1;
            let value = match self.assignment() {
                Err(e) => {
                    return Err(e);
                },
                Ok(v) => v,
            };
            return match expr {
                Expr::Variable { name } => Ok(Expr::new_assignment(name, value)),
                _ => Err(ParserError::InvalidAssignmentTarget { token: equals }),
            };
        }
        Ok(expr)
    }

    /// expression → assignment ;
    fn expression(&mut self) -> (r: ParserResult<Expr>)
        requires
            old(self).wf(),
        ensures
            final(self).moved_on(old(self)),
            r is Ok ==> final(self).current > old(self).current,
            expr_parsed(r, final(self).current as int) == parse_expression(
                token_views(old(self).tokens@),
                old(self).current as int,
            ),
        decreases remaining(token_views(old(self).tokens@), old(self).current as int), 23nat,
    {
        self.assignment()
    }

    /// An expression and the token of kind `closing` after it.
    fn closed(&mut self, closing: TokenType) -> (r: ParserResult<Expr>)
        requires
            old(self).wf(),
        ensures
            final(self).moved_on(old(self)),
            r is Ok ==> final(self).current > old(self).current,
            expr_parsed(r, final(self).current as int) == parse_closed(
                token_views(old(self).tokens@),
                old(self).current as int,
                closing,
            ),
        decreases remaining(token_views(old(self).tokens@), old(self).current as int), 24nat,
    {
        match self.expression() {
            Err(e) => Err(e),
            Ok(e) => match self.consume(closing) {
                Err(error) => Err(error),
                Ok(_) => Ok(e),
            },
        }
    }

    /// An expression that may be left out before the token of kind
    /// `closing`, and that token.
    fn optional(&mut self, closing: TokenType) -> (r: ParserResult<Option<Expr>>)
        requires
            old(self).wf(),
        ensures
            final(self).moved_on(old(self)),
            r is Ok ==> final(self).current > old(self).current,
            optional_parsed(r, final(self).current as int) == parse_optional(
                token_views(old(self).tokens@),
                old(self).current as int,
                closing,
            ),
        decreases remaining(token_views(old(self).tokens@), old(self).current as int), 25nat,
    {
        if self.check(&closing) {
            self.advance();
            Ok(None)
        } else {
            match self.closed(closing) {
                Err(e) => Err(e),
                Ok(e) => Ok(Some(e)),
            }
        }
    }

    /// varDecl → IDENTIFIER ( "=" expression )? ";" ;
    fn var_declaration(&mut self) -> (r: ParserResult<Stmt>)
        requires
            old(self).wf(),
        ensures
            final(self).moved_on(old(self)),
            r is Ok ==> final(self).current > old(self).current,
            stmt_parsed(r, final(self).current as int) == parse_var_declaration(
                token_views(old(self).tokens@),
                old(self).current as int,
            ),
        decreases remaining(token_views(old(self).tokens@), old(self).current as int), 25nat,
    {
        let name = match self.consume(TokenType::Identifier) {
            Err(e) => {
                return Err(e);
            },
            Ok(token) => token.clone(),
        };
        if self.check(&TokenType::Equal) {
            self.advance();
            match self.closed(TokenType::Semicolon) {
                Err(e) => Err(e),
                Ok(e) => Ok(Stmt::Var { name, initializer: Some(e) }),
            }
        } else {
            match self.consume(TokenType::Semicolon) {
                Err(e) => Err(e),
                Ok(_) => Ok(Stmt::Var { name, initializer: None }),
            }
        }
    }

    /// printStmt → expression ";" ;
    fn print_stmt(&mut self) -> (r: ParserResult<Stmt>)
        requires
            old(self).wf(),
        ensures
            final(self).moved_on(old(self)),
            r is Ok ==> final(self).current > old(self).current,
            stmt_parsed(r, final(self).current as int) == parse_print(
                token_views(old(self).tokens@),
                old(self).current as int,
            ),
        decreases remaining(token_views(old(self).tokens@), old(self).current as int), 25nat,
    {
        match self.closed(TokenType::Semicolon) {
            Err(e) => Err(e),
            Ok(e) => Ok(Stmt::Print(e)),
        }
    }

    /// exprStmt → expression ";" ;
    fn expression_stmt(&mut self) -> (r: ParserResult<Stmt>)
        requires
            old(self).wf(),
        ensures
            final(self).moved_on(old(self)),
            r is Ok ==> final(self).current > old(self).current,
            stmt_parsed(r, final(self).current as int) == parse_expression_statement(
                token_views(old(self).tokens@),
                old(self).current as int,
            ),
        decreases remaining(token_views(old(self).tokens@), old(self).current as int), 25nat,
    {
        match self.closed(TokenType::Semicolon) {
            Err(e) => Err(e),
            Ok(e) => Ok(Stmt::Expression(e)),
        }
    }

    /// ifStmt → "(" expression ")" statement ( "else" statement )? ;
    fn if_stmt(&mut self) -> (r: ParserResult<Stmt>)
        requires
            old(self).wf(),
        ensures
            final(self).moved_on(old(self)),
            r is Ok ==> final(self).current > old(self).current,
            stmt_parsed(r, final(self).current as int) == parse_if(
                token_views(old(self).tokens@),
                old(self).current as int,
            ),
        decreases remaining(token_views(old(self).tokens@), old(self).current as int), 26nat,
    {
        match self.consume(TokenType::LeftParen) {
            Err(e) => {
                return Err(e);
            },
            Ok(_) => {},
        }
        let condition = match self.closed(TokenType::RightParen) {
            Err(e) => {
                return Err(e);
            },
            Ok(e) => e,
        };
        let when_true = match self.statement() {
            Err(e) => {
                return Err(e);
            },
            Ok(s) => s,
        };
        if self.check(&TokenType::Else) {
            self.advance();
            match self.statement() {
                Err(e) => Err(e),
                Ok(when_false) => Ok(Stmt::new_conditional(condition, when_true, Some(when_false))),
            }
        } else {
            Ok(Stmt::new_conditional(condition, when_true, None))
        }
    }

    /// whileStmt → "(" expression ")" statement ;
    fn while_stmt(&mut self) -> (r: ParserResult<Stmt>)
        requires
            old(self).wf(),
        ensures
            final(self).moved_on(old(self)),
            r is Ok ==> final(self).current > old(self).current,
            stmt_parsed(r, final(self).current as int) == parse_while(
                token_views(old(self).tokens@),
                old(self).current as int,
            ),
        decreases remaining(token_views(old(self).tokens@), old(self).current as int), 26nat,
    {
        match self.consume(TokenType::LeftParen) {
            Err(e) => {
                return Err(e);
            },
            Ok(_) => {},
        }
        let condition = match self.closed(TokenType::RightParen) {
            Err(e) => {
                return Err(e);
            },
            Ok(e) => e,
        };
        match self.statement() {
            Err(e) => Err(e),
            Ok(body) => Ok(Stmt::new_while(condition, body)),
        }
    }

    /// The initializer of a `for` statement.
    fn for_initializer(&mut self) -> (r: ParserResult<Option<Stmt>>)
        requires
            old(self).wf(),
        ensures
            final(self).moved_on(old(self)),
            r is Ok ==> final(self).current > old(self).current,
            optional_stmt_parsed(r, final(self).current as int) == parse_for_initializer(
                token_views(old(self).tokens@),
                old(self).current as int,
            ),
        decreases remaining(token_views(old(self).tokens@), old(self).current as int), 26nat,
    {
        if self.check(&TokenType::Semicolon) {
            self.advance();
            Ok(None)
        } else if self.check(&TokenType::Var) {
            self.advance();
            match self.var_declaration() {
                Err(e) => Err(e),
                Ok(s) => Ok(Some(s)),
            }
        } else {
            match self.expression_stmt() {
                Err(e) => Err(e),
                Ok(s) => Ok(Some(s)),
            }
        }
    }

    /// forStmt → "(" ( varDecl | exprStmt | ";" ) expression? ";" expression? ")" statement ;
    fn for_stmt(&mut self) -> (r: ParserResult<Stmt>)
        requires
            old(self).wf(),
        ensures
            final(self).moved_on(old(self)),
            r is Ok ==> final(self).current > old(self).current,
            stmt_parsed(r, final(self).current as int) == parse_for(
                token_views(old(self).tokens@),
                old(self).current as int,
            ),
        decreases remaining(token_views(old(self).tokens@), old(self).current as int), 27nat,
    {
        match self.consume(TokenType::LeftParen) {
            Err(e) => {
                return Err(e);
            },
            Ok(_) => {},
        }
        let initializer = match self.for_initializer() {
            Err(e) => {
                return Err(e);
            },
            Ok(s) => s,
        };
        let condition = match self.optional(TokenType::Semicolon) {
            Err(e) => {
                return Err(e);
            },
            Ok(e) => e,
        };
        let increment = match self.optional(TokenType::RightParen) {
            Err(e) => {
                return Err(e);
            },
            Ok(e) => e,
        };
        match self.statement() {
            Err(e) => Err(e),
            Ok(body) => Ok(Stmt::new_for(initializer, condition, increment, body)),
        }
    }

    /// block → declaration* "}" ;
    fn block_stmt(&mut self) -> (r: ParserResult<Stmt>)
        requires
            old(self).wf(),
        ensures
            final(self).moved_on(old(self)),
            r is Ok ==> final(self).current > old(self).current,
            stmt_parsed(r, final(self).current as int) == parse_block_rest(
                token_views(old(self).tokens@),
                old(self).current as int,
                Seq::empty(),
            ),
        decreases remaining(token_views(old(self).tokens@), old(self).current as int), 30nat,
    {
        let ghost tokens = token_views(self.tokens@);
        let ghost whole = parse_block_rest(tokens, self.current as int, Seq::empty());
        let mut stmts: Vec<Stmt> = Vec::new();
        assert(statements_view(stmts@) =~= Seq::<StmtView>::empty());
        while !self.check(&TokenType::RightBrace) && !self.is_eof() && self.current
            < self.tokens.len()
            invariant
                self.moved_on(old(self)),
                tokens == token_views(self.tokens@),
                whole == parse_block_rest(tokens, old(self).current as int, Seq::empty()),
                whole == parse_block_rest(tokens, self.current as int, statements_view(stmts@)),
            decreases self.tokens@.len() - self.current,
        {
            let ghost before = statements_view(stmts@);
            match self.declaration() {
                Err(e) => {
                    return Err(e);
                },
                Ok(s) => {
                    stmts.push(s);
                    assert(statements_view(stmts@) =~= before.push(s@));
                },
            }
        }
        if self.current >= self.tokens.len() {
            return Err(ParserError::ExpectedExpression);
        }
        match self.consume(TokenType::RightBrace) {
            Err(e) => Err(e),
            Ok(_) => {
                proof {
                    lemma_block_view(stmts);
                }
                Ok(Stmt::Block(stmts))
            },
        }
    }

    /// statement → printStmt | block | ifStmt | whileStmt | forStmt | exprStmt ;
    fn statement(&mut self) -> (r: ParserResult<Stmt>)
        requires
            old(self).wf(),
        ensures
            final(self).moved_on(old(self)),
            r is Ok ==> final(self).current > old(self).current,
            stmt_parsed(r, final(self).current as int) == parse_statement(
                token_views(old(self).tokens@),
                old(self).current as int,
            ),
        decreases remaining(token_views(old(self).tokens@), old(self).current as int), 28nat,
    {
        match self.peek_type() {
            Some(TokenType::Print) => {
                self.advance();
                self.print_stmt()
            },
            Some(TokenType::LeftBrace) => {
                self.advance();
                self.block_stmt()
            },
            Some(TokenType::If) => {
                self.advance();
                self.if_stmt()
            },
            Some(TokenType::While) => {
                self.advance();
                self.while_stmt()
            },
            Some(TokenType::For) => {
                self.advance();
                self.for_stmt()
            },
            _ => self.expression_stmt(),
        }
    }

    /// declaration → "var" varDecl | statement ;
    fn declaration(&mut self) -> (r: ParserResult<Stmt>)
        requires
            old(self).wf(),
        ensures
            final(self).moved_on(old(self)),
            r is Ok ==> final(self).current > old(self).current,
            stmt_parsed(r, final(self).current as int) == parse_declaration(
                token_views(old(self).tokens@),
                old(self).current as int,
            ),
        decreases remaining(token_views(old(self).tokens@), old(self).current as int), 29nat,
    {
        let starts = [TokenType::Var];
        let matched = self.match_tokens(&starts);
        proof {
            assert(starts@[0] == TokenType::Var);
            assert(starts@.contains(TokenType::Var));
            assert(forall|t: TokenType| starts@.contains(t) ==> t == TokenType::Var);
        }
        if matched.is_some() {
            self.var_declaration()
        } else {
            self.statement()
        }
    }

    /// Recovers from an error: takes tokens up to the next statement
    /// boundary.
    fn sychronise(&mut self)
        requires
            old(self).wf(),
        ensures
            final(self).moved_on(old(self)),
            final(self).current == synchronized(
                token_views(old(self).tokens@),
                old(self).current as int,
            ),
    {
        let ghost tokens = token_views(self.tokens@);
        let ghost target = synchronized(tokens, self.current as int);
        loop
            invariant_except_break
                target == synchronized(tokens, self.current as int),
            invariant
                self.moved_on(old(self)),
                tokens == token_views(self.tokens@),
            ensures
                self.current == target,
            decreases self.tokens@.len() - self.current,
        {
            match self.advance() {
                None => {
                    break ;
                },
                Some(token) => {
                    if token.token_type == TokenType::Semicolon {
                        break ;
                    }
                    match self.peek_type() {
                        Some(next) => {
                            if is_boundary_type(next) {
                                break ;
                            }
                        },
                        None => {},
                    }
                },
            }
        }
    }

    /// Parses the declarations up to the end-of-input token. On the first
    /// error the parser recovers to the next statement boundary and returns
    /// the error; it can then be asked to parse on from there.
    pub fn parse(&mut self) -> (r: ParserResult<Vec<Stmt>>)
        requires
            old(self).wf(),
        ensures
            final(self).wf(),
            final(self).tokens() == old(self).tokens(),
            program_parsed(r, final(self).position()) == parse_program(
                old(self).tokens(),
                old(self).position(),
                Seq::empty(),
            ),
    {
        let ghost tokens = token_views(self.tokens@);
        let ghost whole = parse_program(tokens, self.current as int, Seq::empty());
        let mut stmts: Vec<Stmt> = Vec::new();
        assert(statements_view(stmts@) =~= Seq::<StmtView>::empty());
        while self.current < self.tokens.len() && !self.is_eof()
            invariant
                self.moved_on(old(self)),
                tokens == token_views(self.tokens@),
                whole == parse_program(tokens, old(self).current as int, Seq::empty()),
                whole == parse_program(tokens, self.current as int, statements_view(stmts@)),
            decreases self.tokens@.len() - self.current,
        {
            let ghost before = statements_view(stmts@);
            match self.declaration() {
                Ok(stmt) => {
                    stmts.push(stmt);
                    assert(statements_view(stmts@) =~= before.push(stmt@));
                },
                Err(e) => {
                    self.sychronise();
                    return Err(e);
                },
            }
        }
        Ok(stmts)
    }
}

} // verus!
