//! The grammar, as mathematics: what a sequence of tokens parses to.
//!
//! Each function takes the tokens and a place among them, and gives a result
//! and the place where the parse ended. Precedence, lowest first: assignment,
//! `or`, `and`, equality, comparison, term, factor, unary, primary. The binary
//! levels group to the left, assignment to the right.

use crate::ast::expr::ExprView;
use crate::ast::stmt::StmtView;
use crate::frontend::literal::{is_float_literal, lemma_decimal_is_float_literal, string_content};
use crate::frontend::scanner::{is_decimal, lemma_number_token, scan};
use crate::frontend::syntax_error::ParserErrorView;
use crate::frontend::token::{TokenType, TokenView};
use vstd::prelude::*;

verus! {

/// The result of a parse and the place where it ended.
pub struct Parsed<T> {
    pub result: Result<T, ParserErrorView>,
    pub next: int,
}

/// How many tokens are left at `pos`.
pub open spec fn remaining(tokens: Seq<TokenView>, pos: int) -> nat {
    if pos <= tokens.len() {
        (tokens.len() - pos) as nat
    } else {
        0
    }
}

/// `next`, or `pos` where `next` is before it. A parse never ends before the
/// place where it started; this says so where a definition's termination
/// rests on it.
pub open spec fn at_least(next: int, pos: int) -> int {
    if next < pos {
        pos
    } else {
        next
    }
}

/// The kind of the token at `pos`, if there is one.
pub open spec fn kind_at(tokens: Seq<TokenView>, pos: int) -> Option<TokenType> {
    if 0 <= pos < tokens.len() {
        Some(tokens[pos].token_type)
    } else {
        None
    }
}

/// Whether the token at `pos` is of kind `token_type`.
pub open spec fn check(tokens: Seq<TokenView>, pos: int, token_type: TokenType) -> bool {
    kind_at(tokens, pos) == Some(token_type)
}

pub open spec fn failed<T>(error: ParserErrorView, next: int) -> Parsed<T> {
    Parsed { result: Err(error), next }
}

pub open spec fn done<T>(value: T, next: int) -> Parsed<T> {
    Parsed { result: Ok(value), next }
}

pub open spec fn expected<T>(token_type: TokenType, next: int) -> Parsed<T> {
    failed(ParserErrorView::ExpectedToken { token_type }, next)
}

/// The levels of binary operators, highest precedence first.
#[derive(Clone, Copy, Debug, PartialEq, Eq, Structural)]
pub enum Level {
    Factor,
    Term,
    Comparison,
    Equality,
    And,
    Or,
}

impl Level {
    /// Whether `token_type` is an operator of this level.
    pub open spec fn takes(self, token_type: TokenType) -> bool {
        match self {
            Level::Factor => token_type == TokenType::Slash || token_type == TokenType::Star,
            Level::Term => token_type == TokenType::Minus || token_type == TokenType::Plus,
            Level::Comparison => token_type == TokenType::Greater || token_type
                == TokenType::GreaterEqual || token_type == TokenType::Less || token_type
                == TokenType::LessEqual,
            Level::Equality => token_type == TokenType::EqualEqual || token_type
                == TokenType::BangEqual,
            Level::And => token_type == TokenType::And,
            Level::Or => token_type == TokenType::Or,
        }
    }

    /// The level of this level's operands; none for the highest, whose
    /// operands are unary expressions.
    pub open spec fn operand(self) -> Option<Level> {
        match self {
            Level::Factor => None,
            Level::Term => Some(Level::Factor),
            Level::Comparison => Some(Level::Term),
            Level::Equality => Some(Level::Comparison),
            Level::And => Some(Level::Equality),
            Level::Or => Some(Level::And),
        }
    }

    pub open spec fn height(self) -> nat {
        match self {
            Level::Factor => 1,
            Level::Term => 2,
            Level::Comparison => 3,
            Level::Equality => 4,
            Level::And => 5,
            Level::Or => 6,
        }
    }

    /// The expression of an operator of this level with its operands.
    pub open spec fn combine(self, left: ExprView, operator: TokenView, right: ExprView) -> ExprView {
        match self {
            Level::And | Level::Or => ExprView::Logical {
                left: Box::new(left),
                operator,
                right: Box::new(right),
            },
            _ => ExprView::Binary { left: Box::new(left), operator, right: Box::new(right) },
        }
    }
}

/// primary: a literal, a name, or an expression in parentheses. The token
/// at `pos` is taken whatever it is.
pub open spec fn parse_primary(tokens: Seq<TokenView>, pos: int) -> Parsed<ExprView>
    decreases remaining(tokens, pos), 0nat,
{
    if !(0 <= pos < tokens.len()) {
        failed(ParserErrorView::ExpectedExpression, pos)
    } else {
        let token = tokens[pos];
        match token.token_type {
            TokenType::True => done(ExprView::BoolLiteral(true), pos + 1),
            TokenType::False => done(ExprView::BoolLiteral(false), pos + 1),
            TokenType::Nil => done(ExprView::Nil, pos + 1),
            TokenType::Number => if is_float_literal(token.lexeme) {
                done(ExprView::NumberLiteral(token.lexeme), pos + 1)
            } else {
                failed(ParserErrorView::InvalidNumber { lexeme: token.lexeme }, pos + 1)
            },
            TokenType::String => done(
                ExprView::StringLiteral(string_content(token.lexeme)),
                pos + 1,
            ),
            TokenType::Identifier => done(ExprView::Variable { name: token }, pos + 1),
            TokenType::LeftParen => {
                let inner = parse_expression(tokens, pos + 1);
                let at = at_least(inner.next, pos + 1);
                match inner.result {
                    Err(e) => failed(e, at),
                    Ok(e) => if check(tokens, at, TokenType::RightParen) {
                        done(ExprView::Grouping(Box::new(e)), at + 1)
                    } else {
                        expected(TokenType::RightParen, at)
                    },
                }
            },
            _ => failed(ParserErrorView::ExpectedExpression, pos + 1),
        }
    }
}

/// unary: `!` or `-` before a unary expression, or a primary expression.
pub open spec fn parse_unary(tokens: Seq<TokenView>, pos: int) -> Parsed<ExprView>
    decreases remaining(tokens, pos), 1nat,
{
    if check(tokens, pos, TokenType::Bang) || check(tokens, pos, TokenType::Minus) {
        let right = parse_unary(tokens, pos + 1);
        let at = at_least(right.next, pos + 1);
        match right.result {
            Err(e) => failed(e, at),
            Ok(e) => done(ExprView::Unary { operator: tokens[pos], right: Box::new(e) }, at),
        }
    } else {
        parse_primary(tokens, pos)
    }
}

/// An operand of `level`.
pub open spec fn parse_operand(tokens: Seq<TokenView>, pos: int, level: Level) -> Parsed<ExprView>
    decreases remaining(tokens, pos), 2 * level.height(),
{
    match level.operand() {
        Some(below) => parse_level(tokens, pos, below),
        None => parse_unary(tokens, pos),
    }
}

/// What follows the operand `left` at `level`: operators of the level, each
/// with its right operand, taken up from left to right.
pub open spec fn parse_level_rest(tokens: Seq<TokenView>, pos: int, level: Level, left: ExprView) -> Parsed<
    ExprView,
>
    decreases remaining(tokens, pos), 2 * level.height(),
{
    if 0 <= pos < tokens.len() && level.takes(tokens[pos].token_type) {
        let right = parse_operand(tokens, pos + 1, level);
        let at = at_least(right.next, pos + 1);
        match right.result {
            Err(e) => failed(e, at),
            Ok(e) => parse_level_rest(tokens, at, level, level.combine(left, tokens[pos], e)),
        }
    } else {
        done(left, pos)
    }
}

/// An expression of a binary level: operands with operators of the level
/// between them.
pub open spec fn parse_level(tokens: Seq<TokenView>, pos: int, level: Level) -> Parsed<ExprView>
    decreases remaining(tokens, pos), 2 * level.height() + 1,
{
    let first = parse_operand(tokens, pos, level);
    let at = at_least(first.next, pos);
    match first.result {
        Err(e) => failed(e, at),
        Ok(e) => parse_level_rest(tokens, at, level, e),
    }
}

/// assignment: an `or` expression and, where `=` follows, the assigned
/// expression, itself an assignment. The left side must be a name: where it
/// is not, the error names the `=`. An error in the assigned expression comes
/// first.
pub open spec fn parse_assignment(tokens: Seq<TokenView>, pos: int) -> Parsed<ExprView>
    decreases remaining(tokens, pos), 14nat,
{
    let target = parse_level(tokens, pos, Level::Or);
    let at = at_least(target.next, pos);
    match target.result {
        Err(e) => failed(e, at),
        Ok(e) => if check(tokens, at, TokenType::Equal) {
            let value = parse_assignment(tokens, at + 1);
            let end = at_least(value.next, at + 1);
            match value.result {
                Err(error) => failed(error, end),
                Ok(v) => match e {
                    ExprView::Variable { name } => done(
                        ExprView::Assignment { name, value: Box::new(v) },
                        end,
                    ),
                    _ => failed(ParserErrorView::InvalidAssignmentTarget { token: tokens[at] }, end),
                },
            }
        } else {
            done(e, at)
        },
    }
}

/// expression: an assignment.
pub open spec fn parse_expression(tokens: Seq<TokenView>, pos: int) -> Parsed<ExprView>
    decreases remaining(tokens, pos), 15nat,
{
    parse_assignment(tokens, pos)
}

/// An expression and the token of kind `closing` after it.
pub open spec fn parse_closed(tokens: Seq<TokenView>, pos: int, closing: TokenType) -> Parsed<ExprView>
    decreases remaining(tokens, pos), 16nat,
{
    let e = parse_expression(tokens, pos);
    let at = at_least(e.next, pos);
    match e.result {
        Err(error) => failed(error, at),
        Ok(e) => if check(tokens, at, closing) {
            done(e, at + 1)
        } else {
            expected(closing, at)
        },
    }
}

/// An expression that may be left out before the token of kind `closing`,
/// and that token.
pub open spec fn parse_optional(tokens: Seq<TokenView>, pos: int, closing: TokenType) -> Parsed<
    Option<ExprView>,
>
    decreases remaining(tokens, pos), 17nat,
{
    if check(tokens, pos, closing) {
        done(None, pos + 1)
    } else {
        let e = parse_closed(tokens, pos, closing);
        match e.result {
            Err(error) => failed(error, e.next),
            Ok(e_) => done(Some(e_), e.next),
        }
    }
}

/// The rest of a variable declaration, after `var`: a name, an initializer
/// after `=` if there is one, and `;`.
pub open spec fn parse_var_declaration(tokens: Seq<TokenView>, pos: int) -> Parsed<StmtView>
    decreases remaining(tokens, pos), 17nat,
{
    if !check(tokens, pos, TokenType::Identifier) {
        expected(TokenType::Identifier, pos)
    } else if check(tokens, pos + 1, TokenType::Equal) {
        let value = parse_closed(tokens, pos + 2, TokenType::Semicolon);
        match value.result {
            Err(error) => failed(error, value.next),
            Ok(e) => done(StmtView::Var { name: tokens[pos], initializer: Some(e) }, value.next),
        }
    } else if check(tokens, pos + 1, TokenType::Semicolon) {
        done(StmtView::Var { name: tokens[pos], initializer: None }, pos + 2)
    } else {
        expected(TokenType::Semicolon, pos + 1)
    }
}

/// The rest of a print statement, after `print`: an expression and `;`.
pub open spec fn parse_print(tokens: Seq<TokenView>, pos: int) -> Parsed<StmtView>
    decreases remaining(tokens, pos), 17nat,
{
    let e = parse_closed(tokens, pos, TokenType::Semicolon);
    match e.result {
        Err(error) => failed(error, e.next),
        Ok(e_) => done(StmtView::Print(e_), e.next),
    }
}

/// An expression statement: an expression and `;`.
pub open spec fn parse_expression_statement(tokens: Seq<TokenView>, pos: int) -> Parsed<StmtView>
    decreases remaining(tokens, pos), 17nat,
{
    let e = parse_closed(tokens, pos, TokenType::Semicolon);
    match e.result {
        Err(error) => failed(error, e.next),
        Ok(e_) => done(StmtView::Expression(e_), e.next),
    }
}

/// The rest of an `if` statement, after `if`: a condition in parentheses, a
/// statement, and after `else`, if it follows, another. An `else` belongs to
/// the nearest `if` before it that has none.
pub open spec fn parse_if(tokens: Seq<TokenView>, pos: int) -> Parsed<StmtView>
    decreases remaining(tokens, pos), 18nat,
{
    if !check(tokens, pos, TokenType::LeftParen) {
        expected(TokenType::LeftParen, pos)
    } else {
        let condition = parse_closed(tokens, pos + 1, TokenType::RightParen);
        let at = at_least(condition.next, pos + 1);
        match condition.result {
            Err(error) => failed(error, at),
            Ok(c) => {
                let when_true = parse_statement(tokens, at);
                let after = at_least(when_true.next, at);
                match when_true.result {
                    Err(error) => failed(error, after),
                    Ok(t) => if check(tokens, after, TokenType::Else) {
                        let when_false = parse_statement(tokens, after + 1);
                        let end = at_least(when_false.next, after + 1);
                        match when_false.result {
                            Err(error) => failed(error, end),
                            Ok(f) => done(
                                StmtView::Conditional {
                                    condition: c,
                                    when_true: Box::new(t),
                                    when_false: Some(Box::new(f)),
                                },
                                end,
                            ),
                        }
                    } else {
                        done(
                            StmtView::Conditional {
                                condition: c,
                                when_true: Box::new(t),
                                when_false: None,
                            },
                            after,
                        )
                    },
                }
            },
        }
    }
}

/// The rest of a `while` statement, after `while`: a condition in
/// parentheses and a statement.
pub open spec fn parse_while(tokens: Seq<TokenView>, pos: int) -> Parsed<StmtView>
    decreases remaining(tokens, pos), 18nat,
{
    if !check(tokens, pos, TokenType::LeftParen) {
        expected(TokenType::LeftParen, pos)
    } else {
        let condition = parse_closed(tokens, pos + 1, TokenType::RightParen);
        let at = at_least(condition.next, pos + 1);
        match condition.result {
            Err(error) => failed(error, at),
            Ok(c) => {
                let body = parse_statement(tokens, at);
                let end = at_least(body.next, at);
                match body.result {
                    Err(error) => failed(error, end),
                    Ok(b) => done(StmtView::While { condition: c, body: Box::new(b) }, end),
                }
            },
        }
    }
}

/// The initializer of a `for` statement: `;` alone, a variable declaration,
/// or an expression statement.
pub open spec fn parse_for_initializer(tokens: Seq<TokenView>, pos: int) -> Parsed<Option<StmtView>>
    decreases remaining(tokens, pos), 18nat,
{
    if check(tokens, pos, TokenType::Semicolon) {
        done(None, pos + 1)
    } else {
        let s = if check(tokens, pos, TokenType::Var) {
            parse_var_declaration(tokens, pos + 1)
        } else {
            parse_expression_statement(tokens, pos)
        };
        match s.result {
            Err(error) => failed(error, s.next),
            Ok(s_) => done(Some(s_), s.next),
        }
    }
}

/// The rest of a `for` statement, after `for`: in parentheses an
/// initializer, a condition that may be left out, `;`, and an increment that
/// may be left out; then a statement.
pub open spec fn parse_for(tokens: Seq<TokenView>, pos: int) -> Parsed<StmtView>
    decreases remaining(tokens, pos), 19nat,
{
    if !check(tokens, pos, TokenType::LeftParen) {
        expected(TokenType::LeftParen, pos)
    } else {
        let initializer = parse_for_initializer(tokens, pos + 1);
        let a = at_least(initializer.next, pos + 1);
        match initializer.result {
            Err(error) => failed(error, a),
            Ok(i) => {
                let condition = parse_optional(tokens, a, TokenType::Semicolon);
                let b = at_least(condition.next, a);
                match condition.result {
                    Err(error) => failed(error, b),
                    Ok(c) => {
                        let increment = parse_optional(tokens, b, TokenType::RightParen);
                        let d = at_least(increment.next, b);
                        match increment.result {
                            Err(error) => failed(error, d),
                            Ok(n) => {
                                let body = parse_statement(tokens, d);
                                let end = at_least(body.next, d);
                                match body.result {
                                    Err(error) => failed(error, end),
                                    Ok(s) => done(
                                        StmtView::For {
                                            initializer: match i {
                                                Some(s_) => Some(Box::new(s_)),
                                                None => None,
                                            },
                                            condition: c,
                                            increment: n,
                                            body: Box::new(s),
                                        },
                                        end,
                                    ),
                                }
                            },
                        }
                    },
                }
            },
        }
    }
}

/// The rest of a block, after `{` and the statements `found` so far:
/// declarations up to `}`.
pub open spec fn parse_block_rest(tokens: Seq<TokenView>, pos: int, found: Seq<StmtView>) -> Parsed<
    StmtView,
>
    decreases remaining(tokens, pos), 22nat,
{
    if check(tokens, pos, TokenType::RightBrace) {
        done(StmtView::Block(found), pos + 1)
    } else if check(tokens, pos, TokenType::Eof) {
        expected(TokenType::RightBrace, pos)
    } else if !(0 <= pos < tokens.len()) {
        failed(ParserErrorView::ExpectedExpression, pos)
    } else {
        let declaration = parse_declaration(tokens, pos);
        match declaration.result {
            Err(error) => failed(error, at_least(declaration.next, pos)),
            Ok(s) => parse_block_rest(tokens, at_least(declaration.next, pos + 1), found.push(s)),
        }
    }
}

/// statement: by its first token a print statement, a block, an `if`, a
/// `while` or a `for` statement, else an expression statement.
pub open spec fn parse_statement(tokens: Seq<TokenView>, pos: int) -> Parsed<StmtView>
    decreases remaining(tokens, pos), 20nat,
{
    match kind_at(tokens, pos) {
        Some(TokenType::Print) => parse_print(tokens, pos + 1),
        Some(TokenType::LeftBrace) => parse_block_rest(tokens, pos + 1, Seq::empty()),
        Some(TokenType::If) => parse_if(tokens, pos + 1),
        Some(TokenType::While) => parse_while(tokens, pos + 1),
        Some(TokenType::For) => parse_for(tokens, pos + 1),
        _ => parse_expression_statement(tokens, pos),
    }
}

/// declaration: a variable declaration after `var`, else a statement.
pub open spec fn parse_declaration(tokens: Seq<TokenView>, pos: int) -> Parsed<StmtView>
    decreases remaining(tokens, pos), 21nat,
{
    if check(tokens, pos, TokenType::Var) {
        parse_var_declaration(tokens, pos + 1)
    } else {
        parse_statement(tokens, pos)
    }
}

/// Whether a statement starts with a token of this kind, or the input ends
/// with it.
pub open spec fn is_boundary(token_type: TokenType) -> bool {
    token_type == TokenType::Class || token_type == TokenType::Fun || token_type == TokenType::Var
        || token_type == TokenType::For || token_type == TokenType::If || token_type
        == TokenType::While || token_type == TokenType::Print || token_type == TokenType::Return
        || token_type == TokenType::Eof
}

/// Where the parser stands after it has recovered from an error at `pos`:
/// it takes tokens until it has taken a `;`, or stands before a token that
/// starts a statement or ends the input, or no token is left. It takes at
/// least one token if one is left.
pub open spec fn synchronized(tokens: Seq<TokenView>, pos: int) -> int
    decreases remaining(tokens, pos),
{
    if !(0 <= pos < tokens.len()) {
        pos
    } else if tokens[pos].token_type == TokenType::Semicolon {
        pos + 1
    } else if pos + 1 < tokens.len() && is_boundary(tokens[pos + 1].token_type) {
        pos + 1
    } else {
        synchronized(tokens, pos + 1)
    }
}

/// The declarations from `pos` up to the end-of-input token or the end of
/// the tokens, after the statements `found` so far. The first error ends the
/// parse: the parser recovers, and no further declaration is read.
pub open spec fn parse_program(tokens: Seq<TokenView>, pos: int, found: Seq<StmtView>) -> Parsed<
    Seq<StmtView>,
>
    decreases remaining(tokens, pos),
{
    if 0 <= pos < tokens.len() && tokens[pos].token_type != TokenType::Eof {
        let declaration = parse_declaration(tokens, pos);
        match declaration.result {
            Err(error) => failed(error, synchronized(tokens, at_least(declaration.next, pos))),
            Ok(s) => parse_program(tokens, at_least(declaration.next, pos + 1), found.push(s)),
        }
    } else {
        done(found, pos)
    }
}

/// Whether a parse that started at `pos` and ended at `next` stayed among
/// the tokens and did not go back.
pub open spec fn in_bounds(tokens: Seq<TokenView>, pos: int, next: int) -> bool {
    pos <= next <= tokens.len()
}

/// Whether a parse that started at `pos`, if it succeeded, took a token.
pub open spec fn takes_a_token<T>(pos: int, parsed: Parsed<T>) -> bool {
    parsed.result is Ok ==> parsed.next > pos
}

/// A primary expression is parsed forwards, within the tokens, and takes a
/// token if it succeeds.
pub proof fn lemma_primary_bounds(tokens: Seq<TokenView>, pos: int)
    requires
        0 <= pos <= tokens.len(),
    ensures
        in_bounds(tokens, pos, parse_primary(tokens, pos).next),
        takes_a_token(pos, parse_primary(tokens, pos)),
    decreases remaining(tokens, pos), 0nat,
{
    if pos < tokens.len() && tokens[pos].token_type == TokenType::LeftParen {
        lemma_expression_bounds(tokens, pos + 1);
    }
}

/// A unary expression is parsed forwards, within the tokens, and takes a
/// token if it succeeds.
pub proof fn lemma_unary_bounds(tokens: Seq<TokenView>, pos: int)
    requires
        0 <= pos <= tokens.len(),
    ensures
        in_bounds(tokens, pos, parse_unary(tokens, pos).next),
        takes_a_token(pos, parse_unary(tokens, pos)),
    decreases remaining(tokens, pos), 1nat,
{
    if check(tokens, pos, TokenType::Bang) || check(tokens, pos, TokenType::Minus) {
        lemma_unary_bounds(tokens, pos + 1);
    } else {
        lemma_primary_bounds(tokens, pos);
    }
}

/// An operand is parsed forwards, within the tokens, and takes a
/// token if it succeeds.
pub proof fn lemma_operand_bounds(tokens: Seq<TokenView>, pos: int, level: Level)
    requires
        0 <= pos <= tokens.len(),
    ensures
        in_bounds(tokens, pos, parse_operand(tokens, pos, level).next),
        takes_a_token(pos, parse_operand(tokens, pos, level)),
    decreases remaining(tokens, pos), 2 * level.height(),
{
    match level.operand() {
        Some(below) => lemma_level_bounds(tokens, pos, below),
        None => lemma_unary_bounds(tokens, pos),
    }
}

/// The rest of a binary level is parsed forwards, within the tokens.
pub proof fn lemma_level_rest_bounds(tokens: Seq<TokenView>, pos: int, level: Level, left: ExprView)
    requires
        0 <= pos <= tokens.len(),
    ensures
        in_bounds(tokens, pos, parse_level_rest(tokens, pos, level, left).next),
    decreases remaining(tokens, pos), 2 * level.height(),
{
    if pos < tokens.len() && level.takes(tokens[pos].token_type) {
        lemma_operand_bounds(tokens, pos + 1, level);
        let right = parse_operand(tokens, pos + 1, level);
        match right.result {
            Err(_) => {},
            Ok(e) => lemma_level_rest_bounds(
                tokens,
                right.next,
                level,
                level.combine(left, tokens[pos], e),
            ),
        }
    }
}

/// A binary level is parsed forwards, within the tokens, and takes a
/// token if it succeeds.
pub proof fn lemma_level_bounds(tokens: Seq<TokenView>, pos: int, level: Level)
    requires
        0 <= pos <= tokens.len(),
    ensures
        in_bounds(tokens, pos, parse_level(tokens, pos, level).next),
        takes_a_token(pos, parse_level(tokens, pos, level)),
    decreases remaining(tokens, pos), 2 * level.height() + 1,
{
    lemma_operand_bounds(tokens, pos, level);
    let first = parse_operand(tokens, pos, level);
    match first.result {
        Err(_) => {},
        Ok(e) => lemma_level_rest_bounds(tokens, first.next, level, e),
    }
}

/// An assignment is parsed forwards, within the tokens, and takes a
/// token if it succeeds.
pub proof fn lemma_assignment_bounds(tokens: Seq<TokenView>, pos: int)
    requires
        0 <= pos <= tokens.len(),
    ensures
        in_bounds(tokens, pos, parse_assignment(tokens, pos).next),
        takes_a_token(pos, parse_assignment(tokens, pos)),
    decreases remaining(tokens, pos), 14nat,
{
    lemma_level_bounds(tokens, pos, Level::Or);
    let target = parse_level(tokens, pos, Level::Or);
    if target.result is Ok && check(tokens, target.next, TokenType::Equal) {
        lemma_assignment_bounds(tokens, target.next + 1);
    }
}

/// An expression is parsed forwards, within the tokens, and takes a
/// token if it succeeds.
pub proof fn lemma_expression_bounds(tokens: Seq<TokenView>, pos: int)
    requires
        0 <= pos <= tokens.len(),
    ensures
        in_bounds(tokens, pos, parse_expression(tokens, pos).next),
        takes_a_token(pos, parse_expression(tokens, pos)),
        in_bounds(tokens, pos, parse_assignment(tokens, pos).next),
        takes_a_token(pos, parse_assignment(tokens, pos)),
    decreases remaining(tokens, pos), 15nat,
{
    lemma_assignment_bounds(tokens, pos);
}

/// An expression with its closing token, or one that may be left out, is
/// parsed forwards, within the tokens, and takes a token if it succeeds.
pub proof fn lemma_closed_bounds(tokens: Seq<TokenView>, pos: int, closing: TokenType)
    requires
        0 <= pos <= tokens.len(),
    ensures
        in_bounds(tokens, pos, parse_closed(tokens, pos, closing).next),
        takes_a_token(pos, parse_closed(tokens, pos, closing)),
        in_bounds(tokens, pos, parse_optional(tokens, pos, closing).next),
        takes_a_token(pos, parse_optional(tokens, pos, closing)),
{
    lemma_expression_bounds(tokens, pos);
}

/// The statements that hold no statement are parsed forwards, within the
/// tokens, and each takes a token if it succeeds.
pub proof fn lemma_simple_statement_bounds(tokens: Seq<TokenView>, pos: int)
    requires
        0 <= pos <= tokens.len(),
    ensures
        in_bounds(tokens, pos, parse_var_declaration(tokens, pos).next),
        takes_a_token(pos, parse_var_declaration(tokens, pos)),
        in_bounds(tokens, pos, parse_print(tokens, pos).next),
        takes_a_token(pos, parse_print(tokens, pos)),
        in_bounds(tokens, pos, parse_expression_statement(tokens, pos).next),
        takes_a_token(pos, parse_expression_statement(tokens, pos)),
        in_bounds(tokens, pos, parse_for_initializer(tokens, pos).next),
        takes_a_token(pos, parse_for_initializer(tokens, pos)),
{
    lemma_closed_bounds(tokens, pos, TokenType::Semicolon);
    if pos + 2 <= tokens.len() {
        lemma_closed_bounds(tokens, pos + 2, TokenType::Semicolon);
    }
    if pos + 1 <= tokens.len() {
        lemma_closed_bounds(tokens, pos + 1, TokenType::Semicolon);
        if pos + 3 <= tokens.len() {
            lemma_closed_bounds(tokens, pos + 3, TokenType::Semicolon);
        }
    }
}

/// An `if` statement is parsed forwards, within the tokens, and takes a
/// token if it succeeds.
pub proof fn lemma_if_bounds(tokens: Seq<TokenView>, pos: int)
    requires
        0 <= pos <= tokens.len(),
    ensures
        in_bounds(tokens, pos, parse_if(tokens, pos).next),
        takes_a_token(pos, parse_if(tokens, pos)),
    decreases remaining(tokens, pos), 18nat,
{
    if check(tokens, pos, TokenType::LeftParen) {
        lemma_closed_bounds(tokens, pos + 1, TokenType::RightParen);
        let condition = parse_closed(tokens, pos + 1, TokenType::RightParen);
        if condition.result is Ok {
            lemma_statement_bounds(tokens, condition.next);
            let when_true = parse_statement(tokens, condition.next);
            if when_true.result is Ok && check(tokens, when_true.next, TokenType::Else) {
                lemma_statement_bounds(tokens, when_true.next + 1);
            }
        }
    }
}

/// A `while` statement is parsed forwards, within the tokens, and takes a
/// token if it succeeds.
pub proof fn lemma_while_bounds(tokens: Seq<TokenView>, pos: int)
    requires
        0 <= pos <= tokens.len(),
    ensures
        in_bounds(tokens, pos, parse_while(tokens, pos).next),
        takes_a_token(pos, parse_while(tokens, pos)),
    decreases remaining(tokens, pos), 18nat,
{
    if check(tokens, pos, TokenType::LeftParen) {
        lemma_closed_bounds(tokens, pos + 1, TokenType::RightParen);
        let condition = parse_closed(tokens, pos + 1, TokenType::RightParen);
        if condition.result is Ok {
            lemma_statement_bounds(tokens, condition.next);
        }
    }
}

/// A `for` statement is parsed forwards, within the tokens, and takes a
/// token if it succeeds.
pub proof fn lemma_for_bounds(tokens: Seq<TokenView>, pos: int)
    requires
        0 <= pos <= tokens.len(),
    ensures
        in_bounds(tokens, pos, parse_for(tokens, pos).next),
        takes_a_token(pos, parse_for(tokens, pos)),
    decreases remaining(tokens, pos), 19nat,
{
    if check(tokens, pos, TokenType::LeftParen) {
        lemma_simple_statement_bounds(tokens, pos + 1);
        let initializer = parse_for_initializer(tokens, pos + 1);
        if initializer.result is Ok {
            lemma_closed_bounds(tokens, initializer.next, TokenType::Semicolon);
            let condition = parse_optional(tokens, initializer.next, TokenType::Semicolon);
            if condition.result is Ok {
                lemma_closed_bounds(tokens, condition.next, TokenType::RightParen);
                let increment = parse_optional(tokens, condition.next, TokenType::RightParen);
                if increment.result is Ok {
                    lemma_statement_bounds(tokens, increment.next);
                }
            }
        }
    }
}

/// The rest of a block is parsed forwards, within the tokens, and takes a
/// token if it succeeds.
pub proof fn lemma_block_rest_bounds(tokens: Seq<TokenView>, pos: int, found: Seq<StmtView>)
    requires
        0 <= pos <= tokens.len(),
    ensures
        in_bounds(tokens, pos, parse_block_rest(tokens, pos, found).next),
        takes_a_token(pos, parse_block_rest(tokens, pos, found)),
    decreases remaining(tokens, pos), 22nat,
{
    if !check(tokens, pos, TokenType::RightBrace) && !check(tokens, pos, TokenType::Eof) && pos
        < tokens.len() {
        lemma_declaration_bounds(tokens, pos);
        let declaration = parse_declaration(tokens, pos);
        match declaration.result {
            Err(_) => {},
            Ok(s) => lemma_block_rest_bounds(
                tokens,
                at_least(declaration.next, pos + 1),
                found.push(s),
            ),
        }
    }
}

/// A statement is parsed forwards, within the tokens, and takes a
/// token if it succeeds.
pub proof fn lemma_statement_bounds(tokens: Seq<TokenView>, pos: int)
    requires
        0 <= pos <= tokens.len(),
    ensures
        in_bounds(tokens, pos, parse_statement(tokens, pos).next),
        takes_a_token(pos, parse_statement(tokens, pos)),
    decreases remaining(tokens, pos), 20nat,
{
    lemma_simple_statement_bounds(tokens, pos);
    if pos < tokens.len() {
        lemma_simple_statement_bounds(tokens, pos + 1);
        lemma_block_rest_bounds(tokens, pos + 1, Seq::empty());
        lemma_if_bounds(tokens, pos + 1);
        lemma_while_bounds(tokens, pos + 1);
        lemma_for_bounds(tokens, pos + 1);
    }
}

/// A declaration is parsed forwards, within the tokens, and takes a
/// token if it succeeds.
pub proof fn lemma_declaration_bounds(tokens: Seq<TokenView>, pos: int)
    requires
        0 <= pos <= tokens.len(),
    ensures
        in_bounds(tokens, pos, parse_declaration(tokens, pos).next),
        takes_a_token(pos, parse_declaration(tokens, pos)),
    decreases remaining(tokens, pos), 21nat,
{
    if check(tokens, pos, TokenType::Var) {
        lemma_simple_statement_bounds(tokens, pos + 1);
    } else {
        lemma_statement_bounds(tokens, pos);
    }
}

/// Recovery goes forwards, within the tokens.
pub proof fn lemma_synchronized_bounds(tokens: Seq<TokenView>, pos: int)
    requires
        0 <= pos <= tokens.len(),
    ensures
        in_bounds(tokens, pos, synchronized(tokens, pos)),
    decreases remaining(tokens, pos),
{
    if pos < tokens.len() && tokens[pos].token_type != TokenType::Semicolon && !(pos + 1
        < tokens.len() && is_boundary(tokens[pos + 1].token_type)) {
        lemma_synchronized_bounds(tokens, pos + 1);
    }
}

/// A program is parsed forwards, within the tokens.
pub proof fn lemma_program_bounds(tokens: Seq<TokenView>, pos: int, found: Seq<StmtView>)
    requires
        0 <= pos <= tokens.len(),
    ensures
        in_bounds(tokens, pos, parse_program(tokens, pos, found).next),
    decreases remaining(tokens, pos),
{
    if pos < tokens.len() && tokens[pos].token_type != TokenType::Eof {
        lemma_declaration_bounds(tokens, pos);
        let declaration = parse_declaration(tokens, pos);
        match declaration.result {
            Err(_) => lemma_synchronized_bounds(tokens, declaration.next),
            Ok(s) => lemma_program_bounds(
                tokens,
                at_least(declaration.next, pos + 1),
                found.push(s),
            ),
        }
    }
}

/// A number as the language writes it, scanned and then parsed as a primary
/// expression, is the number literal of that very text.
pub proof fn lemma_number_literal(text: Seq<char>)
    requires
        is_decimal(text),
    ensures
        scan(text).errors.len() == 0,
        parse_primary(scan(text).tokens, 0) == done(ExprView::NumberLiteral(text), 1),
{
    lemma_number_token(text);
    lemma_decimal_is_float_literal(text);
}

} // verus!
