use lox::ast::Expr;
use lox::frontend::{Span, Token, TokenType};

fn number(lexeme: &str) -> Expr {
    Expr::NumberLiteral(String::from(lexeme))
}

fn token(token_type: TokenType, lexeme: &str) -> Token {
    Token::new(token_type, String::from(lexeme), Span::new(1, 1))
}

#[test]
fn expr_unary() {
    let operator = Token::new(TokenType::Minus, String::from("-"), Span::new(1, 1));
    let literal = number("1");
    let e = Expr::Unary { operator, right: Box::new(literal) };
    let result = Expr::print(&e);
    assert_eq!(result, "(- 1)")
}

#[test]
fn expr_binary() {
    let operator = Token::new(TokenType::Minus, String::from("-"), Span::new(1, 1));
    let e = Expr::Binary { left: Box::new(number("1")), operator, right: Box::new(number("1")) };
    let result = Expr::print(&e);
    assert_eq!(result, "(- 1 1)")
}

#[test]
fn expr_literal() {
    let literal = number("1");
    let result = Expr::print(&literal);
    assert_eq!(result, "1")
}

#[test]
fn expr_grouping() {
    let e = Expr::Grouping(Box::new(number("1")));
    let result = Expr::print(&e);
    assert_eq!(result, "(group 1)")
}

#[test]
fn expr_nested() {
    let left = Box::new(Expr::Unary {
        operator: Token::new(TokenType::Minus, "-".to_string(), Span::new(1, 1)),
        right: Box::new(number("123")),
    });
    let right = Box::new(Expr::Grouping(Box::new(number("45.67"))));
    let operator = Token::new(TokenType::Star, "*".to_string(), Span::new(1, 1));
    let e = Expr::Binary { left, operator, right };
    let result = Expr::print(&e);
    assert_eq!(result, "(* (- 123) (group 45.67))")
}

#[test]
fn expression_unary() {
    let operator = Token::new(TokenType::Minus, String::from("-"), Span::new(1, 1));
    let literal = number("1");
    let e = Expr::new_unary(operator, literal);
    let result = Expr::print(&e);
    assert_eq!(result, "(- 1)")
}

#[test]
fn expression_binary() {
    let operator = Token::new(TokenType::Minus, String::from("-"), Span::new(1, 1));
    let e = Expr::new_binary(number("1"), operator, number("1"));
    let result = Expr::print(&e);
    assert_eq!(result, "(- 1 1)")
}

#[test]
fn expression_literal() {
    let literal = number("1");
    let result = Expr::print(&literal);
    assert_eq!(result, "1")
}

#[test]
fn expression_grouping() {
    let e = Expr::new_grouping(number("1"));
    let result = Expr::print(&e);
    assert_eq!(result, "(group 1)")
}

#[test]
fn expression_nested() {
    let left = Expr::new_unary(
        Token::new(TokenType::Minus, "-".to_string(), Span::new(1, 1)),
        number("123"),
    );
    let right = Expr::new_grouping(number("45.67"));
    let operator = Token::new(TokenType::Star, "*".to_string(), Span::new(1, 1));
    let e = Expr::new_binary(left, operator, right);
    let result = Expr::print(&e);
    assert_eq!(result, "(* (- 123) (group 45.67))")
}

#[test]
fn print_writes_every_kind_of_expression() {
    assert_eq!(Expr::print(&Expr::Nil), "nil");
    assert_eq!(Expr::print(&Expr::BoolLiteral(true)), "true");
    assert_eq!(Expr::print(&Expr::BoolLiteral(false)), "false");
    assert_eq!(Expr::print(&Expr::StringLiteral(String::from("a b"))), "a b");
    assert_eq!(Expr::print(&Expr::Variable { name: token(TokenType::Identifier, "x") }), "x");
    let assignment = Expr::new_assignment(token(TokenType::Identifier, "x"), number("2"));
    assert_eq!(Expr::print(&assignment), "x 2");
    let logical = Expr::new_logical(Expr::Nil, token(TokenType::Or, "or"), Expr::BoolLiteral(true));
    assert_eq!(Expr::print(&logical), "(or nil true)");
}
