use lox::frontend::{Parser, Token};

#[test]
fn lifetime() {
    let tokens: Vec<Token> = Vec::new();
    let mut parser = Parser::new(&tokens);
    let statements = parser.parse().expect("no tokens, no error");
    assert!(statements.is_empty());
}
