use lox::ast::{Expr, Stmt};
use lox::frontend::{Parser, ParserError, Scanner, Span, Token, TokenType};

fn tokens_of(source: &str) -> Vec<Token> {
    let mut scanner = Scanner::new(source);
    scanner.scan_tokens();
    let (tokens, errors) = scanner.into_parts();
    assert!(errors.is_empty());
    tokens
}

fn parse(source: &str) -> Result<Vec<Stmt>, ParserError> {
    let tokens = tokens_of(source);
    Parser::new(&tokens).parse()
}

/// The prefix form of the one expression statement that `source` is.
fn prefix(source: &str) -> String {
    let statements = parse(source).unwrap();
    assert_eq!(statements.len(), 1);
    match &statements[0] {
        Stmt::Expression(e) => Expr::print(e),
        other => panic!("{:?}", other),
    }
}

fn token(token_type: TokenType, lexeme: &str) -> Token {
    Token::new(token_type, String::from(lexeme), Span::new(1, 1))
}

#[test]
fn binary_operators_group_to_the_left() {
    assert_eq!(prefix("1 - 2 - 3;"), "(- (- 1 2) 3)");
    assert_eq!(prefix("1 / 2 * 3;"), "(* (/ 1 2) 3)");
    assert_eq!(prefix("1 < 2 <= 3;"), "(<= (< 1 2) 3)");
    assert_eq!(prefix("1 == 2 != 3;"), "(!= (== 1 2) 3)");
    assert_eq!(prefix("a or b or c;"), "(or (or a b) c)");
    assert_eq!(prefix("a and b and c;"), "(and (and a b) c)");
}

#[test]
fn precedence_rises_from_assignment_to_primary() {
    assert_eq!(prefix("1 + 2 * 3;"), "(+ 1 (* 2 3))");
    assert_eq!(prefix("1 * 2 + 3;"), "(+ (* 1 2) 3)");
    assert_eq!(prefix("1 + 2 < 3 + 4;"), "(< (+ 1 2) (+ 3 4))");
    assert_eq!(prefix("1 < 2 == 3 > 4;"), "(== (< 1 2) (> 3 4))");
    assert_eq!(prefix("a == b and c == d;"), "(and (== a b) (== c d))");
    assert_eq!(prefix("a and b or c and d;"), "(or (and a b) (and c d))");
    assert_eq!(prefix("a = b or c;"), "a (or b c)");
    assert_eq!(prefix("-1 * -2;"), "(* (- 1) (- 2))");
    assert_eq!(prefix("!a == b;"), "(== (! a) b)");
    assert_eq!(prefix("!!-a;"), "(! (! (- a)))");
    assert_eq!(prefix("(1 + 2) * 3;"), "(* (group (+ 1 2)) 3)");
}

#[test]
fn assignment_groups_to_the_right() {
    assert_eq!(prefix("a = b = 3;"), "a b 3");
    match &parse("a = b = 3;").unwrap()[0] {
        Stmt::Expression(Expr::Assignment { name, value }) => {
            assert_eq!(name.lexeme, "a");
            assert!(matches!(&**value, Expr::Assignment { name, .. } if name.lexeme == "b"));
        }
        other => panic!("{:?}", other),
    }
}

#[test]
fn literals() {
    assert_eq!(prefix("true;"), "true");
    assert_eq!(prefix("false;"), "false");
    assert_eq!(prefix("nil;"), "nil");
    assert_eq!(prefix("12.50;"), "12.50");
    assert_eq!(prefix("\"a b\";"), "a b");
    assert!(matches!(&parse("\"\";").unwrap()[0], Stmt::Expression(Expr::StringLiteral(s)) if s.is_empty()));
    assert!(matches!(&parse("7;").unwrap()[0], Stmt::Expression(Expr::NumberLiteral(s)) if s == "7"));
}

#[test]
fn assignment_target_must_be_a_name() {
    for source in ["1 = 2;", "a + b = 2;", "(a) = 2;", "a or b = 1;", "\"s\" = 1;"] {
        match parse(source) {
            Err(ParserError::InvalidAssignmentTarget { token }) => {
                assert_eq!(token.token_type, TokenType::Equal, "{source}");
            }
            other => panic!("{source}: {:?}", other),
        }
    }
    // An error in the assigned expression comes first.
    assert!(matches!(parse("1 = ;"), Err(ParserError::ExpectedExpression)));
}

#[test]
fn missing_expression() {
    for source in ["print ;", "1 + ;", "(", ")", "var a = ;", "+ 1;", "if () 1;", "print", "else;", "1 + * 2;"] {
        assert!(matches!(parse(source), Err(ParserError::ExpectedExpression)), "{source}");
    }
}

#[test]
fn missing_token() {
    let expected = |source: &str| match parse(source) {
        Err(ParserError::ExpectedToken { token_type }) => token_type,
        other => panic!("{source}: {:?}", other),
    };
    assert_eq!(expected("print 1"), TokenType::Semicolon);
    assert_eq!(expected("1 2;"), TokenType::Semicolon);
    assert_eq!(expected("(1;"), TokenType::RightParen);
    assert_eq!(expected("var = 1;"), TokenType::Identifier);
    assert_eq!(expected("var 1;"), TokenType::Identifier);
    assert_eq!(expected("var a 1;"), TokenType::Semicolon);
    assert_eq!(expected("var a = 1"), TokenType::Semicolon);
    assert_eq!(expected("{ 1;"), TokenType::RightBrace);
    assert_eq!(expected("if 1) 2;"), TokenType::LeftParen);
    assert_eq!(expected("if (1 2;"), TokenType::RightParen);
    assert_eq!(expected("while true) 2;"), TokenType::LeftParen);
    assert_eq!(expected("while (true 2;"), TokenType::RightParen);
    assert_eq!(expected("for var i;;) 1;"), TokenType::LeftParen);
    assert_eq!(expected("for (;1) 1;"), TokenType::Semicolon);
    assert_eq!(expected("for (;;1 1;"), TokenType::RightParen);
}

#[test]
fn a_number_token_that_is_no_number_is_rejected() {
    for lexeme in ["", "abc", "1x", "1.2.3", " 1", "1 ", "--1", ".", "e5", "1e", "0x10", "1_000", "1,5"] {
        let tokens = vec![token(TokenType::Number, lexeme), token(TokenType::Semicolon, ";")];
        match Parser::new(&tokens).parse() {
            Err(ParserError::InvalidNumber { lexeme: found }) => assert_eq!(found, lexeme),
            other => panic!("{lexeme}: {:?}", other),
        }
    }
}

#[test]
fn a_number_token_is_read_as_the_host_reads_numbers() {
    for lexeme in ["1", "1.5", "1.", ".5", "+1", "-1.5", "1e5", "1E-5", "1.e+5", "inf", "-Infinity", "NaN", "+nan", "INF"] {
        assert!(lexeme.parse::<f64>().is_ok());
        let tokens = vec![token(TokenType::Number, lexeme), token(TokenType::Semicolon, ";")];
        match &Parser::new(&tokens).parse().unwrap()[0] {
            Stmt::Expression(Expr::NumberLiteral(found)) => assert_eq!(found, lexeme),
            other => panic!("{lexeme}: {:?}", other),
        }
    }
}

#[test]
fn a_string_token_without_quotes_holds_nothing() {
    for (lexeme, content) in [("\"ab\"", "ab"), ("\"\"", ""), ("\"", ""), ("", ""), ("abc", "b")] {
        let tokens = vec![token(TokenType::String, lexeme), token(TokenType::Semicolon, ";")];
        match &Parser::new(&tokens).parse().unwrap()[0] {
            Stmt::Expression(Expr::StringLiteral(found)) => assert_eq!(found, content),
            other => panic!("{lexeme}: {:?}", other),
        }
    }
}

#[test]
fn statements() {
    let statements = parse("print 1; { var a; var b = 2; } a; {}").unwrap();
    assert_eq!(statements.len(), 4);
    assert!(matches!(&statements[0], Stmt::Print(Expr::NumberLiteral(_))));
    match &statements[1] {
        Stmt::Block(inner) => {
            assert_eq!(inner.len(), 2);
            assert!(matches!(&inner[0], Stmt::Var { name, initializer: None } if name.lexeme == "a"));
            assert!(matches!(&inner[1], Stmt::Var { name, initializer: Some(_) } if name.lexeme == "b"));
        }
        other => panic!("{:?}", other),
    }
    assert!(matches!(&statements[2], Stmt::Expression(Expr::Variable { .. })));
    assert!(matches!(&statements[3], Stmt::Block(inner) if inner.is_empty()));
}

#[test]
fn conditionals() {
    match &parse("if (a) print 1; else { print 2; }").unwrap()[0] {
        Stmt::Conditional { condition, when_true, when_false } => {
            assert_eq!(Expr::print(condition), "a");
            assert!(matches!(&**when_true, Stmt::Print(_)));
            assert!(matches!(when_false.as_deref(), Some(Stmt::Block(_))));
        }
        other => panic!("{:?}", other),
    }
    assert!(matches!(&parse("if (a) b;").unwrap()[0], Stmt::Conditional { when_false: None, .. }));
    // The `else` belongs to the inner `if`.
    match &parse("if (a) if (b) 1; else 2;").unwrap()[0] {
        Stmt::Conditional { when_true, when_false: None, .. } => {
            assert!(matches!(&**when_true, Stmt::Conditional { when_false: Some(_), .. }));
        }
        other => panic!("{:?}", other),
    }
    // A declaration is no statement.
    assert!(matches!(parse("if (a) var b;"), Err(ParserError::ExpectedExpression)));
}

#[test]
fn loops() {
    match &parse("while (a < 3) a = a + 1;").unwrap()[0] {
        Stmt::While { condition, body } => {
            assert_eq!(Expr::print(condition), "(< a 3)");
            assert!(matches!(&**body, Stmt::Expression(Expr::Assignment { .. })));
        }
        other => panic!("{:?}", other),
    }
    match &parse("for (var i = 0; i < 3; i = i + 1) print i;").unwrap()[0] {
        Stmt::For { initializer, condition, increment, body } => {
            assert!(matches!(initializer.as_deref(), Some(Stmt::Var { .. })));
            assert_eq!(Expr::print(condition.as_ref().unwrap()), "(< i 3)");
            assert_eq!(Expr::print(increment.as_ref().unwrap()), "i (+ i 1)");
            assert!(matches!(&**body, Stmt::Print(_)));
        }
        other => panic!("{:?}", other),
    }
    match &parse("for (;;) {}").unwrap()[0] {
        Stmt::For { initializer: None, condition: None, increment: None, body } => {
            assert!(matches!(&**body, Stmt::Block(_)));
        }
        other => panic!("{:?}", other),
    }
    match &parse("for (i = 0;;) 1;").unwrap()[0] {
        Stmt::For { initializer, .. } => {
            assert!(matches!(initializer.as_deref(), Some(Stmt::Expression(_))));
        }
        other => panic!("{:?}", other),
    }
}

#[test]
fn tokens_without_an_end_of_input_token() {
    let tokens = vec![token(TokenType::Identifier, "a"), token(TokenType::Semicolon, ";")];
    assert_eq!(Parser::new(&tokens).parse().unwrap().len(), 1);
    let tokens = vec![token(TokenType::LeftBrace, "{"), token(TokenType::Identifier, "a"), token(TokenType::Semicolon, ";")];
    assert!(matches!(Parser::new(&tokens).parse(), Err(ParserError::ExpectedExpression)));
    let tokens = vec![token(TokenType::Print, "print")];
    assert!(matches!(Parser::new(&tokens).parse(), Err(ParserError::ExpectedExpression)));
}

#[test]
fn nothing_is_parsed_after_the_end_of_input_token() {
    let tokens = vec![token(TokenType::Eof, ""), token(TokenType::Print, "print")];
    assert!(Parser::new(&tokens).parse().unwrap().is_empty());
}

#[test]
fn after_an_error_the_parser_stands_at_the_next_statement() {
    let tokens = tokens_of("1 + ; print 2; var = 3 print 4; (5; 6;");
    let mut parser = Parser::new(&tokens);
    assert!(matches!(parser.parse(), Err(ParserError::ExpectedExpression)));
    // `1 + ;` took the `;` as the missing operand: recovery stops before `print`.
    assert!(matches!(parser.parse(), Err(ParserError::ExpectedToken { token_type: TokenType::Identifier })));
    // Recovery from `var = 3` stops before the next `print`.
    assert!(matches!(parser.parse(), Err(ParserError::ExpectedToken { token_type: TokenType::RightParen })));
    // Recovery from `(5;` took the `;`.
    let rest = parser.parse().unwrap();
    assert_eq!(rest.len(), 1);
    assert!(matches!(&rest[0], Stmt::Expression(Expr::NumberLiteral(s)) if s == "6"));
    assert!(parser.parse().unwrap().is_empty());
}

#[test]
fn only_the_first_error_is_reported() {
    assert!(matches!(parse("print ; var 1; (;"), Err(ParserError::ExpectedExpression)));
}
