use lox::backend::{RuntimeError, RuntimeErrorKind};
use lox::frontend::literal::{is_number, string_literal};
use lox::frontend::{ParserError, ScannerError, ScannerErrorKind, Span, SyntaxError, Token, TokenType};
use lox::text::{char_string, chars_of, decimal_string, same_chars, spells, string_of};
use lox::LoxError;

#[test]
fn decimal_string_writes_integers() {
    assert_eq!(decimal_string(0), "0");
    assert_eq!(decimal_string(7), "7");
    assert_eq!(decimal_string(10), "10");
    assert_eq!(decimal_string(1234567890), "1234567890");
    assert_eq!(decimal_string(usize::MAX), usize::MAX.to_string());
}

#[test]
fn text_helpers() {
    assert_eq!(chars_of("aé€"), vec!['a', 'é', '€']);
    assert_eq!(chars_of(""), Vec::<char>::new());
    let chars = chars_of("héllo wörld");
    assert_eq!(string_of(&chars, 0, chars.len()), "héllo wörld");
    assert_eq!(string_of(&chars, 1, 5), "éllo");
    assert_eq!(string_of(&chars, 3, 3), "");
    assert_eq!(char_string('€'), "€");
    assert!(spells(&chars_of("and"), "and"));
    assert!(!spells(&chars_of("and"), "an"));
    assert!(!spells(&chars_of("and"), "anx"));
    assert!(same_chars(&chars_of("ab"), &chars_of("ab")));
    assert!(!same_chars(&chars_of("ab"), &chars_of("ba")));
    assert!(!same_chars(&chars_of("ab"), &chars_of("abc")));
}

#[test]
fn is_number_agrees_with_the_parsing_of_binary64_numbers() {
    let texts = [
        "", " ", "0", "1", "12", "1.5", "1.", ".5", ".", "+", "-", "+1", "-1", "+.5", "-5.", "+.",
        "1e5", "1E5", "1e+5", "1e-5", "1e", "1e+", "e5", "1.e5", ".5e5", ".e5", "1e5.0", "1e5e5",
        "1.2.3", "1..2", "inf", "INF", "Inf", "-inf", "+inf", "infinity", "INFINITY", "-Infinity",
        "infinit", "infinityy", "in", "nan", "NaN", "NAN", "-nan", "+NaN", "nana", "na", " 1",
        "1 ", "1_000", "0x10", "1f64", "1,5", "١", "--1", "+-1", "1e٥", "ınf", "İnf", "1.5.", "007",
        "1e0005", "0e0", "-0", "1d5",
    ];
    for text in texts {
        assert_eq!(is_number(text), text.parse::<f64>().is_ok(), "{:?}", text);
    }
}

#[test]
fn string_literal_drops_the_quotes() {
    assert_eq!(string_literal("\"abc\""), "abc");
    assert_eq!(string_literal("\"é\""), "é");
    assert_eq!(string_literal("\"\""), "");
    assert_eq!(string_literal("\""), "");
    assert_eq!(string_literal(""), "");
}

#[test]
fn token_kinds_have_names() {
    assert_eq!(TokenType::LeftParen.to_string(), "LeftParen");
    assert_eq!(TokenType::GreaterEqual.to_string(), "GreaterEqual");
    assert_eq!(TokenType::QuestionMark.to_string(), "QuestionMark");
    assert_eq!(TokenType::Identifier.to_string(), "Identifier");
    assert_eq!(TokenType::String.to_string(), "String");
    assert_eq!(TokenType::While.to_string(), "While");
    assert_eq!(TokenType::Eof.to_string(), "Eof");
    let all = [
        TokenType::LeftParen, TokenType::RightParen, TokenType::LeftBrace, TokenType::RightBrace,
        TokenType::Comma, TokenType::Dot, TokenType::Minus, TokenType::Plus, TokenType::Semicolon,
        TokenType::Slash, TokenType::Star, TokenType::Bang, TokenType::BangEqual, TokenType::Equal,
        TokenType::EqualEqual, TokenType::Greater, TokenType::GreaterEqual, TokenType::Less,
        TokenType::LessEqual, TokenType::QuestionMark, TokenType::Colon, TokenType::Identifier,
        TokenType::String, TokenType::Number, TokenType::And, TokenType::Class, TokenType::Else,
        TokenType::False, TokenType::Fun, TokenType::For, TokenType::If, TokenType::Nil,
        TokenType::Or, TokenType::Print, TokenType::Return, TokenType::Super, TokenType::This,
        TokenType::True, TokenType::Var, TokenType::While, TokenType::Eof,
    ];
    for kind in all {
        assert_eq!(kind.to_string(), format!("{:?}", kind));
    }
}

#[test]
fn places_and_tokens_are_shown() {
    assert_eq!(Span::new(3, 14).to_location(), "3, 14");
    assert_eq!(Span::new(0, 0).to_location(), "0, 0");
    let token = Token::new(TokenType::Minus, String::from("-"), Span::new(12, 7));
    assert_eq!(token.to_string(), " 12, 7| Minus");
    let copy = token.clone();
    assert_eq!(copy.lexeme, "-");
    assert_eq!(copy.token_type, TokenType::Minus);
    assert_eq!(copy.span, Span::new(12, 7));
}

#[test]
fn scanner_errors_are_shown() {
    let e = ScannerError::new(ScannerErrorKind::UnknownToken { character: '@' }, Span::new(2, 5));
    assert_eq!(e.kind.to_string(), "Unknown token: @");
    assert_eq!(e.to_string(), "Unknown token: @ at 2, 5");
    let e = ScannerError::new(ScannerErrorKind::UnterminatedString, Span::new(10, 0));
    assert_eq!(e.to_string(), "Unterminated string at 10, 0");
    assert_eq!(SyntaxError::from(e).to_string(), "Scanner error: Unterminated string at 10, 0");
    assert_eq!(LoxError::from(e).to_string(), "Scanner error: Unterminated string at 10, 0");
}

#[test]
fn parser_errors_are_shown() {
    let e = ParserError::ExpectedToken { token_type: TokenType::RightParen };
    assert_eq!(e.to_string(), "Expected token: RightParen");
    assert_eq!(ParserError::ExpectedExpression.to_string(), "Expected expression");
    let e = ParserError::InvalidNumber { lexeme: String::from("1x") };
    assert_eq!(e.to_string(), "Invalid number: 1x");
    let token = Token::new(TokenType::Equal, String::from("="), Span::new(1, 3));
    let e = ParserError::InvalidAssignmentTarget { token };
    assert_eq!(e.to_string(), "Invalid assignment to  1, 3| Equal");
    assert_eq!(SyntaxError::from(e).to_string(), "Parser error: Invalid assignment to  1, 3| Equal");
    assert_eq!(LoxError::from(ParserError::ExpectedExpression).to_string(), "Parser error: Expected expression");
    let e = LoxError::from(SyntaxError::Parser(ParserError::ExpectedExpression));
    assert!(matches!(e, LoxError::Syntax(SyntaxError::Parser(ParserError::ExpectedExpression))));
}

#[test]
fn runtime_errors_are_shown() {
    assert_eq!(RuntimeErrorKind::InvalidOperation.to_string(), "InvalidOperation");
    assert_eq!(RuntimeErrorKind::InvalidArithmeticOperation.to_string(), "InvalidArithmeticOperation");
    let e = RuntimeError::new(RuntimeErrorKind::UndefinedVariable { name: String::from("x") });
    assert_eq!(e.kind.to_string(), "UndefinedVariable(x)");
    assert_eq!(e.to_string(), "RuntimeError: UndefinedVariable(x)");
    assert_eq!(e.clone().to_string(), "RuntimeError: UndefinedVariable(x)");
    assert_eq!(LoxError::from(e).to_string(), "RuntimeError: UndefinedVariable(x)");
}
