use lox::frontend::{Scanner, ScannerError, ScannerErrorKind, Span, Token, TokenType};

type T = TokenType;

fn scan(source: &str) -> (Vec<Token>, Vec<ScannerError>) {
    let mut scanner = Scanner::new(source);
    scanner.scan_tokens();
    scanner.into_parts()
}

fn kinds(source: &str) -> Vec<TokenType> {
    let (tokens, errors) = scan(source);
    assert!(errors.is_empty(), "{:?}", errors);
    tokens.iter().map(|t| t.token_type).collect()
}

fn lexemes(source: &str) -> Vec<String> {
    scan(source).0.into_iter().map(|t| t.lexeme).collect()
}

#[test]
fn empty_text_is_the_end_of_input_alone() {
    let (tokens, errors) = scan("");
    assert!(errors.is_empty());
    assert_eq!(tokens.len(), 1);
    assert_eq!(tokens[0].token_type, TokenType::Eof);
    assert_eq!(tokens[0].lexeme, "");
    assert_eq!(tokens[0].span, Span::new(1, 0));
}

#[test]
fn single_characters() {
    assert_eq!(
        kinds("(){},.-+;*?:/"),
        vec![
            T::LeftParen, T::RightParen, T::LeftBrace, T::RightBrace, T::Comma, T::Dot, T::Minus, T::Plus, T::Semicolon,
            T::Star, T::QuestionMark, T::Colon, T::Slash, T::Eof
        ]
    );
}

#[test]
fn two_character_operators_are_one_token() {
    assert_eq!(kinds("!="), vec![T::BangEqual, T::Eof]);
    assert_eq!(kinds("=="), vec![T::EqualEqual, T::Eof]);
    assert_eq!(kinds("<="), vec![T::LessEqual, T::Eof]);
    assert_eq!(kinds(">="), vec![T::GreaterEqual, T::Eof]);
    assert_eq!(lexemes("!= == <= >="), vec!["!=", "==", "<=", ">=", ""]);
    assert_eq!(kinds("! = < >"), vec![T::Bang, T::Equal, T::Less, T::Greater, T::Eof]);
    assert_eq!(kinds("==="), vec![T::EqualEqual, T::Equal, T::Eof]);
    assert_eq!(kinds("!==<=>"), vec![T::BangEqual, T::Equal, T::LessEqual, T::Greater, T::Eof]);
    assert_eq!(kinds("a>=b"), vec![T::Identifier, T::GreaterEqual, T::Identifier, T::Eof]);
}

#[test]
fn comments_run_to_the_end_of_the_line() {
    assert_eq!(kinds("1 // two three\n4"), vec![T::Number, T::Number, T::Eof]);
    assert_eq!(kinds("// only a comment"), vec![T::Eof]);
    assert_eq!(kinds("/ /"), vec![T::Slash, T::Slash, T::Eof]);
    let (tokens, _) = scan("// a\n// b\nx");
    assert_eq!(tokens[0].span, Span::new(3, 1));
}

#[test]
fn blank_space_is_dropped_and_lines_are_counted() {
    let (tokens, errors) = scan(" a\t\r\n  bc\n\n d");
    assert!(errors.is_empty());
    let spans: Vec<Span> = tokens.iter().map(|t| t.span).collect();
    assert_eq!(spans, vec![Span::new(1, 2), Span::new(2, 4), Span::new(4, 2), Span::new(4, 2)]);
}

#[test]
fn strings() {
    let (tokens, errors) = scan("\"hello\" \"\" \"a\nb\"");
    assert!(errors.is_empty());
    assert_eq!(tokens.len(), 4);
    assert_eq!(tokens[0].token_type, TokenType::String);
    assert_eq!(tokens[0].lexeme, "\"hello\"");
    assert_eq!(tokens[0].span, Span::new(1, 7));
    assert_eq!(tokens[1].lexeme, "\"\"");
    assert_eq!(tokens[2].lexeme, "\"a\nb\"");
    assert_eq!(tokens[2].span, Span::new(2, 2));
    assert_eq!(tokens[3].token_type, TokenType::Eof);
}

#[test]
fn a_string_may_hold_any_character() {
    let (tokens, errors) = scan("\"é // € @\" x");
    assert!(errors.is_empty());
    assert_eq!(tokens[0].lexeme, "\"é // € @\"");
    assert_eq!(tokens[0].span, Span::new(1, 10));
    assert_eq!(tokens[1].lexeme, "x");
}

#[test]
fn unterminated_string_gives_an_error_and_no_token() {
    let (tokens, errors) = scan("1 \"abc\ndef");
    assert_eq!(tokens.len(), 2);
    assert_eq!(tokens[0].token_type, TokenType::Number);
    assert_eq!(tokens[1].token_type, TokenType::Eof);
    assert_eq!(errors, vec![ScannerError::new(ScannerErrorKind::UnterminatedString, Span::new(2, 3))]);
}

#[test]
fn numbers() {
    assert_eq!(lexemes("0 12 3.25 007"), vec!["0", "12", "3.25", "007", ""]);
    assert_eq!(kinds("0 12 3.25"), vec![T::Number, T::Number, T::Number, T::Eof]);
}

#[test]
fn a_dot_without_a_digit_after_it_is_no_part_of_a_number() {
    assert_eq!(kinds("1."), vec![T::Number, T::Dot, T::Eof]);
    assert_eq!(lexemes("1."), vec!["1", ".", ""]);
    assert_eq!(kinds("1.x"), vec![T::Number, T::Dot, T::Identifier, T::Eof]);
    assert_eq!(kinds(".5"), vec![T::Dot, T::Number, T::Eof]);
    assert_eq!(kinds("1.2.3"), vec![T::Number, T::Dot, T::Number, T::Eof]);
    assert_eq!(lexemes("1.2.3"), vec!["1.2", ".", "3", ""]);
    assert_eq!(kinds("1..2"), vec![T::Number, T::Dot, T::Dot, T::Number, T::Eof]);
}

#[test]
fn keywords_and_identifiers() {
    assert_eq!(
        kinds("and class else false fun for if nil or print return super this true var while"),
        vec![
            T::And, T::Class, T::Else, T::False, T::Fun, T::For, T::If, T::Nil, T::Or, T::Print, T::Return, T::Super, T::This, T::True, T::Var,
            T::While, T::Eof
        ]
    );
    assert_eq!(kinds("And classy _x x1 nil_ orchid"), vec![T::Identifier; 6].into_iter().chain([T::Eof]).collect::<Vec<_>>());
    assert_eq!(lexemes("foo_bar2 _"), vec!["foo_bar2", "_", ""]);
}

#[test]
fn the_longest_lexeme_wins() {
    assert_eq!(kinds("forty"), vec![T::Identifier, T::Eof]);
    assert_eq!(kinds("for ty"), vec![T::For, T::Identifier, T::Eof]);
    assert_eq!(kinds("12ab"), vec![T::Number, T::Identifier, T::Eof]);
    assert_eq!(kinds("ab12"), vec![T::Identifier, T::Eof]);
}

#[test]
fn unknown_characters_are_reported_and_the_scan_goes_on() {
    let (tokens, errors) = scan("a @ b\n# c é");
    let kinds: Vec<TokenType> = tokens.iter().map(|t| t.token_type).collect();
    assert_eq!(kinds, vec![TokenType::Identifier; 3].into_iter().chain([TokenType::Eof]).collect::<Vec<_>>());
    assert_eq!(
        errors,
        vec![
            ScannerError::new(ScannerErrorKind::UnknownToken { character: '@' }, Span::new(1, 3)),
            ScannerError::new(ScannerErrorKind::UnknownToken { character: '#' }, Span::new(2, 1)),
            ScannerError::new(ScannerErrorKind::UnknownToken { character: 'é' }, Span::new(2, 5)),
        ]
    );
}

#[test]
fn a_statement() {
    let (tokens, errors) = scan("var x = 1.5;\nprint x >= \"a\";");
    assert!(errors.is_empty());
    let shown: Vec<String> = tokens.iter().map(|t| t.to_string()).collect();
    assert_eq!(
        shown,
        vec![
            " 1, 3| Var",
            " 1, 5| Identifier",
            " 1, 7| Equal",
            " 1, 11| Number",
            " 1, 12| Semicolon",
            " 2, 5| Print",
            " 2, 7| Identifier",
            " 2, 10| GreaterEqual",
            " 2, 14| String",
            " 2, 15| Semicolon",
            " 2, 15| Eof",
        ]
    );
}

#[test]
fn scanning_again_adds_another_end_of_input() {
    let mut scanner = Scanner::new("a");
    assert_eq!(scanner.scan_tokens().len(), 2);
    assert_eq!(scanner.scan_tokens().len(), 3);
    assert_eq!(scanner.tokens_found()[2].token_type, TokenType::Eof);
    assert!(scanner.errors().is_empty());
}

#[test]
fn is_identifier_takes_letters_digits_and_underscore() {
    for c in ['a', 'z', 'A', 'Z', '0', '9', '_'] {
        assert!(Scanner::is_identifier(&c));
    }
    for c in [' ', '-', 'é', '.', '"', '\n'] {
        assert!(!Scanner::is_identifier(&c));
    }
}

#[test]
fn to_identifier_looks_keywords_up() {
    assert_eq!(TokenType::to_identifier("while"), TokenType::While);
    assert_eq!(TokenType::to_identifier("nil"), TokenType::Nil);
    assert_eq!(TokenType::to_identifier("While"), TokenType::Identifier);
    assert_eq!(TokenType::to_identifier("whil"), TokenType::Identifier);
    assert_eq!(TokenType::to_identifier("whiles"), TokenType::Identifier);
    assert_eq!(TokenType::to_identifier(""), TokenType::Identifier);
}
