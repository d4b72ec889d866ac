//! What the parser and the scanner report.

use crate::frontend::scanner_error::ScannerError;
use crate::frontend::token::{Token, TokenType, TokenView};
use vstd::prelude::*;
use vstd::std_specs::convert::FromSpecImpl;
use vstd::string::*;

verus! {

/// The kinds of syntax error.
#[derive(Debug)]
pub enum ParserError {
    /// A token of this kind had to come next.
    ExpectedToken { token_type: TokenType },
    /// An expression had to start here.
    ExpectedExpression,
    /// A number token whose lexeme is no number.
    InvalidNumber { lexeme: String },
    /// The `=` of an assignment whose left side is no variable.
    InvalidAssignmentTarget { token: Token },
}

pub enum ParserErrorView {
    ExpectedToken { token_type: TokenType },
    ExpectedExpression,
    InvalidNumber { lexeme: Seq<char> },
    InvalidAssignmentTarget { token: TokenView },
}

impl ParserErrorView {
    pub open spec fn text(self) -> Seq<char> {
        match self {
            ParserErrorView::ExpectedToken { token_type } => "Expected token: "@
                + token_type.name(),
            ParserErrorView::ExpectedExpression => "Expected expression"@,
            ParserErrorView::InvalidNumber { lexeme } => "Invalid number: "@ + lexeme,
            ParserErrorView::InvalidAssignmentTarget { token } => "Invalid assignment to "@
                + token.text(),
        }
    }
}

impl View for ParserError {
    type V = ParserErrorView;

    open spec fn view(&self) -> ParserErrorView {
        match self {
            ParserError::ExpectedToken { token_type } => ParserErrorView::ExpectedToken {
                token_type: *token_type,
            },
            ParserError::ExpectedExpression => ParserErrorView::ExpectedExpression,
            ParserError::InvalidNumber { lexeme } => ParserErrorView::InvalidNumber {
                lexeme: lexeme@,
            },
            ParserError::InvalidAssignmentTarget { token } =>
                ParserErrorView::InvalidAssignmentTarget { token: token@ },
        }
    }
}

impl ParserError {
    pub fn to_string(&self) -> (r: String)
        ensures
            r@ == self@.text(),
    {
        match self {
            ParserError::ExpectedToken { token_type } => {
                let name = token_type.to_string();
                String::from_str("Expected token: ").concat(name.as_str())
            },
            ParserError::ExpectedExpression => String::from_str("Expected expression"),
            ParserError::InvalidNumber { lexeme } => String::from_str("Invalid number: ").concat(
                lexeme.as_str(),
            ),
            ParserError::InvalidAssignmentTarget { token } => {
                let shown = token.to_string();
                String::from_str("Invalid assignment to ").concat(shown.as_str())
            },
        }
    }
}

/// An error of the front end, with the stage that found it.
#[derive(Debug)]
pub enum SyntaxError {
    Parser(ParserError),
    Scanner(ScannerError),
}

pub enum SyntaxErrorView {
    Parser(ParserErrorView),
    Scanner(ScannerError),
}

impl SyntaxErrorView {
    pub open spec fn text(self) -> Seq<char> {
        match self {
            SyntaxErrorView::Parser(e) => "Parser error: "@ + e.text(),
            SyntaxErrorView::Scanner(e) => "Scanner error: "@ + e.text(),
        }
    }
}

impl View for SyntaxError {
    type V = SyntaxErrorView;

    open spec fn view(&self) -> SyntaxErrorView {
        match self {
            SyntaxError::Parser(e) => SyntaxErrorView::Parser(e@),
            SyntaxError::Scanner(e) => SyntaxErrorView::Scanner(*e),
        }
    }
}

impl SyntaxError {
    pub fn to_string(&self) -> (r: String)
        ensures
            r@ == self@.text(),
    {
        match self {
            SyntaxError::Parser(e) => {
                let shown = e.to_string();
                String::from_str("Parser error: ").concat(shown.as_str())
            },
            SyntaxError::Scanner(e) => {
                let shown = e.to_string();
                String::from_str("Scanner error: ").concat(shown.as_str())
            },
        }
    }
}

impl From<ParserError> for SyntaxError {
    fn from(value: ParserError) -> (r: SyntaxError) {
        SyntaxError::Parser(value)
    }
}

impl FromSpecImpl<ParserError> for SyntaxError {
    open spec fn obeys_from_spec() -> bool {
        true
    }

    open spec fn from_spec(value: ParserError) -> SyntaxError {
        SyntaxError::Parser(value)
    }
}

impl From<ScannerError> for SyntaxError {
    fn from(value: ScannerError) -> (r: SyntaxError) {
        SyntaxError::Scanner(value)
    }
}

impl FromSpecImpl<ScannerError> for SyntaxError {
    open spec fn obeys_from_spec() -> bool {
        true
    }

    open spec fn from_spec(value: ScannerError) -> SyntaxError {
        SyntaxError::Scanner(value)
    }
}

} // verus!
