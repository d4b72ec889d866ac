//! From source text to tokens and from tokens to statements.

pub mod grammar;
pub mod literal;
pub mod parser;
pub mod scanner;
pub mod scanner_error;
pub mod syntax_error;
pub mod token;

pub use crate::frontend::parser::{Parser, ParserResult};
pub use crate::frontend::scanner::Scanner;
pub use crate::frontend::scanner_error::{ScannerError, ScannerErrorKind};
pub use crate::frontend::syntax_error::{ParserError, ParserErrorView, SyntaxError, SyntaxErrorView};
pub use crate::frontend::token::{Span, Token, TokenType, TokenView};
