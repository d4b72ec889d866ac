//! What the scanner cannot make a token of.

use crate::frontend::token::Span;
use crate::text::char_string;
use vstd::prelude::*;
use vstd::string::*;

verus! {

/// The kinds of lexical error.
#[derive(Clone, Copy, Debug, PartialEq, Eq, Structural)]
pub enum ScannerErrorKind {
    /// A character that starts no token.
    UnknownToken { character: char },
    /// A string literal that the input ends in.
    UnterminatedString,
}

impl ScannerErrorKind {
    pub open spec fn text(self) -> Seq<char> {
        match self {
            ScannerErrorKind::UnknownToken { character } => "Unknown token: "@ + seq![character],
            ScannerErrorKind::UnterminatedString => "Unterminated string"@,
        }
    }

    pub fn to_string(&self) -> (r: String)
        ensures
            r@ == self.text(),
    {
        match self {
            ScannerErrorKind::UnknownToken { character } => {
                let shown = char_string(*character);
                String::from_str("Unknown token: ").concat(shown.as_str())
            },
            ScannerErrorKind::UnterminatedString => String::from_str("Unterminated string"),
        }
    }
}

/// A lexical error and the place where the scanner stood when it gave up on
/// the lexeme.
#[derive(Clone, Copy, Debug, PartialEq, Eq, Structural)]
pub struct ScannerError {
    pub kind: ScannerErrorKind,
    pub span: Span,
}

impl ScannerError {
    pub fn new(kind: ScannerErrorKind, span: Span) -> (r: Self)
        ensures
            r == (ScannerError { kind, span }),
    {
        ScannerError { kind, span }
    }

    /// How the error is shown: what it is, then where.
    pub open spec fn text(self) -> Seq<char> {
        self.kind.text() + " at "@ + self.span.location()
    }

    pub fn to_string(&self) -> (r: String)
        ensures
            r@ == self.text(),
    {
        let place = self.span.to_location();
        self.kind.to_string().concat(" at ").concat(place.as_str())
    }
}

} // verus!
