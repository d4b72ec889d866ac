//! Tokens: what the scanner cuts the source text into.

use crate::text::{chars_of, decimal, decimal_string, spells};
use vstd::prelude::*;
use vstd::string::*;

verus! {

/// The kind of a token. A literal's or an identifier's text is the token's
/// lexeme.
#[derive(Clone, Copy, Debug, PartialEq, Eq, Hash, Structural)]
pub enum TokenType {
    // Single-character tokens.
    LeftParen,
    RightParen,
    LeftBrace,
    RightBrace,
    Comma,
    Dot,
    Minus,
    Plus,
    Semicolon,
    Slash,
    Star,
    // One or two character tokens.
    Bang,
    BangEqual,
    Equal,
    EqualEqual,
    Greater,
    GreaterEqual,
    Less,
    LessEqual,
    QuestionMark,
    Colon,
    // Literals.
    Identifier,
    String,
    Number,
    // Keywords.
    And,
    Class,
    Else,
    False,
    Fun,
    For,
    If,
    Nil,
    Or,
    Print,
    Return,
    Super,
    This,
    True,
    Var,
    While,
    // End of input.
    Eof,
}

impl TokenType {
    /// The keyword table: the kind of the reserved word `text`, if it is one.
    pub open spec fn keyword(text: Seq<char>) -> Option<TokenType> {
        if text == "and"@ {
            Some(TokenType::And)
        } else if text == "class"@ {
            Some(TokenType::Class)
        } else if text == "else"@ {
            Some(TokenType::Else)
        } else if text == "false"@ {
            Some(TokenType::False)
        } else if text == "fun"@ {
            Some(TokenType::Fun)
        } else if text == "for"@ {
            Some(TokenType::For)
        } else if text == "if"@ {
            Some(TokenType::If)
        } else if text == "nil"@ {
            Some(TokenType::Nil)
        } else if text == "or"@ {
            Some(TokenType::Or)
        } else if text == "print"@ {
            Some(TokenType::Print)
        } else if text == "return"@ {
            Some(TokenType::Return)
        } else if text == "super"@ {
            Some(TokenType::Super)
        } else if text == "this"@ {
            Some(TokenType::This)
        } else if text == "true"@ {
            Some(TokenType::True)
        } else if text == "var"@ {
            Some(TokenType::Var)
        } else if text == "while"@ {
            Some(TokenType::While)
        } else {
            None
        }
    }

    /// The kind of the word `text`: that of the keyword it spells, else
    /// `Identifier`.
    pub open spec fn of_word(text: Seq<char>) -> TokenType {
        match Self::keyword(text) {
            Some(token_type) => token_type,
            None => TokenType::Identifier,
        }
    }

    /// Looks `keyword` up in the keyword table. A word that is no keyword is
    /// an identifier. The lookup is case-sensitive.
    pub fn to_identifier(keyword: &str) -> (r: TokenType)
        ensures
            r == Self::of_word(keyword@),
    {
        let word = chars_of(keyword);
        if spells(&word, "and") {
            TokenType::And
        } else if spells(&word, "class") {
            TokenType::Class
        } else if spells(&word, "else") {
            TokenType::Else
        } else if spells(&word, "false") {
            TokenType::False
        } else if spells(&word, "fun") {
            TokenType::Fun
        } else if spells(&word, "for") {
            TokenType::For
        } else if spells(&word, "if") {
            TokenType::If
        } else if spells(&word, "nil") {
            TokenType::Nil
        } else if spells(&word, "or") {
            TokenType::Or
        } else if spells(&word, "print") {
            TokenType::Print
        } else if spells(&word, "return") {
            TokenType::Return
        } else if spells(&word, "super") {
            TokenType::Super
        } else if spells(&word, "this") {
            TokenType::This
        } else if spells(&word, "true") {
            TokenType::True
        } else if spells(&word, "var") {
            TokenType::Var
        } else if spells(&word, "while") {
            TokenType::While
        } else {
            TokenType::Identifier
        }
    }

    /// The name under which a kind is shown.
    pub open spec fn name(self) -> Seq<char> {
        match self {
            TokenType::LeftParen => "LeftParen"@,
            TokenType::RightParen => "RightParen"@,
            TokenType::LeftBrace => "LeftBrace"@,
            TokenType::RightBrace => "RightBrace"@,
            TokenType::Comma => "Comma"@,
            TokenType::Dot => "Dot"@,
            TokenType::Minus => "Minus"@,
            TokenType::Plus => "Plus"@,
            TokenType::Semicolon => "Semicolon"@,
            TokenType::Slash => "Slash"@,
            TokenType::Star => "Star"@,
            TokenType::Bang => "Bang"@,
            TokenType::BangEqual => "BangEqual"@,
            TokenType::Equal => "Equal"@,
            TokenType::EqualEqual => "EqualEqual"@,
            TokenType::Greater => "Greater"@,
            TokenType::GreaterEqual => "GreaterEqual"@,
            TokenType::Less => "Less"@,
            TokenType::LessEqual => "LessEqual"@,
            TokenType::QuestionMark => "QuestionMark"@,
            TokenType::Colon => "Colon"@,
            TokenType::Identifier => "Identifier"@,
            TokenType::String => "String"@,
            TokenType::Number => "Number"@,
            TokenType::And => "And"@,
            TokenType::Class => "Class"@,
            TokenType::Else => "Else"@,
            TokenType::False => "False"@,
            TokenType::Fun => "Fun"@,
            TokenType::For => "For"@,
            TokenType::If => "If"@,
            TokenType::Nil => "Nil"@,
            TokenType::Or => "Or"@,
            TokenType::Print => "Print"@,
            TokenType::Return => "Return"@,
            TokenType::Super => "Super"@,
            TokenType::This => "This"@,
            TokenType::True => "True"@,
            TokenType::Var => "Var"@,
            TokenType::While => "While"@,
            TokenType::Eof => "Eof"@,
        }
    }

    /// The kind's name as text.
    pub fn to_string(&self) -> (r: String)
        ensures
            r@ == self.name(),
    {
        match self {
            TokenType::LeftParen => String::from_str("LeftParen"),
            TokenType::RightParen => String::from_str("RightParen"),
            TokenType::LeftBrace => String::from_str("LeftBrace"),
            TokenType::RightBrace => String::from_str("RightBrace"),
            TokenType::Comma => String::from_str("Comma"),
            TokenType::Dot => String::from_str("Dot"),
            TokenType::Minus => String::from_str("Minus"),
            TokenType::Plus => String::from_str("Plus"),
            TokenType::Semicolon => String::from_str("Semicolon"),
            TokenType::Slash => String::from_str("Slash"),
            TokenType::Star => String::from_str("Star"),
            TokenType::Bang => String::from_str("Bang"),
            TokenType::BangEqual => String::from_str("BangEqual"),
            TokenType::Equal => String::from_str("Equal"),
            TokenType::EqualEqual => String::from_str("EqualEqual"),
            TokenType::Greater => String::from_str("Greater"),
            TokenType::GreaterEqual => String::from_str("GreaterEqual"),
            TokenType::Less => String::from_str("Less"),
            TokenType::LessEqual => String::from_str("LessEqual"),
            TokenType::QuestionMark => String::from_str("QuestionMark"),
            TokenType::Colon => String::from_str("Colon"),
            TokenType::Identifier => String::from_str("Identifier"),
            TokenType::String => String::from_str("String"),
            TokenType::Number => String::from_str("Number"),
            TokenType::And => String::from_str("And"),
            TokenType::Class => String::from_str("Class"),
            TokenType::Else => String::from_str("Else"),
            TokenType::False => String::from_str("False"),
            TokenType::Fun => String::from_str("Fun"),
            TokenType::For => String::from_str("For"),
            TokenType::If => String::from_str("If"),
            TokenType::Nil => String::from_str("Nil"),
            TokenType::Or => String::from_str("Or"),
            TokenType::Print => String::from_str("Print"),
            TokenType::Return => String::from_str("Return"),
            TokenType::Super => String::from_str("Super"),
            TokenType::This => String::from_str("This"),
            TokenType::True => String::from_str("True"),
            TokenType::Var => String::from_str("Var"),
            TokenType::While => String::from_str("While"),
            TokenType::Eof => String::from_str("Eof"),
        }
    }
}

/// A place in the source text: the line, counted from 1, and the column of a
/// lexeme's last character, counted from 1 within its line (0 where nothing
/// has been read on that line).
#[derive(Clone, Copy, Debug, PartialEq, Eq, Structural)]
pub struct Span {
    pub line: usize,
    pub col: usize,
}

impl Span {
    pub fn new(line: usize, col: usize) -> (r: Self)
        ensures
            r == (Span { line, col }),
    {
        Self { line, col }
    }

    /// How a place is shown: the line, a comma and a blank, the column.
    pub open spec fn location(self) -> Seq<char> {
        decimal(self.line as nat) + ", "@ + decimal(self.col as nat)
    }

    pub fn to_location(&self) -> (r: String)
        ensures
            r@ == self.location(),
    {
        let col = decimal_string(self.col);
        decimal_string(self.line).concat(", ").concat(col.as_str())
    }
}

/// A classified lexeme and the place where it ends.
#[derive(Debug)]
pub struct Token {
    pub token_type: TokenType,
    pub lexeme: String,
    pub span: Span,
}

/// What a token is, with its lexeme as a sequence of characters.
pub struct TokenView {
    pub token_type: TokenType,
    pub lexeme: Seq<char>,
    pub span: Span,
}

impl View for Token {
    type V = TokenView;

    open spec fn view(&self) -> TokenView {
        TokenView { token_type: self.token_type, lexeme: self.lexeme@, span: self.span }
    }
}

impl DeepView for Token {
    type V = TokenView;

    open spec fn deep_view(&self) -> TokenView {
        self@
    }
}

impl Clone for Token {
    fn clone(&self) -> (r: Self)
        ensures
            r == *self,
    {
        Token { token_type: self.token_type, lexeme: self.lexeme.clone(), span: self.span }
    }
}

impl TokenView {
    /// How a token is shown: a blank, its place, a bar and a blank, its kind.
    pub open spec fn text(self) -> Seq<char> {
        " "@ + self.span.location() + "| "@ + self.token_type.name()
    }
}

impl Token {
    pub fn new(token_type: TokenType, lexeme: String, span: Span) -> (r: Self)
        ensures
            r == (Token { token_type, lexeme, span }),
    {
        Self { token_type, lexeme, span }
    }

    pub fn to_string(&self) -> (r: String)
        ensures
            r@ == self@.text(),
    {
        let location = self.span.to_location();
        let name = self.token_type.to_string();
        String::from_str(" ").concat(location.as_str()).concat("| ").concat(name.as_str())
    }
}

} // verus!
