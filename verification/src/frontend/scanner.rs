//! The scanner: from source text to tokens.
//!
//! One pass from left to right, always taking the longest lexeme that can
//! start where the scanner stands. What is no token is reported and skipped:
//! the scan always reaches the end of the text.

use crate::frontend::scanner_error::{ScannerError, ScannerErrorKind};
use crate::frontend::token::{Span, Token, TokenType, TokenView};
use crate::text::{chars_of, string_of};
use vstd::prelude::*;
use vstd::string::*;

verus! {

/// One more, as far as the machine's integers go.
pub open spec fn bump(n: usize) -> usize {
    if n < usize::MAX {
        (n + 1) as usize
    } else {
        n
    }
}

impl Span {
    /// The place of the scanner after it has read `c`.
    pub open spec fn after(self, c: char) -> Span {
        if c == '\n' {
            Span { line: bump(self.line), col: 0 }
        } else {
            Span { line: self.line, col: bump(self.col) }
        }
    }

    /// Where a scan starts: on line 1, with nothing read.
    pub open spec fn origin() -> Span {
        Span { line: 1, col: 0 }
    }
}

/// The place of the scanner after it has read the characters of `src` from
/// `from` up to `to`, having stood at `start` before.
pub open spec fn span_after(src: Seq<char>, from: int, to: int, start: Span) -> Span
    decreases to - from,
{
    if from < to {
        span_after(src, from, to - 1, start).after(src[to - 1])
    } else {
        start
    }
}

/// Sets of characters that a lexeme may run over.
#[derive(Clone, Copy, Debug, PartialEq, Eq, Structural)]
pub enum CharClass {
    /// `0` to `9`.
    Digit,
    /// Letters, digits and `_`.
    Word,
    /// Everything but a line break.
    NoLineBreak,
    /// Everything but a double quote.
    NoQuote,
}

pub open spec fn is_digit(c: char) -> bool {
    '0' <= c <= '9'
}

pub open spec fn is_word_char(c: char) -> bool {
    is_digit(c) || 'a' <= c <= 'z' || 'A' <= c <= 'Z' || c == '_'
}

impl CharClass {
    pub open spec fn holds(self, c: char) -> bool {
        match self {
            CharClass::Digit => is_digit(c),
            CharClass::Word => is_word_char(c),
            CharClass::NoLineBreak => c != '\n',
            CharClass::NoQuote => c != '"',
        }
    }

    pub fn test(self, c: char) -> (r: bool)
        ensures
            r == self.holds(c),
    {
        match self {
            CharClass::Digit => '0' <= c && c <= '9',
            CharClass::Word => ('0' <= c && c <= '9') || ('a' <= c && c <= 'z') || ('A' <= c && c
                <= 'Z') || c == '_',
            CharClass::NoLineBreak => c != '\n',
            CharClass::NoQuote => c != '"',
        }
    }
}

/// The end of the longest run of characters of `class` that starts at `from`.
pub open spec fn run_end(src: Seq<char>, from: int, class: CharClass) -> int
    decreases src.len() - from,
{
    if 0 <= from < src.len() && class.holds(src[from]) {
        run_end(src, from + 1, class)
    } else {
        from
    }
}

/// A run ends inside the text, holds characters of its class only, and
/// cannot be made longer.
pub proof fn lemma_run_end(src: Seq<char>, from: int, class: CharClass)
    requires
        0 <= from <= src.len(),
    ensures
        from <= run_end(src, from, class) <= src.len(),
        forall|i: int| from <= i < run_end(src, from, class) ==> class.holds(src[i]),
        run_end(src, from, class) < src.len() ==> !class.holds(src[run_end(src, from, class)]),
    decreases src.len() - from,
{
    if from < src.len() && class.holds(src[from]) {
        lemma_run_end(src, from + 1, class);
    }
}

/// The token of a character that is a token by itself.
pub open spec fn punctuation(c: char) -> Option<TokenType> {
    if c == '(' {
        Some(TokenType::LeftParen)
    } else if c == ')' {
        Some(TokenType::RightParen)
    } else if c == '{' {
        Some(TokenType::LeftBrace)
    } else if c == '}' {
        Some(TokenType::RightBrace)
    } else if c == ',' {
        Some(TokenType::Comma)
    } else if c == '.' {
        Some(TokenType::Dot)
    } else if c == '-' {
        Some(TokenType::Minus)
    } else if c == '+' {
        Some(TokenType::Plus)
    } else if c == ';' {
        Some(TokenType::Semicolon)
    } else if c == '*' {
        Some(TokenType::Star)
    } else if c == '?' {
        Some(TokenType::QuestionMark)
    } else if c == ':' {
        Some(TokenType::Colon)
    } else {
        None
    }
}

/// The two tokens that a character starts which may be followed by `=`.
#[derive(Clone, Copy, Debug, PartialEq, Eq, Structural)]
pub struct OperatorPair {
    /// The token of the character alone.
    pub alone: TokenType,
    /// The token of the character with `=` after it.
    pub with_equal: TokenType,
}

/// The tokens of a character that may be followed by `=`.
pub open spec fn operator_pair(c: char) -> Option<OperatorPair> {
    if c == '!' {
        Some(OperatorPair { alone: TokenType::Bang, with_equal: TokenType::BangEqual })
    } else if c == '=' {
        Some(OperatorPair { alone: TokenType::Equal, with_equal: TokenType::EqualEqual })
    } else if c == '<' {
        Some(OperatorPair { alone: TokenType::Less, with_equal: TokenType::LessEqual })
    } else if c == '>' {
        Some(OperatorPair { alone: TokenType::Greater, with_equal: TokenType::GreaterEqual })
    } else {
        None
    }
}

pub open spec fn is_blank(c: char) -> bool {
    c == ' ' || c == '\t' || c == '\r' || c == '\n'
}

/// What a stretch of the text is.
pub enum Lexed {
    Token(TokenType),
    /// Blank space or a comment.
    Skip,
    Error(ScannerErrorKind),
}

/// What starts at a place in the text, and where it ends.
pub struct Piece {
    pub lexed: Lexed,
    pub end: int,
}

/// The end of the number that starts at `pos`: a run of digits and, where a
/// `.` and one more digit follow it, the `.` and the run of digits after it.
pub open spec fn number_end(src: Seq<char>, pos: int) -> int {
    let whole = run_end(src, pos, CharClass::Digit);
    if whole + 1 < src.len() && src[whole] == '.' && is_digit(src[whole + 1]) {
        run_end(src, whole + 1, CharClass::Digit)
    } else {
        whole
    }
}

/// The piece that starts at `pos`.
pub open spec fn piece_at(src: Seq<char>, pos: int) -> Piece
    recommends
        0 <= pos < src.len(),
{
    let c = src[pos];
    let followed_by = |d: char| pos + 1 < src.len() && src[pos + 1] == d;
    if punctuation(c) is Some {
        Piece { lexed: Lexed::Token(punctuation(c)->0), end: pos + 1 }
    } else if operator_pair(c) is Some {
        if followed_by('=') {
            Piece { lexed: Lexed::Token(operator_pair(c)->0.with_equal), end: pos + 2 }
        } else {
            Piece { lexed: Lexed::Token(operator_pair(c)->0.alone), end: pos + 1 }
        }
    } else if c == '/' {
        if followed_by('/') {
            Piece { lexed: Lexed::Skip, end: run_end(src, pos + 2, CharClass::NoLineBreak) }
        } else {
            Piece { lexed: Lexed::Token(TokenType::Slash), end: pos + 1 }
        }
    } else if is_blank(c) {
        Piece { lexed: Lexed::Skip, end: pos + 1 }
    } else if c == '"' {
        let close = run_end(src, pos + 1, CharClass::NoQuote);
        if close < src.len() {
            Piece { lexed: Lexed::Token(TokenType::String), end: close + 1 }
        } else {
            Piece { lexed: Lexed::Error(ScannerErrorKind::UnterminatedString), end: close }
        }
    } else if is_digit(c) {
        Piece { lexed: Lexed::Token(TokenType::Number), end: number_end(src, pos) }
    } else if is_word_char(c) {
        let end = run_end(src, pos, CharClass::Word);
        Piece { lexed: Lexed::Token(TokenType::of_word(src.subrange(pos, end))), end }
    } else {
        Piece { lexed: Lexed::Error(ScannerErrorKind::UnknownToken { character: c }), end: pos + 1 }
    }
}

/// A piece is not empty and ends inside the text.
pub proof fn lemma_piece_bounds(src: Seq<char>, pos: int)
    requires
        0 <= pos < src.len(),
    ensures
        pos < piece_at(src, pos).end <= src.len(),
{
    if pos + 2 <= src.len() {
        lemma_run_end(src, pos + 2, CharClass::NoLineBreak);
    }
    lemma_run_end(src, pos + 1, CharClass::NoQuote);
    lemma_run_end(src, pos, CharClass::Digit);
    let whole = run_end(src, pos, CharClass::Digit);
    if whole + 1 <= src.len() {
        lemma_run_end(src, whole + 1, CharClass::Digit);
    }
    lemma_run_end(src, pos, CharClass::Word);
}

/// What a scan gives: the tokens and the lexical errors, each in the order
/// of the text.
pub struct Scanned {
    pub tokens: Seq<TokenView>,
    pub errors: Seq<ScannerError>,
}

/// The tokens that the piece from `pos` to `end` gives: one or none.
pub open spec fn piece_tokens(src: Seq<char>, pos: int, piece: Piece, span: Span) -> Seq<TokenView> {
    match piece.lexed {
        Lexed::Token(token_type) => seq![
            TokenView { token_type, lexeme: src.subrange(pos, piece.end), span },
        ],
        _ => Seq::empty(),
    }
}

/// The errors that a piece gives: one or none.
pub open spec fn piece_errors(piece: Piece, span: Span) -> Seq<ScannerError> {
    match piece.lexed {
        Lexed::Error(kind) => seq![ScannerError { kind, span }],
        _ => Seq::empty(),
    }
}

/// The end-of-input token.
pub open spec fn eof(span: Span) -> TokenView {
    TokenView { token_type: TokenType::Eof, lexeme: Seq::empty(), span }
}

/// The scan of the text from `pos` on, by a scanner that stands at `span`:
/// piece after piece, and the end-of-input token last.
pub open spec fn scan_from(src: Seq<char>, pos: int, span: Span) -> Scanned
    decreases src.len() - pos,
{
    if 0 <= pos < src.len() {
        let piece = piece_at(src, pos);
        let end = span_after(src, pos, piece.end, span);
        proof {
            lemma_piece_bounds(src, pos);
        }
        let rest = scan_from(src, piece.end, end);
        Scanned {
            tokens: piece_tokens(src, pos, piece, end) + rest.tokens,
            errors: piece_errors(piece, end) + rest.errors,
        }
    } else {
        Scanned { tokens: seq![eof(span)], errors: Seq::empty() }
    }
}

/// The scan of a whole text.
pub open spec fn scan(src: Seq<char>) -> Scanned {
    scan_from(src, 0, Span::origin())
}

/// The scanner.
#[derive(Debug)]
pub struct Scanner {
    tokens: Vec<Token>,
    errors: Vec<ScannerError>,
    source: Vec<char>,
    /// Where the lexeme being read starts.
    start: usize,
    /// Where the scanner stands.
    current: usize,
    line: usize,
    col: usize,
}

impl Scanner {
    /// The text being scanned.
    pub closed spec fn source(&self) -> Seq<char> {
        self.source@
    }

    /// The tokens found so far.
    pub closed spec fn tokens(&self) -> Seq<TokenView> {
        self.tokens.deep_view()
    }

    /// The lexical errors found so far.
    pub closed spec fn errors_found(&self) -> Seq<ScannerError> {
        self.errors@
    }

    /// How many characters have been read.
    pub closed spec fn position(&self) -> int {
        self.current as int
    }

    /// The place where the scanner stands.
    pub closed spec fn span(&self) -> Span {
        Span { line: self.line, col: self.col }
    }

    pub closed spec fn wf(&self) -> bool {
        self.current <= self.source@.len()
    }

    spec fn same_output(&self, other: &Scanner) -> bool {
        &&& self.source@ == other.source@
        &&& self.tokens.deep_view() == other.tokens.deep_view()
        &&& self.errors@ == other.errors@
    }

    /// A scanner at the start of `source`.
    pub fn new(source: &str) -> (r: Self)
        ensures
            r.wf(),
            r.source() == source@,
            r.position() == 0,
            r.span() == Span::origin(),
            r.tokens() == Seq::<TokenView>::empty(),
            r.errors_found() == Seq::<ScannerError>::empty(),
    {
        let r = Self {
            tokens: Vec::new(),
            errors: Vec::new(),
            source: chars_of(source),
            start: 0,
            current: 0,
            line: 1,
            col: 0,
        };
        assert(r.tokens.deep_view() =~= Seq::<TokenView>::empty());
        r
    }

    fn is_at_end(&self) -> (r: bool)
        ensures
            r == (self.current >= self.source@.len()),
    {
        self.current >= self.source.len()
    }

    /// The character that the scanner stands before.
    fn peek(&self) -> (r: Option<char>)
        ensures
            r == (if self.current < self.source@.len() {
                Some(self.source@[self.current as int])
            } else {
                None
            }),
    {
        if self.current < self.source.len() {
            Some(self.source[self.current])
        } else {
            None
        }
    }

    /// The character after the one that the scanner stands before.
    fn peek_next(&self) -> (r: Option<char>)
        requires
            self.wf(),
        ensures
            r == (if self.current + 1 < self.source@.len() {
                Some(self.source@[self.current + 1])
            } else {
                None
            }),
    {
        if self.current < self.source.len() && self.current + 1 < self.source.len() {
            Some(self.source[self.current + 1])
        } else {
            None
        }
    }

    /// Reads one character, if one is left.
    fn advance(&mut self) -> (r: Option<char>)
        requires
            old(self).wf(),
        ensures
            final(self).wf(),
            final(self).same_output(old(self)),
            final(self).start == old(self).start,
            match r {
                Some(c) => {
                    &&& old(self).current < old(self).source@.len()
                    &&& c == old(self).source@[old(self).current as int]
                    &&& final(self).current == old(self).current + 1
                    &&& final(self).span() == old(self).span().after(c)
                },
                None => {
                    &&& old(self).current >= old(self).source@.len()
                    &&& final(self).current == old(self).current
                    &&& final(self).span() == old(self).span()
                },
            },
    {
        if self.current < self.source.len() {
            let c = self.source[self.current];
            self.current += 1;
            if c == '\n' {
                if self.line < usize::MAX {
                    self.line += 1;
                }
                self.col = 0;
            } else if self.col < usize::MAX {
                self.col += 1;
            }
            Some(c)
        } else {
            None
        }
    }

    /// Reads on while the characters are of `class`.
    fn consume_while(&mut self, class: CharClass)
        requires
            old(self).wf(),
        ensures
            final(self).wf(),
            final(self).same_output(old(self)),
            final(self).start == old(self).start,
            final(self).current == run_end(old(self).source@, old(self).current as int, class),
            final(self).span() == span_after(
                old(self).source@,
                old(self).current as int,
                final(self).current as int,
                old(self).span(),
            ),
    {
        while self.current < self.source.len() && class.test(self.source[self.current])
            invariant
                self.wf(),
                self.same_output(old(self)),
                self.start == old(self).start,
                old(self).current <= self.current,
                run_end(self.source@, self.current as int, class) == run_end(
                    self.source@,
                    old(self).current as int,
                    class,
                ),
                self.span() == span_after(
                    self.source@,
                    old(self).current as int,
                    self.current as int,
                    old(self).span(),
                ),
            decreases self.source@.len() - self.current,
        {
            self.advance();
        }
    }

    /// Adds the token of the lexeme that has just been read.
    fn add_token(&mut self, token_type: TokenType)
        requires
            old(self).wf(),
            old(self).start <= old(self).current,
        ensures
            final(self).wf(),
            final(self).source@ == old(self).source@,
            final(self).errors@ == old(self).errors@,
            final(self).start == old(self).start,
            final(self).current == old(self).current,
            final(self).span() == old(self).span(),
            final(self).tokens.deep_view() == old(self).tokens.deep_view().push(
                TokenView {
                    token_type,
                    lexeme: old(self).source@.subrange(
                        old(self).start as int,
                        old(self).current as int,
                    ),
                    span: old(self).span(),
                },
            ),
    {
        let lexeme = string_of(&self.source, self.start, self.current);
        let token = Token::new(token_type, lexeme, Span::new(self.line, self.col));
        self.tokens.push(token);
        assert(self.tokens.deep_view() =~= old(self).tokens.deep_view().push(token@));
    }

    fn add_error(&mut self, kind: ScannerErrorKind)
        requires
            old(self).wf(),
        ensures
            final(self).wf(),
            final(self).source@ == old(self).source@,
            final(self).tokens.deep_view() == old(self).tokens.deep_view(),
            final(self).start == old(self).start,
            final(self).current == old(self).current,
            final(self).span() == old(self).span(),
            final(self).errors@ == old(self).errors@.push(
                ScannerError { kind, span: old(self).span() },
            ),
    {
        self.errors.push(ScannerError::new(kind, Span::new(self.line, self.col)));
    }

    fn consume_digits(&mut self)
        requires
            old(self).wf(),
        ensures
            final(self).wf(),
            final(self).same_output(old(self)),
            final(self).start == old(self).start,
            final(self).current == run_end(
                old(self).source@,
                old(self).current as int,
                CharClass::Digit,
            ),
            final(self).span() == span_after(
                old(self).source@,
                old(self).current as int,
                final(self).current as int,
                old(self).span(),
            ),
    {
        self.consume_while(CharClass::Digit);
    }

    /// Whether `c` may stand in an identifier.
    pub fn is_identifier(c: &char) -> (r: bool)
        ensures
            r == is_word_char(*c),
    {
        CharClass::Word.test(*c)
    }

    fn punctuation_of(c: char) -> (r: Option<TokenType>)
        ensures
            r == punctuation(c),
    {
        if c == '(' {
            Some(TokenType::LeftParen)
        } else if c == ')' {
            Some(TokenType::RightParen)
        } else if c == '{' {
            Some(TokenType::LeftBrace)
        } else if c == '}' {
            Some(TokenType::RightBrace)
        } else if c == ',' {
            Some(TokenType::Comma)
        } else if c == '.' {
            Some(TokenType::Dot)
        } else if c == '-' {
            Some(TokenType::Minus)
        } else if c == '+' {
            Some(TokenType::Plus)
        } else if c == ';' {
            Some(TokenType::Semicolon)
        } else if c == '*' {
            Some(TokenType::Star)
        } else if c == '?' {
            Some(TokenType::QuestionMark)
        } else if c == ':' {
            Some(TokenType::Colon)
        } else {
            None
        }
    }

    fn operator_pair_of(c: char) -> (r: Option<OperatorPair>)
        ensures
            r == operator_pair(c),
    {
        if c == '!' {
            Some(OperatorPair { alone: TokenType::Bang, with_equal: TokenType::BangEqual })
        } else if c == '=' {
            Some(OperatorPair { alone: TokenType::Equal, with_equal: TokenType::EqualEqual })
        } else if c == '<' {
            Some(OperatorPair { alone: TokenType::Less, with_equal: TokenType::LessEqual })
        } else if c == '>' {
            Some(OperatorPair { alone: TokenType::Greater, with_equal: TokenType::GreaterEqual })
        } else {
            None
        }
    }

    /// What one step of the scan leaves: the scanner stands at the end of
    /// the piece that started at `pos`, and has added what the piece gives.
    spec fn scanned_piece(&self, before: &Scanner) -> bool {
        let src = before.source@;
        let pos = before.current as int;
        let piece = piece_at(src, pos);
        &&& self.wf()
        &&& self.source@ == src
        &&& self.current == piece.end
        &&& self.span() == span_after(src, pos, piece.end, before.span())
        &&& self.tokens.deep_view() == before.tokens.deep_view() + piece_tokens(
            src,
            pos,
            piece,
            self.span(),
        )
        &&& self.errors@ == before.errors@ + piece_errors(piece, self.span())
    }

    /// A comment runs to the end of its line.
    fn handle_comment(&mut self)
        requires
            old(self).wf(),
        ensures
            final(self).wf(),
            final(self).same_output(old(self)),
            final(self).start == old(self).start,
            final(self).current == run_end(
                old(self).source@,
                old(self).current as int,
                CharClass::NoLineBreak,
            ),
            final(self).span() == span_after(
                old(self).source@,
                old(self).current as int,
                final(self).current as int,
                old(self).span(),
            ),
    {
        self.consume_while(CharClass::NoLineBreak);
    }

    /// A string runs to the next double quote, over line breaks too. The
    /// opening quote has been read.
    fn handle_string(&mut self)
        requires
            old(self).wf(),
            old(self).current == old(self).start + 1,
        ensures
            final(self).wf(),
            final(self).source@ == old(self).source@,
            final(self).start == old(self).start,
            ({
                let src = old(self).source@;
                let close = run_end(src, old(self).current as int, CharClass::NoQuote);
                let end = if close < src.len() {
                    close + 1
                } else {
                    close
                };
                &&& final(self).current == end
                &&& final(self).span() == span_after(
                    src,
                    old(self).current as int,
                    end,
                    old(self).span(),
                )
                &&& final(self).tokens.deep_view() == old(self).tokens.deep_view() + (if close
                    < src.len() {
                    seq![
                        TokenView {
                            token_type: TokenType::String,
                            lexeme: src.subrange(old(self).start as int, end),
                            span: final(self).span(),
                        },
                    ]
                } else {
                    Seq::empty()
                })
                &&& final(self).errors@ == old(self).errors@ + (if close < src.len() {
                    Seq::empty()
                } else {
                    seq![
                        ScannerError {
                            kind: ScannerErrorKind::UnterminatedString,
                            span: final(self).span(),
                        },
                    ]
                })
            }),
    {
        proof {
            lemma_run_end(self.source@, self.current as int, CharClass::NoQuote);
        }
        self.consume_while(CharClass::NoQuote);
        if self.is_at_end() {
            self.add_error(ScannerErrorKind::UnterminatedString);
            assert(self.tokens.deep_view() =~= old(self).tokens.deep_view() + Seq::empty());
            assert(self.errors@ =~= old(self).errors@ + seq![
                ScannerError { kind: ScannerErrorKind::UnterminatedString, span: self.span() },
            ]);
            return ;
        }
        // The closing quote.
        self.advance();
        self.add_token(TokenType::String);
        assert(self.errors@ =~= old(self).errors@ + Seq::empty());
        assert(self.tokens.deep_view() =~= old(self).tokens.deep_view() + seq![
            TokenView {
                token_type: TokenType::String,
                lexeme: self.source@.subrange(self.start as int, self.current as int),
                span: self.span(),
            },
        ]);
    }

    /// A number is a run of digits, with a fraction where a `.` and a digit
    /// follow. The scanner stands at the number's first digit.
    fn handle_number(&mut self)
        requires
            old(self).wf(),
            old(self).current == old(self).start,
        ensures
            final(self).wf(),
            final(self).source@ == old(self).source@,
            final(self).errors@ == old(self).errors@,
            final(self).start == old(self).start,
            final(self).current == number_end(old(self).source@, old(self).current as int),
            final(self).span() == span_after(
                old(self).source@,
                old(self).current as int,
                final(self).current as int,
                old(self).span(),
            ),
            final(self).tokens.deep_view() == old(self).tokens.deep_view().push(
                TokenView {
                    token_type: TokenType::Number,
                    lexeme: old(self).source@.subrange(
                        old(self).start as int,
                        final(self).current as int,
                    ),
                    span: final(self).span(),
                },
            ),
    {
        proof {
            lemma_run_end(self.source@, self.current as int, CharClass::Digit);
        }
        self.consume_digits();
        let ghost whole = self.current as int;
        let is_fraction = match (self.peek(), self.peek_next()) {
            (Some(c), Some(next)) => c == '.' && CharClass::Digit.test(next),
            _ => false,
        };
        if is_fraction {
            // The `.`.
            self.advance();
            proof {
                lemma_run_end(self.source@, self.current as int, CharClass::Digit);
            }
            self.consume_digits();
            proof {
                lemma_span_after_joined(
                    self.source@,
                    old(self).current as int,
                    whole + 1,
                    self.current as int,
                    old(self).span(),
                );
            }
        }
        self.add_token(TokenType::Number);
    }

    /// An identifier or a keyword is a run of letters, digits and `_`. The
    /// scanner stands at its first character.
    fn handle_identifier_and_keywords(&mut self)
        requires
            old(self).wf(),
            old(self).current == old(self).start,
        ensures
            final(self).wf(),
            final(self).source@ == old(self).source@,
            final(self).errors@ == old(self).errors@,
            final(self).start == old(self).start,
            final(self).current == run_end(
                old(self).source@,
                old(self).current as int,
                CharClass::Word,
            ),
            final(self).span() == span_after(
                old(self).source@,
                old(self).current as int,
                final(self).current as int,
                old(self).span(),
            ),
            final(self).tokens.deep_view() == old(self).tokens.deep_view().push(
                TokenView {
                    token_type: TokenType::of_word(
                        old(self).source@.subrange(
                            old(self).start as int,
                            final(self).current as int,
                        ),
                    ),
                    lexeme: old(self).source@.subrange(
                        old(self).start as int,
                        final(self).current as int,
                    ),
                    span: final(self).span(),
                },
            ),
    {
        proof {
            lemma_run_end(self.source@, self.current as int, CharClass::Word);
        }
        self.consume_while(CharClass::Word);
        let identifier = string_of(&self.source, self.start, self.current);
        let token_type = TokenType::to_identifier(identifier.as_str());
        self.add_token(token_type);
    }

    /// Reads the piece that the scanner stands before.
    fn scan_token(&mut self)
        requires
            old(self).wf(),
            old(self).current < old(self).source@.len(),
        ensures
            final(self).scanned_piece(old(self)),
    {
        let ghost src = self.source@;
        let ghost pos = self.current as int;
        let ghost span = self.span();
        proof {
            lemma_piece_bounds(src, pos);
            reveal_with_fuel(span_after, 3);
        }
        self.start = self.current;
        let c = self.source[self.current];
        if let Some(token_type) = Self::punctuation_of(c) {
            self.advance();
            self.add_token(token_type);
            proof {
                self.lemma_one_token(old(self), token_type);
            }
        } else if let Some(pair) = Self::operator_pair_of(c) {
            self.advance();
            let token_type = match self.peek() {
                Some('=') => {
                    self.advance();
                    pair.with_equal
                },
                _ => pair.alone,
            };
            self.add_token(token_type);
            proof {
                self.lemma_one_token(old(self), token_type);
            }
        } else if c == '/' {
            self.advance();
            match self.peek() {
                Some('/') => {
                    self.advance();
                    proof {
                        lemma_run_end(src, pos + 2, CharClass::NoLineBreak);
                    }
                    self.handle_comment();
                    proof {
                        lemma_span_after_joined(src, pos, pos + 2, self.current as int, span);
                        self.lemma_nothing_added(old(self));
                    }
                },
                _ => {
                    self.add_token(TokenType::Slash);
                    proof {
                        self.lemma_one_token(old(self), TokenType::Slash);
                    }
                },
            }
        } else if c == ' ' || c == '\t' || c == '\r' || c == '\n' {
            self.advance();
            proof {
                self.lemma_nothing_added(old(self));
            }
        } else if c == '"' {
            self.advance();
            proof {
                lemma_run_end(src, pos + 1, CharClass::NoQuote);
            }
            self.handle_string();
            proof {
                lemma_span_after_joined(src, pos, pos + 1, self.current as int, span);
            }
        } else if CharClass::Digit.test(c) {
            self.handle_number();
            assert(self.tokens.deep_view() =~= old(self).tokens.deep_view() + piece_tokens(
                src,
                pos,
                piece_at(src, pos),
                self.span(),
            ));
            assert(self.errors@ =~= old(self).errors@ + Seq::empty());
        } else if Self::is_identifier(&c) {
            self.handle_identifier_and_keywords();
            assert(self.tokens.deep_view() =~= old(self).tokens.deep_view() + piece_tokens(
                src,
                pos,
                piece_at(src, pos),
                self.span(),
            ));
            assert(self.errors@ =~= old(self).errors@ + Seq::empty());
        } else {
            self.advance();
            self.add_error(ScannerErrorKind::UnknownToken { character: c });
            proof {
                lemma_push_is_add(
                    old(self).errors@,
                    ScannerError {
                        kind: ScannerErrorKind::UnknownToken { character: c },
                        span: self.span(),
                    },
                );
                assert(self.tokens.deep_view() =~= old(self).tokens.deep_view() + Seq::empty());
            }
        }
    }

    proof fn lemma_one_token(&self, before: &Scanner, token_type: TokenType)
        requires
            self.errors@ == before.errors@,
            self.tokens.deep_view() == before.tokens.deep_view().push(
                TokenView {
                    token_type,
                    lexeme: before.source@.subrange(before.current as int, self.current as int),
                    span: self.span(),
                },
            ),
        ensures
            self.errors@ == before.errors@ + Seq::<ScannerError>::empty(),
            self.tokens.deep_view() == before.tokens.deep_view() + seq![
                TokenView {
                    token_type,
                    lexeme: before.source@.subrange(before.current as int, self.current as int),
                    span: self.span(),
                },
            ],
    {
        assert(self.errors@ =~= before.errors@ + Seq::<ScannerError>::empty());
        assert(self.tokens.deep_view() =~= before.tokens.deep_view() + seq![
            TokenView {
                token_type,
                lexeme: before.source@.subrange(before.current as int, self.current as int),
                span: self.span(),
            },
        ]);
    }

    proof fn lemma_nothing_added(&self, before: &Scanner)
        requires
            self.errors@ == before.errors@,
            self.tokens.deep_view() == before.tokens.deep_view(),
        ensures
            self.errors@ == before.errors@ + Seq::<ScannerError>::empty(),
            self.tokens.deep_view() == before.tokens.deep_view() + Seq::<TokenView>::empty(),
    {
        assert(self.errors@ =~= before.errors@ + Seq::<ScannerError>::empty());
        assert(self.tokens.deep_view() =~= before.tokens.deep_view() + Seq::<TokenView>::empty());
    }

    /// Scans the rest of the text. The tokens of the rest, with the
    /// end-of-input token last, are added to those found before, the errors
    /// of the rest to the errors found before. Returns all the tokens.
    pub fn scan_tokens(&mut self) -> (r: &Vec<Token>)
        requires
            old(self).wf(),
        ensures
            final(self).wf(),
            final(self).source() == old(self).source(),
            final(self).position() == old(self).source().len(),
            final(self).tokens() == old(self).tokens() + scan_from(
                old(self).source(),
                old(self).position(),
                old(self).span(),
            ).tokens,
            final(self).errors_found() == old(self).errors_found() + scan_from(
                old(self).source(),
                old(self).position(),
                old(self).span(),
            ).errors,
            r.deep_view() == final(self).tokens(),
    {
        let ghost src = self.source@;
        let ghost whole = scan_from(src, self.current as int, self.span());
        assert(self.tokens.deep_view() + whole.tokens =~= old(self).tokens.deep_view()
            + whole.tokens);
        while !self.is_at_end()
            invariant
                self.wf(),
                self.source@ == src,
                old(self).tokens.deep_view() + whole.tokens == self.tokens.deep_view() + scan_from(
                    src,
                    self.current as int,
                    self.span(),
                ).tokens,
                old(self).errors@ + whole.errors == self.errors@ + scan_from(
                    src,
                    self.current as int,
                    self.span(),
                ).errors,
            decreases src.len() - self.current,
        {
            let ghost before = *self;
            proof {
                lemma_piece_bounds(src, self.current as int);
            }
            self.scan_token();
            proof {
                let rest = scan_from(src, self.current as int, self.span());
                let piece = piece_at(src, before.current as int);
                assert(before.tokens.deep_view() + (piece_tokens(
                    src,
                    before.current as int,
                    piece,
                    self.span(),
                ) + rest.tokens) =~= self.tokens.deep_view() + rest.tokens);
                assert(before.errors@ + (piece_errors(piece, self.span()) + rest.errors)
                    =~= self.errors@ + rest.errors);
            }
        }
        let ghost done = *self;
        self.start = self.current;
        self.add_token(TokenType::Eof);
        proof {
            let last = scan_from(src, done.current as int, done.span());
            assert(self.source@.subrange(self.start as int, self.current as int) =~= Seq::<
                char,
            >::empty());
            assert(done.tokens.deep_view() + last.tokens =~= self.tokens.deep_view());
            assert(done.errors@ + last.errors =~= self.errors@);
        }
        &self.tokens
    }

    /// The tokens found so far.
    pub fn tokens_found(&self) -> (r: &Vec<Token>)
        ensures
            r.deep_view() == self.tokens(),
    {
        &self.tokens
    }

    /// The lexical errors found so far.
    pub fn errors(&self) -> (r: &Vec<ScannerError>)
        ensures
            r@ == self.errors_found(),
    {
        &self.errors
    }

    /// Gives up the scanner for what it has found.
    pub fn into_parts(self) -> (r: (Vec<Token>, Vec<ScannerError>))
        ensures
            r.0.deep_view() == self.tokens(),
            r.1@ == self.errors_found(),
    {
        (self.tokens, self.errors)
    }
}

proof fn lemma_push_is_add<A>(s: Seq<A>, x: A)
    ensures
        s.push(x) == s + seq![x],
{
    assert(s.push(x) =~= s + seq![x]);
}

/// Whether every character of `text` from `from` up to `to` is a digit.
pub open spec fn all_digits(text: Seq<char>, from: int, to: int) -> bool {
    forall|i: int| from <= i < to ==> is_digit(#[trigger] text[i])
}

/// Whether `text` is a number as the language writes it: digits, or digits,
/// a `.` and digits.
pub open spec fn is_decimal(text: Seq<char>) -> bool {
    ||| text.len() > 0 && all_digits(text, 0, text.len() as int)
    ||| exists|dot: int| is_decimal_with_dot(text, dot)
}

/// Whether `text` is digits, a `.` at `dot`, and digits.
pub open spec fn is_decimal_with_dot(text: Seq<char>, dot: int) -> bool {
    &&& 0 < dot < text.len() - 1
    &&& text[dot] == '.'
    &&& all_digits(text, 0, dot)
    &&& all_digits(text, dot + 1, text.len() as int)
}

/// A run of digits ends where the digits end.
pub proof fn lemma_digits_run(text: Seq<char>, from: int, to: int)
    requires
        0 <= from <= to <= text.len(),
        all_digits(text, from, to),
        to < text.len() ==> !is_digit(text[to]),
    ensures
        run_end(text, from, CharClass::Digit) == to,
    decreases to - from,
{
    if from < to {
        lemma_digits_run(text, from + 1, to);
    }
}

/// No line break stands in a number: reading one moves the scanner along its
/// line.
proof fn lemma_span_on_line(text: Seq<char>, from: int, to: int, start: Span)
    requires
        0 <= from <= to <= text.len(),
        forall|i: int| from <= i < to ==> text[i] != '\n',
    ensures
        span_after(text, from, to, start).line == start.line,
    decreases to - from,
{
    if from < to {
        lemma_span_on_line(text, from, to - 1, start);
    }
}

/// A number, scanned, is one token: of kind `Number`, with the whole text as
/// its lexeme, on line 1. The end-of-input token follows, and there is no
/// error.
pub proof fn lemma_number_token(text: Seq<char>)
    requires
        is_decimal(text),
    ensures
        scan(text).errors == Seq::<ScannerError>::empty(),
        scan(text).tokens == seq![
            TokenView {
                token_type: TokenType::Number,
                lexeme: text,
                span: span_after(text, 0, text.len() as int, Span::origin()),
            },
            eof(span_after(text, 0, text.len() as int, Span::origin())),
        ],
        span_after(text, 0, text.len() as int, Span::origin()).line == 1,
{
    let len = text.len() as int;
    if text.len() > 0 && all_digits(text, 0, len) {
        lemma_digits_run(text, 0, len);
    } else {
        let dot = choose|dot: int| is_decimal_with_dot(text, dot);
        lemma_digits_run(text, 0, dot);
        lemma_digits_run(text, dot + 1, len);
    }
    assert(is_digit(text[0]));
    assert(number_end(text, 0) == len);
    assert(piece_at(text, 0) == Piece { lexed: Lexed::Token(TokenType::Number), end: len });
    assert forall|i: int| 0 <= i < len implies text[i] != '\n' by {
        if !is_digit(text[i]) {
            assert(text[i] == '.');
        }
    }
    lemma_span_on_line(text, 0, len, Span::origin());
    let end = span_after(text, 0, len, Span::origin());
    assert(text.subrange(0, len) =~= text);
    assert(scan_from(text, len, end).tokens == seq![eof(end)]);
    assert(scan(text).tokens =~= seq![
        TokenView { token_type: TokenType::Number, lexeme: text, span: end },
        eof(end),
    ]);
    assert(scan(text).errors =~= Seq::<ScannerError>::empty());
}

/// One of `!`, `=`, `<`, `>` with `=` after it is one piece: the token of
/// the two characters together, never the token of the first alone.
pub proof fn lemma_two_character_operator(src: Seq<char>, pos: int)
    requires
        0 <= pos,
        pos + 1 < src.len(),
        operator_pair(src[pos]) is Some,
        src[pos + 1] == '=',
    ensures
        piece_at(src, pos) == (Piece {
            lexed: Lexed::Token(operator_pair(src[pos])->0.with_equal),
            end: pos + 2,
        }),
{
}

/// The text of one of `!`, `=`, `<`, `>` and `=`, scanned, is exactly one
/// token of the combined kind, and the end-of-input token.
pub proof fn lemma_operator_text(c: char)
    requires
        operator_pair(c) is Some,
    ensures
        scan(seq![c, '=']) == (Scanned {
            tokens: seq![
                TokenView {
                    token_type: operator_pair(c)->0.with_equal,
                    lexeme: seq![c, '='],
                    span: Span { line: 1, col: 2 },
                },
                eof(Span { line: 1, col: 2 }),
            ],
            errors: Seq::empty(),
        }),
{
    let src = seq![c, '='];
    reveal_with_fuel(span_after, 3);
    lemma_two_character_operator(src, 0);
    let end = span_after(src, 0, 2, Span::origin());
    assert(end == Span { line: 1, col: 2 });
    assert(src.subrange(0, 2) =~= src);
    assert(scan_from(src, 2, end).tokens == seq![eof(end)]);
    assert(scan(src).tokens =~= seq![
        TokenView { token_type: operator_pair(c)->0.with_equal, lexeme: src, span: end },
        eof(end),
    ]);
    assert(scan(src).errors =~= Seq::<ScannerError>::empty());
}

/// Reading from `from` to `mid` and then from `mid` to `to` is reading from
/// `from` to `to`.
pub proof fn lemma_span_after_joined(src: Seq<char>, from: int, mid: int, to: int, start: Span)
    requires
        from <= mid <= to,
    ensures
        span_after(src, mid, to, span_after(src, from, mid, start)) == span_after(
            src,
            from,
            to,
            start,
        ),
    decreases to - mid,
{
    if mid < to {
        lemma_span_after_joined(src, from, mid, to - 1, start);
    }
}

} // verus!
