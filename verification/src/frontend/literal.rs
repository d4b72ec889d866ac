//! The lexemes of literals: which texts stand for a number, and what a
//! string literal holds.
//!
//! A text stands for a number where it is made of an optional sign and then
//! either one of the words `inf`, `infinity` and `nan`, in any case, or a
//! decimal number: digits with at most one `.` among them, at least one
//! digit in all, and after them, if anything, an exponent, which is `e` or
//! `E`, an optional sign and at least one digit.

use crate::frontend::scanner::{
    all_digits, is_decimal, is_decimal_with_dot, is_digit, lemma_digits_run, run_end, CharClass,
};
use crate::text::chars_of;
use vstd::prelude::*;
use vstd::string::*;

verus! {

pub open spec fn is_sign(c: char) -> bool {
    c == '+' || c == '-'
}

/// The capital of the small letters that the words for numbers are made
/// of; any other character is returned as it is.
pub open spec fn capital(c: char) -> char {
    if c == 'a' {
        'A'
    } else if c == 'e' {
        'E'
    } else if c == 'f' {
        'F'
    } else if c == 'i' {
        'I'
    } else if c == 'n' {
        'N'
    } else if c == 't' {
        'T'
    } else if c == 'y' {
        'Y'
    } else {
        c
    }
}

/// Whether `c` is the letter `lowercase`, in either case.
pub open spec fn is_letter(c: char, lowercase: char) -> bool {
    c == lowercase || c == capital(lowercase)
}

/// Whether `text`, from `from` on, spells `word`, whatever the case of its
/// letters. `word` is in lower case.
pub open spec fn spells_word(text: Seq<char>, from: int, word: Seq<char>) -> bool {
    &&& text.len() - from == word.len()
    &&& forall|i: int| 0 <= i < word.len() ==> is_letter(#[trigger] text[from + i], word[i])
}

/// Whether `text`, from `from` on, is one of the words for a number that is
/// no decimal number.
pub open spec fn is_special(text: Seq<char>, from: int) -> bool {
    spells_word(text, from, "inf"@) || spells_word(text, from, "infinity"@) || spells_word(
        text,
        from,
        "nan"@,
    )
}

/// Whether an exponent starts at `at` and runs to the end of `text`.
pub open spec fn is_exponent(text: Seq<char>, at: int) -> bool {
    let digits = if at + 1 < text.len() && is_sign(text[at + 1]) {
        at + 2
    } else {
        at + 1
    };
    &&& 0 <= at < text.len()
    &&& (text[at] == 'e' || text[at] == 'E')
    &&& digits < text.len()
    &&& is_digit(text[digits])
    &&& run_end(text, digits, CharClass::Digit) == text.len()
}

/// Whether `text`, from `from` on, is a decimal number.
pub open spec fn is_number_body(text: Seq<char>, from: int) -> bool {
    let whole_end = run_end(text, from, CharClass::Digit);
    let has_dot = whole_end < text.len() && text[whole_end] == '.';
    let fraction_end = if has_dot {
        run_end(text, whole_end + 1, CharClass::Digit)
    } else {
        whole_end
    };
    let digits = if has_dot {
        (whole_end - from) + (fraction_end - (whole_end + 1))
    } else {
        whole_end - from
    };
    digits >= 1 && (fraction_end == text.len() || is_exponent(text, fraction_end))
}

/// Whether `text` stands for a number.
pub open spec fn is_float_literal(text: Seq<char>) -> bool {
    let from: int = if text.len() > 0 && is_sign(text[0]) {
        1
    } else {
        0
    };
    is_special(text, from) || is_number_body(text, from)
}

/// What a string literal holds: its lexeme without the quote at either end.
/// A lexeme too short to hold two quotes holds nothing.
pub open spec fn string_content(lexeme: Seq<char>) -> Seq<char> {
    if lexeme.len() >= 2 {
        lexeme.subrange(1, lexeme.len() - 1)
    } else {
        Seq::empty()
    }
}

/// A number as the language writes it stands for a number.
pub proof fn lemma_decimal_is_float_literal(text: Seq<char>)
    requires
        is_decimal(text),
    ensures
        is_float_literal(text),
{
    let len = text.len() as int;
    if text.len() > 0 && all_digits(text, 0, len) {
        lemma_digits_run(text, 0, len);
    } else {
        let dot = choose|dot: int| is_decimal_with_dot(text, dot);
        lemma_digits_run(text, 0, dot);
        lemma_digits_run(text, dot + 1, len);
    }
    assert(is_digit(text[0]));
    assert(is_number_body(text, 0));
}

fn skip_digits(chars: &Vec<char>, from: usize) -> (r: usize)
    requires
        from <= chars@.len(),
    ensures
        r == run_end(chars@, from as int, CharClass::Digit),
        from <= r <= chars@.len(),
{
    let mut i: usize = from;
    while i < chars.len() && CharClass::Digit.test(chars[i])
        invariant
            from <= i <= chars@.len(),
            run_end(chars@, i as int, CharClass::Digit) == run_end(
                chars@,
                from as int,
                CharClass::Digit,
            ),
        decreases chars@.len() - i,
    {
        i += 1;
    }
    i
}

fn capital_of(c: char) -> (r: char)
    ensures
        r == capital(c),
{
    if c == 'a' {
        'A'
    } else if c == 'e' {
        'E'
    } else if c == 'f' {
        'F'
    } else if c == 'i' {
        'I'
    } else if c == 'n' {
        'N'
    } else if c == 't' {
        'T'
    } else if c == 'y' {
        'Y'
    } else {
        c
    }
}

fn is_sign_char(c: char) -> (r: bool)
    ensures
        r == is_sign(c),
{
    c == '+' || c == '-'
}

fn spells_word_at(chars: &Vec<char>, from: usize, word: &str) -> (r: bool)
    requires
        from <= chars@.len(),
    ensures
        r == spells_word(chars@, from as int, word@),
{
    let n = word.unicode_len();
    let len = chars.len();
    if len - from != n {
        return false;
    }
    let mut i: usize = 0;
    while i < n
        invariant
            i <= n,
            n == word@.len(),
            len == chars@.len(),
            from + n == len,
            forall|j: int| 0 <= j < i ==> is_letter(#[trigger] chars@[from + j], word@[j]),
        decreases n - i,
    {
        let c = chars[from + i];
        let w = word.get_char(i);
        if !(c == w || c == capital_of(w)) {
            assert(!is_letter(chars@[from + i], word@[i as int]));
            return false;
        }
        i += 1;
    }
    true
}

fn is_exponent_at(chars: &Vec<char>, at: usize) -> (r: bool)
    requires
        at < chars@.len(),
    ensures
        r == is_exponent(chars@, at as int),
{
    let len = chars.len();
    if !(chars[at] == 'e' || chars[at] == 'E') {
        return false;
    }
    let digits: usize = if at + 1 < chars.len() && is_sign_char(chars[at + 1]) {
        at + 2
    } else {
        at + 1
    };
    if digits >= chars.len() {
        return false;
    }
    if !CharClass::Digit.test(chars[digits]) {
        return false;
    }
    skip_digits(chars, digits) == chars.len()
}

/// Whether `lexeme` stands for a number.
pub fn is_number(lexeme: &str) -> (r: bool)
    ensures
        r == is_float_literal(lexeme@),
{
    let chars = chars_of(lexeme);
    let from: usize = if chars.len() > 0 && is_sign_char(chars[0]) {
        1
    } else {
        0
    };
    if spells_word_at(&chars, from, "inf") || spells_word_at(&chars, from, "infinity")
        || spells_word_at(&chars, from, "nan") {
        return true;
    }
    let whole_end = skip_digits(&chars, from);
    let has_dot = whole_end < chars.len() && chars[whole_end] == '.';
    let fraction_end: usize = if has_dot {
        skip_digits(&chars, whole_end + 1)
    } else {
        whole_end
    };
    let digits: usize = if has_dot {
        (whole_end - from) + (fraction_end - (whole_end + 1))
    } else {
        whole_end - from
    };
    if digits < 1 {
        return false;
    }
    if fraction_end == chars.len() {
        return true;
    }
    is_exponent_at(&chars, fraction_end)
}

/// What the string literal `lexeme` holds.
pub fn string_literal(lexeme: &str) -> (r: String)
    ensures
        r@ == string_content(lexeme@),
{
    let n = lexeme.unicode_len();
    if n >= 2 {
        lexeme.substring_char(1, n - 1).to_owned()
    } else {
        String::new()
    }
}

} // verus!
