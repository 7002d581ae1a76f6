//! Character classes the lexer distinguishes.
use vstd::prelude::*;
use crate::lexer::types::CharClass;

verus! {

/// Whether `c` has the Unicode Alphabetic property (what `char::is_alphabetic`
/// returns).
pub uninterp spec fn char_is_alphabetic(c: char) -> bool;

/// Whether `c` has the Unicode White_Space property, which is what
/// `char::is_whitespace` and `str::trim` go by: the controls U+0009 to
/// U+000D, the space, U+0085, the no-break space U+00A0, U+1680, the spaces
/// U+2000 to U+200A, the separators U+2028 and U+2029, and U+202F, U+205F
/// and U+3000.
pub open spec fn char_is_whitespace(c: char) -> bool {
    ||| '\u{9}' <= c <= '\u{d}'
    ||| c == ' '
    ||| c == '\u{85}'
    ||| c == '\u{a0}'
    ||| c == '\u{1680}'
    ||| '\u{2000}' <= c <= '\u{200a}'
    ||| c == '\u{2028}'
    ||| c == '\u{2029}'
    ||| c == '\u{202f}'
    ||| c == '\u{205f}'
    ||| c == '\u{3000}'
}

/// An ASCII letter.
pub open spec fn is_ascii_letter(c: char) -> bool {
    ('a' <= c <= 'z') || ('A' <= c <= 'Z')
}

/// What `char::is_alphabetic` returns, with the two facts of the Unicode
/// Alphabetic property (DerivedCoreProperties, which its documentation
/// names) that the lexer relies on written out: among ASCII characters
/// exactly the letters are alphabetic, and no White_Space character is.
/// Beyond that it is the named property.
pub open spec fn alphabetic_class(c: char) -> bool {
    if c <= '\u{7f}' {
        is_ascii_letter(c)
    } else {
        !char_is_whitespace(c) && char_is_alphabetic(c)
    }
}

/// Calls `char::is_alphabetic`. The contract states its result as
/// [`alphabetic_class`] does: exact on ASCII and on whitespace, and the
/// named Unicode property elsewhere.
#[verifier::external_body]
fn alphabetic(c: char) -> (r: bool)
    ensures
        c <= '\u{7f}' ==> r == is_ascii_letter(c),
        char_is_whitespace(c) ==> !r,
        c > '\u{7f}' && !char_is_whitespace(c) ==> r == char_is_alphabetic(c),
{
    c.is_alphabetic()
}

/// Whether `c` is Unicode whitespace, as `char::is_whitespace` decides.
pub(crate) fn whitespace(c: char) -> (r: bool)
    ensures
        r == char_is_whitespace(c),
{
    ('\u{9}' <= c && c <= '\u{d}') || c == ' ' || c == '\u{85}' || c == '\u{a0}' || c == '\u{1680}'
        || ('\u{2000}' <= c && c <= '\u{200a}') || c == '\u{2028}' || c == '\u{2029}' || c
        == '\u{202f}' || c == '\u{205f}' || c == '\u{3000}'
}

pub open spec fn spec_is_digit_char(c: char) -> bool {
    '0' <= c && c <= '9'
}

pub open spec fn spec_is_number_start_char(c: char) -> bool {
    spec_is_digit_char(c) || c == '-' || c == '+'
}

pub open spec fn spec_is_number_char(c: char) -> bool {
    spec_is_digit_char(c) || c == '.' || c == 'e' || c == 'E' || c == '-' || c == '+'
}

/// The punctuation that may start a symbol: `!$%&*+-/:<=>?@^_~#`.
pub open spec fn spec_is_symbol_punct(c: char) -> bool {
    c == '!' || c == '$' || c == '%' || c == '&' || c == '*' || c == '+' || c == '-' || c == '/'
        || c == ':' || c == '<' || c == '=' || c == '>' || c == '?' || c == '@' || c == '^'
        || c == '_' || c == '~' || c == '#'
}

pub open spec fn spec_is_symbol_start_char(c: char) -> bool {
    alphabetic_class(c) || spec_is_symbol_punct(c)
}

pub open spec fn spec_is_symbol_char(c: char) -> bool {
    spec_is_symbol_start_char(c) || spec_is_digit_char(c)
}

pub open spec fn spec_is_whitespace_char(c: char) -> bool {
    char_is_whitespace(c) && c != '\n' && c != '\r'
}

pub open spec fn spec_is_newline_char(c: char) -> bool {
    c == '\n' || c == '\r'
}

pub open spec fn spec_is_delimiter_char(c: char) -> bool {
    spec_is_whitespace_char(c) || spec_is_newline_char(c) || c == '(' || c == ')' || c == '['
        || c == ']' || c == ';' || c == '"'
}

/// Whether `c` belongs to the class `cls`.
pub open spec fn class_holds(cls: CharClass, c: char) -> bool {
    match cls {
        CharClass::Newline => spec_is_newline_char(c),
        CharClass::Whitespace => spec_is_whitespace_char(c),
        CharClass::Sign => c == '+' || c == '-',
        CharClass::Digit => spec_is_digit_char(c),
        CharClass::SymbolStartNotSign => spec_is_symbol_start_char(c) && c != '+' && c != '-',
        CharClass::SymbolChar => spec_is_symbol_char(c),
        CharClass::ExponentMarker => c == 'e' || c == 'E',
        CharClass::NotQuoteOrBackslash => c != '"' && c != '\\',
        CharClass::Any => true,
        CharClass::NotNewline => !spec_is_newline_char(c),
        CharClass::Alphabetic => alphabetic_class(c),
        CharClass::NotAlphabeticNorDelimiter => !alphabetic_class(c) && !spec_is_delimiter_char(c),
    }
}

/// Whether `ch` is an ASCII digit.
pub fn is_digit_char(ch: char) -> (r: bool)
    ensures
        r == spec_is_digit_char(ch),
{
    '0' <= ch && ch <= '9'
}

/// Whether `ch` may start a number: a digit or a sign.
pub fn is_number_start_char(ch: char) -> (r: bool)
    ensures
        r == spec_is_number_start_char(ch),
{
    is_digit_char(ch) || ch == '-' || ch == '+'
}

/// Whether `ch` may occur in a number: a digit, a sign, `.`, `e` or `E`.
pub fn is_number_char(ch: char) -> (r: bool)
    ensures
        r == spec_is_number_char(ch),
{
    is_digit_char(ch) || ch == '.' || ch == 'e' || ch == 'E' || ch == '-' || ch == '+'
}

/// Whether `ch` may start a symbol: alphabetic, or one of `!$%&*+-/:<=>?@^_~#`.
pub fn is_symbol_start_char(ch: char) -> (r: bool)
    ensures
        r == spec_is_symbol_start_char(ch),
{
    alphabetic(ch) || ch == '!' || ch == '$' || ch == '%' || ch == '&' || ch == '*' || ch == '+'
        || ch == '-' || ch == '/' || ch == ':' || ch == '<' || ch == '=' || ch == '>' || ch == '?'
        || ch == '@' || ch == '^' || ch == '_' || ch == '~' || ch == '#'
}

/// Whether `ch` may continue a symbol: a symbol-start character or a digit.
pub fn is_symbol_char(ch: char) -> (r: bool)
    ensures
        r == spec_is_symbol_char(ch),
{
    is_symbol_start_char(ch) || is_digit_char(ch)
}

/// Whether `ch` is whitespace other than a line break.
pub fn is_whitespace_char(ch: char) -> (r: bool)
    ensures
        r == spec_is_whitespace_char(ch),
{
    whitespace(ch) && ch != '\n' && ch != '\r'
}

/// Whether `ch` is `\n` or `\r`.
pub fn is_newline_char(ch: char) -> (r: bool)
    ensures
        r == spec_is_newline_char(ch),
{
    ch == '\n' || ch == '\r'
}

/// Whether `ch` ends a token: whitespace, a line break, or one of `()[];"`.
pub fn is_delimiter_char(ch: char) -> (r: bool)
    ensures
        r == spec_is_delimiter_char(ch),
{
    is_whitespace_char(ch) || is_newline_char(ch) || ch == '(' || ch == ')' || ch == '['
        || ch == ']' || ch == ';' || ch == '"'
}

/// Whether `ch` belongs to the class `cls`.
pub fn class_matches(cls: CharClass, ch: char) -> (r: bool)
    ensures
        r == class_holds(cls, ch),
{
    match cls {
        CharClass::Newline => is_newline_char(ch),
        CharClass::Whitespace => is_whitespace_char(ch),
        CharClass::Sign => ch == '+' || ch == '-',
        CharClass::Digit => is_digit_char(ch),
        CharClass::SymbolStartNotSign => is_symbol_start_char(ch) && ch != '+' && ch != '-',
        CharClass::SymbolChar => is_symbol_char(ch),
        CharClass::ExponentMarker => ch == 'e' || ch == 'E',
        CharClass::NotQuoteOrBackslash => ch != '"' && ch != '\\',
        CharClass::Any => true,
        CharClass::NotNewline => !is_newline_char(ch),
        CharClass::Alphabetic => alphabetic(ch),
        CharClass::NotAlphabeticNorDelimiter => !alphabetic(ch) && !is_delimiter_char(ch),
    }
}

/// Whitespace and line breaks split Unicode whitespace: no character is
/// both, and a character is one or the other exactly when it is Unicode
/// whitespace (`\n` and `\r` being whitespace).
pub proof fn lemma_whitespace_newline_partition(c: char)
    ensures
        !(spec_is_whitespace_char(c) && spec_is_newline_char(c)),
        (spec_is_whitespace_char(c) || spec_is_newline_char(c)) == char_is_whitespace(c),
{
}

/// A delimiter is whitespace, a line break or one of `()[];"`, and it never
/// continues a symbol or a number.
pub proof fn lemma_delimiter_ends_tokens(c: char)
    ensures
        spec_is_delimiter_char(c) == (spec_is_whitespace_char(c) || spec_is_newline_char(c) || c
            == '(' || c == ')' || c == '[' || c == ']' || c == ';' || c == '"'),
        spec_is_delimiter_char(c) ==> !spec_is_symbol_char(c) && !spec_is_number_char(c),
{
}

} // verus!
