//! Texts describing tokens and lexical errors: the message of a lexical
//! error, and a structural text of token types and errors in the notation
//! of Rust's debug output (variant names with their payloads).
use vstd::prelude::*;
use crate::lexer::types::{
    LexError, LexErrorModel, LexErrorReason, LexErrorReasonModel, TokenType, TokenTypeModel,
    found_text_of,
};
use crate::text::{decimal, push_char, push_decimal, push_signed_decimal, push_str, signed_decimal};

verus! {

broadcast use vstd::string::group_string_axioms;

// ============================================================================
// Quoted text
// ============================================================================

/// How `c` is written inside a quoted literal: backslash escapes for the
/// backslash, line feed, carriage return, tab and NUL, and for the quote
/// that delimits the literal (`"` in strings, `'` in characters).
pub open spec fn quoted_char(c: char, in_string: bool) -> Seq<char> {
    if c == '\\' {
        seq!['\\', '\\']
    } else if c == '\n' {
        seq!['\\', 'n']
    } else if c == '\r' {
        seq!['\\', 'r']
    } else if c == '\t' {
        seq!['\\', 't']
    } else if c == '\0' {
        seq!['\\', '0']
    } else if c == '"' && in_string {
        seq!['\\', '"']
    } else if c == '\'' && !in_string {
        seq!['\\', '\'']
    } else {
        seq![c]
    }
}

/// The body of a quoted string literal for `s`.
pub open spec fn quoted_body(s: Seq<char>) -> Seq<char>
    decreases s.len(),
{
    if s.len() == 0 {
        seq![]
    } else {
        quoted_body(s.drop_last()) + quoted_char(s.last(), true)
    }
}

/// `s` as a quoted string literal.
pub open spec fn quoted_string(s: Seq<char>) -> Seq<char> {
    seq!['"'] + quoted_body(s) + seq!['"']
}

/// `c` as a quoted character literal.
pub open spec fn quoted_character(c: char) -> Seq<char> {
    seq!['\''] + quoted_char(c, false) + seq!['\'']
}

fn push_quoted_char(out: &mut String, c: char, in_string: bool)
    ensures
        final(out)@ == old(out)@ + quoted_char(c, in_string),
{
    if c == '\\' {
        push_char(out, '\\');
        push_char(out, '\\');
    } else if c == '\n' {
        push_char(out, '\\');
        push_char(out, 'n');
    } else if c == '\r' {
        push_char(out, '\\');
        push_char(out, 'r');
    } else if c == '\t' {
        push_char(out, '\\');
        push_char(out, 't');
    } else if c == '\0' {
        push_char(out, '\\');
        push_char(out, '0');
    } else if c == '"' && in_string {
        push_char(out, '\\');
        push_char(out, '"');
    } else if c == '\'' && !in_string {
        push_char(out, '\\');
        push_char(out, '\'');
    } else {
        push_char(out, c);
    }
    assert(out@ =~= old(out)@ + quoted_char(c, in_string));
}

/// Appends `s` as a quoted string literal.
pub fn push_quoted_string(out: &mut String, s: &str)
    ensures
        final(out)@ == old(out)@ + quoted_string(s@),
{
    let chars = crate::text::chars_of(s);
    push_char(out, '"');
    let ghost start = out@;
    let mut i: usize = 0;
    while i < chars.len()
        invariant
            i <= chars@.len(),
            chars@ == s@,
            out@ == start + quoted_body(chars@.take(i as int)),
        decreases chars@.len() - i,
    {
        let ghost before = out@;
        push_quoted_char(out, chars[i], true);
        assert(chars@.take(i + 1).drop_last() =~= chars@.take(i as int));
        assert(out@ =~= start + quoted_body(chars@.take(i + 1)));
        i = i + 1;
    }
    assert(chars@.take(chars@.len() as int) =~= chars@);
    push_char(out, '"');
    assert(out@ =~= old(out)@ + quoted_string(s@));
}

/// Appends `c` as a quoted character literal.
pub fn push_quoted_character(out: &mut String, c: char)
    ensures
        final(out)@ == old(out)@ + quoted_character(c),
{
    push_char(out, '\'');
    push_quoted_char(out, c, false);
    push_char(out, '\'');
    assert(out@ =~= old(out)@ + quoted_character(c));
}

// ============================================================================
// Token types
// ============================================================================

/// `name(payload)`.
pub open spec fn with_payload(name: Seq<char>, payload: Seq<char>) -> Seq<char> {
    name + seq!['('] + payload + seq![')']
}

/// The structural text of a token type: its variant name, followed by its
/// payload in parentheses (numbers as written, strings and characters
/// quoted, booleans as `true`/`false`).
pub open spec fn token_type_text(t: TokenTypeModel) -> Seq<char> {
    match t {
        TokenTypeModel::Integer(n) => with_payload("Integer"@, signed_decimal(n as int)),
        TokenTypeModel::Float(text) => with_payload("Float"@, text),
        TokenTypeModel::String(s) => with_payload("String"@, quoted_string(s)),
        TokenTypeModel::Character(c) => with_payload("Character"@, quoted_character(c)),
        TokenTypeModel::Boolean(b) => with_payload(
            "Boolean"@,
            if b {
                "true"@
            } else {
                "false"@
            },
        ),
        TokenTypeModel::Symbol(s) => with_payload("Symbol"@, quoted_string(s)),
        TokenTypeModel::LeftParen => "LeftParen"@,
        TokenTypeModel::RightParen => "RightParen"@,
        TokenTypeModel::LeftBracket => "LeftBracket"@,
        TokenTypeModel::RightBracket => "RightBracket"@,
        TokenTypeModel::Quote => "Quote"@,
        TokenTypeModel::Quasiquote => "Quasiquote"@,
        TokenTypeModel::Unquote => "Unquote"@,
        TokenTypeModel::UnquoteSplicing => "UnquoteSplicing"@,
        TokenTypeModel::Dot => "Dot"@,
        TokenTypeModel::VectorStart => "VectorStart"@,
        TokenTypeModel::Whitespace(s) => with_payload("Whitespace"@, quoted_string(s)),
        TokenTypeModel::Newline => "Newline"@,
        TokenTypeModel::Comment(s) => with_payload("Comment"@, quoted_string(s)),
        TokenTypeModel::Eof => "Eof"@,
    }
}

impl TokenType {
    /// The structural text of this token type (see [`token_type_text`]).
    pub fn describe(&self) -> (s: String)
        ensures
            s@ == token_type_text(self@),
    {
        let mut s = String::new();
        match self {
            TokenType::Integer(n) => {
                push_str(&mut s, "Integer");
                push_char(&mut s, '(');
                push_signed_decimal(&mut s, *n);
                push_char(&mut s, ')');
            },
            TokenType::Float(text) => {
                push_str(&mut s, "Float");
                push_char(&mut s, '(');
                push_str(&mut s, text.as_str());
                push_char(&mut s, ')');
            },
            TokenType::String(t) => {
                push_str(&mut s, "String");
                push_char(&mut s, '(');
                push_quoted_string(&mut s, t.as_str());
                push_char(&mut s, ')');
            },
            TokenType::Character(c) => {
                push_str(&mut s, "Character");
                push_char(&mut s, '(');
                push_quoted_character(&mut s, *c);
                push_char(&mut s, ')');
            },
            TokenType::Boolean(b) => {
                push_str(&mut s, "Boolean");
                push_char(&mut s, '(');
                push_str(&mut s, if *b { "true" } else { "false" });
                push_char(&mut s, ')');
            },
            TokenType::Symbol(t) => {
                push_str(&mut s, "Symbol");
                push_char(&mut s, '(');
                push_quoted_string(&mut s, t.as_str());
                push_char(&mut s, ')');
            },
            TokenType::LeftParen => push_str(&mut s, "LeftParen"),
            TokenType::RightParen => push_str(&mut s, "RightParen"),
            TokenType::LeftBracket => push_str(&mut s, "LeftBracket"),
            TokenType::RightBracket => push_str(&mut s, "RightBracket"),
            TokenType::Quote => push_str(&mut s, "Quote"),
            TokenType::Quasiquote => push_str(&mut s, "Quasiquote"),
            TokenType::Unquote => push_str(&mut s, "Unquote"),
            TokenType::UnquoteSplicing => push_str(&mut s, "UnquoteSplicing"),
            TokenType::Dot => push_str(&mut s, "Dot"),
            TokenType::VectorStart => push_str(&mut s, "VectorStart"),
            TokenType::Whitespace(t) => {
                push_str(&mut s, "Whitespace");
                push_char(&mut s, '(');
                push_quoted_string(&mut s, t.as_str());
                push_char(&mut s, ')');
            },
            TokenType::Newline => push_str(&mut s, "Newline"),
            TokenType::Comment(t) => {
                push_str(&mut s, "Comment");
                push_char(&mut s, '(');
                push_quoted_string(&mut s, t.as_str());
                push_char(&mut s, ')');
            },
            TokenType::Eof => push_str(&mut s, "Eof"),
        }
        assert(s@ =~= token_type_text(self@));
        s
    }
}

// ============================================================================
// Lexical errors
// ============================================================================

/// The structural text of the reason of a lexical error.
pub open spec fn reason_text(r: LexErrorReasonModel) -> Seq<char> {
    match r {
        LexErrorReasonModel::InvalidNumber { partial_text } => "InvalidNumber { partial_text: "@
            + quoted_string(partial_text) + " }"@,
        LexErrorReasonModel::UnterminatedString => "UnterminatedString"@,
        LexErrorReasonModel::InvalidEscape { escape_char } => "InvalidEscape { escape_char: "@
            + quoted_character(escape_char) + " }"@,
        LexErrorReasonModel::InvalidCharacter => "InvalidCharacter"@,
        LexErrorReasonModel::UnexpectedEof { expected } => "UnexpectedEof { expected: "@
            + quoted_string(expected) + " }"@,
        LexErrorReasonModel::Other(m) => with_payload("Other"@, quoted_string(m)),
    }
}

/// The structural text of a lexical error:
/// `LexError { position: p, found_char: Some('c'), reason: r }`.
pub open spec fn lex_error_text(e: LexErrorModel) -> Seq<char> {
    "LexError { position: "@ + decimal(e.position as nat) + ", found_char: "@ + match e.found_char {
        Some(c) => with_payload("Some"@, quoted_character(c)),
        None => "None"@,
    } + ", reason: "@ + reason_text(e.reason) + " }"@
}

/// The message of a lexical error: what went wrong, the text involved,
/// and the position.
pub open spec fn lex_error_message(e: LexErrorModel) -> Seq<char> {
    let at = " at position "@ + decimal(e.position as nat);
    match e.reason {
        LexErrorReasonModel::InvalidNumber { partial_text } => "Invalid number '"@ + partial_text
            + seq!['\''] + at,
        LexErrorReasonModel::UnterminatedString => "Unterminated string"@ + at,
        LexErrorReasonModel::InvalidEscape { escape_char } => "Invalid escape character '"@
            + seq![escape_char] + seq!['\''] + at,
        LexErrorReasonModel::InvalidCharacter => "Invalid character '"@ + found_text_of(
            e.found_char,
        ) + seq!['\''] + at,
        LexErrorReasonModel::UnexpectedEof { expected } => "Unexpected end of file (expected '"@
            + expected + "')"@ + at,
        LexErrorReasonModel::Other(m) => m + at,
    }
}

impl LexErrorReason {
    /// The structural text of this reason (see [`reason_text`]).
    pub fn describe(&self) -> (s: String)
        ensures
            s@ == reason_text(self@),
    {
        let mut s = String::new();
        match self {
            LexErrorReason::InvalidNumber { partial_text } => {
                push_str(&mut s, "InvalidNumber { partial_text: ");
                push_quoted_string(&mut s, partial_text.as_str());
                push_str(&mut s, " }");
            },
            LexErrorReason::UnterminatedString => push_str(&mut s, "UnterminatedString"),
            LexErrorReason::InvalidEscape { escape_char } => {
                push_str(&mut s, "InvalidEscape { escape_char: ");
                push_quoted_character(&mut s, *escape_char);
                push_str(&mut s, " }");
            },
            LexErrorReason::InvalidCharacter => push_str(&mut s, "InvalidCharacter"),
            LexErrorReason::UnexpectedEof { expected } => {
                push_str(&mut s, "UnexpectedEof { expected: ");
                push_quoted_string(&mut s, expected.as_str());
                push_str(&mut s, " }");
            },
            LexErrorReason::Other(m) => {
                push_str(&mut s, "Other");
                push_char(&mut s, '(');
                push_quoted_string(&mut s, m.as_str());
                push_char(&mut s, ')');
            },
        }
        assert(s@ =~= reason_text(self@));
        s
    }
}

impl LexError {
    /// The structural text of this error (see [`lex_error_text`]).
    pub fn describe(&self) -> (s: String)
        ensures
            s@ == lex_error_text(self@),
    {
        let mut s = String::new();
        push_str(&mut s, "LexError { position: ");
        push_decimal(&mut s, self.position as u64);
        push_str(&mut s, ", found_char: ");
        match self.found_char {
            Some(c) => {
                push_str(&mut s, "Some");
                push_char(&mut s, '(');
                push_quoted_character(&mut s, c);
                push_char(&mut s, ')');
            },
            None => push_str(&mut s, "None"),
        }
        push_str(&mut s, ", reason: ");
        let r = self.reason.describe();
        push_str(&mut s, r.as_str());
        push_str(&mut s, " }");
        assert(s@ =~= lex_error_text(self@));
        s
    }

    /// The message of this error (see [`lex_error_message`]).
    pub fn message(&self) -> (s: String)
        ensures
            s@ == lex_error_message(self@),
    {
        let mut s = String::new();
        match &self.reason {
            LexErrorReason::InvalidNumber { partial_text } => {
                push_str(&mut s, "Invalid number '");
                push_str(&mut s, partial_text.as_str());
                push_char(&mut s, '\'');
            },
            LexErrorReason::UnterminatedString => push_str(&mut s, "Unterminated string"),
            LexErrorReason::InvalidEscape { escape_char } => {
                push_str(&mut s, "Invalid escape character '");
                push_char(&mut s, *escape_char);
                push_char(&mut s, '\'');
            },
            LexErrorReason::InvalidCharacter => {
                push_str(&mut s, "Invalid character '");
                let found = self.found_text();
                push_str(&mut s, found.as_str());
                push_char(&mut s, '\'');
            },
            LexErrorReason::UnexpectedEof { expected } => {
                push_str(&mut s, "Unexpected end of file (expected '");
                push_str(&mut s, expected.as_str());
                push_str(&mut s, "')");
            },
            LexErrorReason::Other(m) => push_str(&mut s, m.as_str()),
        }
        push_str(&mut s, " at position ");
        push_decimal(&mut s, self.position as u64);
        assert(s@ =~= lex_error_message(self@));
        s
    }
}

} // verus!
