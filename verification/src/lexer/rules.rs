//! The token builders the state machine calls, and the rules of the Scheme
//! lexer's state machine.
use vstd::prelude::*;
use crate::lexer::types::{
    CharClass, LexError, LexErrorModel, LexErrorReason, LexErrorReasonModel, Pattern, StateAction,
    StateMachine, StateMachineModel, Token, TokenEmitter, TokenModel, TokenType, TokenTypeModel,
    TransitionRule, token_from_text,
};
use crate::lexer::number::{
    float_syntax_ok, float_syntax_ok_chars, parse_i64, parse_i64_chars, trim, trim_chars,
};
use crate::text::{chars_eq, chars_of, chars_subrange, contains_char, string_of};

verus! {

// ============================================================================
// State numbers
// ============================================================================

pub const STATE_INITIAL: usize = 0;
pub const STATE_NUMBER: usize = 1;
pub const STATE_STRING: usize = 2;
pub const STATE_STRING_ESCAPE: usize = 3;
pub const STATE_SYMBOL: usize = 4;
pub const STATE_COMMENT: usize = 5;
pub const STATE_WHITESPACE: usize = 6;
pub const STATE_CHARACTER: usize = 7;
pub const STATE_NUMBER_SIGN: usize = 8;
pub const STATE_NUMBER_DECIMAL: usize = 9;
pub const STATE_NUMBER_EXP: usize = 10;
pub const STATE_NUMBER_EXP_SIGN: usize = 11;

// ============================================================================
// Models of token building
// ============================================================================

/// Model of the result of building a token.
pub open spec fn token_result_model(r: Result<Token, LexError>) -> Result<TokenModel, LexErrorModel> {
    match r {
        Ok(t) => Ok(t@),
        Err(e) => Err(e@),
    }
}

pub open spec fn lex_error(position: usize, found_char: Option<char>, reason: LexErrorReasonModel) -> LexErrorModel {
    LexErrorModel { position, found_char, reason }
}

pub open spec fn first_char(s: Seq<char>) -> Option<char> {
    if s.len() > 0 {
        Some(s[0])
    } else {
        None
    }
}

/// The character an escape `\c` stands for.
pub open spec fn escape_value(c: char) -> Option<char> {
    if c == 'n' {
        Some('\n')
    } else if c == 't' {
        Some('\t')
    } else if c == 'r' {
        Some('\r')
    } else if c == '\\' {
        Some('\\')
    } else if c == '"' {
        Some('"')
    } else {
        None
    }
}

/// The text of a string literal's body with its escapes replaced, or the
/// error at the first bad escape.
pub open spec fn unescape(content: Seq<char>, position: usize) -> Result<Seq<char>, LexErrorModel>
    decreases content.len(),
{
    if content.len() == 0 {
        Ok(seq![])
    } else if content[0] == '\\' {
        if content.len() == 1 {
            Err(lex_error(position, None, LexErrorReasonModel::UnterminatedString))
        } else {
            match escape_value(content[1]) {
                Some(c) => match unescape(content.skip(2), position) {
                    Ok(rest) => Ok(seq![c] + rest),
                    Err(e) => Err(e),
                },
                None => Err(
                    lex_error(
                        position,
                        Some(content[1]),
                        LexErrorReasonModel::InvalidEscape { escape_char: content[1] },
                    ),
                ),
            }
        }
    } else {
        match unescape(content.skip(1), position) {
            Ok(rest) => Ok(seq![content[0]] + rest),
            Err(e) => Err(e),
        }
    }
}

pub open spec fn invalid_number(raw: Seq<char>, position: usize) -> LexErrorModel {
    lex_error(position, None, LexErrorReasonModel::InvalidNumber { partial_text: raw })
}

pub open spec fn has_float_marker(t: Seq<char>) -> bool {
    t.contains('.') || t.contains('e') || t.contains('E')
}

/// A number token: text with a decimal point or exponent marker must be a
/// floating-point literal; other text is an `i64` if it reads as one, and
/// otherwise a floating-point literal (such as a too large integer).
pub open spec fn number_token(raw: Seq<char>, position: usize) -> Result<TokenModel, LexErrorModel> {
    let text = trim(raw);
    if has_float_marker(text) {
        if float_syntax_ok(text) {
            Ok(token_from_text(TokenTypeModel::Float(text), raw, position as int))
        } else {
            Err(invalid_number(raw, position))
        }
    } else {
        match parse_i64(text) {
            Some(v) => Ok(token_from_text(TokenTypeModel::Integer(v), raw, position as int)),
            None => if float_syntax_ok(text) {
                Ok(token_from_text(TokenTypeModel::Float(text), raw, position as int))
            } else {
                Err(invalid_number(raw, position))
            },
        }
    }
}

/// A string token: the text must be enclosed in double quotes, and the
/// body's escapes must be valid.
pub open spec fn string_token(raw: Seq<char>, position: usize) -> Result<TokenModel, LexErrorModel> {
    if raw.len() < 2 || raw[0] != '"' || raw.last() != '"' {
        Err(lex_error(position, None, LexErrorReasonModel::UnterminatedString))
    } else {
        match unescape(raw.subrange(1, raw.len() - 1), position) {
            Ok(s) => Ok(token_from_text(TokenTypeModel::String(s), raw, position as int)),
            Err(e) => Err(e),
        }
    }
}

/// A symbol token, or a boolean for `#t`, `#true`, `#f` and `#false`.
pub open spec fn symbol_token(raw: Seq<char>, position: usize) -> TokenModel {
    if raw == seq!['#', 't'] || raw == seq!['#', 't', 'r', 'u', 'e'] {
        token_from_text(TokenTypeModel::Boolean(true), raw, position as int)
    } else if raw == seq!['#', 'f'] || raw == seq!['#', 'f', 'a', 'l', 's', 'e'] {
        token_from_text(TokenTypeModel::Boolean(false), raw, position as int)
    } else {
        token_from_text(TokenTypeModel::Symbol(raw), raw, position as int)
    }
}

/// The character a `#\` literal names: `space`, `newline`, `tab`, `return`,
/// or a single character.
pub open spec fn character_name(part: Seq<char>) -> Option<char> {
    if part == seq!['s', 'p', 'a', 'c', 'e'] {
        Some(' ')
    } else if part == seq!['n', 'e', 'w', 'l', 'i', 'n', 'e'] {
        Some('\n')
    } else if part == seq!['t', 'a', 'b'] {
        Some('\t')
    } else if part == seq!['r', 'e', 't', 'u', 'r', 'n'] {
        Some('\r')
    } else if part.len() == 1 {
        Some(part[0])
    } else {
        None
    }
}

pub open spec fn character_token(raw: Seq<char>, position: usize) -> Result<TokenModel, LexErrorModel> {
    if raw.len() < 2 || raw[0] != '#' || raw[1] != '\\' {
        Err(lex_error(position, first_char(raw), LexErrorReasonModel::InvalidCharacter))
    } else {
        match character_name(raw.skip(2)) {
            Some(c) => Ok(token_from_text(TokenTypeModel::Character(c), raw, position as int)),
            None => Err(lex_error(position, first_char(raw), LexErrorReasonModel::InvalidCharacter)),
        }
    }
}

/// A comment's text without its leading `;`.
pub open spec fn comment_text(raw: Seq<char>) -> Seq<char> {
    if raw.len() > 0 && raw[0] == ';' {
        raw.skip(1)
    } else {
        raw
    }
}

/// What the token builder `e` returns for the text `raw` read at `position`.
pub open spec fn spec_emit(e: TokenEmitter, raw: Seq<char>, position: usize) -> Result<TokenModel, LexErrorModel> {
    let p = position as int;
    match e {
        TokenEmitter::Number => number_token(raw, position),
        TokenEmitter::String => string_token(raw, position),
        TokenEmitter::Symbol => Ok(symbol_token(raw, position)),
        TokenEmitter::Comment => Ok(token_from_text(TokenTypeModel::Comment(comment_text(raw)), raw, p)),
        TokenEmitter::Whitespace => Ok(token_from_text(TokenTypeModel::Whitespace(raw), raw, p)),
        TokenEmitter::Newline => Ok(token_from_text(TokenTypeModel::Newline, raw, p)),
        TokenEmitter::LeftParen => Ok(token_from_text(TokenTypeModel::LeftParen, raw, p)),
        TokenEmitter::RightParen => Ok(token_from_text(TokenTypeModel::RightParen, raw, p)),
        TokenEmitter::LeftBracket => Ok(token_from_text(TokenTypeModel::LeftBracket, raw, p)),
        TokenEmitter::RightBracket => Ok(token_from_text(TokenTypeModel::RightBracket, raw, p)),
        TokenEmitter::Quote => Ok(token_from_text(TokenTypeModel::Quote, raw, p)),
        TokenEmitter::Quasiquote => Ok(token_from_text(TokenTypeModel::Quasiquote, raw, p)),
        TokenEmitter::UnquoteSplicing => Ok(token_from_text(TokenTypeModel::UnquoteSplicing, raw, p)),
        TokenEmitter::Unquote => Ok(token_from_text(TokenTypeModel::Unquote, raw, p)),
        TokenEmitter::Dot => Ok(token_from_text(TokenTypeModel::Dot, raw, p)),
        TokenEmitter::VectorStart => Ok(token_from_text(TokenTypeModel::VectorStart, raw, p)),
        TokenEmitter::Character => character_token(raw, position),
        TokenEmitter::Eof => Ok(token_from_text(TokenTypeModel::Eof, seq![], p)),
        TokenEmitter::Error => Err(lex_error(position, first_char(raw), LexErrorReasonModel::InvalidCharacter)),
        TokenEmitter::UnterminatedString => Err(lex_error(position, None, LexErrorReasonModel::UnterminatedString)),
    }
}

// ============================================================================
// Token builders
// ============================================================================

/// The token of type `tt` read from `raw` at `start`.
pub fn token_of_chars(tt: TokenType, raw: &[char], start: usize) -> (t: Token)
    requires
        start + raw@.len() <= usize::MAX,
    ensures
        t@ == token_from_text(tt@, raw@, start as int),
{
    let n = raw.len();
    Token::new(tt, crate::lexer::types::Span::from_char_range(start, n), string_of(raw))
}

/// Replaces the escapes `\n`, `\t`, `\r`, `\\` and `\"` in a string
/// literal's body; fails on any other escape and on a trailing `\`.
pub fn process_string_escapes(content: &str, position: usize) -> (r: Result<String, LexError>)
    ensures
        match r {
            Ok(s) => unescape(content@, position) == Ok::<Seq<char>, LexErrorModel>(s@),
            Err(e) => unescape(content@, position) == Err::<Seq<char>, LexErrorModel>(e@),
        },
{
    let chars = chars_of(content);
    match unescape_chars(&chars, position) {
        Ok(v) => Ok(string_of(&v)),
        Err(e) => Err(e),
    }
}

proof fn lemma_unescape_step(content: Seq<char>, i: int, position: usize)
    requires
        0 <= i < content.len(),
        content[i] != '\\',
    ensures
        unescape(content.skip(i), position) == match unescape(content.skip(i + 1), position) {
            Ok(rest) => Ok(seq![content[i]] + rest),
            Err(e) => Err(e),
        },
{
    assert(content.skip(i).skip(1) =~= content.skip(i + 1));
}

proof fn lemma_unescape_escape(content: Seq<char>, i: int, position: usize)
    requires
        0 <= i < content.len() - 1,
        content[i] == '\\',
    ensures
        unescape(content.skip(i), position) == match escape_value(content[i + 1]) {
            Some(c) => match unescape(content.skip(i + 2), position) {
                Ok(rest) => Ok(seq![c] + rest),
                Err(e) => Err(e),
            },
            None => Err(
                lex_error(
                    position,
                    Some(content[i + 1]),
                    LexErrorReasonModel::InvalidEscape { escape_char: content[i + 1] },
                ),
            ),
        },
{
    assert(content.skip(i).skip(2) =~= content.skip(i + 2));
    assert(content.skip(i)[1] == content[i + 1]);
}

/// [`process_string_escapes`] on a character sequence.
pub fn unescape_chars(content: &[char], position: usize) -> (r: Result<Vec<char>, LexError>)
    ensures
        match r {
            Ok(s) => unescape(content@, position) == Ok::<Seq<char>, LexErrorModel>(s@),
            Err(e) => unescape(content@, position) == Err::<Seq<char>, LexErrorModel>(e@),
        },
{
    let n = content.len();
    let mut out: Vec<char> = Vec::new();
    let mut i: usize = 0;
    assert(content@.skip(0) =~= content@);
    while i < n
        invariant
            i <= n == content@.len(),
            unescape(content@, position) == match unescape(content@.skip(i as int), position) {
                Ok(rest) => Ok(out@ + rest),
                Err(e) => Err(e),
            },
        decreases n - i,
    {
        let ch = content[i];
        if ch == '\\' {
            if i + 1 == n {
                assert(content@.skip(i as int).len() == 1);
                return Err(LexError::new(position, None, LexErrorReason::UnterminatedString));
            }
            let e = content[i + 1];
            proof {
                lemma_unescape_escape(content@, i as int, position);
            }
            let c = if e == 'n' {
                '\n'
            } else if e == 't' {
                '\t'
            } else if e == 'r' {
                '\r'
            } else if e == '\\' {
                '\\'
            } else if e == '"' {
                '"'
            } else {
                return Err(
                    LexError::new(position, Some(e), LexErrorReason::InvalidEscape { escape_char: e }),
                );
            };
            let ghost before = out@;
            out.push(c);
            proof {
                match unescape(content@.skip(i + 2), position) {
                    Ok(rest) => {
                        assert(before + (seq![c] + rest) =~= out@ + rest);
                    },
                    Err(_) => {},
                }
            }
            i = i + 2;
        } else {
            proof {
                lemma_unescape_step(content@, i as int, position);
            }
            let ghost before = out@;
            out.push(ch);
            proof {
                match unescape(content@.skip(i + 1), position) {
                    Ok(rest) => {
                        assert(before + (seq![ch] + rest) =~= out@ + rest);
                    },
                    Err(_) => {},
                }
            }
            i = i + 1;
        }
    }
    assert(content@.skip(n as int) =~= Seq::<char>::empty());
    assert(out@ + Seq::<char>::empty() =~= out@);
    Ok(out)
}

/// Builds the token the emitter `e` makes of the text `raw` read at
/// `position`.
pub fn emit_chars(e: TokenEmitter, raw: &[char], position: usize) -> (r: Result<Token, LexError>)
    requires
        position + raw@.len() <= usize::MAX,
    ensures
        token_result_model(r) == spec_emit(e, raw@, position),
{
    match e {
        TokenEmitter::Number => parse_number(raw, position),
        TokenEmitter::String => string_chars(raw, position),
        TokenEmitter::Symbol => Ok(symbol_chars(raw, position)),
        TokenEmitter::Comment => {
            let text = if raw.len() > 0 && raw[0] == ';' {
                chars_subrange(raw, 1, raw.len())
            } else {
                chars_subrange(raw, 0, raw.len())
            };
            assert(raw@.subrange(0, raw@.len() as int) =~= raw@);
            assert(raw@.subrange(1, raw@.len() as int) =~= raw@.skip(1));
            Ok(token_of_chars(TokenType::Comment(string_of(&text)), raw, position))
        },
        TokenEmitter::Whitespace => Ok(token_of_chars(TokenType::Whitespace(string_of(raw)), raw, position)),
        TokenEmitter::Newline => Ok(token_of_chars(TokenType::Newline, raw, position)),
        TokenEmitter::LeftParen => Ok(token_of_chars(TokenType::LeftParen, raw, position)),
        TokenEmitter::RightParen => Ok(token_of_chars(TokenType::RightParen, raw, position)),
        TokenEmitter::LeftBracket => Ok(token_of_chars(TokenType::LeftBracket, raw, position)),
        TokenEmitter::RightBracket => Ok(token_of_chars(TokenType::RightBracket, raw, position)),
        TokenEmitter::Quote => Ok(token_of_chars(TokenType::Quote, raw, position)),
        TokenEmitter::Quasiquote => Ok(token_of_chars(TokenType::Quasiquote, raw, position)),
        TokenEmitter::UnquoteSplicing => Ok(token_of_chars(TokenType::UnquoteSplicing, raw, position)),
        TokenEmitter::Unquote => Ok(token_of_chars(TokenType::Unquote, raw, position)),
        TokenEmitter::Dot => Ok(token_of_chars(TokenType::Dot, raw, position)),
        TokenEmitter::VectorStart => Ok(token_of_chars(TokenType::VectorStart, raw, position)),
        TokenEmitter::Character => character_chars(raw, position),
        TokenEmitter::Eof => {
            let empty: Vec<char> = Vec::new();
            Ok(token_of_chars(TokenType::Eof, &empty, position))
        },
        TokenEmitter::Error => {
            let found = if raw.len() > 0 {
                Some(raw[0])
            } else {
                None
            };
            Err(LexError::new(position, found, LexErrorReason::InvalidCharacter))
        },
        TokenEmitter::UnterminatedString => Err(LexError::new(position, None, LexErrorReason::UnterminatedString)),
    }
}

/// Reads a number literal: trimmed text with a `.`, `e` or `E` must be a
/// float literal (kept as text); other text is an `i64`, or else a float
/// literal such as `inf`; anything else is an invalid number.
fn parse_number(raw: &[char], position: usize) -> (r: Result<Token, LexError>)
    requires
        position + raw@.len() <= usize::MAX,
    ensures
        token_result_model(r) == number_token(raw@, position),
{
    let text = trim_chars(raw);
    let has_float = contains_char(&text, '.') || contains_char(&text, 'e') || contains_char(&text, 'E');
    if has_float {
        if float_syntax_ok_chars(&text) {
            Ok(token_of_chars(TokenType::Float(string_of(&text)), raw, position))
        } else {
            Err(LexError::new(position, None, LexErrorReason::InvalidNumber { partial_text: string_of(raw) }))
        }
    } else {
        match parse_i64_chars(&text) {
            Some(v) => Ok(token_of_chars(TokenType::Integer(v), raw, position)),
            None => {
                if float_syntax_ok_chars(&text) {
                    Ok(token_of_chars(TokenType::Float(string_of(&text)), raw, position))
                } else {
                    Err(
                        LexError::new(
                            position,
                            None,
                            LexErrorReason::InvalidNumber { partial_text: string_of(raw) },
                        ),
                    )
                }
            },
        }
    }
}

fn string_chars(raw: &[char], position: usize) -> (r: Result<Token, LexError>)
    requires
        position + raw@.len() <= usize::MAX,
    ensures
        token_result_model(r) == string_token(raw@, position),
{
    let n = raw.len();
    if n < 2 || raw[0] != '"' || raw[n - 1] != '"' {
        return Err(LexError::new(position, None, LexErrorReason::UnterminatedString));
    }
    let content = chars_subrange(raw, 1, n - 1);
    match unescape_chars(&content, position) {
        Ok(s) => Ok(token_of_chars(TokenType::String(string_of(&s)), raw, position)),
        Err(e) => Err(e),
    }
}

fn symbol_chars(raw: &[char], position: usize) -> (t: Token)
    requires
        position + raw@.len() <= usize::MAX,
    ensures
        t@ == symbol_token(raw@, position),
{
    let t_short = vec!['#', 't'];
    let t_long = vec!['#', 't', 'r', 'u', 'e'];
    let f_short = vec!['#', 'f'];
    let f_long = vec!['#', 'f', 'a', 'l', 's', 'e'];
    assert(t_short@ =~= seq!['#', 't']);
    assert(t_long@ =~= seq!['#', 't', 'r', 'u', 'e']);
    assert(f_short@ =~= seq!['#', 'f']);
    assert(f_long@ =~= seq!['#', 'f', 'a', 'l', 's', 'e']);
    if chars_eq(raw, &t_short) || chars_eq(raw, &t_long) {
        token_of_chars(TokenType::Boolean(true), raw, position)
    } else if chars_eq(raw, &f_short) || chars_eq(raw, &f_long) {
        token_of_chars(TokenType::Boolean(false), raw, position)
    } else {
        token_of_chars(TokenType::Symbol(string_of(raw)), raw, position)
    }
}

fn character_chars(raw: &[char], position: usize) -> (r: Result<Token, LexError>)
    requires
        position + raw@.len() <= usize::MAX,
    ensures
        token_result_model(r) == character_token(raw@, position),
{
    let n = raw.len();
    let found = if n > 0 {
        Some(raw[0])
    } else {
        None
    };
    if n < 2 || raw[0] != '#' || raw[1] != '\\' {
        return Err(LexError::new(position, found, LexErrorReason::InvalidCharacter));
    }
    let part = chars_subrange(raw, 2, n);
    assert(part@ =~= raw@.skip(2));
    let space = vec!['s', 'p', 'a', 'c', 'e'];
    let newline = vec!['n', 'e', 'w', 'l', 'i', 'n', 'e'];
    let tab = vec!['t', 'a', 'b'];
    let ret = vec!['r', 'e', 't', 'u', 'r', 'n'];
    assert(space@ =~= seq!['s', 'p', 'a', 'c', 'e']);
    assert(newline@ =~= seq!['n', 'e', 'w', 'l', 'i', 'n', 'e']);
    assert(tab@ =~= seq!['t', 'a', 'b']);
    assert(ret@ =~= seq!['r', 'e', 't', 'u', 'r', 'n']);
    let c = if chars_eq(&part, &space) {
        ' '
    } else if chars_eq(&part, &newline) {
        '\n'
    } else if chars_eq(&part, &tab) {
        '\t'
    } else if chars_eq(&part, &ret) {
        '\r'
    } else if part.len() == 1 {
        part[0]
    } else {
        return Err(LexError::new(position, found, LexErrorReason::InvalidCharacter));
    };
    Ok(token_of_chars(TokenType::Character(c), raw, position))
}

/// Builds the token the emitter `e` makes of `raw_text` read at `position`.
fn emit_str(e: TokenEmitter, raw_text: &str, position: usize) -> (r: Result<Token, LexError>)
    requires
        position + raw_text@.len() <= usize::MAX,
    ensures
        token_result_model(r) == spec_emit(e, raw_text@, position),
{
    let raw = chars_of(raw_text);
    emit_chars(e, &raw, position)
}

/// A number token: an `Integer` if the text reads as an `i64` and has no
/// `.`, `e` or `E`; otherwise a `Float` if `f64` parsing accepts the text;
/// otherwise an `InvalidNumber` error.
pub fn emit_number(raw_text: &str, position: usize) -> (r: Result<Token, LexError>)
    requires
        position + raw_text@.len() <= usize::MAX,
    ensures
        token_result_model(r) == number_token(raw_text@, position),
{
    emit_str(TokenEmitter::Number, raw_text, position)
}

/// A string token from a quoted literal, with its escapes replaced.
pub fn emit_string(raw_text: &str, position: usize) -> (r: Result<Token, LexError>)
    requires
        position + raw_text@.len() <= usize::MAX,
    ensures
        token_result_model(r) == string_token(raw_text@, position),
{
    emit_str(TokenEmitter::String, raw_text, position)
}

/// A symbol token, or a boolean for `#t`, `#true`, `#f`, `#false`.
pub fn emit_symbol(raw_text: &str, position: usize) -> (r: Result<Token, LexError>)
    requires
        position + raw_text@.len() <= usize::MAX,
    ensures
        token_result_model(r) == Ok::<TokenModel, LexErrorModel>(symbol_token(raw_text@, position)),
{
    emit_str(TokenEmitter::Symbol, raw_text, position)
}

/// A comment token; its text drops the leading `;`.
pub fn emit_comment(raw_text: &str, position: usize) -> (r: Result<Token, LexError>)
    requires
        position + raw_text@.len() <= usize::MAX,
    ensures
        token_result_model(r) == spec_emit(TokenEmitter::Comment, raw_text@, position),
{
    emit_str(TokenEmitter::Comment, raw_text, position)
}

/// A whitespace token.
pub fn emit_whitespace(raw_text: &str, position: usize) -> (r: Result<Token, LexError>)
    requires
        position + raw_text@.len() <= usize::MAX,
    ensures
        token_result_model(r) == spec_emit(TokenEmitter::Whitespace, raw_text@, position),
{
    emit_str(TokenEmitter::Whitespace, raw_text, position)
}

/// A newline token.
pub fn emit_newline(raw_text: &str, position: usize) -> (r: Result<Token, LexError>)
    requires
        position + raw_text@.len() <= usize::MAX,
    ensures
        token_result_model(r) == spec_emit(TokenEmitter::Newline, raw_text@, position),
{
    emit_str(TokenEmitter::Newline, raw_text, position)
}

/// A `(` token.
pub fn emit_left_paren(raw_text: &str, position: usize) -> (r: Result<Token, LexError>)
    requires
        position + raw_text@.len() <= usize::MAX,
    ensures
        token_result_model(r) == spec_emit(TokenEmitter::LeftParen, raw_text@, position),
{
    emit_str(TokenEmitter::LeftParen, raw_text, position)
}

/// A `)` token.
pub fn emit_right_paren(raw_text: &str, position: usize) -> (r: Result<Token, LexError>)
    requires
        position + raw_text@.len() <= usize::MAX,
    ensures
        token_result_model(r) == spec_emit(TokenEmitter::RightParen, raw_text@, position),
{
    emit_str(TokenEmitter::RightParen, raw_text, position)
}

/// A `[` token.
pub fn emit_left_bracket(raw_text: &str, position: usize) -> (r: Result<Token, LexError>)
    requires
        position + raw_text@.len() <= usize::MAX,
    ensures
        token_result_model(r) == spec_emit(TokenEmitter::LeftBracket, raw_text@, position),
{
    emit_str(TokenEmitter::LeftBracket, raw_text, position)
}

/// A `]` token.
pub fn emit_right_bracket(raw_text: &str, position: usize) -> (r: Result<Token, LexError>)
    requires
        position + raw_text@.len() <= usize::MAX,
    ensures
        token_result_model(r) == spec_emit(TokenEmitter::RightBracket, raw_text@, position),
{
    emit_str(TokenEmitter::RightBracket, raw_text, position)
}

/// A `'` token.
pub fn emit_quote(raw_text: &str, position: usize) -> (r: Result<Token, LexError>)
    requires
        position + raw_text@.len() <= usize::MAX,
    ensures
        token_result_model(r) == spec_emit(TokenEmitter::Quote, raw_text@, position),
{
    emit_str(TokenEmitter::Quote, raw_text, position)
}

/// A `` ` `` token.
pub fn emit_quasiquote(raw_text: &str, position: usize) -> (r: Result<Token, LexError>)
    requires
        position + raw_text@.len() <= usize::MAX,
    ensures
        token_result_model(r) == spec_emit(TokenEmitter::Quasiquote, raw_text@, position),
{
    emit_str(TokenEmitter::Quasiquote, raw_text, position)
}

/// A `,@` token.
pub fn emit_unquote_splicing(raw_text: &str, position: usize) -> (r: Result<Token, LexError>)
    requires
        position + raw_text@.len() <= usize::MAX,
    ensures
        token_result_model(r) == spec_emit(TokenEmitter::UnquoteSplicing, raw_text@, position),
{
    emit_str(TokenEmitter::UnquoteSplicing, raw_text, position)
}

/// A `,` token.
pub fn emit_unquote(raw_text: &str, position: usize) -> (r: Result<Token, LexError>)
    requires
        position + raw_text@.len() <= usize::MAX,
    ensures
        token_result_model(r) == spec_emit(TokenEmitter::Unquote, raw_text@, position),
{
    emit_str(TokenEmitter::Unquote, raw_text, position)
}

/// A `.` token.
pub fn emit_dot(raw_text: &str, position: usize) -> (r: Result<Token, LexError>)
    requires
        position + raw_text@.len() <= usize::MAX,
    ensures
        token_result_model(r) == spec_emit(TokenEmitter::Dot, raw_text@, position),
{
    emit_str(TokenEmitter::Dot, raw_text, position)
}

/// A `#(` token.
pub fn emit_vector_start(raw_text: &str, position: usize) -> (r: Result<Token, LexError>)
    requires
        position + raw_text@.len() <= usize::MAX,
    ensures
        token_result_model(r) == spec_emit(TokenEmitter::VectorStart, raw_text@, position),
{
    emit_str(TokenEmitter::VectorStart, raw_text, position)
}

/// A character token from `#\c`, `#\space`, `#\newline`, `#\tab` or `#\return`.
pub fn emit_character(raw_text: &str, position: usize) -> (r: Result<Token, LexError>)
    requires
        position + raw_text@.len() <= usize::MAX,
    ensures
        token_result_model(r) == character_token(raw_text@, position),
{
    emit_str(TokenEmitter::Character, raw_text, position)
}

/// The end-of-input token: empty text at `position`.
pub fn emit_eof(raw_text: &str, position: usize) -> (r: Result<Token, LexError>)
    ensures
        token_result_model(r) == spec_emit(TokenEmitter::Eof, raw_text@, position),
{
    let empty: Vec<char> = Vec::new();
    Ok(token_of_chars(TokenType::Eof, &empty, position))
}

/// The error for text no rule accepts.
pub fn emit_error(raw_text: &str, position: usize) -> (r: Result<Token, LexError>)
    requires
        position + raw_text@.len() <= usize::MAX,
    ensures
        token_result_model(r) == spec_emit(TokenEmitter::Error, raw_text@, position),
{
    emit_str(TokenEmitter::Error, raw_text, position)
}

/// The error for input that ends inside a string literal.
pub fn emit_unterminated_string(raw_text: &str, position: usize) -> (r: Result<Token, LexError>)
    requires
        position + raw_text@.len() <= usize::MAX,
    ensures
        token_result_model(r) == spec_emit(TokenEmitter::UnterminatedString, raw_text@, position),
{
    emit_str(TokenEmitter::UnterminatedString, raw_text, position)
}

} // verus!
