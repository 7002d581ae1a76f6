//! Data types of the lexer: spans, tokens, lexical errors and the
//! table-driven state machine that the lexer runs.
//!
//! Every type that carries text has a model in which the text is a
//! `Seq<char>`; contracts throughout the crate are stated over these models.
use vstd::prelude::*;

verus! {

// ============================================================================
// Spans and positions
// ============================================================================

/// A half-open range `[start, end)` of character offsets in the source.
#[derive(Debug, Clone, Copy, PartialEq, Eq, Hash)]
pub struct Span {
    /// First character offset covered (inclusive).
    pub start: usize,
    /// Offset just past the last covered character (exclusive).
    pub end: usize,
}

/// A line/column location in the source.
#[derive(Debug, Clone, Copy, PartialEq)]
pub struct Position {
    pub line: usize,
    pub column: usize,
    pub byte_offset: usize,
}

impl Span {
    /// The span `[start, end)`; `start` must not lie after `end`.
    pub fn new(start: usize, end: usize) -> (s: Span)
        requires
            start <= end,
        ensures
            s == (Span { start, end }),
    {
        Span { start, end }
    }

    /// The span covering the single character at `position`.
    pub fn single_char(position: usize) -> (s: Span)
        requires
            position < usize::MAX,
        ensures
            s == (Span { start: position, end: (position + 1) as usize }),
    {
        Span::new(position, position + 1)
    }

    /// The zero-length span at `position`.
    pub fn empty(position: usize) -> (s: Span)
        ensures
            s == (Span { start: position, end: position }),
    {
        Span::new(position, position)
    }

    /// The span of `char_count` characters starting at `start`.
    pub fn from_char_range(start: usize, char_count: usize) -> (s: Span)
        requires
            start + char_count <= usize::MAX,
        ensures
            s == (Span { start, end: (start + char_count) as usize }),
    {
        Span::new(start, start + char_count)
    }

    /// Number of characters covered.
    pub fn len(&self) -> (n: usize)
        requires
            self.start <= self.end,
        ensures
            n == self.end - self.start,
    {
        self.end - self.start
    }

    /// Whether the span covers no character.
    pub fn is_empty(&self) -> (b: bool)
        ensures
            b == (self.start == self.end),
    {
        self.start == self.end
    }
}

// ============================================================================
// Tokens
// ============================================================================

/// The kind of a token, with the value it carries.
///
/// A floating-point literal keeps its text: the library does not compute
/// with floating-point values.
#[derive(Debug, PartialEq)]
pub enum TokenType {
    Integer(i64),
    Float(String),
    String(String),
    Character(char),
    Boolean(bool),
    Symbol(String),
    LeftParen,
    RightParen,
    LeftBracket,
    RightBracket,
    Quote,
    Quasiquote,
    Unquote,
    UnquoteSplicing,
    Dot,
    VectorStart,
    Whitespace(String),
    Newline,
    Comment(String),
    Eof,
}

/// Model of [`TokenType`] with text as character sequences.
pub ghost enum TokenTypeModel {
    Integer(i64),
    Float(Seq<char>),
    String(Seq<char>),
    Character(char),
    Boolean(bool),
    Symbol(Seq<char>),
    LeftParen,
    RightParen,
    LeftBracket,
    RightBracket,
    Quote,
    Quasiquote,
    Unquote,
    UnquoteSplicing,
    Dot,
    VectorStart,
    Whitespace(Seq<char>),
    Newline,
    Comment(Seq<char>),
    Eof,
}

impl View for TokenType {
    type V = TokenTypeModel;

    open spec fn view(&self) -> TokenTypeModel {
        match self {
            TokenType::Integer(n) => TokenTypeModel::Integer(*n),
            TokenType::Float(t) => TokenTypeModel::Float(t@),
            TokenType::String(s) => TokenTypeModel::String(s@),
            TokenType::Character(c) => TokenTypeModel::Character(*c),
            TokenType::Boolean(b) => TokenTypeModel::Boolean(*b),
            TokenType::Symbol(s) => TokenTypeModel::Symbol(s@),
            TokenType::LeftParen => TokenTypeModel::LeftParen,
            TokenType::RightParen => TokenTypeModel::RightParen,
            TokenType::LeftBracket => TokenTypeModel::LeftBracket,
            TokenType::RightBracket => TokenTypeModel::RightBracket,
            TokenType::Quote => TokenTypeModel::Quote,
            TokenType::Quasiquote => TokenTypeModel::Quasiquote,
            TokenType::Unquote => TokenTypeModel::Unquote,
            TokenType::UnquoteSplicing => TokenTypeModel::UnquoteSplicing,
            TokenType::Dot => TokenTypeModel::Dot,
            TokenType::VectorStart => TokenTypeModel::VectorStart,
            TokenType::Whitespace(s) => TokenTypeModel::Whitespace(s@),
            TokenType::Newline => TokenTypeModel::Newline,
            TokenType::Comment(s) => TokenTypeModel::Comment(s@),
            TokenType::Eof => TokenTypeModel::Eof,
        }
    }
}

impl TokenTypeModel {
    /// Whitespace, newlines and comments: tokens kept only to restore the
    /// program's original text.
    pub open spec fn is_trivia(self) -> bool {
        self is Whitespace || self is Newline || self is Comment
    }
}

impl TokenType {
    /// Whether the token is trivia (whitespace, newline or comment).
    pub fn is_trivia(&self) -> (b: bool)
        ensures
            b == self@.is_trivia(),
    {
        match self {
            TokenType::Whitespace(_) | TokenType::Newline | TokenType::Comment(_) => true,
            _ => false,
        }
    }
}

/// A token with its source span and the exact text it was read from.
#[derive(Debug, PartialEq)]
pub struct Token {
    pub token_type: TokenType,
    pub span: Span,
    pub raw_text: String,
}

/// Model of [`Token`].
pub ghost struct TokenModel {
    pub token_type: TokenTypeModel,
    pub span: Span,
    pub raw_text: Seq<char>,
}

impl View for Token {
    type V = TokenModel;

    open spec fn view(&self) -> TokenModel {
        TokenModel { token_type: self.token_type@, span: self.span, raw_text: self.raw_text@ }
    }
}

/// The token of type `tt` read from `text` starting at character offset
/// `start`: its span covers as many characters as `text` has.
pub open spec fn token_from_text(tt: TokenTypeModel, text: Seq<char>, start: int) -> TokenModel {
    TokenModel {
        token_type: tt,
        span: Span { start: start as usize, end: (start + text.len()) as usize },
        raw_text: text,
    }
}

impl Token {
    /// Builds a token from its parts.
    pub fn new(token_type: TokenType, span: Span, raw_text: String) -> (t: Token)
        ensures
            t@ == (TokenModel { token_type: token_type@, span, raw_text: raw_text@ }),
    {
        Token { token_type, span, raw_text }
    }

    /// Builds a token read from `text` at character offset `start`.
    pub fn from_text(token_type: TokenType, text: &str, start: usize) -> (t: Token)
        requires
            start + text@.len() <= usize::MAX,
        ensures
            t@ == token_from_text(token_type@, text@, start as int),
    {
        let char_count = text.unicode_len();
        let span = Span::from_char_range(start, char_count);
        Token::new(token_type, span, text.to_owned())
    }

    /// Number of characters the token covers.
    pub fn len(&self) -> (n: usize)
        requires
            self.span.start <= self.span.end,
        ensures
            n == self.span.end - self.span.start,
    {
        self.span.len()
    }
}

// ============================================================================
// Lexical errors
// ============================================================================

/// Why a piece of input is not a token.
#[derive(Debug, PartialEq)]
pub enum LexErrorReason {
    InvalidNumber { partial_text: String },
    UnterminatedString,
    InvalidEscape { escape_char: char },
    InvalidCharacter,
    UnexpectedEof { expected: String },
    Other(String),
}

/// Model of [`LexErrorReason`].
pub ghost enum LexErrorReasonModel {
    InvalidNumber { partial_text: Seq<char> },
    UnterminatedString,
    InvalidEscape { escape_char: char },
    InvalidCharacter,
    UnexpectedEof { expected: Seq<char> },
    Other(Seq<char>),
}

impl View for LexErrorReason {
    type V = LexErrorReasonModel;

    open spec fn view(&self) -> LexErrorReasonModel {
        match self {
            LexErrorReason::InvalidNumber { partial_text } => LexErrorReasonModel::InvalidNumber {
                partial_text: partial_text@,
            },
            LexErrorReason::UnterminatedString => LexErrorReasonModel::UnterminatedString,
            LexErrorReason::InvalidEscape { escape_char } => LexErrorReasonModel::InvalidEscape {
                escape_char: *escape_char,
            },
            LexErrorReason::InvalidCharacter => LexErrorReasonModel::InvalidCharacter,
            LexErrorReason::UnexpectedEof { expected } => LexErrorReasonModel::UnexpectedEof {
                expected: expected@,
            },
            LexErrorReason::Other(m) => LexErrorReasonModel::Other(m@),
        }
    }
}

/// A lexical error: where it happened, the character found there (`None`
/// at the end of input) and why.
#[derive(Debug, PartialEq)]
pub struct LexError {
    pub position: usize,
    pub found_char: Option<char>,
    pub reason: LexErrorReason,
}

/// Model of [`LexError`].
pub ghost struct LexErrorModel {
    pub position: usize,
    pub found_char: Option<char>,
    pub reason: LexErrorReasonModel,
}

impl View for LexError {
    type V = LexErrorModel;

    open spec fn view(&self) -> LexErrorModel {
        LexErrorModel { position: self.position, found_char: self.found_char, reason: self.reason@ }
    }
}

/// The text shown for the character an error was found at.
pub open spec fn found_text_of(found: Option<char>) -> Seq<char> {
    match found {
        Some(c) => seq![c],
        None => seq!['E', 'O', 'F'],
    }
}

impl LexError {
    /// Builds an error from its parts.
    pub fn new(position: usize, found_char: Option<char>, reason: LexErrorReason) -> (e: LexError)
        ensures
            e@ == (LexErrorModel { position, found_char, reason: reason@ }),
    {
        LexError { position, found_char, reason }
    }

    /// The character the error was found at, or `EOF` at the end of input.
    pub fn found_text(&self) -> (s: String)
        ensures
            s@ == found_text_of(self.found_char),
    {
        match self.found_char {
            Some(ch) => {
                let mut s = String::new();
                crate::text::push_char(&mut s, ch);
                s
            },
            None => {
                let s = String::from_str("EOF");
                proof {
                    reveal_strlit("EOF");
                }
                s
            },
        }
    }

    /// The character offset of the error.
    pub fn position(&self) -> (p: usize)
        ensures
            p == self.position,
    {
        self.position
    }
}

// ============================================================================
// The state machine
// ============================================================================

/// Character classes that transition rules test.
#[derive(Debug, Clone, Copy, PartialEq, Eq)]
pub enum CharClass {
    /// `\n` or `\r`.
    Newline,
    /// Whitespace other than `\n` and `\r`.
    Whitespace,
    /// `+` or `-`.
    Sign,
    /// `0` to `9`.
    Digit,
    /// A symbol-start character other than `+` and `-`.
    SymbolStartNotSign,
    /// A character allowed inside a symbol.
    SymbolChar,
    /// `e` or `E`.
    ExponentMarker,
    /// Any character but `"` and `\`.
    NotQuoteOrBackslash,
    /// Any character.
    Any,
    /// Any character but `\n` and `\r`.
    NotNewline,
    /// An alphabetic character.
    Alphabetic,
    /// A character that is neither alphabetic nor a delimiter.
    NotAlphabeticNorDelimiter,
}

/// What a transition rule matches at the current input position.
#[derive(Debug, Clone, Copy)]
pub enum Pattern {
    /// One given character.
    Char(char),
    /// The characters of a given string, in order.
    String(&'static str),
    /// One character of a class.
    CharClass(CharClass),
}

/// The token builders a state machine action can call.
#[derive(Debug, Clone, Copy, PartialEq, Eq)]
pub enum TokenEmitter {
    Number,
    String,
    Symbol,
    Comment,
    Whitespace,
    Newline,
    LeftParen,
    RightParen,
    LeftBracket,
    RightBracket,
    Quote,
    Quasiquote,
    UnquoteSplicing,
    Unquote,
    Dot,
    VectorStart,
    Character,
    Eof,
    Error,
    UnterminatedString,
}

/// The state to move to, and the token builder to call on the buffered text.
#[derive(Debug, Clone, Copy)]
pub struct StateAction {
    pub next_state: usize,
    pub emit_token: Option<TokenEmitter>,
}

/// A pattern and the action taken when it matches.
#[derive(Debug, Clone, Copy)]
pub struct TransitionRule {
    pub pattern: Pattern,
    pub action: StateAction,
}

/// Rules per state, tried in order, and for each state the action taken
/// when no rule matches.
#[derive(Debug, Clone)]
pub struct StateMachine {
    pub rules: Vec<Vec<TransitionRule>>,
    pub fallback_rules: Vec<StateAction>,
}

/// Model of [`StateMachine`].
pub ghost struct StateMachineModel {
    pub rules: Seq<Seq<TransitionRule>>,
    pub fallback_rules: Seq<StateAction>,
}

impl View for StateMachine {
    type V = StateMachineModel;

    open spec fn view(&self) -> StateMachineModel {
        StateMachineModel {
            rules: self.rules@.map_values(|r: Vec<TransitionRule>| r@),
            fallback_rules: self.fallback_rules@,
        }
    }
}

impl StateAction {
    /// Builds an action.
    pub fn new(next_state: usize, emit_token: Option<TokenEmitter>) -> (a: StateAction)
        ensures
            a == (StateAction { next_state, emit_token }),
    {
        StateAction { next_state, emit_token }
    }
}

impl TransitionRule {
    /// Builds a rule.
    pub fn new(pattern: Pattern, action: StateAction) -> (r: TransitionRule)
        ensures
            r == (TransitionRule { pattern, action }),
    {
        TransitionRule { pattern, action }
    }
}

// ============================================================================
// Copies
// ============================================================================

impl Clone for TokenType {
    fn clone(&self) -> (r: TokenType)
        ensures
            r == *self,
    {
        match self {
            TokenType::Integer(n) => TokenType::Integer(*n),
            TokenType::Float(t) => TokenType::Float(t.clone()),
            TokenType::String(s) => TokenType::String(s.clone()),
            TokenType::Character(c) => TokenType::Character(*c),
            TokenType::Boolean(b) => TokenType::Boolean(*b),
            TokenType::Symbol(s) => TokenType::Symbol(s.clone()),
            TokenType::LeftParen => TokenType::LeftParen,
            TokenType::RightParen => TokenType::RightParen,
            TokenType::LeftBracket => TokenType::LeftBracket,
            TokenType::RightBracket => TokenType::RightBracket,
            TokenType::Quote => TokenType::Quote,
            TokenType::Quasiquote => TokenType::Quasiquote,
            TokenType::Unquote => TokenType::Unquote,
            TokenType::UnquoteSplicing => TokenType::UnquoteSplicing,
            TokenType::Dot => TokenType::Dot,
            TokenType::VectorStart => TokenType::VectorStart,
            TokenType::Whitespace(s) => TokenType::Whitespace(s.clone()),
            TokenType::Newline => TokenType::Newline,
            TokenType::Comment(s) => TokenType::Comment(s.clone()),
            TokenType::Eof => TokenType::Eof,
        }
    }
}

impl Clone for Token {
    fn clone(&self) -> (r: Token)
        ensures
            r == *self,
    {
        Token { token_type: self.token_type.clone(), span: self.span, raw_text: self.raw_text.clone() }
    }
}

impl Clone for LexErrorReason {
    fn clone(&self) -> (r: LexErrorReason)
        ensures
            r == *self,
    {
        match self {
            LexErrorReason::InvalidNumber { partial_text } => LexErrorReason::InvalidNumber {
                partial_text: partial_text.clone(),
            },
            LexErrorReason::UnterminatedString => LexErrorReason::UnterminatedString,
            LexErrorReason::InvalidEscape { escape_char } => LexErrorReason::InvalidEscape {
                escape_char: *escape_char,
            },
            LexErrorReason::InvalidCharacter => LexErrorReason::InvalidCharacter,
            LexErrorReason::UnexpectedEof { expected } => LexErrorReason::UnexpectedEof {
                expected: expected.clone(),
            },
            LexErrorReason::Other(m) => LexErrorReason::Other(m.clone()),
        }
    }
}

impl Clone for LexError {
    fn clone(&self) -> (r: LexError)
        ensures
            r == *self,
    {
        LexError { position: self.position, found_char: self.found_char, reason: self.reason.clone() }
    }
}

} // verus!
