//! Data types of the parser: S-expressions with their source spans, parse
//! errors, and the parser's output.
//!
//! Each type has a model over `Seq<char>` text; the parser's contracts are
//! stated over the models.
use std::rc::Rc;
use vstd::prelude::*;
use crate::lexer::types::{
    LexError, LexErrorModel, Span, Token, TokenModel, TokenType, TokenTypeModel,
};

verus! {

// ============================================================================
// Values
// ============================================================================

/// A numeric literal. A floating-point literal keeps the text it was
/// written with: the library does not compute with floating-point values.
#[derive(Debug, PartialEq)]
pub enum Number {
    Integer(i64),
    Float(String),
}

/// Model of [`Number`].
pub ghost enum NumberModel {
    Integer(i64),
    Float(Seq<char>),
}

impl View for Number {
    type V = NumberModel;

    open spec fn view(&self) -> NumberModel {
        match self {
            Number::Integer(n) => NumberModel::Integer(*n),
            Number::Float(t) => NumberModel::Float(t@),
        }
    }
}

/// An atomic Scheme value.
#[derive(Debug, PartialEq)]
pub enum Value {
    Number(Number),
    String(String),
    Character(char),
    Boolean(bool),
    Symbol(String),
}

/// Model of [`Value`].
pub ghost enum ValueModel {
    Number(NumberModel),
    String(Seq<char>),
    Character(char),
    Boolean(bool),
    Symbol(Seq<char>),
}

impl View for Value {
    type V = ValueModel;

    open spec fn view(&self) -> ValueModel {
        match self {
            Value::Number(n) => ValueModel::Number(n@),
            Value::String(s) => ValueModel::String(s@),
            Value::Character(c) => ValueModel::Character(*c),
            Value::Boolean(b) => ValueModel::Boolean(*b),
            Value::Symbol(s) => ValueModel::Symbol(s@),
        }
    }
}

impl Clone for Number {
    fn clone(&self) -> (r: Number)
        ensures
            r == *self,
    {
        match self {
            Number::Integer(n) => Number::Integer(*n),
            Number::Float(t) => Number::Float(t.clone()),
        }
    }
}

impl Clone for Value {
    fn clone(&self) -> (r: Value)
        ensures
            r == *self,
    {
        match self {
            Value::Number(n) => Value::Number(n.clone()),
            Value::String(s) => Value::String(s.clone()),
            Value::Character(c) => Value::Character(*c),
            Value::Boolean(b) => Value::Boolean(*b),
            Value::Symbol(s) => Value::Symbol(s.clone()),
        }
    }
}

// ============================================================================
// S-expressions
// ============================================================================

/// An S-expression with the span of source it was read from.
#[derive(Debug, PartialEq)]
pub struct SExpr {
    pub content: SExprContent,
    pub span: Rc<Span>,
}

/// What an S-expression is.
#[derive(Debug, PartialEq)]
pub enum SExprContent {
    /// A number, string, character, boolean or symbol.
    Atom(Value),
    /// A pair `(car . cdr)`.
    Cons { car: Rc<SExpr>, cdr: Rc<SExpr> },
    /// The empty list.
    Nil,
    /// A vector `#(...)`.
    Vector(Vec<Rc<SExpr>>),
}

/// Model of [`SExpr`].
pub ghost struct SExprModel {
    pub content: ContentModel,
    pub span: Span,
}

/// Model of [`SExprContent`].
pub ghost enum ContentModel {
    Atom(ValueModel),
    Cons(Box<SExprModel>, Box<SExprModel>),
    Nil,
    Vector(Seq<SExprModel>),
}

impl SExpr {
    /// The model of this expression.
    pub open spec fn model(&self) -> SExprModel
        decreases self,
    {
        SExprModel { content: self.content.model(), span: *self.span }
    }
}

impl SExprContent {
    /// The model of this content.
    pub open spec fn model(&self) -> ContentModel
        decreases self,
    {
        match self {
            SExprContent::Atom(v) => ContentModel::Atom(v@),
            SExprContent::Cons { car, cdr } => ContentModel::Cons(
                Box::new((**car).model()),
                Box::new((**cdr).model()),
            ),
            SExprContent::Nil => ContentModel::Nil,
            SExprContent::Vector(items) => ContentModel::Vector(models_of(items@)),
        }
    }
}

/// The models of the expressions in `items`, in order.
pub open spec fn models_of(items: Seq<Rc<SExpr>>) -> Seq<SExprModel>
    decreases items,
{
    if items.len() == 0 {
        seq![]
    } else {
        seq![(*items[0]).model()] + models_of(items.subrange(1, items.len() as int))
    }
}

/// The span given to expressions built while parsing that have no source
/// of their own, such as the inner pairs of a list.
pub open spec fn no_span() -> Span {
    Span { start: 0, end: 0 }
}

impl SExpr {
    /// An expression with the given content and span.
    pub fn with_span(content: SExprContent, span: Span) -> (e: SExpr)
        ensures
            e.model() == (SExprModel { content: content.model(), span }),
    {
        SExpr { content, span: Rc::new(span) }
    }

    /// An expression with no source span (the empty span at offset 0).
    pub fn without_span(content: SExprContent) -> (e: SExpr)
        ensures
            e.model() == (SExprModel { content: content.model(), span: no_span() }),
    {
        SExpr { content, span: Rc::new(Span::empty(0)) }
    }

    /// An expression with the given content and this expression's span.
    pub fn inherit_span(&self, content: SExprContent) -> (e: SExpr)
        ensures
            e.model() == (SExprModel { content: content.model(), span: *self.span }),
    {
        let span: Span = *self.span;
        SExpr { content, span: Rc::new(span) }
    }
}

// ============================================================================
// Errors
// ============================================================================

/// Why a dotted list is malformed.
#[derive(Debug, Clone, Copy, PartialEq, Eq)]
pub enum DottedListError {
    /// The dot stands where it may not (at the start of the list).
    InvalidDotPosition,
    /// No element follows the dot.
    MissingTailElement,
    /// More than one element follows the dot.
    MultipleTailElements,
    /// Too few elements precede the dot.
    InsufficientElements,
}

/// The four quotation forms.
#[derive(Debug, Clone, Copy, PartialEq, Eq)]
pub enum QuoteType {
    Quote,
    Quasiquote,
    Unquote,
    UnquoteSplicing,
}

/// The symbol a quotation form stands for.
pub open spec fn quote_symbol(q: QuoteType) -> Seq<char> {
    match q {
        QuoteType::Quote => "quote"@,
        QuoteType::Quasiquote => "quasiquote"@,
        QuoteType::Unquote => "unquote"@,
        QuoteType::UnquoteSplicing => "unquote-splicing"@,
    }
}

impl QuoteType {
    /// The symbol this quotation form stands for: `quote`, `quasiquote`,
    /// `unquote` or `unquote-splicing`.
    pub fn symbol_name(&self) -> (s: &'static str)
        ensures
            s@ == quote_symbol(*self),
    {
        match self {
            QuoteType::Quote => "quote",
            QuoteType::Quasiquote => "quasiquote",
            QuoteType::Unquote => "unquote",
            QuoteType::UnquoteSplicing => "unquote-splicing",
        }
    }
}

/// What was wrong with an unexpected token.
#[derive(Debug, PartialEq)]
pub enum UnexpectedTokenReason {
    /// Something else was expected here.
    Expected(String),
    /// The input ended where something was expected.
    UnexpectedEof { expected: String },
    /// A list was not closed.
    UnterminatedList { start_token: Token },
    /// A vector was not closed.
    UnterminatedVector { start_token: Token },
    /// A dotted list is malformed.
    InvalidDottedList { dot_token: Token, context: DottedListError },
    /// Any other syntax error.
    Other(String),
}

/// Model of [`UnexpectedTokenReason`].
pub ghost enum UnexpectedTokenReasonModel {
    Expected(Seq<char>),
    UnexpectedEof { expected: Seq<char> },
    UnterminatedList { start_token: TokenModel },
    UnterminatedVector { start_token: TokenModel },
    InvalidDottedList { dot_token: TokenModel, context: DottedListError },
    Other(Seq<char>),
}

impl View for UnexpectedTokenReason {
    type V = UnexpectedTokenReasonModel;

    open spec fn view(&self) -> UnexpectedTokenReasonModel {
        match self {
            UnexpectedTokenReason::Expected(s) => UnexpectedTokenReasonModel::Expected(s@),
            UnexpectedTokenReason::UnexpectedEof { expected } => UnexpectedTokenReasonModel::UnexpectedEof {
                expected: expected@,
            },
            UnexpectedTokenReason::UnterminatedList { start_token } => UnexpectedTokenReasonModel::UnterminatedList {
                start_token: start_token@,
            },
            UnexpectedTokenReason::UnterminatedVector { start_token } => UnexpectedTokenReasonModel::UnterminatedVector {
                start_token: start_token@,
            },
            UnexpectedTokenReason::InvalidDottedList { dot_token, context } => UnexpectedTokenReasonModel::InvalidDottedList {
                dot_token: dot_token@,
                context: *context,
            },
            UnexpectedTokenReason::Other(s) => UnexpectedTokenReasonModel::Other(s@),
        }
    }
}

/// A syntax error, or a lexical error met while parsing.
#[derive(Debug, PartialEq)]
pub enum ParseError {
    UnexpectedToken { found: Token, reason: UnexpectedTokenReason },
    LexError(LexError),
}

/// Model of [`ParseError`].
pub ghost enum ParseErrorModel {
    UnexpectedToken { found: TokenModel, reason: UnexpectedTokenReasonModel },
    LexError(LexErrorModel),
}

impl View for ParseError {
    type V = ParseErrorModel;

    open spec fn view(&self) -> ParseErrorModel {
        match self {
            ParseError::UnexpectedToken { found, reason } => ParseErrorModel::UnexpectedToken {
                found: found@,
                reason: reason@,
            },
            ParseError::LexError(e) => ParseErrorModel::LexError(e@),
        }
    }
}

/// The placeholder token an end-of-input error reports: an end-of-input
/// token with no text at offset 0.
pub open spec fn eof_placeholder() -> TokenModel {
    TokenModel { token_type: TokenTypeModel::Eof, span: Span { start: 0, end: 0 }, raw_text: seq![] }
}

/// The error for input that ends where an expression was expected.
pub open spec fn eof_error() -> ParseErrorModel {
    ParseErrorModel::UnexpectedToken {
        found: eof_placeholder(),
        reason: UnexpectedTokenReasonModel::UnexpectedEof { expected: "expression"@ },
    }
}

/// The error for a malformed dotted list whose dot is `dot`.
pub open spec fn dotted_error(dot: TokenModel, context: DottedListError) -> ParseErrorModel {
    ParseErrorModel::UnexpectedToken {
        found: dot,
        reason: UnexpectedTokenReasonModel::InvalidDottedList { dot_token: dot, context },
    }
}

impl ParseError {
    /// The error for the unexpected token `found`.
    pub fn unexpected_token(found: Token, reason: UnexpectedTokenReason) -> (e: ParseError)
        ensures
            e@ == (ParseErrorModel::UnexpectedToken { found: found@, reason: reason@ }),
    {
        ParseError::UnexpectedToken { found, reason }
    }

    /// The error for input that ends where an expression was expected.
    pub fn unexpected_eof() -> (e: ParseError)
        ensures
            e@ == eof_error(),
    {
        let eof_token = Token::new(TokenType::Eof, Span::empty(0), String::new());
        ParseError::UnexpectedToken {
            found: eof_token,
            reason: UnexpectedTokenReason::UnexpectedEof { expected: String::from_str("expression") },
        }
    }

    /// The error for a malformed dotted list whose dot is `dot_token`.
    pub fn invalid_dotted_list(dot_token: Token, context: DottedListError) -> (e: ParseError)
        ensures
            e@ == dotted_error(dot_token@, context),
    {
        ParseError::UnexpectedToken {
            found: dot_token.clone(),
            reason: UnexpectedTokenReason::InvalidDottedList { dot_token, context },
        }
    }

    /// The error for a list opened by `start_token` and never closed.
    pub fn unterminated_list(start_token: Token) -> (e: ParseError)
        ensures
            e@ == (ParseErrorModel::UnexpectedToken {
                found: start_token@,
                reason: UnexpectedTokenReasonModel::UnterminatedList { start_token: start_token@ },
            }),
    {
        ParseError::UnexpectedToken {
            found: start_token.clone(),
            reason: UnexpectedTokenReason::UnterminatedList { start_token },
        }
    }

    /// The error for a vector opened by `start_token` and never closed.
    pub fn unterminated_vector(start_token: Token) -> (e: ParseError)
        ensures
            e@ == (ParseErrorModel::UnexpectedToken {
                found: start_token@,
                reason: UnexpectedTokenReasonModel::UnterminatedVector { start_token: start_token@ },
            }),
    {
        ParseError::UnexpectedToken {
            found: start_token.clone(),
            reason: UnexpectedTokenReason::UnterminatedVector { start_token },
        }
    }
}

// ============================================================================
// Parser output
// ============================================================================

/// What the parser returns: the expressions read, or the error that
/// stopped it, and the source text rebuilt from the tokens it consumed.
#[derive(Debug)]
pub struct ParseOutput {
    pub result: Result<Vec<SExpr>, ParseError>,
    pub source_text: String,
}

/// The models of a sequence of expressions.
pub open spec fn exprs_model(es: Seq<SExpr>) -> Seq<SExprModel> {
    es.map_values(|e: SExpr| e.model())
}

/// Model of a parse result.
pub open spec fn parse_result_model(r: Result<Vec<SExpr>, ParseError>) -> Result<Seq<SExprModel>, ParseErrorModel> {
    match r {
        Ok(es) => Ok(exprs_model(es@)),
        Err(e) => Err(e@),
    }
}

impl ParseOutput {
    /// A successful output.
    pub fn success(expressions: Vec<SExpr>, source_text: String) -> (o: ParseOutput)
        ensures
            parse_result_model(o.result) == Ok::<Seq<SExprModel>, ParseErrorModel>(
                exprs_model(expressions@),
            ),
            o.source_text@ == source_text@,
    {
        ParseOutput { result: Ok(expressions), source_text }
    }

    /// A failed output.
    pub fn error(error: ParseError, source_text: String) -> (o: ParseOutput)
        ensures
            parse_result_model(o.result) == Err::<Seq<SExprModel>, ParseErrorModel>(error@),
            o.source_text@ == source_text@,
    {
        ParseOutput { result: Err(error), source_text }
    }
}

} // verus!
