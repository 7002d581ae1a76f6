//! Messages of parse errors.
use vstd::prelude::*;
use crate::lexer::describe::{lex_error_text, token_type_text};
use crate::parser::types::{DottedListError, ParseError, ParseErrorModel, UnexpectedTokenReason, UnexpectedTokenReasonModel};
use crate::text::{decimal, push_decimal, push_str};

verus! {

/// The name of a dotted-list error.
pub open spec fn dotted_context_text(c: DottedListError) -> Seq<char> {
    match c {
        DottedListError::InvalidDotPosition => "InvalidDotPosition"@,
        DottedListError::MissingTailElement => "MissingTailElement"@,
        DottedListError::MultipleTailElements => "MultipleTailElements"@,
        DottedListError::InsufficientElements => "InsufficientElements"@,
    }
}

/// The message of a parse error: for an unexpected token, its position
/// and what was wrong; for a lexical error, the error's structural text.
pub open spec fn parse_error_message(e: ParseErrorModel) -> Seq<char> {
    match e {
        ParseErrorModel::UnexpectedToken { found, reason } => "Unexpected token at position "@
            + decimal(found.span.start as nat) + ": "@ + match reason {
            UnexpectedTokenReasonModel::Expected(x) => "expected "@ + x + ", found "@
                + token_type_text(found.token_type),
            UnexpectedTokenReasonModel::UnexpectedEof { expected } =>
                "unexpected end of file, expected "@ + expected,
            UnexpectedTokenReasonModel::UnterminatedList { .. } => "unterminated list"@,
            UnexpectedTokenReasonModel::UnterminatedVector { .. } => "unterminated vector"@,
            UnexpectedTokenReasonModel::InvalidDottedList { context, .. } => "invalid dotted list: "@
                + dotted_context_text(context),
            UnexpectedTokenReasonModel::Other(m) => m,
        },
        ParseErrorModel::LexError(le) => "Lexical error: "@ + lex_error_text(le),
    }
}

impl DottedListError {
    /// The name of this error.
    pub fn name(&self) -> (s: &'static str)
        ensures
            s@ == dotted_context_text(*self),
    {
        match self {
            DottedListError::InvalidDotPosition => "InvalidDotPosition",
            DottedListError::MissingTailElement => "MissingTailElement",
            DottedListError::MultipleTailElements => "MultipleTailElements",
            DottedListError::InsufficientElements => "InsufficientElements",
        }
    }
}

impl ParseError {
    /// The message of this error (see [`parse_error_message`]).
    pub fn message(&self) -> (s: String)
        ensures
            s@ == parse_error_message(self@),
    {
        let mut s = String::new();
        match self {
            ParseError::UnexpectedToken { found, reason } => {
                push_str(&mut s, "Unexpected token at position ");
                push_decimal(&mut s, found.span.start as u64);
                push_str(&mut s, ": ");
                match reason {
                    UnexpectedTokenReason::Expected(expected) => {
                        push_str(&mut s, "expected ");
                        push_str(&mut s, expected.as_str());
                        push_str(&mut s, ", found ");
                        let d = found.token_type.describe();
                        push_str(&mut s, d.as_str());
                    },
                    UnexpectedTokenReason::UnexpectedEof { expected } => {
                        push_str(&mut s, "unexpected end of file, expected ");
                        push_str(&mut s, expected.as_str());
                    },
                    UnexpectedTokenReason::UnterminatedList { .. } => {
                        push_str(&mut s, "unterminated list");
                    },
                    UnexpectedTokenReason::UnterminatedVector { .. } => {
                        push_str(&mut s, "unterminated vector");
                    },
                    UnexpectedTokenReason::InvalidDottedList { context, .. } => {
                        push_str(&mut s, "invalid dotted list: ");
                        push_str(&mut s, context.name());
                    },
                    UnexpectedTokenReason::Other(msg) => {
                        push_str(&mut s, msg.as_str());
                    },
                }
            },
            ParseError::LexError(lex_error) => {
                push_str(&mut s, "Lexical error: ");
                let d = lex_error.describe();
                push_str(&mut s, d.as_str());
            },
        }
        assert(s@ =~= parse_error_message(self@));
        s
    }
}

} // verus!
