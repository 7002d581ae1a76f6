//! Errors of evaluation, and their messages.
use std::rc::Rc;
use vstd::prelude::*;
use crate::parser::types::{SExpr, SExprModel};
use crate::text::{decimal, push_decimal, push_str};

verus! {

/// What went wrong while evaluating an expression; each error keeps the
/// expression it arose at.
#[derive(Debug, PartialEq)]
pub enum EvaluateError {
    InvalidQuoteSyntax {
        expr: Rc<SExpr>,
        message: String,
    },
    InvalidIfSyntax {
        expr: Rc<SExpr>,
        message: String,
    },
    InvalidLambdaSyntax {
        expr: Rc<SExpr>,
        message: String,
    },
    InvalidDefineSyntax {
        expr: Rc<SExpr>,
        message: String,
    },
    InvalidLetSyntax {
        expr: Rc<SExpr>,
        message: String,
    },
    InvalidLetBinding {
        expr: Rc<SExpr>,
        message: String,
    },
    InvalidParameterName {
        expr: Rc<SExpr>,
        name: String,
    },
    InvalidParameterList {
        expr: Rc<SExpr>,
        message: String,
    },
    InvalidArgumentList {
        expr: Rc<SExpr>,
        message: String,
    },
    InvalidExpression {
        expr: Rc<SExpr>,
        message: String,
    },
    UndefinedVariable {
        expr: Rc<SExpr>,
        name: String,
    },
    UndefinedFunction {
        expr: Rc<SExpr>,
        name: String,
    },
    NotCallable {
        expr: Rc<SExpr>,
        value: String,
    },
    ArgumentCountMismatch {
        expr: Rc<SExpr>,
        expected: String,
        actual: usize,
    },
    DivisionByZero {
        expr: Rc<SExpr>,
    },
    TypeMismatch {
        expr: Rc<SExpr>,
        expected: String,
        actual: String,
    },
    TypeError {
        expr: Rc<SExpr>,
        expected: String,
        actual: String,
    },
    StackOverflow {
        expr: Rc<SExpr>,
    },
    OutOfMemory {
        expr: Rc<SExpr>,
    },
    InternalError {
        expr: Rc<SExpr>,
        message: String,
    },
    NotImplemented {
        expr: Rc<SExpr>,
        feature: String,
    },
}

/// Model of [`EvaluateError`].
pub ghost enum EvaluateErrorModel {
    InvalidQuoteSyntax {
        expr: SExprModel,
        message: Seq<char>,
    },
    InvalidIfSyntax {
        expr: SExprModel,
        message: Seq<char>,
    },
    InvalidLambdaSyntax {
        expr: SExprModel,
        message: Seq<char>,
    },
    InvalidDefineSyntax {
        expr: SExprModel,
        message: Seq<char>,
    },
    InvalidLetSyntax {
        expr: SExprModel,
        message: Seq<char>,
    },
    InvalidLetBinding {
        expr: SExprModel,
        message: Seq<char>,
    },
    InvalidParameterName {
        expr: SExprModel,
        name: Seq<char>,
    },
    InvalidParameterList {
        expr: SExprModel,
        message: Seq<char>,
    },
    InvalidArgumentList {
        expr: SExprModel,
        message: Seq<char>,
    },
    InvalidExpression {
        expr: SExprModel,
        message: Seq<char>,
    },
    UndefinedVariable {
        expr: SExprModel,
        name: Seq<char>,
    },
    UndefinedFunction {
        expr: SExprModel,
        name: Seq<char>,
    },
    NotCallable {
        expr: SExprModel,
        value: Seq<char>,
    },
    ArgumentCountMismatch {
        expr: SExprModel,
        expected: Seq<char>,
        actual: usize,
    },
    DivisionByZero {
        expr: SExprModel,
    },
    TypeMismatch {
        expr: SExprModel,
        expected: Seq<char>,
        actual: Seq<char>,
    },
    TypeError {
        expr: SExprModel,
        expected: Seq<char>,
        actual: Seq<char>,
    },
    StackOverflow {
        expr: SExprModel,
    },
    OutOfMemory {
        expr: SExprModel,
    },
    InternalError {
        expr: SExprModel,
        message: Seq<char>,
    },
    NotImplemented {
        expr: SExprModel,
        feature: Seq<char>,
    },
}

impl View for EvaluateError {
    type V = EvaluateErrorModel;

    open spec fn view(&self) -> EvaluateErrorModel {
        match self {
            EvaluateError::InvalidQuoteSyntax { expr, message } => EvaluateErrorModel::InvalidQuoteSyntax { expr: (**expr).model(), message: message@ },
            EvaluateError::InvalidIfSyntax { expr, message } => EvaluateErrorModel::InvalidIfSyntax { expr: (**expr).model(), message: message@ },
            EvaluateError::InvalidLambdaSyntax { expr, message } => EvaluateErrorModel::InvalidLambdaSyntax { expr: (**expr).model(), message: message@ },
            EvaluateError::InvalidDefineSyntax { expr, message } => EvaluateErrorModel::InvalidDefineSyntax { expr: (**expr).model(), message: message@ },
            EvaluateError::InvalidLetSyntax { expr, message } => EvaluateErrorModel::InvalidLetSyntax { expr: (**expr).model(), message: message@ },
            EvaluateError::InvalidLetBinding { expr, message } => EvaluateErrorModel::InvalidLetBinding { expr: (**expr).model(), message: message@ },
            EvaluateError::InvalidParameterName { expr, name } => EvaluateErrorModel::InvalidParameterName { expr: (**expr).model(), name: name@ },
            EvaluateError::InvalidParameterList { expr, message } => EvaluateErrorModel::InvalidParameterList { expr: (**expr).model(), message: message@ },
            EvaluateError::InvalidArgumentList { expr, message } => EvaluateErrorModel::InvalidArgumentList { expr: (**expr).model(), message: message@ },
            EvaluateError::InvalidExpression { expr, message } => EvaluateErrorModel::InvalidExpression { expr: (**expr).model(), message: message@ },
            EvaluateError::UndefinedVariable { expr, name } => EvaluateErrorModel::UndefinedVariable { expr: (**expr).model(), name: name@ },
            EvaluateError::UndefinedFunction { expr, name } => EvaluateErrorModel::UndefinedFunction { expr: (**expr).model(), name: name@ },
            EvaluateError::NotCallable { expr, value } => EvaluateErrorModel::NotCallable { expr: (**expr).model(), value: value@ },
            EvaluateError::ArgumentCountMismatch { expr, expected, actual } => EvaluateErrorModel::ArgumentCountMismatch { expr: (**expr).model(), expected: expected@, actual: *actual },
            EvaluateError::DivisionByZero { expr } => EvaluateErrorModel::DivisionByZero { expr: (**expr).model() },
            EvaluateError::TypeMismatch { expr, expected, actual } => EvaluateErrorModel::TypeMismatch { expr: (**expr).model(), expected: expected@, actual: actual@ },
            EvaluateError::TypeError { expr, expected, actual } => EvaluateErrorModel::TypeError { expr: (**expr).model(), expected: expected@, actual: actual@ },
            EvaluateError::StackOverflow { expr } => EvaluateErrorModel::StackOverflow { expr: (**expr).model() },
            EvaluateError::OutOfMemory { expr } => EvaluateErrorModel::OutOfMemory { expr: (**expr).model() },
            EvaluateError::InternalError { expr, message } => EvaluateErrorModel::InternalError { expr: (**expr).model(), message: message@ },
            EvaluateError::NotImplemented { expr, feature } => EvaluateErrorModel::NotImplemented { expr: (**expr).model(), feature: feature@ },
        }
    }
}

/// The expression an evaluation error arose at.
pub open spec fn error_expr(e: EvaluateErrorModel) -> SExprModel {
    match e {
        EvaluateErrorModel::InvalidQuoteSyntax { expr, .. } => expr,
        EvaluateErrorModel::InvalidIfSyntax { expr, .. } => expr,
        EvaluateErrorModel::InvalidLambdaSyntax { expr, .. } => expr,
        EvaluateErrorModel::InvalidDefineSyntax { expr, .. } => expr,
        EvaluateErrorModel::InvalidLetSyntax { expr, .. } => expr,
        EvaluateErrorModel::InvalidLetBinding { expr, .. } => expr,
        EvaluateErrorModel::InvalidParameterName { expr, .. } => expr,
        EvaluateErrorModel::InvalidParameterList { expr, .. } => expr,
        EvaluateErrorModel::InvalidArgumentList { expr, .. } => expr,
        EvaluateErrorModel::InvalidExpression { expr, .. } => expr,
        EvaluateErrorModel::UndefinedVariable { expr, .. } => expr,
        EvaluateErrorModel::UndefinedFunction { expr, .. } => expr,
        EvaluateErrorModel::NotCallable { expr, .. } => expr,
        EvaluateErrorModel::ArgumentCountMismatch { expr, .. } => expr,
        EvaluateErrorModel::DivisionByZero { expr, .. } => expr,
        EvaluateErrorModel::TypeMismatch { expr, .. } => expr,
        EvaluateErrorModel::TypeError { expr, .. } => expr,
        EvaluateErrorModel::StackOverflow { expr, .. } => expr,
        EvaluateErrorModel::OutOfMemory { expr, .. } => expr,
        EvaluateErrorModel::InternalError { expr, .. } => expr,
        EvaluateErrorModel::NotImplemented { expr, .. } => expr,
    }
}

/// The message of an evaluation error: what kind of error it is, and the
/// name, text or counts involved.
pub open spec fn evaluate_error_message(e: EvaluateErrorModel) -> Seq<char> {
    match e {
        EvaluateErrorModel::InvalidQuoteSyntax { message, .. } => "Invalid quote syntax: "@ + message,
        EvaluateErrorModel::InvalidIfSyntax { message, .. } => "Invalid if syntax: "@ + message,
        EvaluateErrorModel::InvalidLambdaSyntax { message, .. } => "Invalid lambda syntax: "@ + message,
        EvaluateErrorModel::InvalidDefineSyntax { message, .. } => "Invalid define syntax: "@ + message,
        EvaluateErrorModel::InvalidLetSyntax { message, .. } => "Invalid let syntax: "@ + message,
        EvaluateErrorModel::InvalidLetBinding { message, .. } => "Invalid let binding: "@ + message,
        EvaluateErrorModel::InvalidParameterName { name, .. } => "Invalid parameter name: "@ + name,
        EvaluateErrorModel::InvalidParameterList { message, .. } => "Invalid parameter list: "@ + message,
        EvaluateErrorModel::InvalidArgumentList { message, .. } => "Invalid argument list: "@ + message,
        EvaluateErrorModel::InvalidExpression { message, .. } => "Invalid expression: "@ + message,
        EvaluateErrorModel::UndefinedVariable { name, .. } => "Undefined variable: "@ + name,
        EvaluateErrorModel::UndefinedFunction { name, .. } => "Undefined function: "@ + name,
        EvaluateErrorModel::NotCallable { value, .. } => "Value is not callable: "@ + value,
        EvaluateErrorModel::ArgumentCountMismatch { expected, actual, .. } => "Argument count mismatch: expected "@ + expected + ", got "@ + decimal(actual as nat),
        EvaluateErrorModel::DivisionByZero { .. } => "Division by zero"@,
        EvaluateErrorModel::TypeMismatch { expected, actual, .. } => "Type mismatch: expected "@ + expected + ", got "@ + actual,
        EvaluateErrorModel::TypeError { expected, actual, .. } => "Type error: expected "@ + expected + ", got "@ + actual,
        EvaluateErrorModel::StackOverflow { .. } => "Stack overflow"@,
        EvaluateErrorModel::OutOfMemory { .. } => "Out of memory"@,
        EvaluateErrorModel::InternalError { message, .. } => "Internal error: "@ + message,
        EvaluateErrorModel::NotImplemented { feature, .. } => "Feature not implemented: "@ + feature,
    }
}

impl EvaluateError {
    /// The message of this error (see [`evaluate_error_message`]).
    pub fn message(&self) -> (s: String)
        ensures
            s@ == evaluate_error_message(self@),
    {
        let mut s = String::new();
        match self {
            EvaluateError::InvalidQuoteSyntax { message, .. } => {
                push_str(&mut s, "Invalid quote syntax: ");
                push_str(&mut s, message.as_str());
            },
            EvaluateError::InvalidIfSyntax { message, .. } => {
                push_str(&mut s, "Invalid if syntax: ");
                push_str(&mut s, message.as_str());
            },
            EvaluateError::InvalidLambdaSyntax { message, .. } => {
                push_str(&mut s, "Invalid lambda syntax: ");
                push_str(&mut s, message.as_str());
            },
            EvaluateError::InvalidDefineSyntax { message, .. } => {
                push_str(&mut s, "Invalid define syntax: ");
                push_str(&mut s, message.as_str());
            },
            EvaluateError::InvalidLetSyntax { message, .. } => {
                push_str(&mut s, "Invalid let syntax: ");
                push_str(&mut s, message.as_str());
            },
            EvaluateError::InvalidLetBinding { message, .. } => {
                push_str(&mut s, "Invalid let binding: ");
                push_str(&mut s, message.as_str());
            },
            EvaluateError::InvalidParameterName { name, .. } => {
                push_str(&mut s, "Invalid parameter name: ");
                push_str(&mut s, name.as_str());
            },
            EvaluateError::InvalidParameterList { message, .. } => {
                push_str(&mut s, "Invalid parameter list: ");
                push_str(&mut s, message.as_str());
            },
            EvaluateError::InvalidArgumentList { message, .. } => {
                push_str(&mut s, "Invalid argument list: ");
                push_str(&mut s, message.as_str());
            },
            EvaluateError::InvalidExpression { message, .. } => {
                push_str(&mut s, "Invalid expression: ");
                push_str(&mut s, message.as_str());
            },
            EvaluateError::UndefinedVariable { name, .. } => {
                push_str(&mut s, "Undefined variable: ");
                push_str(&mut s, name.as_str());
            },
            EvaluateError::UndefinedFunction { name, .. } => {
                push_str(&mut s, "Undefined function: ");
                push_str(&mut s, name.as_str());
            },
            EvaluateError::NotCallable { value, .. } => {
                push_str(&mut s, "Value is not callable: ");
                push_str(&mut s, value.as_str());
            },
            EvaluateError::ArgumentCountMismatch { expected, actual, .. } => {
                push_str(&mut s, "Argument count mismatch: expected ");
                push_str(&mut s, expected.as_str());
                push_str(&mut s, ", got ");
                push_decimal(&mut s, *actual as u64);
            },
            EvaluateError::DivisionByZero { .. } => {
                push_str(&mut s, "Division by zero");
            },
            EvaluateError::TypeMismatch { expected, actual, .. } => {
                push_str(&mut s, "Type mismatch: expected ");
                push_str(&mut s, expected.as_str());
                push_str(&mut s, ", got ");
                push_str(&mut s, actual.as_str());
            },
            EvaluateError::TypeError { expected, actual, .. } => {
                push_str(&mut s, "Type error: expected ");
                push_str(&mut s, expected.as_str());
                push_str(&mut s, ", got ");
                push_str(&mut s, actual.as_str());
            },
            EvaluateError::StackOverflow { .. } => {
                push_str(&mut s, "Stack overflow");
            },
            EvaluateError::OutOfMemory { .. } => {
                push_str(&mut s, "Out of memory");
            },
            EvaluateError::InternalError { message, .. } => {
                push_str(&mut s, "Internal error: ");
                push_str(&mut s, message.as_str());
            },
            EvaluateError::NotImplemented { feature, .. } => {
                push_str(&mut s, "Feature not implemented: ");
                push_str(&mut s, feature.as_str());
            },
        }
        assert(s@ =~= evaluate_error_message(self@));
        s
    }

    /// The expression the error arose at.
    pub fn expr(&self) -> (e: &Rc<SExpr>)
        ensures
            (**e).model() == error_expr(self@),
    {
        match self {
            EvaluateError::InvalidQuoteSyntax { expr, .. } => expr,
            EvaluateError::InvalidIfSyntax { expr, .. } => expr,
            EvaluateError::InvalidLambdaSyntax { expr, .. } => expr,
            EvaluateError::InvalidDefineSyntax { expr, .. } => expr,
            EvaluateError::InvalidLetSyntax { expr, .. } => expr,
            EvaluateError::InvalidLetBinding { expr, .. } => expr,
            EvaluateError::InvalidParameterName { expr, .. } => expr,
            EvaluateError::InvalidParameterList { expr, .. } => expr,
            EvaluateError::InvalidArgumentList { expr, .. } => expr,
            EvaluateError::InvalidExpression { expr, .. } => expr,
            EvaluateError::UndefinedVariable { expr, .. } => expr,
            EvaluateError::UndefinedFunction { expr, .. } => expr,
            EvaluateError::NotCallable { expr, .. } => expr,
            EvaluateError::ArgumentCountMismatch { expr, .. } => expr,
            EvaluateError::DivisionByZero { expr, .. } => expr,
            EvaluateError::TypeMismatch { expr, .. } => expr,
            EvaluateError::TypeError { expr, .. } => expr,
            EvaluateError::StackOverflow { expr, .. } => expr,
            EvaluateError::OutOfMemory { expr, .. } => expr,
            EvaluateError::InternalError { expr, .. } => expr,
            EvaluateError::NotImplemented { expr, .. } => expr,
        }
    }
}

} // verus!
