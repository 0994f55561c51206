//! The one error type of the crate.

use crate::text::{append, chars_of, decimal, push_decimal, string_of};
use vstd::prelude::*;

verus! {

/// What can go wrong while a request file is run.
#[derive(Debug, Clone)]
pub enum AppError {
    /// The request file, or what was asked of it, is not usable.
    Parse { line: usize, message: String },
    /// The environment file or the chosen environment is not usable.
    Environment(String),
    /// A variable has no value.
    VariableNotFound(String),
    /// The transport failed.
    Http(String),
    /// A response handler could not be run.
    JavaScript(String),
    /// A file could not be read.
    Io(String),
    /// A document is not valid JSON.
    Json(String),
}

/// What an error holds.
pub enum ErrorModel {
    Parse { line: nat, message: Seq<char> },
    Environment(Seq<char>),
    VariableNotFound(Seq<char>),
    Http(Seq<char>),
    JavaScript(Seq<char>),
    Io(Seq<char>),
    Json(Seq<char>),
}

impl View for AppError {
    type V = ErrorModel;

    open spec fn view(&self) -> ErrorModel {
        match self {
            AppError::Parse { line, message } => ErrorModel::Parse {
                line: *line as nat,
                message: message@,
            },
            AppError::Environment(m) => ErrorModel::Environment(m@),
            AppError::VariableNotFound(m) => ErrorModel::VariableNotFound(m@),
            AppError::Http(m) => ErrorModel::Http(m@),
            AppError::JavaScript(m) => ErrorModel::JavaScript(m@),
            AppError::Io(m) => ErrorModel::Io(m@),
            AppError::Json(m) => ErrorModel::Json(m@),
        }
    }
}

impl ErrorModel {
    /// The error in words.
    pub open spec fn text(self) -> Seq<char> {
        match self {
            ErrorModel::Parse { line, message } => "Parse error at line "@ + decimal(line) + ": "@
                + message,
            ErrorModel::Environment(m) => "Environment error: "@ + m,
            ErrorModel::VariableNotFound(m) => "Variable not found: {{"@ + m + "}}"@,
            ErrorModel::Http(m) => "HTTP error: "@ + m,
            ErrorModel::JavaScript(m) => "JavaScript error: "@ + m,
            ErrorModel::Io(m) => "IO error: "@ + m,
            ErrorModel::Json(m) => "JSON error: "@ + m,
        }
    }
}

/// The text `prefix` and then `rest`.
pub fn prefixed(prefix: &str, rest: &str) -> (r: String)
    ensures
        r@ == prefix@ + rest@,
{
    let mut out = chars_of(prefix);
    append(&mut out, &chars_of(rest));
    string_of(&out)
}

impl AppError {
    /// The error in words.
    pub fn message(&self) -> (r: String)
        ensures
            r@ == self@.text(),
    {
        match self {
            AppError::Parse { line, message } => {
                let mut out = chars_of("Parse error at line ");
                push_decimal(&mut out, *line as u64);
                append(&mut out, &chars_of(": "));
                append(&mut out, &chars_of(message.as_str()));
                string_of(&out)
            },
            AppError::Environment(m) => prefixed("Environment error: ", m.as_str()),
            AppError::VariableNotFound(m) => {
                let mut out = chars_of("Variable not found: {{");
                append(&mut out, &chars_of(m.as_str()));
                append(&mut out, &chars_of("}}"));
                string_of(&out)
            },
            AppError::Http(m) => prefixed("HTTP error: ", m.as_str()),
            AppError::JavaScript(m) => prefixed("JavaScript error: ", m.as_str()),
            AppError::Io(m) => prefixed("IO error: ", m.as_str()),
            AppError::Json(m) => prefixed("JSON error: ", m.as_str()),
        }
    }
}

} // verus!
