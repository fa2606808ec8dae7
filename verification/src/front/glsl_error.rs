//! Errors of the GLSL front end.

use crate::decimal::{decimal, push_decimal, push_signed_decimal, signed_decimal};
use vstd::prelude::*;

verus! {

/// Where a token stands in the source: its line and its range of characters.
#[derive(Debug)]
pub struct TokenMetadata {
    pub line: usize,
    pub chars: std::ops::Range<usize>,
}

/// The text of token metadata as `{:?}` shows it.
pub open spec fn metadata_text(meta: TokenMetadata) -> Seq<char> {
    "TokenMetadata { line: "@ + decimal(meta.line as nat) + ", chars: "@ + decimal(
        meta.chars.start as nat,
    ) + ".."@ + decimal(meta.chars.end as nat) + " }"@
}

impl TokenMetadata {
    /// The metadata as `{:?}` shows it: `TokenMetadata { line: L, chars: S..E }`.
    pub fn debug_text(&self) -> (s: String)
        ensures
            s@ == metadata_text(*self),
    {
        let mut s = String::from_str("TokenMetadata { line: ");
        push_decimal(&mut s, self.line as u64);
        s.append(", chars: ");
        push_decimal(&mut s, self.chars.start as u64);
        s.append("..");
        push_decimal(&mut s, self.chars.end as u64);
        s.append(" }");
        assert(s@ =~= metadata_text(*self));
        s
    }
}

/// A token of the source, held by the text that `{:?}` shows for it.
#[derive(Clone, Debug)]
pub struct Token {
    pub debug_text: String,
}

/// What went wrong while reading GLSL source.
#[derive(Debug)]
pub enum ErrorKind {
    EndOfFile,
    InvalidInput,
    InvalidProfile(TokenMetadata, String),
    InvalidToken(Token),
    InvalidVersion(TokenMetadata, i64),
    IoError(std::io::Error),
    ParserFail,
    ParserStackOverflow,
    NotImplemented(&'static str),
    UnknownVariable(TokenMetadata, String),
    UnknownField(TokenMetadata, String),
    VariableAlreadyDeclared(String),
    ExpectedConstant,
    SemanticError(String),
    PreprocessorError(String),
    WrongNumberArgs(String, usize, usize),
}

/// The message of an error kind; for an input or output error, the message
/// of the underlying error follows the prefix, and `io_text` stands for it.
pub open spec fn error_kind_text(kind: ErrorKind, io_text: Seq<char>) -> Seq<char> {
    match kind {
        ErrorKind::EndOfFile => "Unexpected end of file"@,
        ErrorKind::InvalidInput => "InvalidInput"@,
        ErrorKind::InvalidProfile(meta, val) => "Invalid profile "@ + val@ + " at "@
            + metadata_text(meta),
        ErrorKind::InvalidToken(token) => "Invalid Token "@ + token.debug_text@,
        ErrorKind::InvalidVersion(meta, val) => "Invalid version "@ + signed_decimal(val as int)
            + " at "@ + metadata_text(meta),
        ErrorKind::IoError(_) => "IO Error "@ + io_text,
        ErrorKind::ParserFail => "Parser failed"@,
        ErrorKind::ParserStackOverflow => "Parser stack overflow"@,
        ErrorKind::NotImplemented(msg) => "Not implemented: "@ + msg@,
        ErrorKind::UnknownVariable(meta, val) => "Unknown variable "@ + val@ + " at "@
            + metadata_text(meta),
        ErrorKind::UnknownField(meta, val) => "Unknown field "@ + val@ + " at "@ + metadata_text(
            meta,
        ),
        ErrorKind::VariableAlreadyDeclared(val) => "Variable "@ + val@
            + " already declared in current scope"@,
        ErrorKind::ExpectedConstant => "Expected constant"@,
        ErrorKind::SemanticError(msg) => "Semantic error: "@ + msg@,
        ErrorKind::PreprocessorError(val) => "Preprocessor error: "@ + val@,
        ErrorKind::WrongNumberArgs(fun, expected, actual) => fun@ + " requires "@ + decimal(
            expected as nat,
        ) + " args, got "@ + decimal(actual as nat),
    }
}

impl ErrorKind {
    /// The message that describes the error.
    pub fn message(&self) -> (m: String)
        ensures
            match self {
                ErrorKind::IoError(err) => exists|s: String|
                    #![trigger vstd::string::to_string_from_display_ensures::<std::io::Error>(err, s)]
                    vstd::string::to_string_from_display_ensures::<std::io::Error>(err, s) && m@
                        == error_kind_text(*self, s@),
                _ => m@ == error_kind_text(*self, Seq::<char>::empty()),
            },
    {
        let mut m = String::new();
        match self {
            ErrorKind::EndOfFile => m.append("Unexpected end of file"),
            ErrorKind::InvalidInput => m.append("InvalidInput"),
            ErrorKind::InvalidProfile(meta, val) => {
                m.append("Invalid profile ");
                m.append(val.as_str());
                m.append(" at ");
                m.append(meta.debug_text().as_str());
            },
            ErrorKind::InvalidToken(token) => {
                m.append("Invalid Token ");
                m.append(token.debug_text.as_str());
            },
            ErrorKind::InvalidVersion(meta, val) => {
                m.append("Invalid version ");
                push_signed_decimal(&mut m, *val);
                m.append(" at ");
                m.append(meta.debug_text().as_str());
            },
            ErrorKind::IoError(error) => {
                let text = error.to_string();
                m.append("IO Error ");
                m.append(text.as_str());
                assert(m@ =~= error_kind_text(*self, text@));
                return m;
            },
            ErrorKind::ParserFail => m.append("Parser failed"),
            ErrorKind::ParserStackOverflow => m.append("Parser stack overflow"),
            ErrorKind::NotImplemented(msg) => {
                m.append("Not implemented: ");
                m.append(msg);
            },
            ErrorKind::UnknownVariable(meta, val) => {
                m.append("Unknown variable ");
                m.append(val.as_str());
                m.append(" at ");
                m.append(meta.debug_text().as_str());
            },
            ErrorKind::UnknownField(meta, val) => {
                m.append("Unknown field ");
                m.append(val.as_str());
                m.append(" at ");
                m.append(meta.debug_text().as_str());
            },
            ErrorKind::VariableAlreadyDeclared(val) => {
                m.append("Variable ");
                m.append(val.as_str());
                m.append(" already declared in current scope");
            },
            ErrorKind::ExpectedConstant => m.append("Expected constant"),
            ErrorKind::SemanticError(msg) => {
                m.append("Semantic error: ");
                m.append(msg.as_str());
            },
            ErrorKind::PreprocessorError(val) => {
                m.append("Preprocessor error: ");
                m.append(val.as_str());
            },
            ErrorKind::WrongNumberArgs(fun, expected, actual) => {
                m.append(fun.as_str());
                m.append(" requires ");
                push_decimal(&mut m, *expected as u64);
                m.append(" args, got ");
                push_decimal(&mut m, *actual as u64);
            },
        }
        assert(m@ =~= error_kind_text(*self, Seq::<char>::empty()));
        m
    }
}

/// An error of the GLSL front end.
#[derive(Debug)]
pub struct ParseError {
    pub kind: ErrorKind,
}

impl From<std::io::Error> for ParseError {
    fn from(error: std::io::Error) -> (e: Self) {
        ParseError { kind: ErrorKind::IoError(error) }
    }
}

impl vstd::std_specs::convert::FromSpecImpl<std::io::Error> for ParseError {
    open spec fn obeys_from_spec() -> bool {
        true
    }

    open spec fn from_spec(error: std::io::Error) -> ParseError {
        ParseError { kind: ErrorKind::IoError(error) }
    }
}

impl From<ErrorKind> for ParseError {
    fn from(kind: ErrorKind) -> (e: Self) {
        ParseError { kind }
    }
}

impl vstd::std_specs::convert::FromSpecImpl<ErrorKind> for ParseError {
    open spec fn obeys_from_spec() -> bool {
        true
    }

    open spec fn from_spec(kind: ErrorKind) -> ParseError {
        ParseError { kind }
    }
}

} // verus!
