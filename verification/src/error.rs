//! Failure values shared by sessions, the script parser and the interpreter.

use vstd::prelude::*;

use crate::text::{append_str, u64_to_dec};

verus! {

/// Lexical failure inside the script scanner.
#[derive(Debug, Clone, PartialEq, Eq, Structural)]
pub enum LexError {
    /// Generic lexical failure.
    Other,
}

/// Every failure the library reports.
#[derive(Debug, Clone)]
pub enum Error {
    /// A command line could not be split into a program and its arguments.
    CommandParsing,
    /// The pattern of a regular-expression needle does not compile.
    RegexParsing,
    /// An expect call reached its deadline: the configured timeout in
    /// milliseconds, and a description of the needle that was awaited.
    ExpectTimeout(u64, String),
    /// The stream closed before a match was found.
    Eof,
    /// The name handed to a control send is not a known control code.
    InvalidControlCode(String),
    /// The arguments of a spawn command are malformed.
    BadArguments(String),
    /// A pragma stands after the first instruction of a script.
    PragmaFirst,
    /// A directive line names no known instruction; holds the offending text.
    UnknownInstruction(String),
    /// A numeric argument did not parse; holds the offending text.
    NumberExpected(String),
    /// An imported script could not be read: the raw token and the resolved path.
    Include(String, String),
    /// Lexical failure while scanning a script.
    Lex(LexError),
    /// An input or output operation failed; holds a short description.
    Io(String),
}

impl Error {
    /// A one-line description of the failure.
    pub fn message(&self) -> String {
        let mut out = String::new();
        match self {
            Error::CommandParsing => {
                append_str(&mut out, "failed to parse command line");
            },
            Error::RegexParsing => {
                append_str(&mut out, "failed to parse regex");
            },
            Error::ExpectTimeout(ms, needle) => {
                append_str(&mut out, "reached the timeout of ");
                let digits = u64_to_dec(*ms);
                append_str(&mut out, digits.as_str());
                append_str(&mut out, "ms expecting ");
                append_str(&mut out, needle.as_str());
            },
            Error::Eof => {
                append_str(&mut out, "unhandled EOF");
            },
            Error::InvalidControlCode(token) => {
                append_str(&mut out, "invalid control code: ");
                append_str(&mut out, token.as_str());
            },
            Error::BadArguments(raw) => {
                append_str(&mut out, "malformed arguments: ");
                append_str(&mut out, raw.as_str());
            },
            Error::PragmaFirst => {
                append_str(&mut out, "a pragma must be the first instruction");
            },
            Error::UnknownInstruction(raw) => {
                append_str(&mut out, "unknown instruction: ");
                append_str(&mut out, raw.as_str());
            },
            Error::NumberExpected(raw) => {
                append_str(&mut out, "expected a number: ");
                append_str(&mut out, raw.as_str());
            },
            Error::Include(raw, resolved) => {
                append_str(&mut out, "cannot import ");
                append_str(&mut out, raw.as_str());
                append_str(&mut out, " resolved to ");
                append_str(&mut out, resolved.as_str());
            },
            Error::Lex(_) => {
                append_str(&mut out, "lexical failure");
            },
            Error::Io(detail) => {
                append_str(&mut out, "input or output failed: ");
                append_str(&mut out, detail.as_str());
            },
        }
        out
    }
}

} // verus!
