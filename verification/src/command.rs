//! Splitting a command line into a program and its arguments.

use vstd::prelude::*;

use crate::error::Error;

verus! {

/// The words a command line splits into, honouring quoting and escapes;
/// `None` when a quotation mark is unmatched.
pub uninterp spec fn shell_words(s: Seq<char>) -> Option<Seq<Seq<char>>>;

/// Relies on `comma::parse_command`: the command line splits into
/// whitespace-separated words with quote pairs and backslash escapes, or
/// fails on a mismatched quote; the result depends on the input alone.
#[verifier::external_body]
fn comma_split(cmd: &str) -> (r: Option<Vec<String>>)
    ensures
        r matches Some(v) ==> (shell_words(cmd@) matches Some(w) && v.deep_view() == w),
        r is None ==> shell_words(cmd@) is None,
        r is Some ==> shell_words(cmd@) is Some,
{
    comma::parse_command(cmd)
}

/// Splits a command line into its words; a mismatched quotation mark fails
/// with `BadArguments` carrying the command line.
pub fn parse_command_line(cmd: &str) -> (r: Result<Vec<String>, Error>)
    ensures
        r is Ok <==> shell_words(cmd@) is Some,
        r matches Ok(v) ==> (shell_words(cmd@) matches Some(w) && v.deep_view() == w),
        r matches Err(e) ==> (e matches Error::BadArguments(raw) && raw@ == cmd@),
{
    match comma_split(cmd) {
        Some(v) => Ok(v),
        None => Err(Error::BadArguments(cmd.to_owned())),
    }
}

} // verus!
