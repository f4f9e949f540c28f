//! The control-code table: symbolic names, caret forms and single letters
//! mapped to control bytes.

use vstd::prelude::*;

use crate::error::Error;
use crate::text::str_to_chars;

verus! {

/// The byte of a two-character caret form `^X`.
pub open spec fn caret_code(c: char) -> Option<u8> {
    if 'A' <= c && c <= 'Z' {
        Some(((c as int) - 64) as u8)
    } else if c == '@' {
        Some(0)
    } else if c == '[' {
        Some(27)
    } else if c == '\\' {
        Some(28)
    } else if c == ']' {
        Some(29)
    } else if c == '^' {
        Some(30)
    } else if c == '_' {
        Some(31)
    } else if c == '?' {
        Some(127)
    } else {
        None
    }
}

/// The byte of a single lower-case letter: its control companion.
pub open spec fn letter_code(c: char) -> Option<u8> {
    if 'a' <= c && c <= 'z' {
        Some(((c as int) - 96) as u8)
    } else {
        None
    }
}

/// The byte of a symbolic control-code name.
pub open spec fn named_code(s: Seq<char>) -> Option<u8> {
    if s == "NUL"@ {
        Some(0)
    } else if s == "SOH"@ {
        Some(1)
    } else if s == "STX"@ {
        Some(2)
    } else if s == "ETX"@ {
        Some(3)
    } else if s == "EOT"@ {
        Some(4)
    } else if s == "ENQ"@ {
        Some(5)
    } else if s == "ACK"@ {
        Some(6)
    } else if s == "BEL"@ {
        Some(7)
    } else if s == "BS"@ {
        Some(8)
    } else if s == "HT"@ {
        Some(9)
    } else if s == "LF"@ {
        Some(10)
    } else if s == "VT"@ {
        Some(11)
    } else if s == "FF"@ {
        Some(12)
    } else if s == "CR"@ {
        Some(13)
    } else if s == "SO"@ {
        Some(14)
    } else if s == "SI"@ {
        Some(15)
    } else if s == "DLE"@ {
        Some(16)
    } else if s == "DC1"@ {
        Some(17)
    } else if s == "DC2"@ {
        Some(18)
    } else if s == "DC3"@ {
        Some(19)
    } else if s == "DC4"@ {
        Some(20)
    } else if s == "NAK"@ {
        Some(21)
    } else if s == "SYN"@ {
        Some(22)
    } else if s == "ETB"@ {
        Some(23)
    } else if s == "CAN"@ {
        Some(24)
    } else if s == "EM"@ {
        Some(25)
    } else if s == "SUB"@ {
        Some(26)
    } else if s == "ESC"@ {
        Some(27)
    } else if s == "FS"@ {
        Some(28)
    } else if s == "GS"@ {
        Some(29)
    } else if s == "RS"@ {
        Some(30)
    } else if s == "US"@ {
        Some(31)
    } else if s == "DEL"@ {
        Some(127)
    } else {
        None
    }
}

/// The byte a control-code token resolves to: a symbolic name, a caret form
/// `^X`, or a single lower-case letter.
pub open spec fn control_code_of(s: Seq<char>) -> Option<u8> {
    if named_code(s) is Some {
        named_code(s)
    } else if s.len() == 2 && s[0] == '^' {
        caret_code(s[1])
    } else if s.len() == 1 {
        letter_code(s[0])
    } else {
        None
    }
}

/// Whether the token equals a literal name.
fn name_is(s: &str, lit: &str) -> (r: bool)
    ensures
        r == (s@ == lit@),
{
    let a = s.to_owned();
    let b = lit.to_owned();
    a == b
}

/// Resolves a symbolic name to its byte.
fn named_byte(s: &str) -> (r: Option<u8>)
    ensures
        r == named_code(s@),
{
    if name_is(s, "NUL") {
        Some(0)
    } else if name_is(s, "SOH") {
        Some(1)
    } else if name_is(s, "STX") {
        Some(2)
    } else if name_is(s, "ETX") {
        Some(3)
    } else if name_is(s, "EOT") {
        Some(4)
    } else if name_is(s, "ENQ") {
        Some(5)
    } else if name_is(s, "ACK") {
        Some(6)
    } else if name_is(s, "BEL") {
        Some(7)
    } else if name_is(s, "BS") {
        Some(8)
    } else if name_is(s, "HT") {
        Some(9)
    } else if name_is(s, "LF") {
        Some(10)
    } else if name_is(s, "VT") {
        Some(11)
    } else if name_is(s, "FF") {
        Some(12)
    } else if name_is(s, "CR") {
        Some(13)
    } else if name_is(s, "SO") {
        Some(14)
    } else if name_is(s, "SI") {
        Some(15)
    } else if name_is(s, "DLE") {
        Some(16)
    } else if name_is(s, "DC1") {
        Some(17)
    } else if name_is(s, "DC2") {
        Some(18)
    } else if name_is(s, "DC3") {
        Some(19)
    } else if name_is(s, "DC4") {
        Some(20)
    } else if name_is(s, "NAK") {
        Some(21)
    } else if name_is(s, "SYN") {
        Some(22)
    } else if name_is(s, "ETB") {
        Some(23)
    } else if name_is(s, "CAN") {
        Some(24)
    } else if name_is(s, "EM") {
        Some(25)
    } else if name_is(s, "SUB") {
        Some(26)
    } else if name_is(s, "ESC") {
        Some(27)
    } else if name_is(s, "FS") {
        Some(28)
    } else if name_is(s, "GS") {
        Some(29)
    } else if name_is(s, "RS") {
        Some(30)
    } else if name_is(s, "US") {
        Some(31)
    } else if name_is(s, "DEL") {
        Some(127)
    } else {
        None
    }
}

/// Resolves a control-code token to the byte it names; an unknown token
/// fails with `InvalidControlCode` carrying the token.
pub fn control_byte(name: &str) -> (r: Result<u8, Error>)
    ensures
        r matches Ok(b) ==> control_code_of(name@) == Some(b),
        r is Err ==> control_code_of(name@) is None,
        r matches Err(e) ==> (e matches Error::InvalidControlCode(t) && t@ == name@),
{
    match named_byte(name) {
        Some(b) => Ok(b),
        None => {
            let chars = str_to_chars(name);
            if chars.len() == 2 && chars[0] == '^' {
                let c = chars[1];
                proof {
                    assert(name@[1] == c);
                    assert(name@[0] == '^');
                }
                if 'A' <= c && c <= 'Z' {
                    Ok((c as u8) - 64)
                } else if c == '@' {
                    Ok(0)
                } else if c == '[' {
                    Ok(27)
                } else if c == '\\' {
                    Ok(28)
                } else if c == ']' {
                    Ok(29)
                } else if c == '^' {
                    Ok(30)
                } else if c == '_' {
                    Ok(31)
                } else if c == '?' {
                    Ok(127)
                } else {
                    Err(Error::InvalidControlCode(name.to_owned()))
                }
            } else if chars.len() == 1 {
                let c = chars[0];
                proof {
                    assert(name@[0] == c);
                }
                if 'a' <= c && c <= 'z' {
                    Ok((c as u8) - 96)
                } else {
                    Err(Error::InvalidControlCode(name.to_owned()))
                }
            } else {
                Err(Error::InvalidControlCode(name.to_owned()))
            }
        },
    }
}

} // verus!
