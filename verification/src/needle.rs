//! Needles: patterns searched for in the retention buffer of a session.
//!
//! A needle reports zero or more match ranges over a byte buffer together
//! with an end-of-stream flag.  Needles are pure: they do no reads and hold
//! no hidden state.

use vstd::prelude::*;
use vstd::string::StringSliceAdditionalSpecFns;

use crate::error::Error;
use crate::matching::{find_literal, literal_matches, ranges_well_formed, ByteMatch};
use crate::text::{push_char, u64_to_dec, append_str};

verus! {

/// What a regular expression reports on a byte buffer: the `(start, end)`
/// offsets of its successive non-overlapping matches, in search order.
pub uninterp spec fn regex_ranges(pattern: Seq<char>, hay: Seq<u8>) -> Seq<(int, int)>;

/// Whether a regular-expression pattern compiles.
pub uninterp spec fn regex_valid(pattern: Seq<char>) -> bool;

/// Relies on `regex::bytes::Regex::new` and `Regex::find_iter`: the pattern
/// either fails to compile (for every haystack alike) or yields the successive
/// non-overlapping leftmost matches, each within the haystack and in order.
#[verifier::external_body]
fn regex_find_all(pattern: &str, hay: &[u8]) -> (r: Option<Vec<ByteMatch>>)
    ensures
        r is Some <==> regex_valid(pattern@),
        r matches Some(v) ==> {
            &&& v@.len() == regex_ranges(pattern@, hay@).len()
            &&& forall|i: int|
                0 <= i < v@.len() ==> #[trigger] v@[i].start == regex_ranges(pattern@, hay@)[i].0
                    && v@[i].end == regex_ranges(pattern@, hay@)[i].1
            &&& forall|i: int| 0 <= i < v@.len() ==> #[trigger] v@[i].start <= v@[i].end
                <= hay@.len()
            &&& forall|i: int|
                0 <= i < v@.len() - 1 ==> #[trigger] v@[i].end <= v@[i + 1].start
        },
{
    match regex::bytes::Regex::new(pattern) {
        Ok(re) => Some(
            re.find_iter(hay).map(|m| ByteMatch { start: m.start(), end: m.end() }).collect(),
        ),
        Err(_) => None,
    }
}

/// The ranges of [`regex_ranges`] as match values.
pub open spec fn regex_matches(pattern: Seq<char>, hay: Seq<u8>) -> Seq<ByteMatch> {
    Seq::new(
        regex_ranges(pattern, hay).len(),
        |i: int|
            ByteMatch {
                start: regex_ranges(pattern, hay)[i].0 as usize,
                end: regex_ranges(pattern, hay)[i].1 as usize,
            },
    )
}

/// A pattern together with its search semantics.
pub trait Needle: Sized {
    /// The match ranges this needle reports on a buffer.
    spec fn matches_spec(&self, buf: Seq<u8>, eof: bool) -> Seq<ByteMatch>;

    /// Whether the needle is well formed; false only for a regular
    /// expression whose pattern does not compile.
    spec fn valid(&self) -> bool;

    /// The description used in timeout errors.
    spec fn desc_spec(&self) -> Seq<char>;

    /// Reports every match of this needle in `buf`; `eof` tells whether the
    /// stream has ended right after these bytes.
    fn check(&self, buf: &[u8], eof: bool) -> (r: Result<Vec<ByteMatch>, Error>)
        ensures
            r is Ok <==> self.valid(),
            r matches Ok(v) ==> v@ == self.matches_spec(buf@, eof) && ranges_well_formed(
                v@,
                buf@.len(),
            ),
            r matches Err(e) ==> e is RegexParsing,
    ;

    /// Renders the description of this needle.
    fn describe(&self) -> (r: String)
        ensures
            r@ == self.desc_spec(),
    ;
}

impl Needle for &str {
    open spec fn matches_spec(&self, buf: Seq<u8>, eof: bool) -> Seq<ByteMatch> {
        literal_matches(self.spec_bytes(), buf)
    }

    open spec fn valid(&self) -> bool {
        true
    }

    open spec fn desc_spec(&self) -> Seq<char> {
        self@
    }

    fn check(&self, buf: &[u8], eof: bool) -> (r: Result<Vec<ByteMatch>, Error>) {
        Ok(find_literal(self.as_bytes(), buf))
    }

    fn describe(&self) -> (r: String) {
        let mut out = String::new();
        append_str(&mut out, self);
        proof {
            assert(Seq::<char>::empty() + self@ =~= self@);
        }
        out
    }
}

impl Needle for String {
    open spec fn matches_spec(&self, buf: Seq<u8>, eof: bool) -> Seq<ByteMatch> {
        literal_matches(vstd::utf8::encode_utf8(self@), buf)
    }

    open spec fn valid(&self) -> bool {
        true
    }

    open spec fn desc_spec(&self) -> Seq<char> {
        self@
    }

    fn check(&self, buf: &[u8], eof: bool) -> (r: Result<Vec<ByteMatch>, Error>) {
        Ok(find_literal(self.as_str().as_bytes(), buf))
    }

    fn describe(&self) -> (r: String) {
        let mut out = String::new();
        append_str(&mut out, self.as_str());
        proof {
            assert(Seq::<char>::empty() + self@ =~= self@);
        }
        out
    }
}

impl Needle for char {
    open spec fn matches_spec(&self, buf: Seq<u8>, eof: bool) -> Seq<ByteMatch> {
        literal_matches(vstd::utf8::encode_utf8(seq![*self]), buf)
    }

    open spec fn valid(&self) -> bool {
        true
    }

    open spec fn desc_spec(&self) -> Seq<char> {
        seq![*self]
    }

    fn check(&self, buf: &[u8], eof: bool) -> (r: Result<Vec<ByteMatch>, Error>) {
        let mut s = String::new();
        push_char(&mut s, *self);
        proof {
            assert(s@ =~= seq![*self]);
        }
        Ok(find_literal(s.as_str().as_bytes(), buf))
    }

    fn describe(&self) -> (r: String) {
        let mut s = String::new();
        push_char(&mut s, *self);
        proof {
            assert(s@ =~= seq![*self]);
        }
        s
    }
}

/// A regular-expression needle over the bytes of the buffer.
#[derive(Debug, Clone, Copy)]
pub struct Regex<'a>(pub &'a str);

impl<'a> Needle for Regex<'a> {
    open spec fn matches_spec(&self, buf: Seq<u8>, eof: bool) -> Seq<ByteMatch> {
        regex_matches(self.0@, buf)
    }

    open spec fn valid(&self) -> bool {
        regex_valid(self.0@)
    }

    open spec fn desc_spec(&self) -> Seq<char> {
        self.0@
    }

    fn check(&self, buf: &[u8], eof: bool) -> (r: Result<Vec<ByteMatch>, Error>) {
        match regex_find_all(self.0, buf) {
            Some(v) => {
                proof {
                    let rs = regex_ranges(self.0@, buf@);
                    assert forall|i: int| 0 <= i < v@.len() implies v@[i] == regex_matches(
                        self.0@,
                        buf@,
                    )[i] by {
                        assert(v@[i].start == rs[i].0);
                        assert(v@[i].end == rs[i].1);
                        assert(rs[i].0 as usize == v@[i].start);
                        assert(rs[i].1 as usize == v@[i].end);
                    }
                    assert(v@ =~= regex_matches(self.0@, buf@));
                }
                Ok(v)
            },
            None => Err(Error::RegexParsing),
        }
    }

    fn describe(&self) -> (r: String) {
        let mut out = String::new();
        append_str(&mut out, self.0);
        proof {
            assert(Seq::<char>::empty() + self.0@ =~= self.0@);
        }
        out
    }
}

/// The end-of-stream sentinel: matches the whole buffer once the stream ends.
#[derive(Debug, Clone, Copy)]
pub struct Eof;

impl Needle for Eof {
    open spec fn matches_spec(&self, buf: Seq<u8>, eof: bool) -> Seq<ByteMatch> {
        if eof {
            seq![ByteMatch { start: 0, end: buf.len() as usize }]
        } else {
            Seq::empty()
        }
    }

    open spec fn valid(&self) -> bool {
        true
    }

    open spec fn desc_spec(&self) -> Seq<char> {
        "Eof"@
    }

    fn check(&self, buf: &[u8], eof: bool) -> (r: Result<Vec<ByteMatch>, Error>) {
        let mut out: Vec<ByteMatch> = Vec::new();
        if eof {
            out.push(ByteMatch { start: 0, end: buf.len() });
        }
        Ok(out)
    }

    fn describe(&self) -> (r: String) {
        let lit = "Eof";
        let mut out = String::new();
        append_str(&mut out, lit);
        proof {
            assert(Seq::<char>::empty() + lit@ =~= lit@);
        }
        out
    }
}

/// Matches once the buffer holds at least the given number of bytes.
#[derive(Debug, Clone, Copy)]
pub struct NBytes(pub usize);

impl Needle for NBytes {
    open spec fn matches_spec(&self, buf: Seq<u8>, eof: bool) -> Seq<ByteMatch> {
        if buf.len() >= self.0 {
            seq![ByteMatch { start: 0, end: self.0 }]
        } else {
            Seq::empty()
        }
    }

    open spec fn valid(&self) -> bool {
        true
    }

    open spec fn desc_spec(&self) -> Seq<char> {
        "NBytes("@ + crate::text::dec_chars(self.0 as nat) + ")"@
    }

    fn check(&self, buf: &[u8], eof: bool) -> (r: Result<Vec<ByteMatch>, Error>) {
        let mut out: Vec<ByteMatch> = Vec::new();
        if buf.len() >= self.0 {
            out.push(ByteMatch { start: 0, end: self.0 });
        }
        Ok(out)
    }

    fn describe(&self) -> (r: String) {
        let mut out = String::new();
        append_str(&mut out, "NBytes(");
        let digits = u64_to_dec(self.0 as u64);
        append_str(&mut out, digits.as_str());
        append_str(&mut out, ")");
        proof {
            assert(Seq::<char>::empty() + "NBytes("@ + dec_chars_of_usize(self.0) + ")"@
                =~= "NBytes("@ + crate::text::dec_chars(self.0 as nat) + ")"@);
        }
        out
    }
}

/// The decimal rendering of a machine word.
pub open spec fn dec_chars_of_usize(n: usize) -> Seq<char> {
    crate::text::dec_chars(n as nat)
}

/// Matches wherever any of the inner needles matches: the union of their
/// reports, in the order of the inner needles.
#[derive(Debug, Clone)]
pub struct Any<T>(pub Vec<T>);

/// The concatenation of the reports of every needle in a list.
pub open spec fn any_matches<T: Needle>(items: Seq<T>, buf: Seq<u8>, eof: bool) -> Seq<ByteMatch>
    decreases items.len(),
{
    if items.len() == 0 {
        Seq::empty()
    } else {
        any_matches(items.drop_last(), buf, eof) + items.last().matches_spec(buf, eof)
    }
}

impl<T: Needle> Needle for Any<T> {
    open spec fn matches_spec(&self, buf: Seq<u8>, eof: bool) -> Seq<ByteMatch> {
        any_matches(self.0@, buf, eof)
    }

    open spec fn valid(&self) -> bool {
        forall|i: int| 0 <= i < self.0@.len() ==> (#[trigger] self.0@[i]).valid()
    }

    open spec fn desc_spec(&self) -> Seq<char> {
        "Any"@
    }

    fn check(&self, buf: &[u8], eof: bool) -> (r: Result<Vec<ByteMatch>, Error>) {
        let mut out: Vec<ByteMatch> = Vec::new();
        let mut i: usize = 0;
        while i < self.0.len()
            invariant
                i <= self.0@.len(),
                forall|j: int| 0 <= j < i ==> (#[trigger] self.0@[j]).valid(),
                out@ == any_matches(self.0@.take(i as int), buf@, eof),
                ranges_well_formed(out@, buf@.len()),
            decreases self.0@.len() - i,
        {
            let inner = match self.0[i].check(buf, eof) {
                Ok(v) => v,
                Err(e) => {
                    proof {
                        assert(!(self.0@[i as int]).valid());
                    }
                    return Err(e);
                },
            };
            proof {
                assert(self.0@.take(i + 1 as int).drop_last() =~= self.0@.take(i as int));
                assert(self.0@.take(i + 1 as int).last() == self.0@[i as int]);
            }
            let mut inner = inner;
            out.append(&mut inner);
            i = i + 1;
        }
        proof {
            assert(self.0@.take(self.0@.len() as int) =~= self.0@);
        }
        Ok(out)
    }

    fn describe(&self) -> (r: String) {
        let lit = "Any";
        let mut out = String::new();
        append_str(&mut out, lit);
        proof {
            assert(Seq::<char>::empty() + lit@ =~= lit@);
        }
        out
    }
}

} // verus!
