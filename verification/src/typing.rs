//! Human-cadence typing support: a line is sent one grapheme cluster at a
//! time, closed by a newline.

use vstd::prelude::*;
use vstd::string::StringExecFns;

use unicode_segmentation::UnicodeSegmentation;

verus! {

/// The grapheme clusters of a text, in order; their concatenation is the
/// text itself.
pub uninterp spec fn graphemes_of(s: Seq<char>) -> Seq<Seq<char>>;

/// Relies on `unicode_segmentation::UnicodeSegmentation::graphemes` (the
/// extended clusters): the pieces partition the input in order, so their
/// concatenation is the input; the split depends on the characters alone.
#[verifier::external_body]
fn split_graphemes(s: &str) -> (r: Vec<String>)
    ensures
        r.deep_view() == graphemes_of(s@),
        r.deep_view().flatten() == s@,
{
    UnicodeSegmentation::graphemes(s, true).map(|g| g.to_owned()).collect()
}

/// The chunks a typed line is sent as: each grapheme cluster of the line in
/// order, then one newline.  Sent one by one with a flush after each, they
/// reproduce the line as a human would type it.
pub fn typed_chunks(line: &str) -> (r: Vec<String>)
    ensures
        r.deep_view() == graphemes_of(line@).push("\n"@),
        r.deep_view().len() == graphemes_of(line@).len() + 1,
{
    let mut chunks = split_graphemes(line);
    let ghost pre = chunks.deep_view();
    let newline = String::from_str("\n");
    let ghost nl = newline@;
    chunks.push(newline);
    proof {
        assert(chunks.deep_view() =~= pre.push(nl));
    }
    chunks
}

} // verus!
