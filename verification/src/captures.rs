//! The outcome of a successful search: the consumed bytes and the ranges a
//! needle matched inside them.

use vstd::prelude::*;
use vstd::slice::slice_subrange;

use crate::matching::{ranges_well_formed, ByteMatch};

verus! {

/// Bytes consumed by an expect or check call, together with every match the
/// needle reported inside them.
#[derive(Debug, Clone)]
pub struct Captures {
    buf: Vec<u8>,
    found: Vec<ByteMatch>,
}

impl Captures {
    /// The bytes the call consumed.
    pub closed spec fn consumed(self) -> Seq<u8> {
        self.buf@
    }

    /// The ranges the needle reported, in the order it reported them.
    pub closed spec fn ranges(self) -> Seq<ByteMatch> {
        self.found@
    }

    /// Every range lies inside the consumed bytes.
    pub closed spec fn wf(self) -> bool {
        ranges_well_formed(self.found@, self.buf@.len())
    }

    /// Packs consumed bytes and match ranges together.
    pub fn new(buf: Vec<u8>, found: Vec<ByteMatch>) -> (r: Captures)
        requires
            ranges_well_formed(found@, buf@.len()),
        ensures
            r.consumed() == buf@,
            r.ranges() == found@,
            r.wf(),
    {
        Captures { buf, found }
    }

    /// How many ranges the needle reported.
    pub fn match_count(&self) -> (r: usize)
        ensures
            r == self.ranges().len(),
    {
        self.found.len()
    }

    /// Whether the search reported no match at all.
    pub fn is_empty(&self) -> (r: bool)
        ensures
            r == (self.ranges().len() == 0),
    {
        self.found.len() == 0
    }

    /// The consumed bytes that precede the first match; all of them when
    /// nothing matched.
    pub fn before(&self) -> (r: &[u8])
        requires
            self.wf(),
        ensures
            self.ranges().len() > 0 ==> r@ == self.consumed().take(
                self.ranges()[0].start as int,
            ),
            self.ranges().len() == 0 ==> r@ == self.consumed(),
    {
        if self.found.len() > 0 {
            let stop = self.found[0].start;
            slice_subrange(self.buf.as_slice(), 0, stop)
        } else {
            self.buf.as_slice()
        }
    }

    /// The bytes of the `i`-th match, or `None` past the last match.
    pub fn get(&self, i: usize) -> (r: Option<&[u8]>)
        requires
            self.wf(),
        ensures
            i < self.ranges().len() ==> (r matches Some(b) && b@ == self.consumed().subrange(
                self.ranges()[i as int].start as int,
                self.ranges()[i as int].end as int,
            )),
            i >= self.ranges().len() ==> r is None,
    {
        if i < self.found.len() {
            let m = self.found[i];
            Some(slice_subrange(self.buf.as_slice(), m.start, m.end))
        } else {
            None
        }
    }

    /// The consumed bytes as one slice.
    pub fn as_bytes(&self) -> (r: &[u8])
        ensures
            r@ == self.consumed(),
    {
        self.buf.as_slice()
    }
}

} // verus!
