//! Match ranges inside a byte buffer, and the search for literal needles.

use vstd::prelude::*;

verus! {

/// A contiguous half-open range `[start, end)` of a buffer that a needle matched.
#[derive(Debug, Clone, Copy, PartialEq, Eq, Structural)]
pub struct ByteMatch {
    /// Offset of the first matched byte.
    pub start: usize,
    /// Offset one past the last matched byte.
    pub end: usize,
}

/// All ranges lie inside a buffer of length `n`, and are ordered.
pub open spec fn ranges_well_formed(ms: Seq<ByteMatch>, n: nat) -> bool {
    forall|i: int| 0 <= i < ms.len() ==> #[trigger] ms[i].start <= ms[i].end <= n
}

/// The largest `end` over a list of matches; zero when the list is empty.
pub open spec fn spec_right_most(ms: Seq<ByteMatch>) -> int
    decreases ms.len(),
{
    if ms.len() == 0 {
        0
    } else {
        let rest = spec_right_most(ms.drop_last());
        if ms.last().end >= rest {
            ms.last().end as int
        } else {
            rest
        }
    }
}

/// The right-most index bounds every match end from above and is never
/// negative.
pub proof fn lemma_right_most_bounds(ms: Seq<ByteMatch>)
    ensures
        0 <= spec_right_most(ms),
        forall|i: int| 0 <= i < ms.len() ==> #[trigger] ms[i].end <= spec_right_most(ms),
    decreases ms.len(),
{
    if ms.len() > 0 {
        lemma_right_most_bounds(ms.drop_last());
        assert(forall|i: int|
            0 <= i < ms.len() - 1 ==> ms[i] == #[trigger] ms.drop_last()[i]);
        assert(spec_right_most(ms) >= spec_right_most(ms.drop_last()));
        assert(spec_right_most(ms) >= ms.last().end);
        assert(forall|i: int| 0 <= i < ms.len() ==> #[trigger] ms[i].end <= spec_right_most(ms))
            by {
            assert forall|i: int| 0 <= i < ms.len() implies #[trigger] ms[i].end
                <= spec_right_most(ms) by {
                if i < ms.len() - 1 {
                    assert(ms[i] == ms.drop_last()[i]);
                } else {
                    assert(ms[i] == ms.last());
                }
            }
        }
    }
}

/// The number of bytes a successful match consumes: the largest `end` over the
/// reported matches.
pub fn right_most_index(ms: &Vec<ByteMatch>) -> (r: usize)
    ensures
        r == spec_right_most(ms@),
{
    let mut best: usize = 0;
    let mut i: usize = 0;
    while i < ms.len()
        invariant
            i <= ms@.len(),
            best == spec_right_most(ms@.take(i as int)),
        decreases ms@.len() - i,
    {
        proof {
            assert(ms@.take(i + 1 as int).drop_last() =~= ms@.take(i as int));
            assert(ms@.take(i + 1 as int).last() == ms@[i as int]);
        }
        if ms[i].end > best {
            best = ms[i].end;
        }
        i = i + 1;
    }
    proof {
        assert(ms@.take(ms@.len() as int) =~= ms@);
    }
    best
}

/// When every range ends inside a buffer of length `n`, so does the
/// right-most index.
pub proof fn lemma_right_most_le(ms: Seq<ByteMatch>, n: nat)
    requires
        ranges_well_formed(ms, n),
    ensures
        spec_right_most(ms) <= n,
    decreases ms.len(),
{
    if ms.len() > 0 {
        assert(forall|i: int|
            0 <= i < ms.len() - 1 ==> ms[i] == #[trigger] ms.drop_last()[i]);
        lemma_right_most_le(ms.drop_last(), n);
        let j = ms.len() - 1;
        assert(ms[j].start <= ms[j].end <= n);
        assert(ms.last() == ms[j]);
    }
}

/// The non-overlapping occurrences of `pat` in `buf` at or after position `i`:
/// scanning left to right, each occurrence is reported and the scan resumes
/// right after it.
pub open spec fn literal_matches_from(pat: Seq<u8>, buf: Seq<u8>, i: int) -> Seq<ByteMatch>
    decreases buf.len() - i
        when pat.len() > 0 && 0 <= i
{
    if pat.len() == 0 || i < 0 || i + pat.len() > buf.len() {
        Seq::empty()
    } else if buf.subrange(i, i + pat.len()) == pat {
        seq![
            ByteMatch { start: i as usize, end: (i + pat.len()) as usize },
        ] + literal_matches_from(pat, buf, i + pat.len())
    } else {
        literal_matches_from(pat, buf, i + 1)
    }
}

/// What a literal needle reports: its non-overlapping occurrences, and for the
/// empty literal a single empty match at the front of the buffer.
pub open spec fn literal_matches(pat: Seq<u8>, buf: Seq<u8>) -> Seq<ByteMatch> {
    if pat.len() == 0 {
        seq![ByteMatch { start: 0, end: 0 }]
    } else {
        literal_matches_from(pat, buf, 0)
    }
}

/// Whether `pat` occurs in `buf` at position `i`.
fn occurs_at(pat: &[u8], buf: &[u8], i: usize) -> (r: bool)
    requires
        i + pat@.len() <= buf@.len(),
    ensures
        r == (buf@.subrange(i as int, i + pat@.len()) == pat@),
{
    let n: usize = buf.len();
    let mut k: usize = 0;
    while k < pat.len()
        invariant
            k <= pat@.len(),
            buf@.len() == n,
            i + pat@.len() <= buf@.len(),
            buf@.subrange(i as int, i + k) == pat@.take(k as int),
        decreases pat@.len() - k,
    {
        if buf[i + k] != pat[k] {
            proof {
                assert(buf@.subrange(i as int, i + pat@.len())[k as int] != pat@[k as int]);
            }
            return false;
        }
        proof {
            assert(buf@.subrange(i as int, i + k + 1) =~= buf@.subrange(i as int, i + k)
                + seq![buf@[i + k]]);
            assert(pat@.take(k + 1 as int) =~= pat@.take(k as int) + seq![pat@[k as int]]);
        }
        k = k + 1;
    }
    proof {
        assert(buf@.subrange(i as int, i + pat@.len()) =~= pat@.take(pat@.len() as int));
        assert(pat@.take(pat@.len() as int) =~= pat@);
    }
    true
}

/// Finds every non-overlapping occurrence of `pat` in `buf`, left to right.
pub fn find_literal(pat: &[u8], buf: &[u8]) -> (r: Vec<ByteMatch>)
    ensures
        r@ == literal_matches(pat@, buf@),
        ranges_well_formed(r@, buf@.len()),
{
    let mut out: Vec<ByteMatch> = Vec::new();
    if pat.len() == 0 {
        out.push(ByteMatch { start: 0, end: 0 });
        return out;
    }
    let mut i: usize = 0;
    loop
        invariant
            pat@.len() > 0,
            i <= buf@.len() + pat@.len(),
            literal_matches(pat@, buf@) == out@ + literal_matches_from(pat@, buf@, i as int),
            ranges_well_formed(out@, buf@.len()),
        ensures
            out@ == literal_matches(pat@, buf@),
            ranges_well_formed(out@, buf@.len()),
        decreases buf@.len() + pat@.len() - i,
    {
        if i > buf.len() || pat.len() > buf.len() - i {
            proof {
                assert(literal_matches_from(pat@, buf@, i as int) =~= Seq::<ByteMatch>::empty());
                assert(out@ + Seq::<ByteMatch>::empty() =~= out@);
            }
            break ;
        }
        if occurs_at(pat, buf, i) {
            let m = ByteMatch { start: i, end: i + pat.len() };
            proof {
                assert(literal_matches_from(pat@, buf@, i as int) =~= seq![m]
                    + literal_matches_from(pat@, buf@, i + pat@.len()));
                assert((out@ + literal_matches_from(pat@, buf@, i as int)) =~= (out@.push(m)
                    + literal_matches_from(pat@, buf@, i + pat@.len())));
            }
            out.push(m);
            i = i + pat.len();
        } else {
            i = i + 1;
        }
    }
    out
}

} // verus!
