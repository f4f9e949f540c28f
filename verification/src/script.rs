//! Splicing of imported scripts: a parsed subtree is inserted at the
//! instruction index the parser recorded, compensated for subtrees already
//! spliced before it.

use vstd::prelude::*;

use crate::parser::{Instruction, ScriptSource};

verus! {

/// Insertion at a position: inside the sequence it shifts the rest right, at
/// or past the end it appends.
pub open spec fn splice_at(base: Seq<Instruction>, pos: int, item: Instruction) -> Seq<
    Instruction,
> {
    if 0 <= pos < base.len() {
        base.insert(pos, item)
    } else {
        base.push(item)
    }
}

/// Splices one subtree: the recorded index plus the number of subtrees
/// already spliced names the insertion point; past the end, the subtree is
/// appended.
pub fn splice_subtree(instructions: &mut Vec<Instruction>, index: usize, done: usize, sub: ScriptSource)
    ensures
        final(instructions)@ == splice_at(
            old(instructions)@,
            index + done,
            Instruction::Include(sub),
        ),
{
    let item = Instruction::Include(sub);
    let pos = match index.checked_add(done) {
        Some(p) => p,
        None => {
            let cur = instructions.len();
            proof {
                assert(old(instructions)@.len() == cur);
                assert(index + done > cur);
            }
            instructions.push(item);
            return ;
        },
    };
    if pos < instructions.len() {
        instructions.insert(pos, item);
    } else {
        instructions.push(item);
    }
}

/// Folds a list of subtrees into a base: the `i`-th subtree is spliced at
/// its recorded index plus `k + i`.
pub open spec fn splice_fold(
    base: Seq<Instruction>,
    subs: Seq<(int, Instruction)>,
    k: int,
) -> Seq<Instruction>
    decreases subs.len(),
{
    if subs.len() == 0 {
        base
    } else {
        splice_fold(splice_at(base, subs[0].0 + k, subs[0].1), subs.skip(1), k + 1)
    }
}

/// The splice law: when subtrees are recorded at non-decreasing indices
/// `p(0) <= p(1) <= ...`, each inside the base, then after splicing them in
/// order the `i`-th subtree stands at position `p(i) + k + i`, every element
/// before the first insertion point keeps its place, and the length grows by
/// the number of subtrees.
pub proof fn lemma_splice_positions(base: Seq<Instruction>, subs: Seq<(int, Instruction)>, k: int)
    requires
        forall|i: int| 0 <= i < subs.len() ==> 0 <= #[trigger] subs[i].0 && subs[i].0 + k
            <= base.len(),
        forall|i: int, j: int| 0 <= i < j < subs.len() ==> subs[i].0 <= subs[j].0,
        k >= 0,
    ensures
        splice_fold(base, subs, k).len() == base.len() + subs.len(),
        forall|i: int|
            0 <= i < subs.len() ==> splice_fold(base, subs, k)[#[trigger] subs[i].0 + k + i]
                == subs[i].1,
        subs.len() > 0 ==> forall|j: int|
            0 <= j < subs[0].0 + k ==> splice_fold(base, subs, k)[j] == base[j],
    decreases subs.len(),
{
    if subs.len() > 0 {
        let pos = subs[0].0 + k;
        let item = subs[0].1;
        let base1 = splice_at(base, pos, item);
        if pos >= base.len() {
            assert(base.insert(pos, item) =~= base.push(item));
        }
        assert(base1 =~= base.insert(pos, item));
        let rest = subs.skip(1);
        assert forall|i: int|
            0 <= i < rest.len() implies 0 <= #[trigger] rest[i].0 && rest[i].0 + (k + 1)
            <= base1.len() by {
            assert(rest[i] == subs[i + 1]);
        }
        assert forall|i: int, j: int| 0 <= i < j < rest.len() implies rest[i].0 <= rest[j].0 by {
            assert(rest[i] == subs[i + 1]);
            assert(rest[j] == subs[j + 1]);
        }
        lemma_splice_positions(base1, rest, k + 1);
        assert(splice_fold(base, subs, k) == splice_fold(base1, rest, k + 1));
        assert forall|i: int|
            0 <= i < subs.len() implies splice_fold(base, subs, k)[#[trigger] subs[i].0 + k + i]
            == subs[i].1 by {
            if i == 0 {
                if rest.len() > 0 {
                    assert(rest[0] == subs[1]);
                    assert(pos < rest[0].0 + (k + 1));
                    assert(splice_fold(base1, rest, k + 1)[pos] == base1[pos]);
                } else {
                }
                assert(base1[pos] == item);
            } else {
                assert(rest[i - 1] == subs[i]);
                assert(splice_fold(base1, rest, k + 1)[rest[i - 1].0 + (k + 1) + (i - 1)]
                    == rest[i - 1].1);
            }
        }
        if subs.len() > 0 {
            assert forall|j: int|
                0 <= j < subs[0].0 + k implies splice_fold(base, subs, k)[j] == base[j] by {
                assert(base1[j] == base[j]);
                if rest.len() > 0 {
                    assert(rest[0] == subs[1]);
                    assert(j < rest[0].0 + (k + 1));
                    assert(splice_fold(base1, rest, k + 1)[j] == base1[j]);
                }
            }
        }
    }
}

} // verus!
