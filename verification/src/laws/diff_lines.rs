//! The lines of a diff in one list.
#![allow(unused_imports)]
use vstd::prelude::*;

use crate::diff::{flat_diff_lines, flat_lines, lemma_flat_hunk, DiffLine, FileDiff};
use crate::laws::moving::{lemma_start_of, start_of};

verus! {

/// The list holds every line of every hunk once: the lines of a hunk stand one
/// behind the other, behind all lines of the hunks before it.
pub proof fn law_the_lines_of_all_hunks_are_listed(
    diff: FileDiff,
    lines: Vec<&DiffLine>,
    h: int,
    k: int,
)
    requires
        call_ensures(flat_diff_lines, (&diff,), lines),
    ensures
        lines@.len() == start_of(diff.hunks@, diff.hunks@.len() as int),
        diff.flat().len() == lines@.len(),
        0 <= h < diff.hunks@.len() && 0 <= k < diff.hunks@[h].lines@.len() ==> {
            let i = start_of(diff.hunks@, h) + k;
            &&& 0 <= i < lines@.len()
            &&& *lines@[i] == diff.hunks@[h].lines@[k]
            &&& diff.flat()[i] == diff.hunks@[h].lines@[k]
        },
{
    let hunks = diff.hunks@;
    lemma_start_of(hunks, hunks.len() as int);
    assert(hunks.take(hunks.len() as int) =~= hunks);
    if 0 <= h < hunks.len() {
        lemma_start_of(hunks, h);
        lemma_flat_hunk(hunks, h);
        if 0 <= k < hunks[h].lines@.len() {
            let i = crate::diff::hunk_start(hunks, h) + k;
            assert(flat_lines(hunks)[i] == hunks[h].lines@[k]);
            assert(*lines@[i] == diff.flat()[i]);
        }
    }
}

} // verus!
