//! The row model of the side-by-side diff.
use vstd::prelude::*;

use crate::diff::{DiffLineType, FileDiff, Hunk};
#[allow(unused_imports)]
use crate::diff::{hunk_start, lemma_flat_hunk};

verus! {

/// One visual row of the split (side-by-side) diff. `left` and `right` are
/// flat diff-line indices, or `None` for a blank pad cell on that side.
#[derive(Clone, Copy, PartialEq, Eq, Debug, Structural)]
pub struct SplitRow {
    pub left: Option<usize>,
    pub right: Option<usize>,
}

/// The `n` flat indices from `at` on.
pub open spec fn indices(at: int, n: nat) -> Seq<usize> {
    Seq::new(n, |k: int| (at + k) as usize)
}

/// The entry of `list` at `k`, if there is one.
pub open spec fn entry(list: Seq<usize>, k: int) -> Option<usize> {
    if 0 <= k < list.len() {
        Some(list[k])
    } else {
        None
    }
}

/// Deletions on the left beside additions on the right; the longer list
/// meets blank cells once the shorter one has run out.
pub open spec fn pair_up(dels: Seq<usize>, adds: Seq<usize>) -> Seq<SplitRow> {
    let n = if dels.len() >= adds.len() {
        dels.len()
    } else {
        adds.len()
    };
    Seq::new(n, |k: int| SplitRow { left: entry(dels, k), right: entry(adds, k) })
}

/// How many lines from `at` on have type `t` without a gap.
pub open spec fn run_len(types: Seq<DiffLineType>, at: int, t: DiffLineType) -> nat
    decreases types.len() - at,
{
    if 0 <= at < types.len() && types[at] == t {
        1 + run_len(types, at + 1, t)
    } else {
        0
    }
}

/// Whether a line of type `t` spans both columns.
pub open spec fn spans_both(t: DiffLineType) -> bool {
    t == DiffLineType::Header || t == DiffLineType::Context
}

/// The rows of the lines from `at` on. A context or header line is a row of
/// its own; a run of deletions with the run of additions behind it is one
/// change block, whose lines are paired up.
pub open spec fn split_rows_from(types: Seq<DiffLineType>, at: int) -> Seq<SplitRow>
    decreases types.len() - at,
{
    if at < 0 || at >= types.len() {
        Seq::empty()
    } else if spans_both(types[at]) {
        seq![SplitRow { left: Some(at as usize), right: Some(at as usize) }] + split_rows_from(
            types,
            at + 1,
        )
    } else {
        let dels = run_len(types, at, DiffLineType::Delete);
        let adds = run_len(types, at + dels, DiffLineType::Add);
        proof {
            lemma_run(types, at, DiffLineType::Delete);
            lemma_run(types, at + dels, DiffLineType::Add);
        }
        pair_up(indices(at, dels), indices(at + dels, adds)) + split_rows_from(
            types,
            at + dels + adds,
        )
    }
}

/// The rows of a diff whose lines have the given types.
pub open spec fn split_rows(types: Seq<DiffLineType>) -> Seq<SplitRow> {
    split_rows_from(types, 0)
}

/// A run lies inside the lines, holds one type only, and ends where that
/// type ends.
pub proof fn lemma_run(types: Seq<DiffLineType>, at: int, t: DiffLineType)
    requires
        0 <= at <= types.len(),
    ensures
        at + run_len(types, at, t) <= types.len(),
        forall|i: int| at <= i < at + run_len(types, at, t) ==> types[i] == t,
        at + run_len(types, at, t) < types.len() ==> types[at + run_len(types, at, t)] != t,
    decreases types.len() - at,
{
    if at < types.len() && types[at] == t {
        lemma_run(types, at + 1, t);
    }
}

/// A run that is known to end has the length that it shows.
proof fn lemma_run_is(types: Seq<DiffLineType>, at: int, t: DiffLineType, n: nat)
    requires
        0 <= at,
        at + n <= types.len(),
        forall|i: int| at <= i < at + n ==> types[i] == t,
        at + n < types.len() ==> types[at + n as int] != t,
    ensures
        run_len(types, at, t) == n,
    decreases n,
{
    if n > 0 {
        lemma_run_is(types, at + 1, t, (n - 1) as nat);
    }
}

/// A change block that ends at `end` is laid out as its paired lines.
proof fn lemma_block(types: Seq<DiffLineType>, at: int, dels: nat, adds: nat)
    requires
        0 <= at,
        at + dels + adds <= types.len(),
        forall|i: int| at <= i < at + dels ==> types[i] == DiffLineType::Delete,
        forall|i: int| at + dels <= i < at + dels + adds ==> types[i] == DiffLineType::Add,
        at + dels + adds < types.len() ==> {
            let next = types[at + dels + adds as int];
            spans_both(next) || (next == DiffLineType::Delete && adds > 0)
        },
    ensures
        split_rows_from(types, at) == pair_up(indices(at, dels), indices(at + dels, adds))
            + split_rows_from(types, at + dels + adds),
{
    if dels + adds == 0 {
        assert(pair_up(indices(at, dels), indices(at + dels, adds)) =~= Seq::empty());
        assert(split_rows_from(types, at) =~= Seq::empty() + split_rows_from(types, at));
    } else {
        lemma_run_is(types, at, DiffLineType::Delete, dels);
        lemma_run_is(types, at + dels, DiffLineType::Add, adds);
    }
}

/// Emits paired change rows from the accumulated deletion and addition
/// indices, then clears both buffers. Deletions map to the left column,
/// additions to the right; an unpaired line gets a blank cell on the
/// opposite side.
pub fn flush_split_change(
    rows: &mut Vec<SplitRow>,
    dels: &mut Vec<usize>,
    adds: &mut Vec<usize>,
)
    ensures
        final(rows)@ == old(rows)@ + pair_up(old(dels)@, old(adds)@),
        final(dels)@ == Seq::<usize>::empty(),
        final(adds)@ == Seq::<usize>::empty(),
{
    let n: usize = if dels.len() >= adds.len() {
        dels.len()
    } else {
        adds.len()
    };
    let ghost rows_before = rows@;
    let mut i: usize = 0;
    while i < n
        invariant
            i <= n,
            n == pair_up(dels@, adds@).len(),
            dels@ == old(dels)@,
            adds@ == old(adds)@,
            rows@ == rows_before + pair_up(dels@, adds@).take(i as int),
        decreases n - i,
    {
        let left: Option<usize> = if i < dels.len() {
            Some(dels[i])
        } else {
            None
        };
        let right: Option<usize> = if i < adds.len() {
            Some(adds[i])
        } else {
            None
        };
        rows.push(SplitRow { left, right });
        assert(rows@ =~= rows_before + pair_up(dels@, adds@).take(i + 1));
        i += 1;
    }
    assert(pair_up(dels@, adds@).take(n as int) =~= pair_up(dels@, adds@));
    dels.clear();
    adds.clear();
}

/// Builds the side-by-side row model for `diff`. Deletions align on the left
/// column, additions on the right, context and header lines span both
/// columns. The flat counter advances for every line, headers included.
pub fn build_split_rows(diff: &FileDiff) -> (rows: Vec<SplitRow>)
    requires
        diff.flat().len() <= usize::MAX,
    ensures
        rows@ == split_rows(diff.types()),
{
    let mut rows: Vec<SplitRow> = Vec::new();
    let mut pending_del: Vec<usize> = Vec::new();
    let mut pending_add: Vec<usize> = Vec::new();
    let mut flat: usize = 0;
    let ghost types = diff.types();
    // where the pending change block starts
    let ghost mut block: int = 0;

    let mut h: usize = 0;
    proof {
        assert(diff.hunks@.take(0) =~= Seq::<Hunk>::empty());
        assert(pending_del@ =~= indices(0, 0));
        assert(pending_add@ =~= indices(0, 0));
        assert(rows@ + split_rows_from(types, 0) =~= split_rows(types));
    }
    while h < diff.hunks.len()
        invariant
            h <= diff.hunks@.len(),
            types == diff.types(),
            diff.flat().len() <= usize::MAX,
            flat == hunk_start(diff.hunks@, h as int),
            0 <= block,
            block + pending_del@.len() + pending_add@.len() == flat,
            flat <= types.len(),
            pending_del@ == indices(block, pending_del@.len()),
            pending_add@ == indices(block + pending_del@.len(), pending_add@.len()),
            forall|i: int|
                block <= i < block + pending_del@.len() ==> types[i] == DiffLineType::Delete,
            forall|i: int|
                block + pending_del@.len() <= i < flat ==> types[i] == DiffLineType::Add,
            rows@ + split_rows_from(types, block) == split_rows(types),
        decreases diff.hunks@.len() - h,
    {
        let hunk = &diff.hunks[h];
        let ghost first = flat as int;
        proof {
            lemma_flat_hunk(diff.hunks@, h as int);
        }
        let mut k: usize = 0;
        while k < hunk.lines.len()
            invariant
                k <= hunk.lines@.len(),
                types == diff.types(),
                diff.flat().len() <= usize::MAX,
                first + hunk.lines@.len() <= types.len(),
                forall|j: int|
                    0 <= j < hunk.lines@.len() ==> types[first + j]
                        == (#[trigger] hunk.lines@[j]).line_type,
                flat == first + k,
                0 <= block,
                block + pending_del@.len() + pending_add@.len() == flat,
                pending_del@ == indices(block, pending_del@.len()),
                pending_add@ == indices(block + pending_del@.len(), pending_add@.len()),
                forall|i: int|
                    block <= i < block + pending_del@.len() ==> types[i] == DiffLineType::Delete,
                forall|i: int|
                    block + pending_del@.len() <= i < flat ==> types[i] == DiffLineType::Add,
                rows@ + split_rows_from(types, block) == split_rows(types),
            decreases hunk.lines@.len() - k,
        {
            let line_type = hunk.lines[k].line_type;
            assert(types[flat as int] == line_type);
            let ghost rows_before = rows@;
            let ghost dels = pending_del@.len();
            let ghost adds = pending_add@.len();
            match line_type {
                DiffLineType::Header | DiffLineType::Context => {
                    flush_split_change(&mut rows, &mut pending_del, &mut pending_add);
                    rows.push(SplitRow { left: Some(flat), right: Some(flat) });
                    proof {
                        lemma_block(types, block, dels, adds);
                        let both = seq![SplitRow { left: Some(flat), right: Some(flat) }];
                        assert(rows@ + split_rows_from(types, flat + 1) =~= rows_before + (pair_up(
                            indices(block, dels),
                            indices(block + dels, adds),
                        ) + (both + split_rows_from(types, flat + 1))));
                        block = flat + 1;
                        assert(pending_del@ =~= indices(block, 0));
                        assert(pending_add@ =~= indices(block, 0));
                    }
                },
                DiffLineType::Delete => {
                    if pending_add.len() > 0 {
                        flush_split_change(&mut rows, &mut pending_del, &mut pending_add);
                        proof {
                            lemma_block(types, block, dels, adds);
                            assert(rows@ + split_rows_from(types, flat as int) =~= rows_before + (
                            pair_up(indices(block, dels), indices(block + dels, adds))
                                + split_rows_from(types, flat as int)));
                            block = flat as int;
                            assert(pending_del@ =~= indices(block, 0));
                            assert(pending_add@ =~= indices(block, 0));
                        }
                    }
                    let ghost held = pending_del@;
                    pending_del.push(flat);
                    assert(pending_del@ =~= indices(block, held.len() + 1));
                    assert(pending_add@ =~= indices(block + held.len() + 1, 0));
                },
                DiffLineType::Add => {
                    pending_add.push(flat);
                    assert(pending_add@ =~= indices(block + dels, adds + 1));
                },
            }
            flat += 1;
            k += 1;
        }
        h += 1;
    }
    proof {
        assert(diff.hunks@.take(diff.hunks@.len() as int) =~= diff.hunks@);
        lemma_block(types, block, pending_del@.len(), pending_add@.len());
    }
    let ghost rows_before = rows@;
    flush_split_change(&mut rows, &mut pending_del, &mut pending_add);
    assert(rows@ =~= rows_before + split_rows_from(types, block));
    rows
}

/// The preferred line of a row: the new (right) side, or the old (left) side
/// where there is no new one.
pub open spec fn preferred(row: SplitRow) -> Option<usize> {
    if row.right is Some {
        row.right
    } else {
        row.left
    }
}

/// What the rows from `at` on keep: no row is blank, every index is a line
/// from `at` on whose type belongs in its column, and indices grow down each
/// column.
pub open spec fn rows_in_order(types: Seq<DiffLineType>, at: int, rows: Seq<SplitRow>) -> bool {
    &&& forall|r: int|
        0 <= r < rows.len() ==> {
            let row = #[trigger] rows[r];
            &&& row.left is Some || row.right is Some
            &&& row.left matches Some(i) ==> at <= i < types.len() && types[i as int]
                != DiffLineType::Add
            &&& row.right matches Some(i) ==> at <= i < types.len() && types[i as int]
                != DiffLineType::Delete
        }
    &&& forall|r: int, s: int|
        #![trigger rows[r], rows[s]]
        0 <= r < s < rows.len() ==> {
            &&& (rows[r].left is Some && rows[s].left is Some) ==> rows[r].left->0
                < rows[s].left->0
            &&& (rows[r].right is Some && rows[s].right is Some) ==> rows[r].right->0
                < rows[s].right->0
        }
}

proof fn lemma_append_in_order(
    types: Seq<DiffLineType>,
    at: int,
    mid: int,
    block: Seq<SplitRow>,
    rest: Seq<SplitRow>,
)
    requires
        at <= mid,
        rows_in_order(types, at, block),
        rows_in_order(types, mid, rest),
        forall|r: int|
            0 <= r < block.len() ==> {
                &&& (#[trigger] block[r]).left matches Some(i) ==> i < mid
                &&& block[r].right matches Some(i) ==> i < mid
            },
    ensures
        rows_in_order(types, at, block + rest),
{
    let rows = block + rest;
    assert forall|r: int, s: int|
        #![trigger rows[r], rows[s]]
        0 <= r < s < rows.len() implies {
        &&& (rows[r].left is Some && rows[s].left is Some) ==> rows[r].left->0 < rows[s].left->0
        &&& (rows[r].right is Some && rows[s].right is Some) ==> rows[r].right->0
            < rows[s].right->0
    } by {
        if s < block.len() {
            assert(rows[r] == block[r] && rows[s] == block[s]);
        } else if r < block.len() {
            assert(rows[r] == block[r] && rows[s] == rest[s - block.len()]);
        } else {
            assert(rows[r] == rest[r - block.len()] && rows[s] == rest[s - block.len()]);
        }
    }
    assert forall|r: int| 0 <= r < rows.len() implies {
        let row = #[trigger] rows[r];
        &&& row.left is Some || row.right is Some
        &&& row.left matches Some(i) ==> at <= i < types.len() && types[i as int]
            != DiffLineType::Add
        &&& row.right matches Some(i) ==> at <= i < types.len() && types[i as int]
            != DiffLineType::Delete
    } by {
        if r < block.len() {
            assert(rows[r] == block[r]);
        } else {
            assert(rows[r] == rest[r - block.len()]);
        }
    }
}

proof fn lemma_block_in_order(types: Seq<DiffLineType>, at: int, dels: nat, adds: nat)
    requires
        0 <= at,
        at + dels + adds <= types.len() <= usize::MAX,
        forall|i: int| at <= i < at + dels ==> types[i] == DiffLineType::Delete,
        forall|i: int| at + dels <= i < at + dels + adds ==> types[i] == DiffLineType::Add,
    ensures
        rows_in_order(types, at, pair_up(indices(at, dels), indices(at + dels, adds))),
        forall|r: int|
            0 <= r < pair_up(indices(at, dels), indices(at + dels, adds)).len() ==> {
                let row = #[trigger] pair_up(indices(at, dels), indices(at + dels, adds))[r];
                &&& row.left matches Some(i) ==> i < at + dels + adds
                &&& row.right matches Some(i) ==> i < at + dels + adds
            },
{
    let block = pair_up(indices(at, dels), indices(at + dels, adds));
    assert forall|r: int| 0 <= r < block.len() implies {
        &&& (#[trigger] block[r]).left == (if r < dels {
            Some((at + r) as usize)
        } else {
            None
        })
        &&& block[r].right == (if r < adds {
            Some((at + dels + r) as usize)
        } else {
            None
        })
    } by {}
}

proof fn lemma_rows_in_order(types: Seq<DiffLineType>, at: int)
    requires
        0 <= at,
        types.len() <= usize::MAX,
    ensures
        rows_in_order(types, at, split_rows_from(types, at)),
    decreases types.len() - at,
{
    if at < types.len() {
        if spans_both(types[at]) {
            lemma_rows_in_order(types, at + 1);
            let row = SplitRow { left: Some(at as usize), right: Some(at as usize) };
            lemma_append_in_order(types, at, at + 1, seq![row], split_rows_from(types, at + 1));
        } else {
            let dels = run_len(types, at, DiffLineType::Delete);
            let adds = run_len(types, at + dels, DiffLineType::Add);
            lemma_run(types, at, DiffLineType::Delete);
            lemma_run(types, at + dels, DiffLineType::Add);
            lemma_rows_in_order(types, at + dels + adds);
            lemma_block_in_order(types, at, dels, adds);
            lemma_append_in_order(
                types,
                at,
                at + dels + adds,
                pair_up(indices(at, dels), indices(at + dels, adds)),
                split_rows_from(types, at + dels + adds),
            );
        }
    }
}

/// Whether row `r` shows flat line `i` on its left, and on its right.
pub open spec fn shows_left(rows: Seq<SplitRow>, r: int, i: int) -> bool {
    0 <= r < rows.len() && rows[r].left == Some(i as usize)
}

pub open spec fn shows_right(rows: Seq<SplitRow>, r: int, i: int) -> bool {
    0 <= r < rows.len() && rows[r].right == Some(i as usize)
}

proof fn lemma_row_of_line(types: Seq<DiffLineType>, at: int, i: int) -> (r: int)
    requires
        0 <= at <= i < types.len() <= usize::MAX,
    ensures
        0 <= r < split_rows_from(types, at).len(),
        types[i] != DiffLineType::Add ==> shows_left(split_rows_from(types, at), r, i),
        types[i] != DiffLineType::Delete ==> shows_right(split_rows_from(types, at), r, i),
    decreases types.len() - at,
{
    let rows = split_rows_from(types, at);
    if spans_both(types[at]) {
        if i == at {
            0
        } else {
            let r = lemma_row_of_line(types, at + 1, i);
            assert(rows[r + 1] == split_rows_from(types, at + 1)[r]);
            r + 1
        }
    } else {
        let dels = run_len(types, at, DiffLineType::Delete);
        let adds = run_len(types, at + dels, DiffLineType::Add);
        lemma_run(types, at, DiffLineType::Delete);
        lemma_run(types, at + dels, DiffLineType::Add);
        let block = pair_up(indices(at, dels), indices(at + dels, adds));
        if i < at + dels {
            assert(rows[i - at] == block[i - at]);
            i - at
        } else if i < at + dels + adds {
            assert(rows[i - at - dels] == block[i - at - dels]);
            i - at - dels
        } else {
            let r = lemma_row_of_line(types, at + dels + adds, i);
            assert(rows[r + block.len()] == split_rows_from(types, at + dels + adds)[r]);
            r + block.len()
        }
    }
}

/// Every line is shown: a context or header line in both columns of one row,
/// a deletion on the left and nowhere on the right, an addition on the right
/// and nowhere on the left.
pub proof fn law_every_line_is_shown(types: Seq<DiffLineType>, i: int)
    requires
        0 <= i < types.len() <= usize::MAX,
    ensures
        spans_both(types[i]) ==> exists|r: int|
            #[trigger] shows_left(split_rows(types), r, i) && shows_right(split_rows(types), r, i),
        types[i] == DiffLineType::Delete ==> {
            &&& exists|r: int| #[trigger] shows_left(split_rows(types), r, i)
            &&& forall|r: int| !#[trigger] shows_right(split_rows(types), r, i)
        },
        types[i] == DiffLineType::Add ==> {
            &&& exists|r: int| #[trigger] shows_right(split_rows(types), r, i)
            &&& forall|r: int| !#[trigger] shows_left(split_rows(types), r, i)
        },
{
    let rows = split_rows(types);
    let r = lemma_row_of_line(types, 0, i);
    assert(types[i] != DiffLineType::Add ==> shows_left(rows, r, i));
    assert(types[i] != DiffLineType::Delete ==> shows_right(rows, r, i));
    lemma_rows_in_order(types, 0);
    assert forall|s: int| types[i] == DiffLineType::Delete implies !#[trigger] shows_right(
        rows,
        s,
        i,
    ) by {
        if 0 <= s < rows.len() {
            assert(rows[s].right matches Some(j) ==> types[j as int] != DiffLineType::Delete);
        }
    }
    assert forall|s: int| types[i] == DiffLineType::Add implies !#[trigger] shows_left(
        rows,
        s,
        i,
    ) by {
        if 0 <= s < rows.len() {
            assert(rows[s].left matches Some(j) ==> types[j as int] != DiffLineType::Add);
        }
    }
}

/// No line is shown twice in one column.
pub proof fn law_no_line_is_shown_twice(types: Seq<DiffLineType>, i: int, r: int, s: int)
    requires
        types.len() <= usize::MAX,
        0 <= i < types.len(),
    ensures
        shows_left(split_rows(types), r, i) && shows_left(split_rows(types), s, i) ==> r == s,
        shows_right(split_rows(types), r, i) && shows_right(split_rows(types), s, i) ==> r == s,
{
    lemma_rows_in_order(types, 0);
}

/// No row is blank on both sides, every index names a line of the diff, and
/// indices grow down each column.
pub proof fn law_rows_are_in_order(types: Seq<DiffLineType>)
    requires
        types.len() <= usize::MAX,
    ensures
        rows_in_order(types, 0, split_rows(types)),
{
    lemma_rows_in_order(types, 0);
}

proof fn lemma_row_count(types: Seq<DiffLineType>, at: int)
    requires
        0 <= at <= types.len(),
    ensures
        split_rows_from(types, at).len() <= types.len() - at,
        types.len() - at <= 2 * split_rows_from(types, at).len(),
    decreases types.len() - at,
{
    if at < types.len() {
        if spans_both(types[at]) {
            lemma_row_count(types, at + 1);
        } else {
            let dels = run_len(types, at, DiffLineType::Delete);
            let adds = run_len(types, at + dels, DiffLineType::Add);
            lemma_run(types, at, DiffLineType::Delete);
            lemma_run(types, at + dels, DiffLineType::Add);
            lemma_row_count(types, at + dels + adds);
        }
    }
}

/// The split view never has more rows than the diff has lines, and a row
/// holds at most two lines.
pub proof fn law_row_count(types: Seq<DiffLineType>)
    ensures
        split_rows(types).len() <= types.len() <= 2 * split_rows(types).len(),
{
    lemma_row_count(types, 0);
}

} // verus!
