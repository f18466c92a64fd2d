//! The side-by-side rows of a diff.
#![allow(unused_imports)]
use vstd::prelude::*;

use crate::diff::{DiffLineType, FileDiff};
use crate::split::{
    build_split_rows, flush_split_change, indices, law_every_line_is_shown, law_rows_are_in_order,
    lemma_run, pair_up, run_len, shows_left, shows_right, spans_both, split_rows, split_rows_from,
    SplitRow,
};

verus! {

/// The greater of two numbers of lines.
pub open spec fn longer(dels: int, adds: int) -> int {
    if dels < adds {
        adds
    } else {
        dels
    }
}

/// Whether `rows[r..]` is the change block of `dels` deletions from line `at` on
/// and `adds` additions behind them: row by row the k-th deletion stands beside
/// the k-th addition, and where one of the two has run out its cell is blank.
pub open spec fn is_block(rows: Seq<SplitRow>, r: int, at: int, dels: int, adds: int) -> bool {
    &&& 0 <= r
    &&& r + longer(dels, adds) <= rows.len()
    &&& forall|k: int|
        0 <= k < dels ==> ((#[trigger] rows[r + k]).left matches Some(line) && line == at + k)
    &&& forall|k: int|
        0 <= k < adds ==> ((#[trigger] rows[r + k]).right matches Some(line) && line == at + dels
            + k)
    &&& forall|k: int| dels <= k < adds ==> (#[trigger] rows[r + k]).left is None
    &&& forall|k: int| adds <= k < dels ==> (#[trigger] rows[r + k]).right is None
}

/// Whether the rows above `r` hold lines before `from`, and those from `end` on
/// lines from `to` on.
pub open spec fn parts(rows: Seq<SplitRow>, r: int, from: int, end: int, to: int) -> bool {
    &&& forall|q: int|
        0 <= q < r ==> {
            &&& (#[trigger] rows[q]).left matches Some(line) ==> line < from
            &&& rows[q].right matches Some(line) ==> line < from
        }
    &&& forall|q: int|
        end <= q < rows.len() ==> {
            &&& (#[trigger] rows[q]).left matches Some(line) ==> to <= line
            &&& rows[q].right matches Some(line) ==> to <= line
        }
}

/// Whether `at` starts a change block of `dels` deletions and `adds` additions
/// that no line before or behind belongs to.
pub open spec fn is_change_block(
    types: Seq<DiffLineType>,
    at: int,
    dels: int,
    adds: int,
) -> bool {
    &&& 0 <= at && 0 <= dels && 0 <= adds && 0 < dels + adds
    &&& at + dels + adds <= types.len()
    &&& forall|i: int| at <= i < at + dels ==> types[i] == DiffLineType::Delete
    &&& forall|i: int| at + dels <= i < at + dels + adds ==> types[i] == DiffLineType::Add
    &&& at > 0 ==> types[at - 1] != DiffLineType::Delete
    &&& at > 0 && dels == 0 ==> types[at - 1] != DiffLineType::Add
    &&& at + dels + adds < types.len() ==> types[at + dels + adds] != DiffLineType::Add
    &&& adds == 0 && at + dels < types.len() ==> types[at + dels] != DiffLineType::Delete
}

proof fn lemma_runs_of_block(types: Seq<DiffLineType>, at: int, t: DiffLineType, n: nat)
    requires
        0 <= at,
        at + n <= types.len(),
        forall|i: int| at <= i < at + n ==> types[i] == t,
        at + n < types.len() ==> types[at + n] != t,
    ensures
        run_len(types, at, t) == n,
    decreases n,
{
    if n > 0 {
        lemma_runs_of_block(types, at + 1, t, (n - 1) as nat);
    }
}

/// The rows from line `at` on hold lines from `at` on.
proof fn lemma_lines_from(types: Seq<DiffLineType>, at: int)
    requires
        0 <= at,
        types.len() <= usize::MAX,
    ensures
        parts(split_rows_from(types, at), 0, 0, 0, at),
    decreases types.len() - at,
{
    if at < types.len() {
        let rows = split_rows_from(types, at);
        if spans_both(types[at]) {
            lemma_lines_from(types, at + 1);
            let rest = split_rows_from(types, at + 1);
            assert forall|q: int| 1 <= q < rows.len() implies #[trigger] rows[q] == rest[q - 1] by {}
        } else {
            let d = run_len(types, at, DiffLineType::Delete);
            let a = run_len(types, at + d, DiffLineType::Add);
            lemma_run(types, at, DiffLineType::Delete);
            lemma_run(types, at + d, DiffLineType::Add);
            lemma_lines_from(types, at + d + a);
            let rest = split_rows_from(types, at + d + a);
            let n = rows.len() - rest.len();
            assert forall|q: int| n <= q < rows.len() implies #[trigger] rows[q] == rest[q - n] by {}
        }
    }
}

proof fn lemma_block_row(
    types: Seq<DiffLineType>,
    from: int,
    at: int,
    dels: int,
    adds: int,
) -> (r: int)
    requires
        types.len() <= usize::MAX,
        0 <= from <= at,
        is_change_block(types, at, dels, adds),
    ensures
        is_block(split_rows_from(types, from), r, at, dels, adds),
        parts(
            split_rows_from(types, from),
            r,
            at,
            r + longer(dels, adds),
            at + dels + adds,
        ),
    decreases at - from,
{
    let rows = split_rows_from(types, from);
    if from == at {
        lemma_runs_of_block(types, at, DiffLineType::Delete, dels as nat);
        lemma_runs_of_block(types, at + dels, DiffLineType::Add, adds as nat);
        let rest = split_rows_from(types, at + dels + adds);
        let block = pair_up(
            indices(at, dels as nat),
            indices(at + dels, adds as nat),
        );
        assert(rows == block + rest);
        assert forall|k: int| 0 <= k < block.len() implies #[trigger] rows[0 + k] == block[k] by {}
        lemma_lines_from(types, at + dels + adds);
        assert forall|q: int| block.len() <= q < rows.len() implies #[trigger] rows[q] == rest[q
            - block.len()] by {}
        0
    } else if spans_both(types[from]) {
        let r = lemma_block_row(types, from + 1, at, dels, adds);
        let rest = split_rows_from(types, from + 1);
        assert forall|k: int| 0 <= k < rest.len() implies rows[k + 1] == #[trigger] rest[k] by {}
        lemma_shift(rows, rest, 1, r, at, dels, adds);
        r + 1
    } else {
        let d = run_len(types, from, DiffLineType::Delete);
        let a = run_len(types, from + d, DiffLineType::Add);
        lemma_run(types, from, DiffLineType::Delete);
        lemma_run(types, from + d, DiffLineType::Add);
        let next = from + d + a;
        assert(at >= next) by {
            if at < next {
                if at < from + d {
                    assert(types[at - 1] == DiffLineType::Delete);
                } else {
                    assert(types[at] == DiffLineType::Add);
                    assert(types[at - 1] == DiffLineType::Delete || types[at - 1]
                        == DiffLineType::Add);
                }
            }
        }
        let r = lemma_block_row(types, next, at, dels, adds);
        let rest = split_rows_from(types, next);
        let n = rows.len() - rest.len();
        assert forall|k: int| 0 <= k < rest.len() implies rows[k + n] == #[trigger] rest[k] by {}
        lemma_shift(rows, rest, n, r, at, dels, adds);
        r + n
    }
}

proof fn lemma_shift(
    rows: Seq<SplitRow>,
    rest: Seq<SplitRow>,
    n: int,
    r: int,
    at: int,
    dels: int,
    adds: int,
)
    requires
        0 <= n,
        0 <= dels && 0 <= adds,
        rows.len() == n + rest.len(),
        forall|k: int| 0 <= k < rest.len() ==> rows[k + n] == #[trigger] rest[k],
        forall|q: int|
            0 <= q < n ==> {
                &&& (#[trigger] rows[q]).left matches Some(line) ==> line < at
                &&& rows[q].right matches Some(line) ==> line < at
            },
        is_block(rest, r, at, dels, adds),
        parts(rest, r, at, r + longer(dels, adds), at + dels + adds),
    ensures
        is_block(rows, r + n, at, dels, adds),
        parts(rows, r + n, at, r + n + longer(dels, adds), at + dels + adds),
{
    assert forall|k: int| 0 <= k < longer(dels, adds) implies #[trigger] rows[r + n + k] == rest[r
        + k] by {
        assert(rows[(r + k) + n] == rest[r + k]);
    }
    assert forall|q: int| n <= q < rows.len() implies #[trigger] rows[q] == rest[q - n] by {
        assert(rows[(q - n) + n] == rest[q - n]);
    }
}

/// A change block lies in one run of rows in which the k-th deletion stands
/// beside the k-th addition, and blank cells stand only behind the shorter of
/// the two. What stands above are lines before the block, and what stands below
/// are lines behind it.
pub proof fn law_deletions_stand_beside_their_additions(
    diff: FileDiff,
    rows: Vec<SplitRow>,
    at: int,
    dels: int,
    adds: int,
)
    requires
        diff.flat().len() <= usize::MAX,
        call_ensures(build_split_rows, (&diff,), rows),
        is_change_block(diff.types(), at, dels, adds),
    ensures
        exists|r: int|
            #[trigger] is_block(rows@, r, at, dels, adds) && parts(
                rows@,
                r,
                at,
                r + longer(dels, adds),
                at + dels + adds,
            ),
{
    let types = diff.types();
    let r = lemma_block_row(types, 0, at, dels, adds);
}

/// A context or header line has one row to itself, in both columns; the lines
/// before it stand above, and those behind it below.
pub proof fn law_shared_lines_stand_in_both_columns(diff: FileDiff, rows: Vec<SplitRow>, i: int)
    requires
        diff.flat().len() <= usize::MAX,
        call_ensures(build_split_rows, (&diff,), rows),
        0 <= i < diff.flat().len(),
        diff.flat()[i].line_type == DiffLineType::Context || diff.flat()[i].line_type
            == DiffLineType::Header,
    ensures
        exists|r: int|
            {
                &&& 0 <= r < rows@.len()
                &&& (#[trigger] rows@[r]).left matches Some(line) && line == i
                &&& rows@[r].right matches Some(line) && line == i
                &&& parts(rows@, r, i, r + 1, i + 1)
            },
{
    let types = diff.types();
    assert(spans_both(types[i]));
    law_every_line_is_shown(types, i);
    law_rows_are_in_order(types);
    let all = split_rows(types);
    let r = choose|r: int| #[trigger] shows_left(all, r, i) && shows_right(all, r, i);
    assert(rows@[r].left == Some(i as usize));
    assert(parts(rows@, r, i, r + 1, i + 1));
}

/// Every row holds at least one line, each column holds lines of its own side
/// from the top to the bottom, and none of them twice.
pub proof fn law_columns_hold_their_own_side(diff: FileDiff, rows: Vec<SplitRow>)
    requires
        diff.flat().len() <= usize::MAX,
        call_ensures(build_split_rows, (&diff,), rows),
    ensures
        forall|r: int|
            0 <= r < rows@.len() ==> {
                let row = #[trigger] rows@[r];
                &&& row.left is Some || row.right is Some
                &&& row.left matches Some(i) ==> i < diff.flat().len() && diff.flat()[i as int].line_type
                    != DiffLineType::Add
                &&& row.right matches Some(i) ==> i < diff.flat().len()
                    && diff.flat()[i as int].line_type != DiffLineType::Delete
            },
        forall|r: int, s: int|
            #![trigger rows@[r], rows@[s]]
            0 <= r < s < rows@.len() ==> {
                &&& (rows@[r].left is Some && rows@[s].left is Some) ==> rows@[r].left->0
                    < rows@[s].left->0
                &&& (rows@[r].right is Some && rows@[s].right is Some) ==> rows@[r].right->0
                    < rows@[s].right->0
            },
{
    law_rows_are_in_order(diff.types());
}

/// Whatever lines two buffers hold, flushing them appends as many rows as the
/// longer one has lines, in which the k-th of one stands beside the k-th of the
/// other, and leaves both empty.
pub proof fn law_flushing_pairs_the_buffers(
    rows: &mut Vec<SplitRow>,
    dels: &mut Vec<usize>,
    adds: &mut Vec<usize>,
)
    requires
        call_ensures(flush_split_change, (rows, dels, adds), ()),
    ensures
        ({
            let (n, d, a) = (old(rows)@.len() as int, old(dels)@, old(adds)@);
            &&& final(rows)@.len() == n + longer(d.len() as int, a.len() as int)
            &&& final(rows)@.take(n) == old(rows)@
            &&& forall|k: int|
                0 <= k < d.len() ==> (#[trigger] final(rows)@[n + k]).left == Some(d[k])
            &&& forall|k: int|
                0 <= k < a.len() ==> (#[trigger] final(rows)@[n + k]).right == Some(a[k])
            &&& forall|k: int|
                d.len() <= k < a.len() ==> (#[trigger] final(rows)@[n + k]).left is None
            &&& forall|k: int|
                a.len() <= k < d.len() ==> (#[trigger] final(rows)@[n + k]).right is None
        }),
        final(dels)@.len() == 0,
        final(adds)@.len() == 0,
{
    assert(final(rows)@.take(old(rows)@.len() as int) =~= old(rows)@);
}

} // verus!
