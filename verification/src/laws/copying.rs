//! What copying puts on the clipboard.
#![allow(unused_imports)]
use vstd::prelude::*;

use crate::diff::DiffLine;
use crate::diff_actions::{copied_lines, copied_rows, joined_lines};
use crate::diff_component::{request_views, DiffComponent, DiffRequest};
use crate::laws::lists::{lemma_list_of_none, lemma_list_step, lists, selected};
use crate::selection::Selection;
use crate::split::{law_rows_are_in_order, SplitRow};
use crate::text::without_line_ends;

verus! {

/// The line that a row shows on its new side, or else on its old side.
pub open spec fn new_or_old(row: SplitRow, lines: Seq<DiffLine>) -> DiffLine {
    match row.right {
        Some(i) => lines[i as int],
        None => lines[row.left->0 as int],
    }
}

/// What is copied of lines, row by row.
pub proof fn lemma_copied_lines(lines: Seq<DiffLine>, selection: Selection, at: Seq<int>)
    requires
        lists(at, lines.len() as int, selected(selection)),
    ensures
        copied_lines(lines, selection) == Seq::new(
            at.len(),
            |j: int| without_line_ends(lines[at[j]].content@),
        ),
    decreases lines.len(),
{
    let n = lines.len() as int;
    let want = Seq::new(at.len(), |j: int| without_line_ends(lines[at[j]].content@));
    if n == 0 {
        lemma_list_of_none(at, selected(selection));
    } else {
        let front = lines.drop_last();
        lemma_list_step(at, n, selected(selection));
        let before = if selected(selection)(n - 1) {
            at.drop_last()
        } else {
            at
        };
        lemma_copied_lines(front, selection, before);
        assert forall|j: int| 0 <= j < before.len() implies front[#[trigger] before[j]]
            == lines[at[j]] by {}
    }
    assert(copied_lines(lines, selection) =~= want);
}

/// What is copied of rows, row by row.
pub proof fn lemma_copied_rows(
    rows: Seq<SplitRow>,
    lines: Seq<DiffLine>,
    selection: Selection,
    at: Seq<int>,
)
    requires
        lists(at, rows.len() as int, selected(selection)),
        forall|r: int|
            0 <= r < rows.len() ==> {
                let row = #[trigger] rows[r];
                &&& row.left is Some || row.right is Some
                &&& row.left matches Some(i) ==> i < lines.len()
                &&& row.right matches Some(i) ==> i < lines.len()
            },
    ensures
        copied_rows(rows, lines, selection) == Seq::new(
            at.len(),
            |j: int| without_line_ends(new_or_old(rows[at[j]], lines).content@),
        ),
    decreases rows.len(),
{
    let n = rows.len() as int;
    let want = Seq::new(
        at.len(),
        |j: int| without_line_ends(new_or_old(rows[at[j]], lines).content@),
    );
    if n == 0 {
        lemma_list_of_none(at, selected(selection));
    } else {
        let front = rows.drop_last();
        lemma_list_step(at, n, selected(selection));
        let before = if selected(selection)(n - 1) {
            at.drop_last()
        } else {
            at
        };
        assert forall|r: int| 0 <= r < front.len() implies #[trigger] front[r] == rows[r] by {}
        lemma_copied_rows(front, lines, selection, before);
        assert forall|j: int| 0 <= j < before.len() implies front[#[trigger] before[j]]
            == rows[at[j]] by {}
        assert(rows[n - 1].left is Some || rows[n - 1].right is Some);
    }
    assert(copied_rows(rows, lines, selection) =~= want);
}

/// The texts that go to the clipboard: of the unified view each selected line,
/// of the split view each selected row's new side, or its old side where it has
/// no new one.
pub open spec fn texts_to_copy(c: DiffComponent, at: Seq<int>) -> Seq<Seq<char>> {
    let lines = c.diff->0.flat();
    Seq::new(
        at.len(),
        |j: int|
            without_line_ends(
                if c.settings.split {
                    new_or_old(c.split_rows@[at[j]], lines).content@
                } else {
                    lines[at[j]].content@
                },
            ),
    )
}

/// How many rows the view has to select from.
pub open spec fn rows_to_copy(c: DiffComponent) -> int {
    if c.settings.split {
        c.split_rows@.len() as int
    } else {
        c.diff->0.flat().len() as int
    }
}

/// Copying asks once to put something on the clipboard: for every selected row
/// that the view has, in order, the text of that row without its line ends, and
/// nothing else. Nothing but the requests changes.
pub proof fn law_every_selected_row_is_copied(c: &mut DiffComponent, at: Seq<int>)
    requires
        call_ensures(DiffComponent::copy_selection, (c,), ()),
        old(c).wf(),
        old(c).diff is Some,
        lists(at, rows_to_copy(*old(c)), selected(old(c).selection)),
    ensures
        final(c).requests@.len() == old(c).requests@.len() + 1,
        final(c).requests@.last() matches DiffRequest::CopyToClipboard(text) && text@
            == joined_lines(texts_to_copy(*old(c), at)),
        *final(c) == (DiffComponent { requests: final(c).requests, ..*old(c) }),
{
    let lines = old(c).diff->0.flat();
    let n = old(c).requests@.len() as int;
    law_rows_are_in_order(old(c).diff->0.types());
    if old(c).settings.split {
        lemma_copied_rows(old(c).split_rows@, lines, old(c).selection, at);
        assert(texts_to_copy(*old(c), at) =~= copied_rows(
            old(c).split_rows@,
            lines,
            old(c).selection,
        ));
    } else {
        lemma_copied_lines(lines, old(c).selection, at);
        assert(texts_to_copy(*old(c), at) =~= copied_lines(lines, old(c).selection));
    }
    let views = request_views(final(c).requests@);
    assert(views.len() == request_views(old(c).requests@).len() + 1);
    assert(views[n] == final(c).requests@[n]@);
}

/// Without a diff nothing is copied.
pub proof fn law_nothing_is_copied_without_a_diff(c: &mut DiffComponent)
    requires
        call_ensures(DiffComponent::copy_selection, (c,), ()),
        old(c).wf(),
        old(c).diff is None,
    ensures
        final(c).requests@.len() == old(c).requests@.len(),
{
    assert(request_views(final(c).requests@).len() == request_views(old(c).requests@).len());
}

} // verus!
