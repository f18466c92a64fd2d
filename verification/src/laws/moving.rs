//! Moving through a diff: the selection, the selected hunk, and the keys.
#![allow(unused_imports)]
use vstd::prelude::*;

use crate::diff::{hunk_start, lemma_flat_hunk, FileDiff, Hunk};
use crate::diff_actions::DiffKeys;
use crate::diff_component::{
    hunk_of_line, law_every_line_has_a_hunk, request_views, DiffComponent, DiffRequest,
    DiffSettings,
};
use crate::event::EventState;
use crate::laws::diff_keys::no_key;
use crate::selection::{Direction, ScrollType, Selection};
use crate::split::law_row_count;

verus! {

/// Where hunk `i` starts: behind all lines of the hunks before it.
pub open spec fn start_of(hunks: Seq<Hunk>, i: int) -> int
    decreases i,
{
    if i <= 0 {
        0
    } else {
        start_of(hunks, i - 1) + hunks[i - 1].lines@.len()
    }
}

/// That is where the hunk starts among all lines.
pub proof fn lemma_start_of(hunks: Seq<Hunk>, i: int)
    requires
        0 <= i <= hunks.len(),
    ensures
        start_of(hunks, i) == hunk_start(hunks, i),
    decreases i,
{
    if i == 0 {
        assert(hunks.take(0) =~= Seq::<Hunk>::empty());
    } else {
        lemma_start_of(hunks, i - 1);
        lemma_flat_hunk(hunks, i - 1);
    }
}

/// Whether `hunk` is the one that holds line `row`: none where the diff ends
/// before.
pub open spec fn is_hunk_at(diff: FileDiff, row: int, hunk: Option<usize>) -> bool {
    match hunk {
        Some(h) => h < diff.hunks@.len() && start_of(diff.hunks@, h as int) <= row < start_of(
            diff.hunks@,
            h as int,
        ) + diff.hunks@[h as int].lines@.len(),
        None => start_of(diff.hunks@, diff.hunks@.len() as int) <= row,
    }
}

/// The hunk of a row holds it.
pub proof fn lemma_hunk_at(diff: FileDiff, row: int)
    requires
        0 <= row,
        diff.hunks@.len() <= usize::MAX,
    ensures
        is_hunk_at(diff, row, hunk_of_line(diff.hunks@, row)),
{
    let hunks = diff.hunks@;
    law_every_line_has_a_hunk(hunks, row);
    lemma_start_of(hunks, hunks.len() as int);
    assert(hunks.take(hunks.len() as int) =~= hunks);
    if let Some(h) = hunk_of_line(hunks, row) {
        lemma_start_of(hunks, h as int);
        lemma_start_of(hunks, h + 1);
    }
}

/// The hunk that is found for a line is the one that holds it.
pub proof fn law_the_hunk_of_a_line_holds_it(diff: FileDiff, line: usize, hunk: Option<usize>)
    requires
        diff.flat().len() <= usize::MAX,
        call_ensures(DiffComponent::find_selected_hunk, (&diff, line), hunk),
    ensures
        is_hunk_at(diff, line as int, hunk),
{
    assert(diff.hunks.len() <= usize::MAX);
    lemma_hunk_at(diff, line as int);
}

/// The last row that can be selected: rows in the split view, lines in the
/// unified one; the first row where there is none.
pub open spec fn last_row(c: DiffComponent) -> int {
    let rows = if c.settings.split {
        c.split_rows@.len() as int
    } else {
        c.diff->0.lines as int
    };
    if rows > 0 {
        rows - 1
    } else {
        0
    }
}

/// The row from `0` to `last` that is nearest to `row`.
pub open spec fn nearest(row: int, last: int) -> int {
    if row > last {
        last
    } else if row < 0 {
        0
    } else {
        row
    }
}

/// The first row of a selection.
pub open spec fn first_selected(s: Selection) -> int {
    match s {
        Selection::Single(row) => row as int,
        Selection::Multiple(a, b) => if a <= b {
            a as int
        } else {
            b as int
        },
    }
}

/// The last row of a selection.
pub open spec fn last_selected(s: Selection) -> int {
    match s {
        Selection::Single(row) => row as int,
        Selection::Multiple(a, b) => if a <= b {
            b as int
        } else {
            a as int
        },
    }
}

/// Where a move is meant to lead: up from the first selected row, down from the
/// last one, by a row or by a page, of which one row stays in view; or to an
/// end.
pub open spec fn aim(c: DiffComponent, move_type: ScrollType) -> int {
    let page = if c.current_size.1 > 0 {
        c.current_size.1 - 1
    } else {
        0
    };
    match move_type {
        ScrollType::Down => last_selected(c.selection) + 1,
        ScrollType::Up => first_selected(c.selection) - 1,
        ScrollType::Home => 0,
        ScrollType::End => last_row(c),
        ScrollType::PageDown => last_selected(c.selection) + page,
        ScrollType::PageUp => first_selected(c.selection) - page,
    }
}

/// Whether `after` is `before` with row `row` selected: alone, and with its hunk
/// in the unified view, with none in the split view. Nothing else changes.
pub open spec fn has_selected(before: DiffComponent, row: int, after: DiffComponent) -> bool {
    &&& after == DiffComponent {
        selection: after.selection,
        selected_hunk: after.selected_hunk,
        ..before
    }
    &&& after.selection matches Selection::Single(at) && at == row
    &&& before.settings.split ==> after.selected_hunk is None
    &&& !before.settings.split ==> is_hunk_at(before.diff->0, row, after.selected_hunk)
}

/// A move selects the row that is nearest to where it is meant to lead, in
/// either view.
pub proof fn law_a_move_selects_the_nearest_row(c: &mut DiffComponent, move_type: ScrollType)
    requires
        call_ensures(DiffComponent::move_selection, (c, move_type), ()),
        old(c).wf(),
        old(c).diff is Some,
    ensures
        has_selected(*old(c), nearest(aim(*old(c), move_type), last_row(*old(c))), *final(c)),
{
    let row = nearest(aim(*old(c), move_type), last_row(*old(c)));
    let diff = old(c).diff->0;
    law_row_count(diff.types());
    assert(diff.hunks.len() <= usize::MAX);
    lemma_hunk_at(diff, row);
}

/// Selecting a row selects it, or the last one where there are fewer.
pub proof fn law_selecting_selects_the_nearest_row(c: &mut DiffComponent, row: usize)
    requires
        call_ensures(DiffComponent::update_selection, (c, row), ()),
        old(c).wf(),
        old(c).diff is Some,
    ensures
        has_selected(*old(c), nearest(row as int, last_row(*old(c))), *final(c)),
{
    let diff = old(c).diff->0;
    law_row_count(diff.types());
    assert(diff.hunks.len() <= usize::MAX);
    lemma_hunk_at(diff, nearest(row as int, last_row(*old(c))));
}

/// Without a diff there is nothing to move through.
pub proof fn law_nothing_moves_without_a_diff(
    c: &mut DiffComponent,
    move_type: ScrollType,
    d: &mut DiffComponent,
    direction: Direction,
)
    requires
        call_ensures(DiffComponent::move_selection, (c, move_type), ()),
        old(c).wf(),
        old(c).diff is None,
        call_ensures(DiffComponent::modify_selection, (d, direction), ()),
        old(d).wf(),
        old(d).diff is None,
    ensures
        *final(c) == *old(c),
        *final(d) == *old(d),
{
}

/// Extending moves the end of the selection by one row, up to the first row and
/// down to the number of rows, and keeps its start.
pub proof fn law_extending_moves_one_end_by_a_row(c: &mut DiffComponent, direction: Direction)
    requires
        call_ensures(DiffComponent::modify_selection, (c, direction), ()),
        old(c).wf(),
        old(c).diff is Some,
    ensures
        ({
            let (start, end) = match old(c).selection {
                Selection::Single(row) => (row, row),
                Selection::Multiple(a, b) => (a, b),
            };
            let rows = if old(c).settings.split {
                old(c).split_rows@.len() as int
            } else {
                old(c).diff->0.lines as int
            };
            &&& *final(c) == (DiffComponent { selection: final(c).selection, ..*old(c) })
            &&& final(c).selection matches Selection::Multiple(a, b) && a == start && match direction {
                Direction::Up => (end == 0 && b == 0) || b == end - 1,
                Direction::Down => if end < rows {
                    b == end + 1
                } else {
                    b == rows
                },
            }
        }),
{
    law_row_count(old(c).diff->0.types());
}

/// Each movement key makes the move that it is named after.
pub proof fn law_movement_keys_move(
    c: &mut DiffComponent,
    keys: DiffKeys,
    state: EventState,
    d: &mut DiffComponent,
    move_type: ScrollType,
)
    requires
        *old(c) == *old(d),
        old(c).wf(),
        old(c).focused,
        call_ensures(DiffComponent::event, (c, Some(&keys)), state),
        call_ensures(DiffComponent::move_selection, (d, move_type), ()),
        keys == (match move_type {
            ScrollType::Down => DiffKeys { move_down: true, ..no_key() },
            ScrollType::Up => DiffKeys { move_up: true, ..no_key() },
            ScrollType::Home => DiffKeys { home: true, ..no_key() },
            ScrollType::End => DiffKeys { end: true, ..no_key() },
            ScrollType::PageDown => DiffKeys { page_down: true, ..no_key() },
            ScrollType::PageUp => DiffKeys { page_up: true, ..no_key() },
        }),
    ensures
        *final(c) == *final(d),
        state == EventState::Consumed,
{
}

/// Each key that extends the selection extends it the way that it is named after.
pub proof fn law_extending_keys_extend(
    c: &mut DiffComponent,
    keys: DiffKeys,
    state: EventState,
    d: &mut DiffComponent,
    direction: Direction,
)
    requires
        *old(c) == *old(d),
        old(c).wf(),
        old(c).focused,
        call_ensures(DiffComponent::event, (c, Some(&keys)), state),
        call_ensures(DiffComponent::modify_selection, (d, direction), ()),
        keys == (match direction {
            Direction::Down => DiffKeys { shift_down: true, ..no_key() },
            Direction::Up => DiffKeys { shift_up: true, ..no_key() },
        }),
    ensures
        *final(c) == *final(d),
        state == EventState::Consumed,
{
}

/// A jump by some hunks selects the first line of the hunk that is nearest to
/// where it is meant to lead, or of the first hunk where none was selected, and
/// asks to bring exactly the lines of that hunk into view. Where that hunk is
/// selected already, nothing changes.
pub proof fn law_a_jump_selects_the_nearest_hunk(c: &mut DiffComponent, direction: isize)
    requires
        call_ensures(DiffComponent::diff_hunk_move_up_down, (c, direction), ()),
        old(c).wf(),
        old(c).diff matches Some(diff) && diff.hunks@.len() > 0,
    ensures
        ({
            let hunks = old(c).diff->0.hunks@;
            let target = match old(c).selected_hunk {
                Some(h) => nearest(h + direction, hunks.len() - 1),
                None => 0,
            };
            let line = start_of(hunks, target);
            let stays = old(c).selected_hunk matches Some(h) && h == target;
            &&& stays ==> *final(c) == *old(c)
            &&& !stays ==> {
                &&& *final(c) == (DiffComponent {
                    selection: final(c).selection,
                    selected_hunk: final(c).selected_hunk,
                    requests: final(c).requests,
                    ..*old(c)
                })
                &&& final(c).selection matches Selection::Single(row) && row == line
                &&& final(c).selected_hunk matches Some(h) && h == target
                &&& final(c).requests@.len() == old(c).requests@.len() + 1
                &&& final(c).requests@.last() matches DiffRequest::MoveAreaToVisible {
                    height,
                    start,
                    end,
                } && height == old(c).current_size.1 && start == line && end == line
                    + hunks[target].lines@.len()
            }
        }),
{
    let hunks = old(c).diff->0.hunks@;
    assert(old(c).diff->0.hunks.len() <= usize::MAX);
    let target = match old(c).selected_hunk {
        Some(h) => nearest(h + direction, hunks.len() - 1),
        None => 0,
    };
    lemma_start_of(hunks, target);
    lemma_start_of(hunks, target + 1);
    lemma_flat_hunk(hunks, target);
    let n = old(c).requests@.len() as int;
    assert(request_views(final(c).requests@).len() == final(c).requests@.len());
    assert(request_views(old(c).requests@).len() == n);
    if final(c).requests@.len() > n {
        assert(request_views(final(c).requests@)[n] == final(c).requests@[n]@);
    }
}

/// Without hunks there is nothing to jump to.
pub proof fn law_nothing_jumps_without_hunks(c: &mut DiffComponent, direction: isize)
    requires
        call_ensures(DiffComponent::diff_hunk_move_up_down, (c, direction), ()),
        old(c).wf(),
        old(c).diff matches Some(diff) ==> diff.hunks@.len() == 0,
    ensures
        *final(c) == *old(c),
{
}

/// Whether two states differ in nothing but the requests, which say the same.
pub open spec fn says_the_same(a: DiffComponent, b: DiffComponent) -> bool {
    a == (DiffComponent { requests: a.requests, ..b }) && request_views(a.requests@)
        == request_views(b.requests@)
}

/// The hunk keys jump by one hunk, forwards and backwards, in the unified view.
pub proof fn law_hunk_keys_jump(
    c: &mut DiffComponent,
    keys: DiffKeys,
    state: EventState,
    d: &mut DiffComponent,
    forwards: bool,
)
    requires
        *old(c) == *old(d),
        old(c).wf(),
        old(c).focused,
        !old(c).settings.split,
        call_ensures(DiffComponent::event, (c, Some(&keys)), state),
        call_ensures(
            DiffComponent::diff_hunk_move_up_down,
            (
                d,
                if forwards {
                    1isize
                } else {
                    -1isize
                },
            ),
            (),
        ),
        keys == (if forwards {
            DiffKeys { diff_hunk_next: true, ..no_key() }
        } else {
            DiffKeys { diff_hunk_prev: true, ..no_key() }
        }),
    ensures
        says_the_same(*final(c), *final(d)),
        state == EventState::Consumed,
{
}

/// Without a diff the key for the other view switches to it and does no more.
pub proof fn law_an_empty_view_only_switches(
    c: &mut DiffComponent,
    keys: DiffKeys,
    state: EventState,
)
    requires
        old(c).wf(),
        old(c).focused,
        old(c).diff is None,
        call_ensures(DiffComponent::event, (c, Some(&keys)), state),
        keys == (DiffKeys { diff_toggle_split: true, ..no_key() }),
    ensures
        final(c).settings.split == !old(c).settings.split,
        *final(c) == (DiffComponent {
            settings: DiffSettings { split: final(c).settings.split, ..old(c).settings },
            ..*old(c)
        }),
{
}

/// The key for the other view switches to it and back, and moves both ends of
/// the selection to the nearest row that the new view has; in the unified view
/// the hunk at the end of the selection is selected. Nothing else changes.
pub proof fn law_the_other_view_keeps_the_nearest_rows(
    c: &mut DiffComponent,
    keys: DiffKeys,
    state: EventState,
)
    requires
        old(c).wf(),
        old(c).focused,
        old(c).diff is Some,
        call_ensures(DiffComponent::event, (c, Some(&keys)), state),
        keys == (DiffKeys { diff_toggle_split: true, ..no_key() }),
    ensures
        ({
            let (start, end) = match old(c).selection {
                Selection::Single(row) => (row, row),
                Selection::Multiple(a, b) => (a, b),
            };
            let last = last_row(*final(c));
            let (new_start, new_end) = match final(c).selection {
                Selection::Single(row) => (row, row),
                Selection::Multiple(a, b) => (a, b),
            };
            &&& final(c).settings.split == !old(c).settings.split
            &&& *final(c) == (DiffComponent {
                settings: DiffSettings { split: final(c).settings.split, ..old(c).settings },
                selection: final(c).selection,
                selected_hunk: final(c).selected_hunk,
                ..*old(c)
            })
            &&& new_start == nearest(start as int, last)
            &&& new_end == nearest(end as int, last)
            &&& final(c).selection is Single <==> new_start == new_end
            &&& final(c).settings.split ==> final(c).selected_hunk is None
            &&& !final(c).settings.split ==> is_hunk_at(
                old(c).diff->0,
                new_end as int,
                final(c).selected_hunk,
            )
        }),
        state == EventState::Consumed,
{
    let diff = old(c).diff->0;
    assert(diff.hunks.len() <= usize::MAX);
    lemma_hunk_at(diff, nearest(old(c).selection.end() as int, last_row(*final(c))));
}

} // verus!
