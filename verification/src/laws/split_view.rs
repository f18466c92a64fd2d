//! The cells of the split view.
#![allow(unused_imports)]
use vstd::prelude::*;

use crate::area::{Area, Columns};
use crate::columns::display_columns;
use crate::diff::{DiffLine, DiffLineType};
use crate::diff_component::DiffComponent;
use crate::diff_view::{SplitDraw, SplitLayout};
use crate::laws::unified_view::{is_marked, own_tokens, room, text_of_line};
use crate::render::{clipped_spans, line_views, painted, Paint, SpanView, TextLine};
use crate::text::{blanks, scrolled_text};

verus! {

/// The background of a cell: that of a selected row, or else the tint of a
/// changed line where the style shows tints.
pub open spec fn background_of_cell(
    c: DiffComponent,
    t: DiffLineType,
    is_selected: bool,
) -> Paint {
    if is_selected {
        Paint::HighlightBg(true)
    } else if c.settings.style.shows_tint && (t == DiffLineType::Add || t
        == DiffLineType::Delete) {
        Paint::Tint(t, false)
    } else {
        Paint::Plain
    }
}

/// Whether `spans` are the cell of row `row` that shows flat line `cell`: the
/// visible part of that line, in the colours of its own tokens or else of its
/// type, filled up to the width of the column; or blanks where there is no line.
pub open spec fn is_cell(
    c: DiffComponent,
    row: int,
    cell: Option<usize>,
    width: int,
    scrolled: nat,
    spans: Seq<SpanView>,
) -> bool {
    let lines = c.diff->0.flat();
    let marked = is_marked(c, row);
    match cell {
        Some(i) if i < lines.len() => {
            let line = lines[i as int];
            let content = text_of_line(c.settings, line);
            let visible = scrolled_text(content, scrolled);
            let bg = background_of_cell(c, line.line_type, marked);
            let fill = room(width, display_columns(visible) as int);
            let tokens = own_tokens(c, i as int);
            let shown = if tokens.len() > 0 {
                clipped_spans(tokens, content, scrolled, bg)
            } else {
                seq![painted(visible, Paint::DiffLine(line.line_type, marked))]
            };
            spans == (if fill > 0 {
                shown + seq![painted(blanks(fill), bg)]
            } else {
                shown
            })
        },
        _ => spans == seq![painted(blanks(width as nat), Paint::HighlightBg(marked))],
    }
}

proof fn lemma_cell(
    c: DiffComponent,
    row: int,
    cell: Option<usize>,
    width: nat,
    scrolled: nat,
)
    requires
        c.diff is Some,
    ensures
        is_cell(
            c,
            row,
            cell,
            width as int,
            scrolled,
            c.cell_view(c.diff->0, cell, row, width, scrolled),
        ),
{
    let spans = c.cell_view(c.diff->0, cell, row, width, scrolled);
    if let Some(i) = cell {
        if i < c.diff->0.flat().len() {
            let line = c.diff->0.flat()[i as int];
            let content = text_of_line(c.settings, line);
            let visible = scrolled_text(content, scrolled);
            let bg = background_of_cell(c, line.line_type, is_marked(c, row));
            let fill = room(width as int, display_columns(visible) as int);
            let tokens = own_tokens(c, i as int);
            let shown = if tokens.len() > 0 {
                clipped_spans(tokens, content, scrolled, bg)
            } else {
                seq![painted(visible, Paint::DiffLine(line.line_type, is_marked(c, row)))]
            };
            if fill > 0 {
                assert(spans =~= shown + seq![painted(blanks(fill), bg)]);
            } else {
                assert(spans =~= shown);
            }
        }
    }
}

/// Both columns show as many rows from the top on as there are, up to the
/// height, and row by row the two lines that stand side by side, each in its own
/// column.
pub proof fn law_each_column_shows_its_own_side(
    c: DiffComponent,
    lw: u16,
    rw: u16,
    height: usize,
    top: usize,
    scrolled: usize,
    text: (Vec<TextLine>, Vec<TextLine>),
    k: int,
)
    requires
        c.diff is Some,
        call_ensures(DiffComponent::get_split_text, (&c, lw, rw, height, top, scrolled), text),
    ensures
        text.0@.len() == text.1@.len(),
        text.0@.len() == (if c.split_rows@.len() <= top {
            0int
        } else if c.split_rows@.len() <= top + height {
            c.split_rows@.len() - top
        } else {
            height as int
        }),
        0 <= k < text.0@.len() ==> {
            let row = c.split_rows@[top + k];
            &&& is_cell(c, top + k, row.left, lw as int, scrolled as nat, text.0@[k]@)
            &&& is_cell(c, top + k, row.right, rw as int, scrolled as nat, text.1@[k]@)
        },
{
    assert(line_views(text.0@).len() == text.0@.len());
    assert(line_views(text.1@).len() == text.1@.len());
    if 0 <= k < text.0@.len() {
        assert(line_views(text.0@)[k] == text.0@[k]@);
        assert(line_views(text.1@)[k] == text.1@[k]@);
        let row = c.split_rows@[top + k];
        lemma_cell(c, top + k, row.left, lw as nat, scrolled as nat);
        lemma_cell(c, top + k, row.right, rw as nat, scrolled as nat);
    }
}

/// Without a diff both columns are empty.
pub proof fn law_no_diff_has_no_rows(
    c: DiffComponent,
    lw: u16,
    rw: u16,
    height: usize,
    top: usize,
    scrolled: usize,
    text: (Vec<TextLine>, Vec<TextLine>),
)
    requires
        c.diff is None,
        call_ensures(DiffComponent::get_split_text, (&c, lw, rw, height, top, scrolled), text),
    ensures
        text.0@.len() == 0 && text.1@.len() == 0,
{
}

/// What is drawn are the rows that fit, each column in its own width, and a
/// divider as high as the area. The bars show in a view with the focus, the
/// horizontal one where a line does not fit its column.
pub proof fn law_the_split_view_draws_its_columns(
    c: DiffComponent,
    inner: Area,
    columns: Columns,
    top: usize,
    right: usize,
    drawn: SplitDraw,
    text: (Vec<TextLine>, Vec<TextLine>),
)
    requires
        c.diff is Some,
        call_ensures(DiffComponent::draw_split, (&c, inner, &columns, top, right), drawn),
        call_ensures(
            DiffComponent::get_split_text,
            (&c, columns.left.width, columns.right.width, inner.height as usize, top, right),
            text,
        ),
    ensures
        line_views(drawn.left@) == line_views(text.0@),
        line_views(drawn.right@) == line_views(text.1@),
        drawn.divider@.len() == inner.height,
        forall|k: int|
            0 <= k < drawn.divider@.len() ==> (#[trigger] drawn.divider@[k])@ == seq![
                painted(seq!['│'], Paint::Block(c.focused)),
            ],
        drawn.vertical_bar <==> c.focused,
        drawn.horizontal_bar <==> c.focused && columns.left.width < c.longest_split_line,
{
    assert(line_views(drawn.divider@).len() == drawn.divider@.len());
    assert forall|k: int| 0 <= k < drawn.divider@.len() implies (#[trigger] drawn.divider@[k])@
        == seq![painted(seq!['│'], Paint::Block(c.focused))] by {
        assert(line_views(drawn.divider@)[k] == drawn.divider@[k]@);
    }
}

/// The split view is drawn where it is switched on and a diff with hunks has
/// come, and needs forty-eight columns inside its frame, which the two columns
/// and the divider share out without a gap.
pub proof fn law_the_split_view_fills_its_frame(c: DiffComponent, drawn: bool, r: Area, layout: SplitLayout)
    requires
        call_ensures(DiffComponent::uses_split, (&c,), drawn),
        call_ensures(DiffComponent::split_layout, (r,), layout),
    ensures
        drawn <==> c.settings.split && !c.pending && c.diff is Some && c.diff->0.hunks@.len() > 0,
        r.width < 50 <==> layout is TooNarrow,
        layout matches SplitLayout::Wide(inner, columns) ==> {
            let right = if inner.x + inner.width < 65535 {
                inner.x + inner.width
            } else {
                65535
            };
            &&& inner.width == r.width - 2
            &&& columns.left.x == inner.x
            &&& columns.divider.x == columns.left.x + columns.left.width
            &&& columns.right.x == columns.divider.x + columns.divider.width
            &&& columns.right.x + columns.right.width == right
            &&& columns.divider.width <= 1
            &&& columns.left.width - 1 <= columns.right.width <= columns.left.width
            &&& columns.left.y == inner.y && columns.divider.y == inner.y && columns.right.y
                == inner.y
            &&& columns.left.height == inner.height && columns.divider.height == inner.height
                && columns.right.height == inner.height
        },
{
}

} // verus!
