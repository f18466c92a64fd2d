//! The rows of the unified view.
#![allow(unused_imports)]
use vstd::prelude::*;

use crate::columns::display_columns;
use crate::diff::{hunk_start, DiffLine, DiffLineType};
use crate::diff_component::{DiffComponent, DiffSettings};
use crate::diff_view::{byte_size_text, starts_hunk, UnifiedDraw};
use crate::laws::lists::selected;
use crate::laws::moving::{is_hunk_at, lemma_hunk_at, lemma_start_of, start_of};
use crate::render::{
    clipped_spans, line_text, line_views, painted, Paint, SpanStyle, TextLine, Token,
};
use crate::text::{blanks, expand_tabs, scrolled_text};

verus! {

/// What a line shows: a mark where it is empty and changed, else its text with
/// the tabs expanded.
pub open spec fn text_of_line(settings: DiffSettings, line: DiffLine) -> Seq<char> {
    if line.content@.len() == 0 && line.line_type != DiffLineType::Context {
        settings.line_break@
    } else {
        expand_tabs(line.content@)
    }
}

/// The tokens that flat line `i` is coloured by: its own, if it has any and is
/// no header.
pub open spec fn own_tokens(c: DiffComponent, i: int) -> Seq<Token> {
    if i < c.syntax_highlight@.len() && c.diff->0.flat()[i].line_type != DiffLineType::Header {
        match c.syntax_highlight@[i] {
            Some(tokens) => tokens@,
            None => Seq::empty(),
        }
    } else {
        Seq::empty()
    }
}

/// How many blanks fill `used` columns up to `width`.
pub open spec fn room(width: int, used: int) -> nat {
    if used < width {
        (width - used) as nat
    } else {
        0
    }
}

/// The background of a highlighted line.
pub open spec fn background(c: DiffComponent, line_type: DiffLineType, is_selected: bool) -> Paint {
    if c.settings.style.shows_tint {
        Paint::Tint(line_type, is_selected)
    } else {
        Paint::HighlightBg(is_selected)
    }
}

/// Whether flat line `i` is selected in a view that has the focus.
pub open spec fn is_marked(c: DiffComponent, i: int) -> bool {
    c.focused && selected(c.selection)(i)
}

/// Every row of the unified view shows the flat line that stands there, counted
/// from the top, whichever hunk it is in. It starts with a bar: a corner at the
/// end of a hunk and at its header, marked where the hunk is the selected one.
pub proof fn law_each_row_starts_with_the_bar_of_its_hunk(
    c: DiffComponent,
    width: u16,
    height: u16,
    top: usize,
    right: usize,
    lines: Vec<TextLine>,
    k: int,
)
    requires
        c.wf(),
        c.diff matches Some(diff) && diff.hunks@.len() > 0,
        top + height <= usize::MAX,
        call_ensures(DiffComponent::get_text, (&c, width, height, top, right), lines),
        0 <= k < lines@.len(),
    ensures
        ({
            let i = top + k;
            let diff = c.diff->0;
            let t = diff.flat()[i].line_type;
            let row = lines@[k]@;
            &&& i < diff.flat().len()
            &&& row.len() >= 2
            &&& exists|h: usize|
                {
                    &&& #[trigger] is_hunk_at(diff, i, Some(h))
                    &&& row[0].text == seq![
                        if i + 1 == start_of(diff.hunks@, h + 1) {
                            '└'
                        } else if t == DiffLineType::Header {
                            '┌'
                        } else {
                            '│'
                        },
                    ]
                    &&& row[0].style == SpanStyle::Base(
                        if c.focused && c.selected_hunk == Some(h) {
                            Paint::HunkMarker(true)
                        } else if c.settings.style.color_gutter {
                            Paint::DiffLine(t, false)
                        } else {
                            Paint::HunkMarker(false)
                        },
                    )
                }
        }),
{
    let diff = c.diff->0;
    let i = top + k;
    assert(line_views(lines@)[k] == lines@[k]@);
    assert(line_views(lines@).len() == lines@.len());
    assert(diff.hunks.len() <= usize::MAX);
    lemma_hunk_at(diff, i);
    lemma_start_of(diff.hunks@, diff.hunks@.len() as int);
    assert(diff.hunks@.take(diff.hunks@.len() as int) =~= diff.hunks@);
    let h = crate::diff_component::hunk_of_line(diff.hunks@, i)->0;
    assert(is_hunk_at(diff, i, Some(h)));
    lemma_start_of(diff.hunks@, h + 1);
}

/// A row whose line has tokens is coloured by those tokens, and by those of no
/// other line: behind the bar stand a sign, where the style shows signs, the
/// line's text in the colours of its own tokens, and the line end.
pub proof fn law_each_row_is_coloured_by_its_own_tokens(
    c: DiffComponent,
    width: u16,
    height: u16,
    top: usize,
    right: usize,
    lines: Vec<TextLine>,
    k: int,
)
    requires
        c.wf(),
        c.diff matches Some(diff) && diff.hunks@.len() > 0,
        top + height <= usize::MAX,
        call_ensures(DiffComponent::get_text, (&c, width, height, top, right), lines),
        0 <= k < lines@.len(),
        own_tokens(c, top + k).len() > 0,
    ensures
        ({
            let i = top + k;
            let line = c.diff->0.flat()[i];
            let row = lines@[k]@;
            let content = text_of_line(c.settings, line);
            let bg = background(c, line.line_type, is_marked(c, i));
            let from = if c.settings.style.shows_sign {
                2int
            } else {
                1int
            };
            let fills = is_marked(c, i) || (c.settings.style.shows_tint && (line.line_type
                == DiffLineType::Add || line.line_type == DiffLineType::Delete));
            let fill = if fills {
                room(width as int, display_columns(scrolled_text(content, right as nat)) as int)
            } else {
                0
            };
            &&& row.len() > from
            &&& row.subrange(from, row.len() - 1) == clipped_spans(
                own_tokens(c, i),
                content,
                right as nat,
                bg,
            )
            &&& from == 2 ==> row[1] == (match line.line_type {
                DiffLineType::Add => painted(
                    seq!['+'],
                    Paint::DiffLine(DiffLineType::Add, false),
                ),
                DiffLineType::Delete => painted(
                    seq!['-'],
                    Paint::DiffLine(DiffLineType::Delete, false),
                ),
                _ => painted(seq![' '], Paint::HunkMarker(false)),
            })
            &&& row.last().text == blanks(fill).push('\n')
            &&& row.last().style == SpanStyle::Base(
                if fills {
                    bg
                } else {
                    Paint::Plain
                },
            )
        }),
{
    let i = top + k;
    let line = c.diff->0.flat()[i];
    assert(line_views(lines@)[k] == lines@[k]@);
    assert(line_views(lines@).len() == lines@.len());
    let row = lines@[k]@;
    let content = text_of_line(c.settings, line);
    let bg = background(c, line.line_type, is_marked(c, i));
    let from = if c.settings.style.shows_sign {
        2int
    } else {
        1int
    };
    let spans = clipped_spans(own_tokens(c, i), content, right as nat, bg);
    assert(row.len() == from + spans.len() + 1);
    assert(row.subrange(from, row.len() - 1) =~= spans);
    assert(blanks(0).push('\n') =~= seq!['\n']);
}

/// A row whose line has no tokens shows its text behind the bar in one piece, in
/// the colour of its type, and filled up to the width where it is selected.
pub proof fn law_each_other_row_has_the_colour_of_its_type(
    c: DiffComponent,
    width: u16,
    height: u16,
    top: usize,
    right: usize,
    lines: Vec<TextLine>,
    k: int,
)
    requires
        c.wf(),
        c.diff matches Some(diff) && diff.hunks@.len() > 0,
        top + height <= usize::MAX,
        call_ensures(DiffComponent::get_text, (&c, width, height, top, right), lines),
        0 <= k < lines@.len(),
        own_tokens(c, top + k).len() == 0,
    ensures
        ({
            let i = top + k;
            let line = c.diff->0.flat()[i];
            let row = lines@[k]@;
            let visible = scrolled_text(text_of_line(c.settings, line), right as nat);
            let fill = if is_marked(c, i) {
                room(width as int, visible.len() as int)
            } else {
                0
            };
            &&& row.len() == 2
            &&& row[1].text == visible + blanks(fill) + seq!['\n']
            &&& row[1].style == SpanStyle::Base(Paint::DiffLine(line.line_type, is_marked(c, i)))
        }),
{
    let i = top + k;
    let line = c.diff->0.flat()[i];
    assert(line_views(lines@)[k] == lines@[k]@);
    assert(line_views(lines@).len() == lines@.len());
    let visible = scrolled_text(text_of_line(c.settings, line), right as nat);
    let fill = if is_marked(c, i) {
        room(width as int, visible.len() as int)
    } else {
        0
    };
    assert(lines@[k]@[1].text =~= visible + blanks(fill) + seq!['\n']);
}

/// A row depends on the highlights through those of its own line alone.
pub proof fn law_highlights_of_other_lines_do_not_matter(
    c: DiffComponent,
    d: DiffComponent,
    width: u16,
    height: u16,
    top: usize,
    right: usize,
    lines: Vec<TextLine>,
    others: Vec<TextLine>,
    k: int,
)
    requires
        c.wf(),
        d.wf(),
        d == (DiffComponent { syntax_highlight: d.syntax_highlight, ..c }),
        c.diff matches Some(diff) && diff.hunks@.len() > 0,
        top + height <= usize::MAX,
        call_ensures(DiffComponent::get_text, (&c, width, height, top, right), lines),
        call_ensures(DiffComponent::get_text, (&d, width, height, top, right), others),
        0 <= k < lines@.len(),
        own_tokens(c, top + k) == own_tokens(d, top + k),
    ensures
        lines@.len() == others@.len(),
        lines@[k]@ == others@[k]@,
{
    assert(line_views(lines@).len() == lines@.len());
    assert(line_views(others@).len() == others@.len());
    assert(line_views(lines@)[k] == lines@[k]@);
    assert(line_views(others@)[k] == others@[k]@);
    assert(lines@[k]@ =~= others@[k]@);
}

/// The unified view shows as many lines from the top on as there are rows, as
/// far as the diff has them, and one more where that one starts no hunk; without
/// a row or a diff it shows nothing.
pub proof fn law_the_rows_are_filled(
    c: DiffComponent,
    width: u16,
    height: u16,
    top: usize,
    right: usize,
    lines: Vec<TextLine>,
)
    requires
        c.wf(),
        c.diff matches Some(diff) ==> diff.hunks@.len() > 0,
        top + height <= usize::MAX,
        call_ensures(DiffComponent::get_text, (&c, width, height, top, right), lines),
    ensures
        c.diff is None ==> lines@.len() == 0,
        c.diff matches Some(diff) ==> {
            let total = diff.flat().len() as int;
            let next = top + height;
            let starts = exists|h: int|
                0 <= h < diff.hunks@.len() && #[trigger] start_of(diff.hunks@, h) == next;
            &&& height == 0 || total <= top ==> lines@.len() == 0
            &&& height > 0 && top < total <= next ==> lines@.len() == total - top
            &&& height > 0 && next < total && starts ==> lines@.len() == height
            &&& height > 0 && next < total && !starts ==> lines@.len() == height + 1
        },
{
    assert(line_views(lines@).len() == lines@.len());
    if let Some(diff) = c.diff {
        let next = top + height;
        assert forall|h: int| 0 <= h < diff.hunks@.len() implies #[trigger] start_of(diff.hunks@, h)
            == hunk_start(diff.hunks@, h) by {
            lemma_start_of(diff.hunks@, h);
        }
        if starts_hunk(diff.hunks@, next) {
            let h = choose|h: int|
                0 <= h < diff.hunks@.len() && #[trigger] hunk_start(diff.hunks@, h) == next;
            assert(start_of(diff.hunks@, h) == next);
        } else {
            assert forall|h: int| 0 <= h < diff.hunks@.len() implies #[trigger] start_of(
                diff.hunks@,
                h,
            ) != next by {
                assert(hunk_start(diff.hunks@, h) != next);
            }
        }
    }
}

/// A diff without hunks is that of a binary file: one row says its old and its
/// new size, and by how much it grew or shrank.
pub proof fn law_a_binary_file_shows_its_sizes(
    c: DiffComponent,
    width: u16,
    height: u16,
    top: usize,
    right: usize,
    lines: Vec<TextLine>,
    grown: u64,
)
    requires
        c.wf(),
        c.diff matches Some(diff) && diff.hunks@.len() == 0,
        top + height <= usize::MAX,
        call_ensures(DiffComponent::get_text, (&c, width, height, top, right), lines),
        grown == c.diff->0.size_delta || grown == -c.diff->0.size_delta,
    ensures
        lines@.len() == 1,
        ({
            let diff = c.diff->0;
            let row = lines@[0]@;
            let (sign, t) = if diff.size_delta >= 0 {
                ('+', DiffLineType::Add)
            } else {
                ('-', DiffLineType::Delete)
            };
            row == seq![
                painted("size: "@, Paint::Plain),
                painted(byte_size_text(diff.sizes.0), Paint::Text(false, false)),
                painted(" -> "@, Paint::Plain),
                painted(byte_size_text(diff.sizes.1), Paint::Text(false, false)),
                painted(" ("@, Paint::Plain),
                painted(seq![sign] + byte_size_text(grown), Paint::DiffLine(t, false)),
                painted(")"@, Paint::Plain),
            ]
        }),
{
    assert(line_views(lines@).len() == lines@.len());
    assert(line_views(lines@)[0] == lines@[0]@);
}

/// A hunk shows in a window where the two have a line, or the line behind them,
/// in common.
pub proof fn law_a_hunk_shows_where_it_meets_the_window(
    hunk_min: usize,
    hunk_max: usize,
    min: usize,
    max: usize,
    yes: bool,
)
    requires
        hunk_min <= hunk_max,
        min <= max,
        call_ensures(DiffComponent::hunk_visible, (hunk_min, hunk_max, min, max), yes),
    ensures
        yes <==> hunk_min <= max && min <= hunk_max,
{
}

/// The title names the file that is shown, behind what stands before it.
pub proof fn law_the_title_names_the_file(
    c: DiffComponent,
    front: &str,
    title: String,
    current: (String, bool),
)
    requires
        call_ensures(DiffComponent::title, (&c, front), title),
        call_ensures(DiffComponent::current, (&c,), current),
    ensures
        title@.len() == front@.len() + c.current.path@.len(),
        title@.take(front@.len() as int) == front@,
        title@.skip(front@.len() as int) == c.current.path@,
        current.0@ == c.current.path@ && current.1 == c.current.is_stage,
{
    assert(title@.take(front@.len() as int) =~= front@);
    assert(title@.skip(front@.len() as int) =~= c.current.path@);
}

/// What is drawn are the rows of the inner height, and of a diff that is still
/// awaited the text that says so. The bars show in a view with the focus, the
/// horizontal one where a line does not fit.
pub proof fn law_the_unified_view_draws_its_rows(
    c: DiffComponent,
    width: u16,
    loading: &str,
    top: usize,
    right: usize,
    drawn: UnifiedDraw,
    lines: Vec<TextLine>,
)
    requires
        c.wf(),
        top + c.current_size.1 <= usize::MAX,
        call_ensures(DiffComponent::draw_unified, (&c, width, loading, top, right), drawn),
        call_ensures(DiffComponent::get_text, (&c, width, c.current_size.1, top, right), lines),
    ensures
        !c.pending ==> line_views(drawn.lines@) == line_views(lines@),
        c.pending ==> drawn.lines@.len() == 1 && line_text(drawn.lines@[0]@) == loading@,
        drawn.vertical_bar <==> c.focused,
        drawn.horizontal_bar <==> c.focused && c.current_size.0 < c.longest_line,
{
    if c.pending {
        assert(line_views(drawn.lines@).len() == drawn.lines@.len());
        assert(line_views(drawn.lines@)[0] == drawn.lines@[0]@);
        crate::render::lemma_single_span_text(painted(loading@, Paint::Text(false, false)));
    }
}

} // verus!
