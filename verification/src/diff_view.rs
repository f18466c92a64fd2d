//! How the diff view looks: the lines of the unified view and of the two
//! columns of the split view.
use vstd::prelude::*;

use crate::area::{inside_borders, two_columns, Area, Columns};
use crate::columns::columns;
#[allow(unused_imports)]
use crate::columns::display_columns;
use crate::diff::{flat_diff_lines, DiffLine, DiffLineType, FileDiff};
#[allow(unused_imports)]
use crate::diff::{hunk_start, lemma_flat_hunk, lemma_hunk_start_monotonic, Hunk};
#[allow(unused_imports)]
use crate::diff_actions::is_change;
use crate::diff_component::DiffComponent;
#[allow(unused_imports)]
use crate::diff_component::{hunk_of_line, lemma_hunk_of_line, DiffSettings};
use crate::render::{
    push_clipped_spans, push_span, LineHighlight, Paint, Span, SpanStyle, TextLine,
};
#[allow(unused_imports)]
use crate::render::{
    clipped_spans, law_highlighting_keeps_the_text, lemma_single_span_text, line_text, line_views,
    painted, span_views, well_placed, SpanView, Token,
};
#[allow(unused_imports)]
use crate::selection::{min, minus};
use crate::text::{blank_text, pad, tabs_to_spaces, trim_offset};
#[allow(unused_imports)]
use crate::text::{blanks, expand_tabs, padded, scrolled_text};

verus! {

/// Where a line stands in its hunk.
#[derive(Clone, Copy, PartialEq, Eq, Debug, Structural)]
pub struct HunkLineFlags {
    pub selected_hunk: bool,
    pub end_of_hunk: bool,
}

/// The bar to the left of a line: a corner at the end of a hunk and at its
/// header, else a vertical line.
pub open spec fn gutter_glyph(line_type: DiffLineType, flags: HunkLineFlags) -> char {
    if flags.end_of_hunk {
        '└'
    } else if line_type == DiffLineType::Header {
        '┌'
    } else {
        '│'
    }
}

/// How the bar to the left of a line is painted.
pub open spec fn gutter_paint(
    settings: DiffSettings,
    line_type: DiffLineType,
    flags: HunkLineFlags,
) -> Paint {
    if flags.selected_hunk {
        Paint::HunkMarker(true)
    } else if settings.style.color_gutter {
        Paint::DiffLine(line_type, false)
    } else {
        Paint::HunkMarker(false)
    }
}

/// What is shown of a line: a mark for an empty line that is no context, else
/// the line with its tabs expanded.
pub open spec fn shown_content(settings: DiffSettings, line: DiffLine) -> Seq<char> {
    if line.line_type != DiffLineType::Context && line.content@.len() == 0 {
        settings.line_break@
    } else {
        expand_tabs(line.content@)
    }
}

/// The sign before a highlighted line.
pub open spec fn sign_span(line_type: DiffLineType) -> SpanView {
    match line_type {
        DiffLineType::Add => painted(seq!['+'], Paint::DiffLine(DiffLineType::Add, false)),
        DiffLineType::Delete => painted(seq!['-'], Paint::DiffLine(DiffLineType::Delete, false)),
        _ => painted(seq![' '], Paint::HunkMarker(false)),
    }
}

/// The spans of a highlighted line behind its bar: a sign where the style
/// shows signs, the tokens, and a line end, before which a selected or tinted
/// row is filled up to `width` columns.
pub open spec fn highlighted_spans(
    settings: DiffSettings,
    width: nat,
    line_type: DiffLineType,
    selected: bool,
    scrolled: nat,
    segments: Seq<Token>,
    content: Seq<char>,
) -> Seq<SpanView> {
    let sign = if settings.style.shows_sign {
        seq![sign_span(line_type)]
    } else {
        Seq::empty()
    };
    let bg = if settings.style.shows_tint {
        Paint::Tint(line_type, selected)
    } else {
        Paint::HighlightBg(selected)
    };
    let used = display_columns(scrolled_text(content, scrolled));
    let end = if selected || (settings.style.shows_tint && is_change(line_type)) {
        painted(blanks(minus(width as int, used as int) as nat).push('\n'), bg)
    } else {
        painted(seq!['\n'], Paint::Plain)
    };
    sign + clipped_spans(segments, content, scrolled, bg) + seq![end]
}

/// Whether a line is shown with its highlight: one that is there, has tokens,
/// and is that of no header.
pub open spec fn is_highlighted(
    line_type: DiffLineType,
    highlight: Option<LineHighlight>,
) -> bool {
    highlight matches Some(segments) && segments@.len() > 0 && line_type != DiffLineType::Header
}

/// The spans of a line of the unified view.
pub open spec fn unified_line(
    settings: DiffSettings,
    width: nat,
    line: DiffLine,
    selected: bool,
    flags: HunkLineFlags,
    scrolled: nat,
    highlight: Option<LineHighlight>,
) -> Seq<SpanView> {
    let gutter = painted(
        seq![gutter_glyph(line.line_type, flags)],
        gutter_paint(settings, line.line_type, flags),
    );
    let content = shown_content(settings, line);
    if is_highlighted(line.line_type, highlight) {
        seq![gutter] + highlighted_spans(
            settings,
            width,
            line.line_type,
            selected,
            scrolled,
            highlight->0@,
            content,
        )
    } else {
        let visible = scrolled_text(content, scrolled);
        let filled = if selected {
            padded(visible, width)
        } else {
            visible
        };
        seq![
            gutter,
            painted(filled.push('\n'), Paint::DiffLine(line.line_type, selected)),
        ]
    }
}

/// How a size is written for people, by `bytesize`'s `ByteSize`.
pub uninterp spec fn byte_size_text(n: u64) -> Seq<char>;

/// Writes a number of bytes, by the `Display` of `bytesize`'s `ByteSize`, such
/// as `11.8 MiB`. The text depends on the number alone.
#[verifier::external_body]
fn byte_size(n: u64) -> (text: String)
    ensures
        text@ == byte_size_text(n),
{
    format!("{}", bytesize::ByteSize::b(n))
}

/// The absolute value of a number.
fn magnitude(n: i64) -> (m: u64)
    ensures
        n >= 0 ==> m == n,
        n < 0 ==> m == -n,
{
    if n >= 0 {
        n as u64
    } else {
        let below: i64 = -(n + 1);
        below as u64 + 1
    }
}

/// The line for a binary file, given its sizes and their difference as text.
pub open spec fn sizes_line(
    before: Seq<char>,
    after: Seq<char>,
    grows: bool,
    delta: Seq<char>,
) -> Seq<SpanView> {
    seq![
        painted("size: "@, Paint::Plain),
        painted(before, Paint::Text(false, false)),
        painted(" -> "@, Paint::Plain),
        painted(after, Paint::Text(false, false)),
        painted(" ("@, Paint::Plain),
        painted(
            seq![
                if grows {
                    '+'
                } else {
                    '-'
                },
            ] + delta,
            Paint::DiffLine(
                if grows {
                    DiffLineType::Add
                } else {
                    DiffLineType::Delete
                },
                false,
            ),
        ),
        painted(")"@, Paint::Plain),
    ]
}

/// Builds the line for a binary file from its sizes as text.
pub fn binary_line(before: String, after: String, grows: bool, delta: &str) -> (line: TextLine)
    ensures
        line@ == sizes_line(before@, after@, grows, delta@),
{
    let mut spans: Vec<Span> = Vec::new();
    let mut signed = String::new();
    signed.push(
        if grows {
            '+'
        } else {
            '-'
        },
    );
    signed.append(delta);
    let line_type = if grows {
        DiffLineType::Add
    } else {
        DiffLineType::Delete
    };
    push_span(&mut spans, "size: ".to_owned(), SpanStyle::Base(Paint::Plain));
    push_span(&mut spans, before, SpanStyle::Base(Paint::Text(false, false)));
    push_span(&mut spans, " -> ".to_owned(), SpanStyle::Base(Paint::Plain));
    push_span(&mut spans, after, SpanStyle::Base(Paint::Text(false, false)));
    push_span(&mut spans, " (".to_owned(), SpanStyle::Base(Paint::Plain));
    push_span(&mut spans, signed, SpanStyle::Base(Paint::DiffLine(line_type, false)));
    push_span(&mut spans, ")".to_owned(), SpanStyle::Base(Paint::Plain));
    assert(signed@ =~= seq![
        if grows {
            '+'
        } else {
            '-'
        },
    ] + delta@);
    let line = TextLine { spans };
    assert(line@ =~= sizes_line(before@, after@, grows, delta@));
    line
}

/// A string of one character.
fn char_text(c: char) -> (text: String)
    ensures
        text@ == seq![c],
{
    let mut text = String::new();
    text.push(c);
    assert(text@ =~= seq![c]);
    text
}

impl DiffComponent {
    /// The line that a binary file is shown by.
    pub open spec fn binary_text(diff: FileDiff) -> Seq<SpanView> {
        let delta = if diff.size_delta >= 0 {
            diff.size_delta as int
        } else {
            -diff.size_delta
        };
        sizes_line(
            byte_size_text(diff.sizes.0),
            byte_size_text(diff.sizes.1),
            diff.size_delta >= 0,
            byte_size_text(delta as u64),
        )
    }

    /// The highlight of flat line `i`, if it has one.
    pub open spec fn highlight_of(&self, i: int) -> Option<LineHighlight> {
        if 0 <= i < self.syntax_highlight@.len() {
            self.syntax_highlight@[i]
        } else {
            None
        }
    }

    /// The text of a binary file: its sizes.
    pub fn get_text_binary(&self, diff: &FileDiff) -> (lines: Vec<TextLine>)
        ensures
            line_views(lines@) == seq![Self::binary_text(*diff)],
    {
        let is_positive = diff.size_delta >= 0;
        let delta_byte_size = byte_size(magnitude(diff.size_delta));
        let line = binary_line(
            byte_size(diff.sizes.0),
            byte_size(diff.sizes.1),
            is_positive,
            delta_byte_size.as_str(),
        );
        let mut lines: Vec<TextLine> = Vec::new();
        lines.push(line);
        assert(line_views(lines@) =~= seq![Self::binary_text(*diff)]);
        lines
    }

    /// What is shown of a line.
    fn content_of(&self, line: &DiffLine) -> (content: String)
        ensures
            content@ == shown_content(self.settings, *line),
    {
        let is_content_line = line.line_type == DiffLineType::Context;
        if !is_content_line && line.content.as_str().is_empty() {
            self.settings.line_break.clone()
        } else {
            tabs_to_spaces(line.content.as_str())
        }
    }

    /// Builds the syntax-highlighted spans for one diff line (sign, tokens,
    /// optional row tint), as the highlight style asks. The bar on the left is
    /// not among them.
    pub fn highlighted_content_spans(
        &self,
        width: u16,
        line_type: DiffLineType,
        selected: bool,
        scrolled_right: usize,
        segments: &LineHighlight,
        content: &str,
    ) -> (spans: Vec<Span>)
        ensures
            span_views(spans@) == highlighted_spans(
                self.settings,
                width as nat,
                line_type,
                selected,
                scrolled_right as nat,
                segments@,
                content@,
            ),
    {
        let mut spans: Vec<Span> = Vec::new();
        let style = self.settings.style;
        if style.shows_sign {
            let (sign, paint) = match line_type {
                DiffLineType::Add => ('+', Paint::DiffLine(DiffLineType::Add, false)),
                DiffLineType::Delete => ('-', Paint::DiffLine(DiffLineType::Delete, false)),
                _ => (' ', Paint::HunkMarker(false)),
            };
            push_span(&mut spans, char_text(sign), SpanStyle::Base(paint));
        }
        let ghost sign = span_views(spans@);
        assert(sign =~= if style.shows_sign {
            seq![sign_span(line_type)]
        } else {
            Seq::empty()
        });
        let visible = trim_offset(content, scrolled_right);
        let bg = if style.shows_tint {
            Paint::Tint(line_type, selected)
        } else {
            Paint::HighlightBg(selected)
        };
        push_clipped_spans(&mut spans, segments, content, scrolled_right, bg);
        let tint_row = style.shows_tint && (line_type == DiffLineType::Add || line_type
            == DiffLineType::Delete);
        if selected || tint_row {
            let used = columns(visible.as_str());
            let fill: usize = (width as usize).saturating_sub(used);
            let mut text = blank_text(fill);
            text.push('\n');
            push_span(&mut spans, text, SpanStyle::Base(bg));
        } else {
            push_span(&mut spans, char_text('\n'), SpanStyle::Base(Paint::Plain));
        }
        assert(span_views(spans@) =~= highlighted_spans(
            self.settings,
            width as nat,
            line_type,
            selected,
            scrolled_right as nat,
            segments@,
            content@,
        ));
        spans
    }

    /// The line of the unified view for one diff line.
    pub fn get_line_to_add(
        &self,
        width: u16,
        line: &DiffLine,
        selected: bool,
        hunk_flags: HunkLineFlags,
        scrolled_right: usize,
        highlight: &Option<LineHighlight>,
    ) -> (shown: TextLine)
        ensures
            shown@ == unified_line(
                self.settings,
                width as nat,
                *line,
                selected,
                hunk_flags,
                scrolled_right as nat,
                *highlight,
            ),
    {
        let paint = if hunk_flags.selected_hunk {
            Paint::HunkMarker(true)
        } else if self.settings.style.color_gutter {
            Paint::DiffLine(line.line_type, false)
        } else {
            Paint::HunkMarker(false)
        };
        let glyph = if hunk_flags.end_of_hunk {
            '└'
        } else if line.line_type == DiffLineType::Header {
            '┌'
        } else {
            '│'
        };
        let mut spans: Vec<Span> = Vec::new();
        push_span(&mut spans, char_text(glyph), SpanStyle::Base(paint));
        let content = self.content_of(line);
        let ghost want = unified_line(
            self.settings,
            width as nat,
            *line,
            selected,
            hunk_flags,
            scrolled_right as nat,
            *highlight,
        );
        if let Some(segments) = highlight {
            if segments.len() > 0 && !(line.line_type == DiffLineType::Header) {
                let ghost gutter = span_views(spans@);
                let mut rest = self.highlighted_content_spans(
                    width,
                    line.line_type,
                    selected,
                    scrolled_right,
                    segments,
                    content.as_str(),
                );
                let ghost tail = span_views(rest@);
                spans.append(&mut rest);
                assert(span_views(spans@) =~= gutter + tail);
                assert(span_views(spans@) =~= want);
                return TextLine { spans };
            }
        }
        let visible = trim_offset(content.as_str(), scrolled_right);
        let mut filled = if selected {
            // selected line
            pad(visible.as_str(), width as usize)
        } else {
            // weird eof missing eol line
            visible
        };
        filled.push('\n');
        push_span(&mut spans, filled, SpanStyle::Base(Paint::DiffLine(line.line_type, selected)));
        assert(span_views(spans@) =~= want);
        TextLine { spans }
    }
}

/// The background of a cell of the split view.
pub open spec fn cell_background(
    settings: DiffSettings,
    line_type: DiffLineType,
    selected: bool,
) -> Paint {
    if selected {
        Paint::HighlightBg(true)
    } else if settings.style.shows_tint && is_change(line_type) {
        Paint::Tint(line_type, false)
    } else {
        Paint::Plain
    }
}

/// The spans of a cell of the split view: blanks where there is no line; else
/// the line, without a bar or a sign, as its column tells old from new, and
/// filled up to `width` columns.
pub open spec fn split_cell(
    settings: DiffSettings,
    width: nat,
    line: Option<DiffLine>,
    highlight: Option<LineHighlight>,
    selected: bool,
    scrolled: nat,
) -> Seq<SpanView> {
    match line {
        None => seq![painted(blanks(width), Paint::HighlightBg(selected))],
        Some(line) => {
            let content = shown_content(settings, line);
            let visible = scrolled_text(content, scrolled);
            let bg = cell_background(settings, line.line_type, selected);
            let shown = if is_highlighted(line.line_type, highlight) {
                clipped_spans(highlight->0@, content, scrolled, bg)
            } else {
                seq![painted(visible, Paint::DiffLine(line.line_type, selected))]
            };
            let fill = minus(width as int, display_columns(visible) as int) as nat;
            if fill > 0 {
                shown.push(painted(blanks(fill), bg))
            } else {
                shown
            }
        },
    }
}

/// Whether a hunk starts at flat line `line`.
pub open spec fn starts_hunk(hunks: Seq<Hunk>, line: int) -> bool {
    exists|i: int| 0 <= i < hunks.len() && #[trigger] hunk_start(hunks, i) == line
}

/// Where the lines end that the unified view shows from `top` on in `height`
/// rows: one more line than there are rows, unless that line starts a hunk.
pub open spec fn window_end(diff: FileDiff, top: int, height: int) -> int {
    if height == 0 {
        top
    } else if starts_hunk(diff.hunks@, top + height) {
        min(diff.flat().len() as int, top + height)
    } else {
        min(diff.flat().len() as int, top + height + 1)
    }
}

impl DiffComponent {
    /// Flat line `i` as the unified view shows it.
    pub open spec fn unified_row(
        &self,
        diff: FileDiff,
        i: int,
        width: nat,
        right: nat,
    ) -> Seq<SpanView> {
        let hunk = hunk_of_line(diff.hunks@, i)->0;
        unified_line(
            self.settings,
            width,
            diff.flat()[i],
            self.focused && self.selection.covers(i),
            HunkLineFlags {
                selected_hunk: self.focused && self.selected_hunk == Some(hunk),
                end_of_hunk: hunk_start(diff.hunks@, hunk + 1) == i + 1,
            },
            right,
            self.highlight_of(i),
        )
    }

    /// Flat lines `from..to` as the unified view shows them.
    pub open spec fn unified_rows(
        &self,
        diff: FileDiff,
        from: int,
        to: int,
        width: nat,
        right: nat,
    ) -> Seq<Seq<SpanView>> {
        Seq::new(
            minus(to, from) as nat,
            |k: int| self.unified_row(diff, from + k, width, right),
        )
    }

    /// The text of the unified view, scrolled down by `top` lines and to the
    /// right by `right` bytes.
    pub open spec fn unified_text(
        &self,
        width: nat,
        height: int,
        top: int,
        right: nat,
    ) -> Seq<Seq<SpanView>> {
        match self.diff {
            Some(diff) => if diff.hunks@.len() == 0 {
                seq![Self::binary_text(diff)]
            } else {
                self.unified_rows(diff, top, window_end(diff, top, height), width, right)
            },
            None => Seq::empty(),
        }
    }

    /// Appends flat line `line_cursor`, which is line `k` of hunk `hunk`.
    fn push_unified_row(
        &self,
        lines: &mut Vec<TextLine>,
        diff: &FileDiff,
        hunk: usize,
        k: usize,
        line_cursor: usize,
        width: u16,
        right: usize,
    )
        requires
            diff.flat().len() <= usize::MAX,
            hunk < diff.hunks@.len(),
            k < diff.hunks@[hunk as int].lines@.len(),
            line_cursor == hunk_start(diff.hunks@, hunk as int) + k,
        ensures
            line_views(final(lines)@) == line_views(old(lines)@).push(
                self.unified_row(*diff, line_cursor as int, width as nat, right as nat),
            ),
    {
        proof {
            lemma_flat_hunk(diff.hunks@, hunk as int);
            lemma_hunk_of_line(diff.hunks@, hunk as int, line_cursor as int);
        }
        let no_highlight: Option<LineHighlight> = None;
        let highlight = if line_cursor < self.syntax_highlight.len() {
            &self.syntax_highlight[line_cursor]
        } else {
            &no_highlight
        };
        let selected_hunk = match self.selected_hunk {
            Some(selected) => self.focused() && selected == hunk,
            None => false,
        };
        let line = self.get_line_to_add(
            width,
            &diff.hunks[hunk].lines[k],
            self.focused() && self.selection.contains(line_cursor),
            HunkLineFlags { selected_hunk, end_of_hunk: k == diff.hunks[hunk].lines.len() - 1 },
            right,
            highlight,
        );
        lines.push(line);
        assert(line_views(lines@) =~= line_views(old(lines)@).push(line@));
    }

    /// The lines of the unified view, scrolled down by `top` lines and to the
    /// right by `right` bytes.
    pub fn get_text(&self, width: u16, height: u16, top: usize, right: usize) -> (lines: Vec<
        TextLine,
    >)
        requires
            self.wf(),
            top + height <= usize::MAX,
        ensures
            line_views(lines@) == self.unified_text(
                width as nat,
                height as int,
                top as int,
                right as nat,
            ),
    {
        let mut res: Vec<TextLine> = Vec::new();
        let diff = match &self.diff {
            Some(diff) => diff,
            None => {
                assert(line_views(res@) =~= Seq::<Seq<SpanView>>::empty());
                return res;
            },
        };
        if diff.hunks.len() == 0 {
            return self.get_text_binary(diff);
        }
        let min = top;
        let max: usize = top + height as usize;
        let mut line_cursor: usize = 0;
        let mut lines_added: usize = 0;
        let mut i: usize = 0;
        let ghost total = diff.flat().len();
        assert(diff.hunks@.take(0) =~= Seq::<Hunk>::empty());
        assert(diff.hunks@.take(diff.hunks@.len() as int) =~= diff.hunks@);
        assert(line_views(res@) =~= self.unified_rows(*diff, top as int, 0, width as nat, right as nat));
        while i < diff.hunks.len() && lines_added < height as usize
            invariant
                i <= diff.hunks@.len(),
                diff.fits(),
                total == diff.flat().len(),
                hunk_start(diff.hunks@, diff.hunks@.len() as int) == total,
                min == top,
                max == top + height,
                line_cursor == hunk_start(diff.hunks@, i as int),
                lines_added == res@.len(),
                height == 0 ==> line_cursor == 0,
                forall|j: int| 0 <= j < i ==> #[trigger] hunk_start(diff.hunks@, j) < max,
                line_views(res@) == self.unified_rows(
                    *diff,
                    top as int,
                    crate::selection::min(line_cursor as int, max + 1),
                    width as nat,
                    right as nat,
                ),
            decreases diff.hunks@.len() - i,
        {
            assert(line_views(res@).len() == res@.len());
            let hunk_len = diff.hunks[i].lines.len();
            let hunk_min = line_cursor;
            proof {
                lemma_flat_hunk(diff.hunks@, i as int);
            }
            let hunk_max = line_cursor + hunk_len;
            if Self::hunk_visible(hunk_min, hunk_max, min, max) {
                let mut k: usize = 0;
                while k < hunk_len
                    invariant
                        i < diff.hunks@.len(),
                        k <= hunk_len,
                        hunk_len == diff.hunks@[i as int].lines@.len(),
                        hunk_max == hunk_min + hunk_len,
                        hunk_min == hunk_start(diff.hunks@, i as int),
                        diff.fits(),
                        min == top,
                        max == top + height,
                        line_cursor == hunk_min + k,
                        hunk_max <= diff.flat().len(),
                        lines_added == res@.len(),
                        line_views(res@) == self.unified_rows(
                            *diff,
                            top as int,
                            crate::selection::min(line_cursor as int, max + 1),
                            width as nat,
                            right as nat,
                        ),
                    decreases hunk_len - k,
                {
                    assert(line_views(res@).len() == res@.len());
                    if line_cursor >= min && line_cursor <= max {
                        self.push_unified_row(&mut res, diff, i, k, line_cursor, width, right);
                        lines_added += 1;
                    }
                    line_cursor += 1;
                    k += 1;
                    assert(line_views(res@) =~= self.unified_rows(
                        *diff,
                        top as int,
                        crate::selection::min(line_cursor as int, max + 1),
                        width as nat,
                        right as nat,
                    ));
                }
            } else {
                line_cursor = line_cursor + hunk_len;
                assert(line_views(res@) =~= self.unified_rows(
                    *diff,
                    top as int,
                    crate::selection::min(line_cursor as int, max + 1),
                    width as nat,
                    right as nat,
                ));
            }
            i += 1;
        }
        proof {
            let h = diff.hunks@;
            assert(line_views(res@).len() == res@.len());
            if i < h.len() {
                lemma_hunk_start_monotonic(h, i as int, h.len() as int);
                if line_cursor == max {
                    assert(hunk_start(h, i as int) == max);
                }
                assert forall|j: int| i <= j < h.len() implies line_cursor <= #[trigger] hunk_start(
                    h,
                    j,
                ) by {
                    lemma_hunk_start_monotonic(h, i as int, j);
                }
            }
            assert(line_views(res@) =~= self.unified_rows(
                *diff,
                top as int,
                window_end(*diff, top as int, height as int),
                width as nat,
                right as nat,
            ));
        }
        res
    }
}

/// The least inner width in which the split view is rendered. Below it the
/// columns would be uselessly narrow, so a hint is shown instead.
pub const MIN_SPLIT_INNER_WIDTH: u16 = 48;

/// Where the split view is drawn.
#[derive(Clone, Copy, PartialEq, Eq, Debug, Structural)]
pub enum SplitLayout {
    /// Not at all: the terminal is too narrow.
    TooNarrow,
    /// In two columns of the area inside the frame.
    Wide(Area, Columns),
}

/// What the vertical scroll position is brought up to date with.
#[derive(Clone, Copy, PartialEq, Eq, Debug, Structural)]
pub struct ScrollUpdate {
    pub selection: usize,
    pub rows: usize,
    pub height: usize,
}

/// What is drawn of the unified view.
#[derive(Debug)]
pub struct UnifiedDraw {
    pub lines: Vec<TextLine>,
    pub vertical_bar: bool,
    pub horizontal_bar: bool,
}

/// What is drawn of the split view.
#[derive(Debug)]
pub struct SplitDraw {
    pub left: Vec<TextLine>,
    pub right: Vec<TextLine>,
    pub divider: Vec<TextLine>,
    pub vertical_bar: bool,
    pub horizontal_bar: bool,
}

/// A line that holds one span.
fn single_span(text: String, paint: Paint) -> (line: TextLine)
    ensures
        line@ == seq![painted(text@, paint)],
{
    let mut spans: Vec<Span> = Vec::new();
    push_span(&mut spans, text, SpanStyle::Base(paint));
    assert(span_views(spans@) =~= seq![painted(text@, paint)]);
    TextLine { spans }
}

/// The line that the cell at `cell` shows, if there is one.
pub open spec fn line_of_cell(lines: Seq<DiffLine>, cell: Option<usize>) -> Option<DiffLine> {
    match cell {
        Some(i) => if i < lines.len() {
            Some(lines[i as int])
        } else {
            None
        },
        None => None,
    }
}

impl DiffComponent {
    /// One cell of the split view.
    pub open spec fn cell_view(
        &self,
        diff: FileDiff,
        cell: Option<usize>,
        row: int,
        width: nat,
        right: nat,
    ) -> Seq<SpanView> {
        split_cell(
            self.settings,
            width,
            line_of_cell(diff.flat(), cell),
            match cell {
                Some(i) => self.highlight_of(i as int),
                None => None,
            },
            self.focused && self.selection.covers(row),
            right,
        )
    }

    /// Where the rows end that the split view shows.
    pub open spec fn split_end(&self, top: int, height: int) -> int {
        min(self.split_rows@.len() as int, top + height)
    }

    /// The left column of rows `from..to`.
    pub open spec fn left_cells(
        &self,
        diff: FileDiff,
        from: int,
        to: int,
        width: nat,
        right: nat,
    ) -> Seq<Seq<SpanView>> {
        Seq::new(
            minus(to, from) as nat,
            |k: int|
                self.cell_view(diff, self.split_rows@[from + k].left, from + k, width, right),
        )
    }

    /// The right column of rows `from..to`.
    pub open spec fn right_cells(
        &self,
        diff: FileDiff,
        from: int,
        to: int,
        width: nat,
        right: nat,
    ) -> Seq<Seq<SpanView>> {
        Seq::new(
            minus(to, from) as nat,
            |k: int|
                self.cell_view(diff, self.split_rows@[from + k].right, from + k, width, right),
        )
    }

    /// Renders a cell of the split view (one column of one row). `cell` is a
    /// flat line index, or `None` for a blank cell.
    pub fn get_split_cell(
        &self,
        width: u16,
        cell: Option<usize>,
        flat: &Vec<&DiffLine>,
        highlights: &Vec<Option<LineHighlight>>,
        selected: bool,
        scrolled: usize,
    ) -> (shown: TextLine)
        ensures
            shown@ == split_cell(
                self.settings,
                width as nat,
                match cell {
                    Some(i) => if i < flat@.len() {
                        Some(*flat@[i as int])
                    } else {
                        None
                    },
                    None => None,
                },
                match cell {
                    Some(i) => if i < highlights@.len() {
                        highlights@[i as int]
                    } else {
                        None
                    },
                    None => None,
                },
                selected,
                scrolled as nat,
            ),
    {
        let idx = match cell {
            Some(idx) => if idx < flat.len() {
                idx
            } else {
                // blank pad cell (no counterpart on this side)
                return single_span(blank_text(width as usize), Paint::HighlightBg(selected));
            },
            None => {
                return single_span(blank_text(width as usize), Paint::HighlightBg(selected));
            },
        };
        let line = flat[idx];
        let content = self.content_of(line);
        let is_header = line.line_type == DiffLineType::Header;
        let bg = if selected {
            Paint::HighlightBg(true)
        } else if self.settings.style.shows_tint && (line.line_type == DiffLineType::Add
            || line.line_type == DiffLineType::Delete) {
            Paint::Tint(line.line_type, false)
        } else {
            Paint::Plain
        };
        let visible = trim_offset(content.as_str(), scrolled);
        let used = columns(visible.as_str());
        let mut spans: Vec<Span> = Vec::new();
        let ghost none = span_views(spans@);
        let mut highlighted = false;
        if idx < highlights.len() {
            if let Some(segments) = &highlights[idx] {
                if segments.len() > 0 && !is_header {
                    push_clipped_spans(&mut spans, segments, content.as_str(), scrolled, bg);
                    assert(span_views(spans@) =~= clipped_spans(
                        segments@,
                        content@,
                        scrolled as nat,
                        bg,
                    ));
                    highlighted = true;
                }
            }
        }
        if !highlighted {
            // no syntax highlight (off / pending / header): keep the red/green
            // foreground
            push_span(
                &mut spans,
                visible,
                SpanStyle::Base(Paint::DiffLine(line.line_type, selected)),
            );
            assert(span_views(spans@) =~= seq![
                painted(visible@, Paint::DiffLine(line.line_type, selected)),
            ]);
        }
        // pad to the full column so tint/selection fills to the divider

        let fill: usize = (width as usize).saturating_sub(used);
        if fill > 0 {
            push_span(&mut spans, blank_text(fill), SpanStyle::Base(bg));
        }
        TextLine { spans }
    }

    /// Builds the visible lines of both split columns, of widths `lw` and
    /// `rw`, scrolled down by `top` rows and to the right by `scrolled` bytes.
    pub fn get_split_text(
        &self,
        lw: u16,
        rw: u16,
        height: usize,
        top: usize,
        scrolled: usize,
    ) -> (text: (Vec<TextLine>, Vec<TextLine>))
        ensures
            match self.diff {
                Some(diff) => {
                    let end = self.split_end(top as int, height as int);
                    &&& line_views(text.0@) == self.left_cells(
                        diff,
                        top as int,
                        end,
                        lw as nat,
                        scrolled as nat,
                    )
                    &&& line_views(text.1@) == self.right_cells(
                        diff,
                        top as int,
                        end,
                        rw as nat,
                        scrolled as nat,
                    )
                },
                None => text.0@.len() == 0 && text.1@.len() == 0,
            },
    {
        let mut left: Vec<TextLine> = Vec::new();
        let mut right: Vec<TextLine> = Vec::new();
        let diff = match &self.diff {
            Some(diff) => diff,
            None => {
                return (left, right);
            },
        };
        let flat = flat_diff_lines(diff);
        let mut row_idx: usize = top;
        let mut shown: usize = 0;
        assert(line_views(left@) =~= self.left_cells(
            *diff,
            top as int,
            row_idx as int,
            lw as nat,
            scrolled as nat,
        ));
        assert(line_views(right@) =~= self.right_cells(
            *diff,
            top as int,
            row_idx as int,
            rw as nat,
            scrolled as nat,
        ));
        while row_idx < self.split_rows.len() && shown < height
            invariant
                row_idx == top + shown,
                shown <= height,
                top <= row_idx,
                row_idx <= self.split_rows@.len() || shown == 0,
                flat@.len() == diff.flat().len(),
                forall|k: int| 0 <= k < flat@.len() ==> *#[trigger] flat@[k] == diff.flat()[k],
                line_views(left@) == self.left_cells(
                    *diff,
                    top as int,
                    row_idx as int,
                    lw as nat,
                    scrolled as nat,
                ),
                line_views(right@) == self.right_cells(
                    *diff,
                    top as int,
                    row_idx as int,
                    rw as nat,
                    scrolled as nat,
                ),
            decreases height - shown,
        {
            let ghost left_before = line_views(left@);
            let ghost right_before = line_views(right@);
            let row = self.split_rows[row_idx];
            let selected = self.focused() && self.selection.contains(row_idx);
            let highlights = &self.syntax_highlight;
            let l = self.get_split_cell(lw, row.left, &flat, highlights, selected, scrolled);
            assert(l@ == self.cell_view(
                *diff,
                row.left,
                row_idx as int,
                lw as nat,
                scrolled as nat,
            ));
            left.push(l);
            let r = self.get_split_cell(rw, row.right, &flat, highlights, selected, scrolled);
            assert(r@ == self.cell_view(
                *diff,
                row.right,
                row_idx as int,
                rw as nat,
                scrolled as nat,
            ));
            right.push(r);
            row_idx += 1;
            shown += 1;
            assert(line_views(left@) =~= left_before.push(l@));
            assert(line_views(right@) =~= right_before.push(r@));
            assert(line_views(left@) =~= self.left_cells(
                *diff,
                top as int,
                row_idx as int,
                lw as nat,
                scrolled as nat,
            ));
            assert(line_views(right@) =~= self.right_cells(
                *diff,
                top as int,
                row_idx as int,
                rw as nat,
                scrolled as nat,
            ));
        }
        proof {
            let end = self.split_end(top as int, height as int);
            assert(minus(end, top as int) == minus(row_idx as int, top as int));
            assert(line_views(left@) =~= self.left_cells(
                *diff,
                top as int,
                end,
                lw as nat,
                scrolled as nat,
            ));
            assert(line_views(right@) =~= self.right_cells(
                *diff,
                top as int,
                end,
                rw as nat,
                scrolled as nat,
            ));
        }
        (left, right)
    }

    /// Starts to draw the view in `r`: takes a finished highlight, keeps the
    /// inner size, and says what the vertical scroll position is brought up to
    /// date with.
    pub fn begin_draw(
        &mut self,
        r: Area,
        finished: Option<(u64, Vec<Option<LineHighlight>>)>,
    ) -> (update: ScrollUpdate)
        ensures
            *final(self) == (DiffComponent {
                current_size: (
                    minus(r.width as int, 2) as u16,
                    minus(r.height as int, 2) as u16,
                ),
                syntax_highlight: match finished {
                    Some((hash, result)) => if hash == old(self).current.hash {
                        result
                    } else {
                        old(self).syntax_highlight
                    },
                    None => old(self).syntax_highlight,
                },
                ..*old(self)
            }),
            update == (ScrollUpdate {
                selection: old(self).selection.end(),
                rows: old(self).rows() as usize,
                height: minus(r.height as int, 2) as usize,
            }),
    {
        self.poll_highlight(finished);
        self.current_size = (r.width.saturating_sub(2), r.height.saturating_sub(2));
        ScrollUpdate {
            selection: self.selection.get_end(),
            rows: self.row_count(),
            height: self.current_size.1 as usize,
        }
    }

    /// The title of the view: `prefix`, and the file that is shown.
    pub fn title(&self, prefix: &str) -> (title: String)
        ensures
            title@ == prefix@ + self.current.path@,
    {
        let mut title = prefix.to_owned();
        title.append(self.current.path.as_str());
        title
    }

    /// Whether the split view is drawn: it is view-only, and pending and
    /// binary diffs always fall back to the unified view.
    pub fn uses_split(&self) -> (yes: bool)
        ensures
            yes == (self.settings.split && !self.pending && (self.diff matches Some(diff)
                && diff.hunks@.len() > 0)),
    {
        self.is_split() && !self.pending && match &self.diff {
            Some(diff) => diff.hunks.len() > 0,
            None => false,
        }
    }

    /// What is drawn of the unified view (the default, and the only one that
    /// supports staging) in a frame of the given width. `loading` is shown
    /// while the diff is pending.
    pub fn draw_unified(&self, width: u16, loading: &str, top: usize, right: usize) -> (drawn:
        UnifiedDraw)
        requires
            self.wf(),
            top + self.current_size.1 <= usize::MAX,
        ensures
            line_views(drawn.lines@) == (if self.pending {
                seq![seq![painted(loading@, Paint::Text(false, false))]]
            } else {
                self.unified_text(
                    width as nat,
                    self.current_size.1 as int,
                    top as int,
                    right as nat,
                )
            }),
            drawn.vertical_bar == self.focused,
            drawn.horizontal_bar == (self.focused && self.longest_line > self.current_size.0),
    {
        let lines = if self.pending {
            let mut lines: Vec<TextLine> = Vec::new();
            lines.push(single_span(loading.to_owned(), Paint::Text(false, false)));
            assert(line_views(lines@) =~= seq![
                seq![painted(loading@, Paint::Text(false, false))],
            ]);
            lines
        } else {
            self.get_text(width, self.current_size.1, top, right)
        };
        UnifiedDraw {
            lines,
            vertical_bar: self.focused(),
            horizontal_bar: self.focused() && self.max_scroll_right() > 0,
        }
    }

    /// Lays the split view out in the frame `r`: two columns that fill the area
    /// inside the frame, and a divider between them.
    pub fn split_layout(r: Area) -> (layout: SplitLayout)
        ensures
            match layout {
                SplitLayout::TooNarrow => r.inside().width < MIN_SPLIT_INNER_WIDTH,
                SplitLayout::Wide(inner, columns) => {
                    &&& r.inside().width >= MIN_SPLIT_INNER_WIDTH
                    &&& inner == r.inside()
                    &&& columns.fill(inner)
                },
            },
    {
        let inner = inside_borders(r);
        if inner.width < MIN_SPLIT_INNER_WIDTH {
            SplitLayout::TooNarrow
        } else {
            SplitLayout::Wide(inner, two_columns(inner))
        }
    }

    /// The hint that is shown where the split view does not fit.
    pub fn narrow_hint() -> (lines: Vec<TextLine>)
        ensures
            line_views(lines@) == seq![
                seq![painted("terminal too narrow for split view"@, Paint::Text(false, false))],
            ],
    {
        let mut lines: Vec<TextLine> = Vec::new();
        lines.push(
            single_span(
                "terminal too narrow for split view".to_owned(),
                Paint::Text(false, false),
            ),
        );
        assert(line_views(lines@) =~= seq![
            seq![painted("terminal too narrow for split view"@, Paint::Text(false, false))],
        ]);
        lines
    }

    /// What is drawn of the split view: two view-only columns, and a vertical
    /// divider as high as the area inside the frame.
    pub fn draw_split(&self, inner: Area, columns: &Columns, top: usize, right: usize) -> (drawn:
        SplitDraw)
        ensures
            match self.diff {
                Some(diff) => {
                    let end = self.split_end(top as int, inner.height as int);
                    &&& line_views(drawn.left@) == self.left_cells(
                        diff,
                        top as int,
                        end,
                        columns.left.width as nat,
                        right as nat,
                    )
                    &&& line_views(drawn.right@) == self.right_cells(
                        diff,
                        top as int,
                        end,
                        columns.right.width as nat,
                        right as nat,
                    )
                },
                None => drawn.left@.len() == 0 && drawn.right@.len() == 0,
            },
            line_views(drawn.divider@) == Seq::new(
                inner.height as nat,
                |k: int| seq![painted(seq!['│'], Paint::Block(self.focused))],
            ),
            drawn.vertical_bar == self.focused,
            drawn.horizontal_bar == (self.focused && self.longest_split_line
                > columns.left.width),
    {
        let (left, right_lines) = self.get_split_text(
            columns.left.width,
            columns.right.width,
            inner.height as usize,
            top,
            right,
        );
        let mut divider: Vec<TextLine> = Vec::new();
        let mut k: u16 = 0;
        while k < inner.height
            invariant
                k <= inner.height,
                divider@.len() == k,
                forall|i: int|
                    0 <= i < divider@.len() ==> (#[trigger] divider@[i])@ == seq![
                        painted(seq!['│'], Paint::Block(self.focused)),
                    ],
            decreases inner.height - k,
        {
            divider.push(single_span(char_text('│'), Paint::Block(self.focused())));
            k += 1;
        }
        assert(line_views(divider@) =~= Seq::new(
            inner.height as nat,
            |k: int| seq![painted(seq!['│'], Paint::Block(self.focused))],
        ));
        SplitDraw {
            left,
            right: right_lines,
            divider,
            vertical_bar: self.focused(),
            horizontal_bar: self.focused() && self.max_scroll_right_split(columns.left.width) > 0,
        }
    }
}

/// The unified view fills its rows: it shows every line from `top` on that
/// fits the rows, and at most one more.
pub proof fn law_window_is_filled(diff: FileDiff, top: int, height: int)
    requires
        0 <= top,
        0 < height,
    ensures
        min(diff.flat().len() as int, top + height) <= window_end(diff, top, height) <= min(
            diff.flat().len() as int,
            top + height + 1,
        ),
{
}

/// A cell of the split view shows the visible part of its line, filled up to
/// the width of the column, whether the line is highlighted or not.
pub proof fn law_cell_shows_its_line(
    settings: DiffSettings,
    width: nat,
    line: DiffLine,
    highlight: Option<LineHighlight>,
    selected: bool,
    scrolled: nat,
)
    requires
        highlight matches Some(segments) ==> well_placed(
            segments@,
            shown_content(settings, line),
        ),
    ensures
        ({
            let visible = scrolled_text(shown_content(settings, line), scrolled);
            line_text(split_cell(settings, width, Some(line), highlight, selected, scrolled))
                == visible + blanks(minus(width as int, display_columns(visible) as int) as nat)
        }),
{
    let content = shown_content(settings, line);
    let visible = scrolled_text(content, scrolled);
    let bg = cell_background(settings, line.line_type, selected);
    let plain = painted(visible, Paint::DiffLine(line.line_type, selected));
    let fill = minus(width as int, display_columns(visible) as int) as nat;
    lemma_single_span_text(plain);
    let shown = if is_highlighted(line.line_type, highlight) {
        law_highlighting_keeps_the_text(highlight->0@, content, scrolled, bg);
        clipped_spans(highlight->0@, content, scrolled, bg)
    } else {
        seq![plain]
    };
    assert(shown.push(painted(blanks(fill), bg)).drop_last() =~= shown);
    assert(visible + blanks(0) =~= visible);
}

} // verus!
