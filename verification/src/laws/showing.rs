//! Showing a diff: what is taken over, what is measured, what is asked for.
#![allow(unused_imports)]
use vstd::prelude::*;
use vstd::utf8::encode_utf8;

use crate::area::Area;
use crate::diff::{DiffLine, FileDiff};
use crate::diff_component::{
    hash_of_diff, longest_of, request_views, DiffComponent, DiffRequest, DiffSettings,
    HighlightStyle,
};
use crate::diff_view::ScrollUpdate;
use crate::laws::moving::{is_hunk_at, last_row, lemma_hunk_at, nearest};
use crate::render::LineHighlight;
use crate::selection::Selection;
use crate::split::{build_split_rows, law_row_count, SplitRow};
use crate::text::{byte_len, expand_tabs, lemma_byte_len_encoding};

verus! {

/// Whether `request` asks to highlight `diff`: every line of it, in order, with
/// its content and type, under the diff's hash and path.
pub open spec fn asks_to_highlight(
    request: DiffRequest,
    diff: FileDiff,
    its_hash: u64,
    its_path: Seq<char>,
) -> bool {
    request matches DiffRequest::SpawnHighlight { hash, input, path } && hash == its_hash && path@
        == its_path && input@.len() == diff.flat().len() && forall|i: int|
        0 <= i < input@.len() ==> (#[trigger] input@[i]).0@ == diff.flat()[i].content@ && input@[i].1
            == diff.flat()[i].line_type
}

/// Whether a diff is highlighted: the style is on, it is not binary, and it has
/// no more than ten thousand lines.
pub open spec fn is_to_highlight(style: HighlightStyle, diff: FileDiff) -> bool {
    style.on && diff.hunks@.len() > 0 && diff.lines <= 10_000
}

/// Whether `after` asks for what the highlighting of `diff` needs behind the
/// first `n` requests, and for no more.
pub open spec fn starts_highlighting(
    after: DiffComponent,
    n: int,
    diff: FileDiff,
    hash: u64,
    path: Seq<char>,
) -> bool {
    let on = after.settings.style.on;
    &&& !on ==> after.requests@.len() == n + 1 && after.requests@[n] is CancelHighlight
    &&& is_to_highlight(after.settings.style, diff) ==> after.requests@.len() == n + 1
        && asks_to_highlight(after.requests@[n], diff, hash, path)
    &&& on && !is_to_highlight(after.settings.style, diff) ==> after.requests@.len() == n
}

proof fn lemma_highlight_request(c: DiffComponent, after: DiffComponent, n: int)
    requires
        c.diff is Some,
        after.settings == c.settings,
        0 <= n,
        request_views(after.requests@).len() == n + c.highlight_requests().len(),
        request_views(after.requests@).skip(n) == c.highlight_requests(),
    ensures
        starts_highlighting(after, n, c.diff->0, c.current.hash, c.current.path@),
{
    let views = request_views(after.requests@);
    assert(views.len() == after.requests@.len());
    if after.requests@.len() > n {
        assert(views.skip(n)[0] == views[n]);
        assert(views[n] == after.requests@[n]@);
        if is_to_highlight(c.settings.style, c.diff->0) {
            let request = after.requests@[n];
            if let DiffRequest::SpawnHighlight { hash, input, path } = request {
                let said = crate::diff_component::typed_lines(input@);
                assert(said == crate::diff_component::highlight_input(c.diff->0.flat()));
                assert(said.len() == input@.len());
                assert forall|i: int| 0 <= i < input@.len() implies (#[trigger] input@[i]).0@
                    == c.diff->0.flat()[i].content@ && input@[i].1
                    == c.diff->0.flat()[i].line_type by {
                    assert(said[i] == (input@[i].0@, input@[i].1));
                }
            }
        }
    }
}

/// Whether `after` is what showing another diff makes of `before`: it is taken
/// over with its path and side, its rows are laid out, the highlights of the
/// former one are forgotten, the selection goes to the first row for another file
/// and stays near the row where it started for the same one, the scroll position
/// is reset for another file only, and the highlighting starts anew. Focus, size
/// and settings stay.
pub open spec fn is_taken_over(
    before: DiffComponent,
    path: Seq<char>,
    is_stage: bool,
    diff: FileDiff,
    hash: u64,
    rows: Seq<SplitRow>,
    after: DiffComponent,
) -> bool {
    let same = before.current.path@ == path;
    let start = match before.selection {
        Selection::Single(row) => row as int,
        Selection::Multiple(row, _) => row as int,
    };
    let row = nearest(
        if same {
            start
        } else {
            0
        },
        last_row(after),
    );
    let n = before.requests@.len() as int;
    &&& after.wf()
    &&& after.diff == Some(diff)
    &&& after.current.path@ == path && after.current.is_stage == is_stage && after.current.hash
        == hash
    &&& !after.pending
    &&& after.split_rows@ == rows
    &&& after.syntax_highlight@.len() == 0
    &&& after.selection matches Selection::Single(at) && at == row
    &&& after.settings.split ==> after.selected_hunk is None
    &&& !after.settings.split ==> is_hunk_at(diff, row, after.selected_hunk)
    &&& after.settings == before.settings && after.focused == before.focused
        && after.current_size == before.current_size && after.is_immutable == before.is_immutable
    &&& !same ==> after.requests@.len() > n && after.requests@[n] is ResetVerticalScroll
    &&& starts_highlighting(
        after,
        if same {
            n
        } else {
            n + 1
        },
        diff,
        hash,
        path,
    )
}

proof fn lemma_taken_over(
    before: DiffComponent,
    path: String,
    is_stage: bool,
    diff: FileDiff,
    hash: u64,
    rows: Vec<SplitRow>,
    after: DiffComponent,
)
    requires
        before.updated(path, is_stage, diff, hash, after),
        call_ensures(build_split_rows, (&diff,), rows),
        before.wf(),
        diff.fits(),
        before.current.hash != hash,
    ensures
        is_taken_over(before, path@, is_stage, diff, hash, rows@, after),
{
    let same = before.current.path@ == path@;
    let n = before.requests@.len() as int;
    law_row_count(diff.types());
    assert(diff.hunks.len() <= usize::MAX);
    let row = nearest(
        if same {
            before.selection.start() as int
        } else {
            0
        },
        last_row(after),
    );
    lemma_hunk_at(diff, row);
    let views = request_views(after.requests@);
    assert(request_views(before.requests@).len() == n);
    assert(views.len() == after.requests@.len());
    let plain = DiffComponent { requests: before.requests, ..after };
    assert(plain.highlight_requests() == after.highlight_requests());
    if same {
        assert(views.skip(n) =~= after.highlight_requests());
        lemma_highlight_request(after, after, n);
    } else {
        assert(views[n] == after.requests@[n]@);
        assert(views.skip(n + 1) =~= after.highlight_requests());
        lemma_highlight_request(after, after, n + 1);
    }
}

/// A diff with another hash than the one that is shown is taken over.
pub proof fn law_another_diff_is_taken_over(
    c: &mut DiffComponent,
    path: String,
    is_stage: bool,
    diff: FileDiff,
    hash: u64,
    rows: Vec<SplitRow>,
)
    requires
        call_ensures(DiffComponent::update_hashed, (c, path, is_stage, diff, hash), ()),
        call_ensures(build_split_rows, (&diff,), rows),
        old(c).wf(),
        diff.fits(),
        old(c).current.hash != hash,
    ensures
        is_taken_over(*old(c), path@, is_stage, diff, hash, rows@, *final(c)),
{
    lemma_taken_over(*old(c), path, is_stage, diff, hash, rows, *final(c));
}

/// A diff is known by the hash of what it says: one that says the same as the one
/// that is shown only ends the wait, any other is taken over.
pub proof fn law_a_diff_is_known_by_what_it_says(
    c: &mut DiffComponent,
    path: String,
    is_stage: bool,
    diff: FileDiff,
    rows: Vec<SplitRow>,
)
    requires
        call_ensures(DiffComponent::update, (c, path, is_stage, diff), ()),
        call_ensures(build_split_rows, (&diff,), rows),
        old(c).wf(),
        diff.fits(),
    ensures
        old(c).current.hash == hash_of_diff(diff@) ==> *final(c) == (DiffComponent {
            pending: false,
            ..*old(c)
        }),
        old(c).current.hash != hash_of_diff(diff@) ==> is_taken_over(
            *old(c),
            path@,
            is_stage,
            diff,
            hash_of_diff(diff@),
            rows@,
            *final(c),
        ),
{
    if old(c).current.hash != hash_of_diff(diff@) {
        lemma_taken_over(*old(c), path, is_stage, diff, hash_of_diff(diff@), rows, *final(c));
    }
}

/// A new view shows nothing, is not focused, has asked for nothing, and has the
/// settings that it was given.
pub proof fn law_a_new_view_is_empty(settings: DiffSettings, is_immutable: bool, c: DiffComponent)
    requires
        call_ensures(DiffComponent::new, (settings, is_immutable), c),
    ensures
        c.diff is None && c.split_rows@.len() == 0 && c.syntax_highlight@.len() == 0
            && c.requests@.len() == 0,
        c.longest_line == 0 && c.longest_split_line == 0,
        c.selection == Selection::Single(0) && c.selected_hunk is None,
        c.current.path@.len() == 0 && !c.current.is_stage && c.current.hash == 0,
        !c.pending && !c.focused,
        c.settings == settings && c.is_immutable == is_immutable,
{
}

/// The diff that is shown already only ends the wait.
pub proof fn law_the_shown_diff_stays(
    c: &mut DiffComponent,
    path: String,
    is_stage: bool,
    diff: FileDiff,
    hash: u64,
)
    requires
        call_ensures(DiffComponent::update_hashed, (c, path, is_stage, diff, hash), ()),
        old(c).wf(),
        diff.fits(),
        old(c).current.hash == hash,
    ensures
        *final(c) == (DiffComponent { pending: false, ..*old(c) }),
{
}

/// Forgetting a diff leaves an empty view of no file, asks for both scroll
/// positions to be reset and for the highlighting to be cancelled, and keeps
/// focus, size and settings.
pub proof fn law_a_forgotten_diff_leaves_nothing(c: &mut DiffComponent, pending: bool)
    requires
        call_ensures(DiffComponent::clear, (c, pending), ()),
    ensures
        ({
            let n = old(c).requests@.len() as int;
            &&& final(c).diff is None && final(c).split_rows@.len() == 0 && final(c).syntax_highlight@.len() == 0
            &&& final(c).longest_line == 0 && final(c).longest_split_line == 0
            &&& final(c).selection == Selection::Single(0) && final(c).selected_hunk is None
            &&& final(c).current.path@.len() == 0 && !final(c).current.is_stage && final(c).current.hash == 0
            &&& final(c).pending == pending
            &&& final(c).settings == old(c).settings && final(c).focused == old(c).focused
                && final(c).current_size == old(c).current_size && final(c).is_immutable == old(c).is_immutable
            &&& final(c).requests@.len() == n + 3
            &&& final(c).requests@[n] is ResetVerticalScroll
            &&& final(c).requests@[n + 1] is ResetHorizontalScroll
            &&& final(c).requests@[n + 2] is CancelHighlight
        }),
{
    let n = old(c).requests@.len() as int;
    let views = request_views(final(c).requests@);
    assert(views.len() == final(c).requests@.len());
    assert(request_views(old(c).requests@).len() == n);
    assert(views[n] == final(c).requests@[n]@);
    assert(views[n + 1] == final(c).requests@[n + 1]@);
    assert(views[n + 2] == final(c).requests@[n + 2]@);
}

proof fn lemma_longest(lines: Seq<DiffLine>)
    ensures
        lines.len() == 0 ==> longest_of(lines) == 0,
        forall|i: int|
            0 <= i < lines.len() ==> byte_len(expand_tabs((#[trigger] lines[i]).content@)) + 1
                <= longest_of(lines),
        lines.len() > 0 ==> exists|i: int|
            0 <= i < lines.len() && byte_len(expand_tabs((#[trigger] lines[i]).content@)) + 1
                == longest_of(lines),
    decreases lines.len(),
{
    if lines.len() > 0 {
        let front = lines.drop_last();
        lemma_longest(front);
        assert forall|i: int| 0 <= i < lines.len() implies byte_len(
            expand_tabs((#[trigger] lines[i]).content@),
        ) + 1 <= longest_of(lines) by {
            if i < front.len() {
                assert(front[i] == lines[i]);
            }
        }
        let last = byte_len(expand_tabs(lines.last().content@)) + 1;
        if longest_of(lines) == last {
            assert(byte_len(expand_tabs(lines[lines.len() - 1].content@)) + 1 == longest_of(lines));
        } else {
            let i = choose|i: int|
                0 <= i < front.len() && byte_len(expand_tabs((#[trigger] front[i]).content@)) + 1
                    == longest_of(front);
            assert(lines[i] == front[i]);
        }
    }
}

/// The longest line is as long as the longest of all lines in bytes, with its
/// tabs expanded and the bar before it; a cell of the split view has no bar.
pub proof fn law_no_line_is_longer_than_the_longest(c: DiffComponent)
    requires
        c.wf(),
        c.diff is Some,
    ensures
        ({
            let lines = c.diff->0.flat();
            &&& forall|i: int|
                0 <= i < lines.len() ==> encode_utf8(
                    expand_tabs((#[trigger] lines[i]).content@),
                ).len() < c.longest_line
            &&& lines.len() > 0 ==> exists|i: int|
                0 <= i < lines.len() && encode_utf8(expand_tabs((#[trigger] lines[i]).content@)).len()
                    + 1 == c.longest_line && encode_utf8(expand_tabs(lines[i].content@)).len()
                    == c.longest_split_line
            &&& lines.len() == 0 ==> c.longest_line == 0 && c.longest_split_line == 0
        }),
{
    let lines = c.diff->0.flat();
    lemma_longest(lines);
    assert forall|i: int| 0 <= i < lines.len() implies encode_utf8(
        expand_tabs((#[trigger] lines[i]).content@),
    ).len() < c.longest_line by {
        lemma_byte_len_encoding(expand_tabs(lines[i].content@));
    }
    if lines.len() > 0 {
        let i = choose|i: int|
            0 <= i < lines.len() && byte_len(expand_tabs((#[trigger] lines[i]).content@)) + 1
                == longest_of(lines);
        lemma_byte_len_encoding(expand_tabs(lines[i].content@));
        assert(encode_utf8(expand_tabs(lines[i].content@)).len() + 1 == c.longest_line);
    }
}

/// The view can be scrolled to the right as far as the longest line reaches
/// beyond it, and not at all where all lines fit.
pub proof fn law_scrolling_reaches_the_longest_line(
    c: DiffComponent,
    unified: usize,
    width: u16,
    split: usize,
)
    requires
        call_ensures(DiffComponent::max_scroll_right, (&c,), unified),
        call_ensures(DiffComponent::max_scroll_right_split, (&c, width), split),
    ensures
        c.longest_line <= c.current_size.0 ==> unified == 0,
        c.longest_line > c.current_size.0 ==> unified + c.current_size.0 == c.longest_line,
        c.longest_split_line <= width ==> split == 0,
        c.longest_split_line > width ==> split + width == c.longest_split_line,
{
}

/// Highlights are taken where they belong to the diff that is shown, and
/// discarded where they come too late.
pub proof fn law_only_highlights_of_the_shown_diff_are_taken(
    c: &mut DiffComponent,
    r: Area,
    finished: Option<(u64, Vec<Option<LineHighlight>>)>,
    update: ScrollUpdate,
)
    requires
        call_ensures(DiffComponent::begin_draw, (c, r, finished), update),
    ensures
        finished matches Some((hash, result)) ==> {
            &&& hash == old(c).current.hash ==> final(c).syntax_highlight == result
            &&& hash != old(c).current.hash ==> final(c).syntax_highlight == old(c).syntax_highlight
        },
        finished is None ==> final(c).syntax_highlight == old(c).syntax_highlight,
        *final(c) == (DiffComponent {
            syntax_highlight: final(c).syntax_highlight,
            current_size: final(c).current_size,
            ..*old(c)
        }),
        r.width >= 2 ==> final(c).current_size.0 + 2 == r.width,
        r.width < 2 ==> final(c).current_size.0 == 0,
        r.height >= 2 ==> final(c).current_size.1 + 2 == r.height,
        r.height < 2 ==> final(c).current_size.1 == 0,
        update.height == final(c).current_size.1,
        update.selection == (match old(c).selection {
            Selection::Single(row) => row,
            Selection::Multiple(_, row) => row,
        }),
        old(c).settings.split ==> update.rows == old(c).split_rows@.len(),
        !old(c).settings.split && old(c).diff is Some ==> update.rows == old(c).diff->0.lines,
        !old(c).settings.split && old(c).diff is None ==> update.rows == 0,
{
    assert(old(c).split_rows.len() <= usize::MAX);
}

/// Starting the highlighting anew forgets the highlights and asks for it, and
/// changes nothing else.
pub proof fn law_highlighting_starts_anew(c: &mut DiffComponent)
    requires
        call_ensures(DiffComponent::spawn_highlight, (c,), ()),
    ensures
        final(c).syntax_highlight@.len() == 0,
        *final(c) == (DiffComponent {
            syntax_highlight: final(c).syntax_highlight,
            requests: final(c).requests,
            ..*old(c)
        }),
        old(c).diff is Some ==> starts_highlighting(
            *final(c),
            old(c).requests@.len() as int,
            old(c).diff->0,
            old(c).current.hash,
            old(c).current.path@,
        ),
{
    let n = old(c).requests@.len() as int;
    let views = request_views(final(c).requests@);
    assert(views.len() == final(c).requests@.len());
    assert(request_views(old(c).requests@).len() == n);
    if old(c).diff is Some {
        assert(old(c).highlight_requests() == final(c).highlight_requests());
        assert(views.skip(n) =~= final(c).highlight_requests());
        lemma_highlight_request(*final(c), *final(c), n);
    }
}

/// Switching the highlighting off forgets the highlights and cancels what is
/// under way; switching it on starts it where there are none yet; another style
/// of it keeps them and asks for nothing.
pub proof fn law_a_style_keeps_or_drops_the_highlights(c: &mut DiffComponent, style: HighlightStyle)
    requires
        call_ensures(DiffComponent::set_highlight_style, (c, style), ()),
        old(c).wf(),
    ensures
        *final(c) == (DiffComponent {
            settings: DiffSettings { style, ..old(c).settings },
            syntax_highlight: final(c).syntax_highlight,
            requests: final(c).requests,
            ..*old(c)
        }),
        !style.on ==> final(c).syntax_highlight@.len() == 0 && final(c).requests@.len() == old(c).requests@.len() + 1 && final(c).requests@.last() is CancelHighlight,
        style.on && old(c).syntax_highlight@.len() > 0 ==> final(c).syntax_highlight == old(c).syntax_highlight && final(c).requests == old(c).requests,
        style.on && old(c).syntax_highlight@.len() == 0 ==> final(c).syntax_highlight@.len() == 0,
        style.on && old(c).syntax_highlight@.len() == 0 && old(c).diff is None ==> final(c).requests@.len() == old(c).requests@.len(),
        style.on && old(c).syntax_highlight@.len() == 0 && old(c).diff is Some
            ==> starts_highlighting(
            *final(c),
            old(c).requests@.len() as int,
            old(c).diff->0,
            old(c).current.hash,
            old(c).current.path@,
        ),
{
    let n = old(c).requests@.len() as int;
    let views = request_views(final(c).requests@);
    assert(views.len() == final(c).requests@.len());
    assert(request_views(old(c).requests@).len() == n);
    if !style.on {
        assert(views[n] == final(c).requests@[n]@);
    } else if old(c).syntax_highlight@.len() == 0 && old(c).diff is Some {
        assert(views.skip(n) =~= final(c).highlight_requests());
        lemma_highlight_request(*final(c), *final(c), n);
    }
}

} // verus!
