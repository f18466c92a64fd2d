use gitui::area::Area;
use gitui::diff::DiffLineType::{Add, Context, Delete, Header};
use gitui::diff::{DiffLine, DiffLinePosition, DiffLineType, FileDiff, Hunk};
use gitui::diff_actions::{DiffCommand, DiffCommandInfo, DiffKeys};
use gitui::diff_component::{DiffComponent, DiffRequest, DiffSettings, HighlightStyle};
use gitui::event::{CommandBlocking, EventState};
use gitui::diff_view::{HunkLineFlags, SplitLayout};
use gitui::render::{Paint, SpanStyle, TextLine, Token};
use gitui::selection::{ScrollType, Selection};

const OFF: HighlightStyle =
    HighlightStyle { on: false, color_gutter: false, shows_sign: false, shows_tint: false };
const TINT: HighlightStyle =
    HighlightStyle { on: true, color_gutter: true, shows_sign: false, shows_tint: true };
const SIGN: HighlightStyle =
    HighlightStyle { on: true, color_gutter: false, shows_sign: true, shows_tint: false };

fn settings(split: bool, style: HighlightStyle) -> DiffSettings {
    DiffSettings { split, style, line_break: "¶".to_string() }
}

fn at(old_lineno: Option<u32>, new_lineno: Option<u32>) -> DiffLinePosition {
    DiffLinePosition { old_lineno, new_lineno }
}

fn diff_line(content: &str, t: DiffLineType) -> DiffLine {
    DiffLine { content: content.to_string(), line_type: t, position: at(None, None) }
}

/// A diff of one hunk per list of line types; the lines are numbered through.
fn file_diff(hunks: &[&[DiffLineType]]) -> FileDiff {
    let mut n = 0;
    let mut list: Vec<Hunk> = Vec::new();
    for (h, types) in hunks.iter().enumerate() {
        let mut lines: Vec<DiffLine> = Vec::new();
        for &t in types.iter() {
            let mut line = diff_line(&format!("line{n}\n"), t);
            line.position = at(Some(n), Some(n + 100));
            lines.push(line);
            n += 1;
        }
        list.push(Hunk { header_hash: 40 + h as u64, lines });
    }
    FileDiff {
        hunks: list,
        lines: n as usize,
        untracked: false,
        sizes: (0, 0),
        size_delta: 0,
    }
}

/// Two hunks of three lines each.
fn two_hunks() -> FileDiff {
    file_diff(&[&[Header, Delete, Add], &[Header, Context, Add]])
}

fn component(split: bool, diff: FileDiff) -> DiffComponent {
    let mut component = DiffComponent::new(settings(split, OFF), false);
    component.focus(true);
    component.update("file.rs".to_string(), false, diff);
    component.take_requests();
    component
}

fn press(component: &mut DiffComponent, keys: DiffKeys) -> EventState {
    component.event(Some(&keys))
}

fn no_flags() -> HunkLineFlags {
    HunkLineFlags { selected_hunk: false, end_of_hunk: false }
}

fn text_of(line: &TextLine) -> String {
    line.spans.iter().map(|s| s.text.as_str()).collect()
}

#[test]
fn test_line_break() {
    let diff_line = diff_line("", Add);

    {
        let diff = DiffComponent::new(settings(false, TINT), false);
        let line = diff.get_line_to_add(4, &diff_line, false, no_flags(), 0, &None);
        let last = line.spans.last().unwrap();
        assert_eq!(last.text, "¶\n");
        assert_eq!(last.style, SpanStyle::Base(Paint::DiffLine(diff_line.line_type, false)));
    }

    {
        let custom =
            DiffSettings { split: false, style: TINT, line_break: "+".to_string() };
        let diff = DiffComponent::new(custom, false);
        let line = diff.get_line_to_add(4, &diff_line, false, no_flags(), 0, &None);
        let last = line.spans.last().unwrap();
        assert_eq!(last.text, "+\n");
        assert_eq!(last.style, SpanStyle::Base(Paint::DiffLine(diff_line.line_type, false)));
    }
}

#[test]
fn diff_component_opens_editor_for_current_file() {
    let mut diff = DiffComponent::new(settings(false, TINT), false);

    diff.focus(true);
    diff.current.path = String::from("src/main.rs");

    let keys = DiffKeys { edit_file: true, ..DiffKeys::default() };
    assert!(matches!(diff.event(Some(&keys)), EventState::Consumed));

    let requests = diff.take_requests();
    assert!(matches!(
        requests.first(),
        Some(DiffRequest::OpenExternalEditor(path)) if path == "src/main.rs"
    ));
}

#[test]
fn test_split_draw_does_not_panic() {
    let mut diff = DiffComponent::new(settings(true, OFF), true);
    diff.focus(true);
    diff.update(
        "file.rs".to_string(),
        false,
        file_diff(&[&[Header, Context, Delete, Add, Context]]),
    );
    assert!(diff.uses_split());

    // wide enough: renders the two columns + divider
    let wide = Area { x: 0, y: 0, width: 100, height: 40 };
    let update = diff.begin_draw(wide, None);
    assert_eq!((update.selection, update.rows, update.height), (0, 4, 38));
    match DiffComponent::split_layout(wide) {
        SplitLayout::Wide(inner, columns) => {
            assert_eq!(inner, Area { x: 1, y: 1, width: 98, height: 38 });
            assert_eq!(columns.divider.width, 1);
            assert!(columns.left.width.abs_diff(columns.right.width) <= 1);
            assert_eq!(columns.left.width + columns.right.width, 97);
            let drawn = diff.draw_split(inner, &columns, 0, 0);
            assert_eq!(drawn.left.len(), 4);
            assert_eq!(drawn.right.len(), 4);
            assert_eq!(drawn.divider.len(), 38);
            assert!(drawn.vertical_bar);
            assert!(!drawn.horizontal_bar);
        }
        SplitLayout::TooNarrow => panic!("wide enough"),
    }

    // too narrow: falls back to the hint — must also not panic
    let narrow = Area { x: 0, y: 0, width: 20, height: 40 };
    diff.begin_draw(narrow, None);
    assert_eq!(DiffComponent::split_layout(narrow), SplitLayout::TooNarrow);
    let hint = DiffComponent::narrow_hint();
    assert_eq!(hint.len(), 1);
    assert_eq!(text_of(&hint[0]), "terminal too narrow for split view");
}

#[test]
fn the_least_width_of_the_split_view_is_forty_eight_inner_columns() {
    let area = |width: u16| Area { x: 0, y: 0, width, height: 10 };
    assert_eq!(DiffComponent::split_layout(area(49)), SplitLayout::TooNarrow);
    assert!(matches!(DiffComponent::split_layout(area(50)), SplitLayout::Wide(_, _)));
}

#[test]
fn columns_lie_within_the_frame() {
    for (x, width) in [(0, 50), (7, 81), (1000, 200), (65_400, 135), (65_500, 500)] {
        let r = Area { x, y: 3, width, height: 9 };
        match DiffComponent::split_layout(r) {
            SplitLayout::Wide(inner, columns) => {
                let right = inner.x.saturating_add(inner.width);
                for c in [columns.left, columns.divider, columns.right] {
                    assert_eq!((c.y, c.height), (4, 7));
                    assert!(inner.x <= c.x);
                    assert!(u32::from(c.x) + u32::from(c.width) <= u32::from(right));
                }
                assert_eq!((columns.left.x, columns.left.width), (inner.x, (right - inner.x) / 2));
                assert_eq!(columns.left.x + columns.left.width, columns.divider.x);
                assert_eq!(columns.divider.width, 1);
                assert_eq!(columns.divider.x + 1, columns.right.x);
                assert_eq!(columns.right.x + columns.right.width, right);
            }
            SplitLayout::TooNarrow => panic!("wide enough"),
        }
    }
}

#[test]
fn layouts_of_every_width_stand_side_by_side() {
    let fill = ratatui::layout::Constraint::Fill(1);
    let line = ratatui::layout::Constraint::Length(1);
    let layout = ratatui::layout::Layout::horizontal([fill, line, fill]);
    let starts = [0u16, 1, 3, 99, 32_767, 65_300, 65_530, 65_534, 65_535];
    for x in starts {
        for width in (0u16..260).chain([1_001, 4_096, 20_000, 32_768, 65_534, 65_535]) {
            let rect = ratatui::layout::Rect { x, y: 2, width, height: 5 };
            let [l, d, r] = layout.areas(rect);
            let end = |c: ratatui::layout::Rect| u32::from(c.x) + u32::from(c.width);
            let room = rect.right() - x;
            assert_eq!((l.x, l.width), (x, room / 2), "{x} {width}");
            assert_eq!(d.width, u16::from(room > 0), "{x} {width}");
            assert_eq!(end(l), u32::from(d.x));
            assert_eq!(end(d), u32::from(r.x));
            assert_eq!(end(r), u32::from(rect.right()));
            assert!([l, d, r].iter().all(|c| (c.y, c.height) == (2, 5)));
        }
    }
}

#[test]
fn borders_never_leave_the_area() {
    let tiny = Area { x: 5, y: 6, width: 0, height: 1 };
    assert_eq!(DiffComponent::split_layout(tiny), SplitLayout::TooNarrow);
}

#[test]
fn pending_and_binary_diffs_are_unified() {
    let mut diff = component(true, two_hunks());
    assert!(diff.uses_split());
    diff.clear(true);
    assert!(!diff.uses_split());
    diff.update("b.png".to_string(), false, file_diff(&[]));
    assert!(!diff.uses_split());
}

#[test]
fn a_pending_diff_shows_that_it_loads() {
    let mut diff = DiffComponent::new(settings(false, OFF), false);
    diff.clear(true);
    let drawn = diff.draw_unified(80, "Loading ...", 0, 0);
    assert_eq!(drawn.lines.len(), 1);
    assert_eq!(text_of(&drawn.lines[0]), "Loading ...");
    assert!(!drawn.vertical_bar && !drawn.horizontal_bar);
}

#[test]
fn a_missing_diff_shows_nothing() {
    let diff = DiffComponent::new(settings(false, OFF), false);
    assert!(diff.get_text(80, 10, 0, 0).is_empty());
    let (left, right) = diff.get_split_text(40, 40, 10, 0, 0);
    assert!(left.is_empty() && right.is_empty());
}

#[test]
fn a_binary_diff_shows_its_sizes() {
    let mut diff = file_diff(&[]);
    diff.sizes = (512, 2048);
    diff.size_delta = 1536;
    let shown = component(false, diff);
    let lines = shown.get_text(80, 10, 0, 0);
    assert_eq!(lines.len(), 1);
    assert_eq!(text_of(&lines[0]), "size: 512 B -> 2.0 KiB (+1.5 KiB)");
    assert_eq!(
        lines[0].spans[5].style,
        SpanStyle::Base(Paint::DiffLine(Add, false))
    );

    let mut shrunk = file_diff(&[]);
    shrunk.sizes = (u64::MAX, 0);
    shrunk.size_delta = i64::MIN;
    let lines = component(false, shrunk).get_text(80, 10, 0, 0);
    assert_eq!(text_of(&lines[0]), "size: 16.0 EiB -> 0 B (-8.0 EiB)");
    assert_eq!(
        lines[0].spans[5].style,
        SpanStyle::Base(Paint::DiffLine(Delete, false))
    );
}

#[test]
fn the_unified_view_draws_bars_and_lines() {
    let diff = component(false, two_hunks());
    let lines = diff.get_text(10, 20, 0, 0);
    let texts: Vec<String> = lines.iter().map(text_of).collect();
    assert_eq!(
        texts,
        vec![
            format!("{}line0\n    \n", ratatui::symbols::line::TOP_LEFT),
            format!("{}line1\n\n", ratatui::symbols::line::VERTICAL),
            format!("{}line2\n\n", ratatui::symbols::line::BOTTOM_LEFT),
            format!("{}line3\n\n", ratatui::symbols::line::TOP_LEFT),
            format!("{}line4\n\n", ratatui::symbols::line::VERTICAL),
            format!("{}line5\n\n", ratatui::symbols::line::BOTTOM_LEFT),
        ]
    );
    assert_eq!(lines[0].spans[0].style, SpanStyle::Base(Paint::HunkMarker(true)));
    assert_eq!(lines[3].spans[0].style, SpanStyle::Base(Paint::HunkMarker(false)));
    assert_eq!(lines[0].spans[1].style, SpanStyle::Base(Paint::DiffLine(Header, true)));
}

#[test]
fn the_window_shows_one_line_more_unless_it_starts_a_hunk() {
    let diff = component(false, two_hunks());
    let shown = |height: u16, top: usize| diff.get_text(10, height, top, 0).len();
    assert_eq!(shown(0, 0), 0);
    // line 3 starts a hunk
    assert_eq!(shown(3, 0), 3);
    assert_eq!(shown(2, 1), 2);
    assert_eq!(shown(2, 0), 3);
    assert_eq!(shown(2, 3), 3);
    assert_eq!(shown(9, 4), 2);
    assert_eq!(shown(3, 6), 0);
}

#[test]
fn highlighted_lines_get_signs_and_fill() {
    let mut diff = DiffComponent::new(settings(false, SIGN), false);
    let tokens = Some(vec![Token { start: 0, end: 3, style: 9 }]);
    let bg = Paint::HighlightBg(true);
    let line = diff.get_line_to_add(8, &diff_line("let x", Add), true, no_flags(), 0, &tokens);
    let spans: Vec<(&str, SpanStyle)> =
        line.spans.iter().map(|s| (s.text.as_str(), s.style)).collect();
    assert_eq!(
        spans,
        vec![
            ("│", SpanStyle::Base(Paint::HunkMarker(false))),
            ("+", SpanStyle::Base(Paint::DiffLine(Add, false))),
            ("let", SpanStyle::Token(9, bg)),
            (" x", SpanStyle::Base(bg)),
            ("   \n", SpanStyle::Base(bg)),
        ]
    );

    // a tinted row is filled though it is not selected; a wide character
    // takes two columns
    diff.settings.style = TINT;
    let line = diff.get_line_to_add(8, &diff_line("日 x", Delete), false, no_flags(), 0, &tokens);
    assert_eq!(line.spans[0].style, SpanStyle::Base(Paint::DiffLine(Delete, false)));
    let tint = Paint::Tint(Delete, false);
    assert_eq!(line.spans.last().unwrap().text, "    \n");
    assert_eq!(line.spans.last().unwrap().style, SpanStyle::Base(tint));

    // context is not tinted, and headers are never highlighted
    let line = diff.get_line_to_add(8, &diff_line("abc", Context), false, no_flags(), 0, &tokens);
    assert_eq!(line.spans.last().unwrap().text, "\n");
    assert_eq!(line.spans.last().unwrap().style, SpanStyle::Base(Paint::Plain));
    let line = diff.get_line_to_add(8, &diff_line("@@", Header), false, no_flags(), 0, &tokens);
    assert_eq!(line.spans.len(), 2);
}

#[test]
fn scrolled_lines_lose_their_beginning() {
    let diff = DiffComponent::new(settings(false, OFF), false);
    let line = diff.get_line_to_add(4, &diff_line("\tabc", Add), false, no_flags(), 3, &None);
    assert_eq!(line.spans[1].text, "bc\n");
}

#[test]
fn split_cells_are_filled_to_their_column() {
    let mut diff = component(true, file_diff(&[&[Delete, Add, Add]]));
    diff.settings.style = TINT;
    let (left, right) = diff.get_split_text(9, 8, 10, 0, 0);
    assert_eq!(left.len(), 2);
    assert_eq!(right.len(), 2);
    // the line feed at the end of a line takes one column
    assert_eq!(text_of(&left[0]), "line0\n   ");
    assert_eq!(text_of(&right[0]), "line1\n  ");
    assert_eq!(text_of(&left[1]), " ".repeat(9));
    assert_eq!(left[1].spans[0].style, SpanStyle::Base(Paint::HighlightBg(false)));
    assert_eq!(left[0].spans[1].style, SpanStyle::Base(Paint::HighlightBg(true)));
    assert_eq!(right[1].spans[1].style, SpanStyle::Base(Paint::Tint(Add, false)));
    let (left, _) = diff.get_split_text(9, 8, 10, 1, 0);
    assert_eq!(left.len(), 1);
    let (left, _) = diff.get_split_text(9, 8, 10, 5, 0);
    assert!(left.is_empty());
}

#[test]
fn updates_keep_the_row_of_the_same_file() {
    let mut diff = DiffComponent::new(settings(false, TINT), false);
    diff.update_hashed("a".to_string(), false, two_hunks(), 1);
    assert_eq!(diff.longest_line, "line0\n".len() + 1);
    assert_eq!(diff.longest_split_line, "line0\n".len());
    assert!(matches!(
        diff.take_requests().as_slice(),
        [DiffRequest::ResetVerticalScroll, DiffRequest::SpawnHighlight { hash: 1, input, path }]
            if input.len() == 6 && path == "a"
    ));
    diff.move_selection(ScrollType::End);
    assert_eq!(diff.selection, Selection::Single(5));
    assert_eq!(diff.selected_hunk, Some(1));
    // the same diff again changes nothing
    diff.pending = true;
    diff.update_hashed("b".to_string(), true, file_diff(&[]), 1);
    assert!(!diff.pending);
    assert_eq!(diff.current(), ("a".to_string(), false));
    assert!(diff.take_requests().is_empty());
    // another diff of the same file keeps the row, as far as it is there
    diff.update_hashed("a".to_string(), false, file_diff(&[&[Header, Add]]), 2);
    assert_eq!(diff.selection, Selection::Single(1));
    assert_eq!(diff.selected_hunk, Some(0));
    assert!(matches!(
        diff.take_requests().as_slice(),
        [DiffRequest::SpawnHighlight { hash: 2, .. }]
    ));
    // another file starts at the top
    diff.update_hashed("b".to_string(), false, two_hunks(), 3);
    assert_eq!(diff.selection, Selection::Single(0));
}

#[test]
fn equal_diffs_have_one_hash() {
    let mut diff = DiffComponent::new(settings(false, OFF), false);
    diff.update("a".to_string(), false, two_hunks());
    let hash = diff.current.hash;
    assert_ne!(hash, 0);
    diff.take_requests();
    diff.update("b".to_string(), false, two_hunks());
    assert_eq!(diff.current(), ("a".to_string(), false));
    assert!(diff.take_requests().is_empty());
    diff.update("b".to_string(), true, file_diff(&[&[Header]]));
    assert_ne!(diff.current.hash, hash);
    assert_eq!(diff.current(), ("b".to_string(), true));
}

#[test]
fn stale_highlights_are_discarded() {
    let mut diff = DiffComponent::new(settings(false, TINT), false);
    diff.update_hashed("a".to_string(), false, two_hunks(), 5);
    diff.poll_highlight(Some((4, vec![None])));
    assert!(diff.syntax_highlight.is_empty());
    diff.poll_highlight(Some((5, vec![None, None])));
    assert_eq!(diff.syntax_highlight.len(), 2);
    diff.poll_highlight(None);
    assert_eq!(diff.syntax_highlight.len(), 2);
}

#[test]
fn long_and_binary_diffs_are_not_highlighted() {
    let mut diff = DiffComponent::new(settings(false, TINT), false);
    let mut long = two_hunks();
    long.lines = 10_001;
    diff.update_hashed("a".to_string(), false, long, 1);
    assert!(matches!(diff.take_requests().as_slice(), [DiffRequest::ResetVerticalScroll]));
    let mut fits = two_hunks();
    fits.lines = 10_000;
    diff.update_hashed("a".to_string(), false, fits, 2);
    assert!(matches!(diff.take_requests().as_slice(), [DiffRequest::SpawnHighlight { .. }]));
    diff.update_hashed("a".to_string(), false, file_diff(&[]), 3);
    assert!(diff.take_requests().is_empty());
}

#[test]
fn switching_the_style_off_cancels_and_on_spawns() {
    let mut diff = component(false, two_hunks());
    assert_eq!(
        press(&mut diff, DiffKeys { diff_toggle_syntax: true, ..DiffKeys::default() }),
        EventState::Consumed
    );
    assert!(matches!(diff.take_requests().as_slice(), [DiffRequest::CycleHighlightStyle]));
    diff.set_highlight_style(TINT);
    assert!(matches!(diff.take_requests().as_slice(), [DiffRequest::SpawnHighlight { .. }]));
    let hash = diff.current.hash;
    diff.poll_highlight(Some((hash, vec![None])));
    diff.set_highlight_style(SIGN);
    assert!(diff.take_requests().is_empty());
    assert_eq!(diff.syntax_highlight.len(), 1);
    diff.set_highlight_style(OFF);
    assert!(matches!(diff.take_requests().as_slice(), [DiffRequest::CancelHighlight]));
    assert!(diff.syntax_highlight.is_empty());
}

#[test]
fn moving_stays_in_the_diff() {
    let mut diff = component(false, two_hunks());
    diff.current_size = (80, 4);
    let key = DiffKeys::default();
    let mut go = |keys: DiffKeys, expected: usize| {
        assert_eq!(press(&mut diff, keys), EventState::Consumed);
        assert_eq!(diff.selection, Selection::Single(expected));
        assert_eq!(diff.selected_hunk, Some(expected / 3));
    };
    go(DiffKeys { move_up: true, ..key }, 0);
    go(DiffKeys { move_down: true, ..key }, 1);
    go(DiffKeys { page_down: true, ..key }, 4);
    go(DiffKeys { page_down: true, ..key }, 5);
    go(DiffKeys { page_up: true, ..key }, 2);
    go(DiffKeys { end: true, ..key }, 5);
    go(DiffKeys { home: true, ..key }, 0);
}

#[test]
fn shift_selects_several_lines() {
    let mut diff = component(false, two_hunks());
    let key = DiffKeys::default();
    press(&mut diff, DiffKeys { shift_down: true, ..key });
    press(&mut diff, DiffKeys { shift_down: true, ..key });
    assert_eq!(diff.selection, Selection::Multiple(0, 2));
    press(&mut diff, DiffKeys { shift_up: true, ..key });
    assert_eq!(diff.selection, Selection::Multiple(0, 1));
    // a move starts from the last selected line
    press(&mut diff, DiffKeys { move_down: true, ..key });
    assert_eq!(diff.selection, Selection::Single(2));
}

#[test]
fn hunks_are_jumped_between_in_the_unified_view() {
    let mut diff = component(false, two_hunks());
    diff.current_size = (80, 7);
    let next = DiffKeys { diff_hunk_next: true, ..DiffKeys::default() };
    let prev = DiffKeys { diff_hunk_prev: true, ..DiffKeys::default() };
    press(&mut diff, next);
    assert_eq!((diff.selection, diff.selected_hunk), (Selection::Single(3), Some(1)));
    assert!(matches!(
        diff.take_requests().as_slice(),
        [DiffRequest::MoveAreaToVisible { height: 7, start: 3, end: 6 }]
    ));
    // there is no further hunk
    press(&mut diff, next);
    assert_eq!(diff.selected_hunk, Some(1));
    assert!(diff.take_requests().is_empty());
    press(&mut diff, prev);
    assert_eq!((diff.selection, diff.selected_hunk), (Selection::Single(0), Some(0)));
    assert_eq!(diff.calc_hunk_move_target(isize::MIN), Some(0));
    assert_eq!(diff.calc_hunk_move_target(isize::MAX), Some(1));

    let mut split = component(true, two_hunks());
    assert_eq!(press(&mut split, next), EventState::NotConsumed);
    assert_eq!(split.selection, Selection::Single(0));
    assert_eq!(split.selected_hunk, None);
}

#[test]
fn staging_asks_for_the_selected_hunk() {
    let stage = DiffKeys { stage_unstage_item: true, ..DiffKeys::default() };
    let mut diff = component(false, two_hunks());
    diff.move_selection(ScrollType::End);
    press(&mut diff, stage);
    assert!(matches!(
        diff.take_requests().as_slice(),
        [DiffRequest::StageHunk { path, hash: 41 }] if path == "file.rs"
    ));
    diff.current.is_stage = true;
    press(&mut diff, stage);
    assert!(matches!(
        diff.take_requests().as_slice(),
        [DiffRequest::UnstageHunk { path, hash: 41 }] if path == "file.rs"
    ));
    let mut untracked = two_hunks();
    untracked.untracked = true;
    let mut diff = component(false, untracked);
    press(&mut diff, stage);
    assert!(matches!(
        diff.take_requests().as_slice(),
        [DiffRequest::StageFile { path }] if path == "file.rs"
    ));
    diff.hunk_staged(Ok(()));
    diff.hunk_staged(Err("no".to_string()));
    assert!(matches!(
        diff.take_requests().as_slice(),
        [DiffRequest::UpdateAll, DiffRequest::ShowErrorMsg(msg)] if msg == "hunk error:\nno"
    ));
}

#[test]
fn lines_are_staged_and_reverted_by_their_positions() {
    let mut diff = component(false, two_hunks());
    let key = DiffKeys::default();
    press(&mut diff, DiffKeys { shift_down: true, ..key });
    press(&mut diff, DiffKeys { shift_down: true, ..key });
    let expected = vec![at(Some(1), Some(101)), at(Some(2), Some(102))];
    assert_eq!(diff.selected_lines(), expected);
    press(&mut diff, DiffKeys { diff_stage_lines: true, ..key });
    press(&mut diff, DiffKeys { diff_reset_lines: true, ..key });
    assert!(matches!(
        diff.take_requests().as_slice(),
        [
            DiffRequest::StageLines { path, is_stage: false, lines },
            DiffRequest::ConfirmResetLines { path: reset, lines: reset_lines },
        ] if path == "file.rs" && *lines == expected && reset == "file.rs" && *reset_lines == expected
    ));
    diff.lines_staged(Err("no".to_string()));
    assert!(matches!(
        diff.take_requests().as_slice(),
        [DiffRequest::ShowErrorMsg(msg), DiffRequest::UpdateAll] if msg == "(un)stage lines:\nno"
    ));
    diff.lines_staged(Ok(()));
    assert!(matches!(diff.take_requests().as_slice(), [DiffRequest::UpdateAll]));
}

#[test]
fn lines_of_an_untracked_file_are_left_alone() {
    let mut untracked = two_hunks();
    untracked.untracked = true;
    let mut diff = component(false, untracked);
    let key = DiffKeys::default();
    press(&mut diff, DiffKeys { diff_stage_lines: true, ..key });
    press(&mut diff, DiffKeys { diff_reset_lines: true, ..key });
    assert!(diff.take_requests().is_empty());
    press(&mut diff, DiffKeys { status_reset_item: true, ..key });
    assert!(matches!(
        diff.take_requests().as_slice(),
        [DiffRequest::ConfirmReset { path }] if path == "file.rs"
    ));
}

#[test]
fn reverting_asks_for_the_hunk_and_never_for_the_stage() {
    let reset = DiffKeys { status_reset_item: true, ..DiffKeys::default() };
    let mut diff = component(false, two_hunks());
    press(&mut diff, reset);
    assert!(matches!(
        diff.take_requests().as_slice(),
        [DiffRequest::ConfirmResetHunk { path, hash: 40 }] if path == "file.rs"
    ));
    diff.current.is_stage = true;
    assert_eq!(press(&mut diff, reset), EventState::NotConsumed);
    let lines = DiffKeys { diff_reset_lines: true, ..DiffKeys::default() };
    assert_eq!(press(&mut diff, lines), EventState::NotConsumed);
    assert!(diff.take_requests().is_empty());
}

#[test]
fn immutable_and_split_views_change_nothing() {
    let key = DiffKeys::default();
    let changing = [
        DiffKeys { stage_unstage_item: true, ..key },
        DiffKeys { status_reset_item: true, ..key },
        DiffKeys { diff_stage_lines: true, ..key },
        DiffKeys { diff_reset_lines: true, ..key },
    ];
    let mut immutable = component(false, two_hunks());
    immutable.is_immutable = true;
    let mut split = component(true, two_hunks());
    for keys in changing {
        assert_eq!(press(&mut immutable, keys), EventState::NotConsumed);
        assert_eq!(press(&mut split, keys), EventState::NotConsumed);
    }
    let edit = DiffKeys { edit_file: true, ..key };
    assert_eq!(press(&mut immutable, edit), EventState::NotConsumed);
    assert!(immutable.take_requests().is_empty());
    // editing is orthogonal to the view
    assert_eq!(press(&mut split, edit), EventState::Consumed);
    assert!(matches!(
        split.take_requests().as_slice(),
        [DiffRequest::OpenExternalEditor(path)] if path == "file.rs"
    ));
}

#[test]
fn without_focus_or_key_nothing_happens() {
    let mut diff = component(false, two_hunks());
    assert_eq!(diff.event(None), EventState::NotConsumed);
    assert_eq!(press(&mut diff, DiffKeys::default()), EventState::NotConsumed);
    diff.focus(false);
    let down = DiffKeys { move_down: true, ..DiffKeys::default() };
    assert_eq!(press(&mut diff, down), EventState::NotConsumed);
    assert_eq!(diff.selection, Selection::Single(0));
}

#[test]
fn copying_joins_the_selected_lines() {
    let copy = DiffKeys { copy: true, ..DiffKeys::default() };
    let mut diff = component(false, two_hunks());
    diff.selection = Selection::Multiple(3, 1);
    press(&mut diff, copy);
    assert!(matches!(
        diff.take_requests().as_slice(),
        [DiffRequest::CopyToClipboard(text)] if text == "line1\nline2\nline3"
    ));
    // rows of the split view: header, change, header, context, addition
    let mut split = component(true, two_hunks());
    split.selection = Selection::Multiple(0, 1);
    press(&mut split, copy);
    assert!(matches!(
        split.take_requests().as_slice(),
        [DiffRequest::CopyToClipboard(text)] if text == "line0\nline2"
    ));
    split.copy_failed("denied");
    assert!(matches!(
        split.take_requests().as_slice(),
        [DiffRequest::ShowErrorMsg(msg)] if msg == "copy to clipboard error:\ndenied"
    ));
    let mut empty = DiffComponent::new(settings(false, OFF), false);
    empty.copy_selection();
    assert!(empty.take_requests().is_empty());
}

#[test]
fn toggling_the_view_keeps_the_selection_in_view() {
    let toggle = DiffKeys { diff_toggle_split: true, ..DiffKeys::default() };
    let mut diff = component(false, two_hunks());
    diff.selection = Selection::Multiple(1, 5);
    press(&mut diff, toggle);
    assert!(diff.is_split());
    // five rows in the split view
    assert_eq!(diff.selection, Selection::Multiple(1, 4));
    assert_eq!(diff.selected_hunk, None);
    press(&mut diff, toggle);
    assert!(diff.is_unified());
    assert_eq!(diff.selection, Selection::Multiple(1, 4));
    assert_eq!(diff.selected_hunk, Some(1));
}

#[test]
fn horizontal_scrolling_is_left_to_the_application() {
    let mut diff = component(false, two_hunks());
    press(&mut diff, DiffKeys { move_right: true, ..DiffKeys::default() });
    press(&mut diff, DiffKeys { move_left: true, ..DiffKeys::default() });
    assert!(matches!(
        diff.take_requests().as_slice(),
        [DiffRequest::ScrollRight, DiffRequest::ScrollLeft]
    ));
    diff.current_size = (4, 4);
    assert_eq!(diff.max_scroll_right(), 3);
    assert_eq!(diff.max_scroll_right_split(4), 2);
    assert_eq!(diff.max_scroll_right_split(40), 0);
}

#[test]
fn clearing_forgets_everything() {
    let mut diff = component(false, two_hunks());
    diff.clear(true);
    assert!(diff.diff.is_none() && diff.pending);
    assert_eq!(diff.current(), (String::new(), false));
    assert_eq!(diff.row_count(), 0);
    assert!(matches!(
        diff.take_requests().as_slice(),
        [
            DiffRequest::ResetVerticalScroll,
            DiffRequest::ResetHorizontalScroll,
            DiffRequest::CancelHighlight,
        ]
    ));
    diff.move_selection(ScrollType::Down);
    assert_eq!(diff.selection, Selection::Single(0));
}

fn commands_of(diff: &DiffComponent) -> Vec<DiffCommandInfo> {
    let mut out = Vec::new();
    assert_eq!(diff.commands(&mut out, false), CommandBlocking::PassingOn);
    let shown = out.len();
    assert_eq!(diff.commands(&mut out, true), CommandBlocking::PassingOn);
    assert_eq!(out[..shown], out[shown..]);
    out.truncate(shown);
    out
}

#[test]
fn commands_follow_the_state() {
    let mut diff = component(false, two_hunks());
    let list = commands_of(&diff);
    let names: Vec<DiffCommand> = list.iter().map(|c| c.command).collect();
    assert_eq!(
        names,
        vec![
            DiffCommand::Scroll,
            DiffCommand::HunkNext,
            DiffCommand::HunkPrev,
            DiffCommand::HomeEnd,
            DiffCommand::EditItem,
            DiffCommand::HunkRemove,
            DiffCommand::HunkAdd,
            DiffCommand::HunkRevert,
            DiffCommand::LinesRevert,
            DiffCommand::LinesStage,
            DiffCommand::LinesUnstage,
            DiffCommand::Copy,
            DiffCommand::ToggleSyntax,
            DiffCommand::ToggleSplit(false),
        ]
    );
    assert!(list[1].enabled && list[1].available);
    assert!(!list[2].enabled);
    assert!(list[3].hidden && !list[0].hidden);
    assert!(!list[5].available && list[6].available);
    diff.is_immutable = true;
    assert_eq!(commands_of(&diff).len(), 7);
    diff.is_immutable = false;
    diff.settings.split = true;
    let split = commands_of(&diff);
    assert_eq!(split.len(), 8);
    assert!(!split[1].available);
    assert_eq!(split[7].command, DiffCommand::ToggleSplit(true));
    diff.focus(false);
    assert!(commands_of(&diff).iter().all(|c| !c.available));
}

#[test]
fn the_title_names_the_file() {
    assert_eq!(component(false, two_hunks()).title("Diff: "), "Diff: file.rs");
}
