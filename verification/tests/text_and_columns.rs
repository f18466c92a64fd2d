use gitui::columns::truncate_to_columns;
use gitui::render::{push_clipped_spans, Paint, Span, SpanStyle, Token};
use gitui::selection::{Direction, Selection};
use gitui::text::{
    len_in_bytes, pad, tabs_to_spaces, trim, trim_line_end, trim_line_ends, trim_offset,
};

#[test]
fn tabs_become_two_blanks() {
    assert_eq!(tabs_to_spaces("\ta\t\tb"), "  a    b");
    assert_eq!(tabs_to_spaces(""), "");
}

#[test]
fn trimming_removes_white_space_only_at_the_ends() {
    assert_eq!(trim(" \t a b\u{a0}\n"), "a b");
    assert_eq!(trim(" \n\t "), "");
    assert_eq!(trim_line_ends("\r\n a \n\r\n"), " a ");
    assert_eq!(trim_line_end("\na\r\n"), "\na");
}

#[test]
fn white_space_is_what_the_standard_library_trims() {
    for code in 0..0x11_0000u32 {
        if let Some(c) = char::from_u32(code) {
            let text = format!("{c}x{c}");
            assert_eq!(trim(&text), text.trim(), "{code:x}");
        }
    }
}

#[test]
fn padding_counts_characters() {
    assert_eq!(pad("äb", 5), "äb   ");
    assert_eq!(pad("abc", 2), "abc");
}

#[test]
fn bytes_are_those_of_the_encoding() {
    assert_eq!(len_in_bytes("aä€😀"), 10);
}

#[test]
fn scrolling_trims_from_the_left() {
    assert_eq!(trim_offset("abcdef", 2), "cdef");
    assert_eq!(trim_offset("abc", 9), "");
    assert_eq!(trim_offset("abc", 0), "abc");
}

#[test]
fn truncation_keeps_what_fits() {
    assert_eq!(truncate_to_columns("abcdef", 3), "abc");
    assert_eq!(truncate_to_columns("ab", 3), "ab");
    // wide characters take two columns each
    assert_eq!(truncate_to_columns("日本語", 5), "日本");
    assert_eq!(truncate_to_columns("日本語", 1), "");
    // a combining mark stays with its letter
    assert_eq!(truncate_to_columns("e\u{301}fg", 1), "e\u{301}");
}

#[test]
fn truncation_takes_texts_whose_columns_do_not_add_up() {
    let ligature = "\u{644}\u{627}/x";
    assert_eq!(truncate_to_columns(ligature, 2), "\u{644}\u{627}");
}

fn spans_of(tokens: &[(usize, usize)], content: &str, scrolled: usize) -> Vec<(String, SpanStyle)> {
    let segments: Vec<Token> = tokens
        .iter()
        .enumerate()
        .map(|(style, &(start, end))| Token { start, end, style })
        .collect();
    let mut spans: Vec<Span> = Vec::new();
    push_clipped_spans(&mut spans, &segments, content, scrolled, Paint::HighlightBg(false));
    spans.into_iter().map(|s| (s.text, s.style)).collect()
}

#[test]
fn tokens_are_clipped_to_the_visible_part() {
    let bg = Paint::HighlightBg(false);
    assert_eq!(
        spans_of(&[(0, 3), (4, 5)], "let x = 1", 1),
        vec![
            ("et".to_string(), SpanStyle::Token(0, bg)),
            (" ".to_string(), SpanStyle::Base(bg)),
            ("x".to_string(), SpanStyle::Token(1, bg)),
            (" = 1".to_string(), SpanStyle::Base(bg)),
        ]
    );
    // a token that is scrolled out leaves no span
    assert_eq!(
        spans_of(&[(0, 3), (4, 5)], "let x", 4),
        vec![("x".to_string(), SpanStyle::Token(1, bg))]
    );
}

#[test]
fn highlighting_keeps_the_text() {
    let content = "fn ä() { 1 }";
    for scrolled in 0..content.len() + 2 {
        let text: String = spans_of(&[(0, 2), (3, 5), (10, 11)], content, scrolled)
            .into_iter()
            .map(|(text, _)| text)
            .collect();
        assert_eq!(text, trim_offset(content, scrolled));
    }
}

#[test]
fn tokens_past_the_end_keep_the_text() {
    for tokens in [vec![(0, 2), (3, 99)], vec![(2, 3), (50, 60)], vec![(99, 99)]] {
        for scrolled in 0..8 {
            let text: String =
                spans_of(&tokens, "abcde", scrolled).into_iter().map(|(text, _)| text).collect();
            assert_eq!(text, trim_offset("abcde", scrolled));
        }
    }
}

#[test]
fn selections_cover_both_directions() {
    let down = Selection::Multiple(2, 5);
    let up = Selection::Multiple(5, 2);
    for i in 0..8 {
        assert_eq!(down.contains(i), (2..=5).contains(&i));
        assert_eq!(up.contains(i), (2..=5).contains(&i));
        assert_eq!(Selection::Single(3).contains(i), i == 3);
    }
    assert_eq!((up.get_top(), up.get_bottom()), (2, 5));
    assert_eq!((up.get_start(), up.get_end()), (5, 2));
}

#[test]
fn extending_down_and_up_is_undone() {
    let mut s = Selection::Multiple(1, 4);
    s.modify(Direction::Down, 10);
    assert_eq!(s, Selection::Multiple(1, 5));
    s.modify(Direction::Up, 10);
    assert_eq!(s, Selection::Multiple(1, 4));
    let mut end = Selection::Single(10);
    end.modify(Direction::Down, 10);
    assert_eq!(end, Selection::Multiple(10, 10));
    let mut top = Selection::Single(0);
    top.modify(Direction::Up, 10);
    assert_eq!(top, Selection::Multiple(0, 0));
}

#[test]
fn clamping_moves_both_ends() {
    assert_eq!(Selection::Multiple(2, 9).clamp_to(5), Selection::Multiple(2, 5));
    assert_eq!(Selection::Multiple(7, 9).clamp_to(5), Selection::Single(5));
    assert_eq!(Selection::Single(3).clamp_to(5), Selection::Single(3));
}
