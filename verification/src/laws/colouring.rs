//! The colours of a highlighted line.
#![allow(unused_imports)]
use vstd::prelude::*;

use crate::render::{
    clip_from, clipped_spans, is_boundary, is_cut, law_highlighting_keeps_the_text, line_text,
    push_clipped_spans, slice_span, span_views, visible_start, well_placed, Paint, Span,
    SpanStyle, SpanView, Token,
};
use crate::selection::{max, min};
use crate::text::{
    byte_len, byte_slice, hidden_chars, lemma_byte_len_take, lemma_byte_slice,
    lemma_hidden_chars, lemma_starts_char_unique, scrolled_text, starts_char,
};

verus! {

/// The style of each character that spans show.
pub open spec fn styles(spans: Seq<SpanView>) -> Seq<SpanStyle>
    decreases spans.len(),
{
    if spans.len() == 0 {
        Seq::empty()
    } else {
        styles(spans.drop_last()) + Seq::new(spans.last().text.len(), |i: int| spans.last().style)
    }
}

/// Whether token `k` reaches over character `p`.
pub open spec fn reaches_over(tokens: Seq<Token>, k: int, content: Seq<char>, p: int) -> bool {
    0 <= k < tokens.len() && tokens[k].start <= byte_len(content.take(p)) < tokens[k].end
}

/// Whether `style` is that of character `p`: that of the token that reaches over
/// it, over the background, or the background alone where none does.
pub open spec fn is_style_at(
    style: SpanStyle,
    tokens: Seq<Token>,
    content: Seq<char>,
    p: int,
    bg: Paint,
) -> bool {
    &&& forall|k: int| #[trigger]
        reaches_over(tokens, k, content, p) ==> style == SpanStyle::Token(tokens[k].style, bg)
    &&& (forall|k: int| !#[trigger] reaches_over(tokens, k, content, p)) ==> style
        == SpanStyle::Base(bg)
}

/// Whether `list` gives every character of `content` from `at` on its style.
pub open spec fn are_styles_of(
    list: Seq<SpanStyle>,
    tokens: Seq<Token>,
    content: Seq<char>,
    at: int,
    bg: Paint,
) -> bool {
    &&& list.len() == content.len() - at
    &&& forall|q: int|
        0 <= q < list.len() ==> is_style_at(#[trigger] list[q], tokens, content, at + q, bg)
}

/// A token that does not reach over a character has no say in its style.
proof fn lemma_style_without(
    style: SpanStyle,
    tokens: Seq<Token>,
    content: Seq<char>,
    p: int,
    bg: Paint,
)
    requires
        tokens.len() > 0,
        is_style_at(style, tokens.drop_first(), content, p, bg),
        !reaches_over(tokens, 0, content, p),
    ensures
        is_style_at(style, tokens, content, p, bg),
{
    let rest = tokens.drop_first();
    assert forall|k: int| #[trigger] reaches_over(tokens, k, content, p) implies style
        == SpanStyle::Token(tokens[k].style, bg) by {
        assert(rest[k - 1] == tokens[k]);
        assert(reaches_over(rest, k - 1, content, p));
    }
    if forall|k: int| !#[trigger] reaches_over(tokens, k, content, p) {
        assert forall|k: int| !#[trigger] reaches_over(rest, k, content, p) by {
            if reaches_over(rest, k, content, p) {
                assert(rest[k] == tokens[k + 1]);
                assert(reaches_over(tokens, k + 1, content, p));
            }
        }
    }
}

/// A character that the first of several tokens reaches over has its style.
proof fn lemma_style_of_first(tokens: Seq<Token>, content: Seq<char>, p: int, bg: Paint)
    requires
        well_placed(tokens, content),
        reaches_over(tokens, 0, content, p),
    ensures
        is_style_at(SpanStyle::Token(tokens[0].style, bg), tokens, content, p, bg),
{
    assert forall|k: int| #[trigger] reaches_over(tokens, k, content, p) implies k == 0 by {
        if k > 0 {
            assert(tokens[0].end <= tokens[k].start);
        }
    }
}

/// A character before all tokens is background.
proof fn lemma_style_before(tokens: Seq<Token>, content: Seq<char>, p: int, bg: Paint)
    requires
        tokens.len() > 0,
        well_placed(tokens, content),
        byte_len(content.take(p)) < tokens[0].start,
    ensures
        is_style_at(SpanStyle::Base(bg), tokens, content, p, bg),
{
    assert forall|k: int| !#[trigger] reaches_over(tokens, k, content, p) by {
        if 0 < k < tokens.len() {
            assert(tokens[0].end <= tokens[k].start);
            assert(tokens[0].start <= tokens[0].end);
        }
    }
}

proof fn lemma_styles_add(a: Seq<SpanView>, b: Seq<SpanView>)
    ensures
        styles(a + b) == styles(a) + styles(b),
    decreases b.len(),
{
    if b.len() == 0 {
        assert(a + b =~= a);
        assert(styles(a) + styles(b) =~= styles(a));
    } else {
        assert((a + b).drop_last() =~= a + b.drop_last());
        lemma_styles_add(a, b.drop_last());
        assert(styles(a + b) =~= styles(a) + styles(b));
    }
}

proof fn lemma_styles_of_one(span: SpanView)
    ensures
        styles(seq![span]) == Seq::new(span.text.len(), |i: int| span.style),
{
    assert(seq![span].drop_last() =~= Seq::<SpanView>::empty());
    assert(styles(seq![span].drop_last()) =~= Seq::<SpanStyle>::empty());
    assert(styles(seq![span]) =~= Seq::new(span.text.len(), |i: int| span.style));
}

proof fn lemma_bytes_in_order(content: Seq<char>, i: int, j: int)
    requires
        0 <= i <= content.len(),
        0 <= j <= content.len(),
    ensures
        i < j <==> byte_len(content.take(i)) < byte_len(content.take(j)),
        i == j <==> byte_len(content.take(i)) == byte_len(content.take(j)),
{
    if i <= j {
        lemma_byte_len_take(content, i, j);
    } else {
        lemma_byte_len_take(content, j, i);
    }
}

/// The styles of a slice from character `i` to character `j`.
proof fn lemma_slice_styles(
    content: Seq<char>,
    from: nat,
    to: nat,
    i: int,
    j: int,
    style: SpanStyle,
)
    requires
        starts_char(content, i, from),
        starts_char(content, j, to),
        from <= to,
    ensures
        i <= j,
        styles(slice_span(byte_slice(content, from, to), style)) == Seq::new(
            (j - i) as nat,
            |k: int| style,
        ),
{
    lemma_bytes_in_order(content, j, i);
    lemma_byte_slice(content, i, j, from, to);
    lemma_styles_of_one(SpanView { text: content.subrange(i, j), style });
    assert(styles(slice_span(byte_slice(content, from, to), style)) =~= Seq::new(
        (j - i) as nat,
        |k: int| style,
    ));
}

proof fn lemma_rest(tokens: Seq<Token>, content: Seq<char>)
    requires
        tokens.len() > 0,
        well_placed(tokens, content),
    ensures
        well_placed(tokens.drop_first(), content),
        forall|k: int| 0 < k < tokens.len() ==> tokens[0].end <= (#[trigger] tokens[k]).start,
        tokens[0].start <= tokens[0].end,
        is_cut(content, tokens[0].start as nat),
        is_boundary(content, min(tokens[0].end as int, byte_len(content) as int) as nat),
{
    let rest = tokens.drop_first();
    assert(content.take(content.len() as int) =~= content);
    assert(starts_char(content, content.len() as int, byte_len(content)));
    if is_boundary(content, tokens[0].end as nat) {
        let i = choose|i: int| #[trigger] starts_char(content, i, tokens[0].end as nat);
        lemma_byte_len_take(content, i, i);
    }
    assert forall|i: int| 0 <= i < rest.len() implies #[trigger] rest[i] == tokens[i + 1] by {}
    assert forall|i: int, j: int|
        #![trigger rest[i], rest[j]]
        0 <= i < j < rest.len() implies rest[i].end <= rest[j].start by {
        assert(rest[i] == tokens[i + 1]);
        assert(rest[j] == tokens[j + 1]);
    }
    assert forall|k: int| 0 < k < tokens.len() implies tokens[0].end <= (
    #[trigger] tokens[k]).start by {}
}

proof fn lemma_clip_styles(
    tokens: Seq<Token>,
    content: Seq<char>,
    start: nat,
    last: nat,
    bg: Paint,
    at: int,
)
    requires
        well_placed(tokens, content),
        start <= last,
        is_boundary(content, start),
        starts_char(content, at, last),
        last == start || tokens.len() == 0 || last <= tokens[0].start,
    ensures
        are_styles_of(styles(clip_from(tokens, content, start, last, bg)), tokens, content, at, bg),
    decreases tokens.len(),
{
    let len = byte_len(content);
    let end = content.len() as int;
    let spans = clip_from(tokens, content, start, last, bg);
    assert(content.take(end) =~= content);
    assert(starts_char(content, end, len));
    lemma_bytes_in_order(content, at, end);
    if tokens.len() == 0 {
        if last < len {
            lemma_slice_styles(content, last, len, at, end, SpanStyle::Base(bg));
        }
    } else {
        let t = tokens[0];
        let rest = tokens.drop_first();
        lemma_rest(tokens, content);
        let from = max(t.start as int, start as int) as nat;
        let to = min(t.end as int, len as int) as nat;
        if to <= from {
            lemma_clip_styles(rest, content, start, last, bg, at);
            let list = styles(spans);
            assert forall|q: int| 0 <= q < list.len() implies is_style_at(
                #[trigger] list[q],
                tokens,
                content,
                at + q,
                bg,
            ) by {
                lemma_bytes_in_order(content, at, at + q);
                lemma_bytes_in_order(content, at + q, end);
                lemma_style_without(list[q], tokens, content, at + q, bg);
            }
        } else {
            let j = choose|j: int| #[trigger] starts_char(content, j, to);
            let i = choose|i: int| #[trigger] starts_char(content, i, from);
            lemma_clip_styles(rest, content, start, to, bg, j);
            lemma_one_token(content, start, last, from, to, tokens, bg, at, i, j);
        }
    }
}

proof fn lemma_one_token(
    content: Seq<char>,
    start: nat,
    last: nat,
    from: nat,
    to: nat,
    tokens: Seq<Token>,
    bg: Paint,
    at: int,
    i: int,
    j: int,
)
    requires
        tokens.len() > 0,
        well_placed(tokens, content),
        start <= last,
        last == start || last <= tokens[0].start,
        from == max(tokens[0].start as int, start as int),
        to == min(tokens[0].end as int, byte_len(content) as int),
        from < to,
        starts_char(content, at, last),
        starts_char(content, i, from),
        starts_char(content, j, to),
        are_styles_of(
            styles(clip_from(tokens.drop_first(), content, start, to, bg)),
            tokens.drop_first(),
            content,
            j,
            bg,
        ),
    ensures
        are_styles_of(styles(clip_from(tokens, content, start, last, bg)), tokens, content, at, bg),
{
    let t = tokens[0];
    let rest = tokens.drop_first();
    let end = content.len() as int;
    lemma_rest(tokens, content);
    assert(content.take(end) =~= content);
    let tail = clip_from(rest, content, start, to, bg);
    let token = slice_span(byte_slice(content, from, to), SpanStyle::Token(t.style, bg));
    let gap = if from > last {
        slice_span(byte_slice(content, last, from), SpanStyle::Base(bg))
    } else {
        Seq::empty()
    };
    lemma_slice_styles(content, from, to, i, j, SpanStyle::Token(t.style, bg));
    if from > last {
        lemma_slice_styles(content, last, from, at, i, SpanStyle::Base(bg));
    } else {
        lemma_starts_char_unique(content, at, i, last);
    }
    assert(styles(gap) =~= Seq::new((i - at) as nat, |k: int| SpanStyle::Base(bg)));
    lemma_styles_add(gap + token, tail);
    lemma_styles_add(gap, token);
    let list = styles(gap + token + tail);
    assert(clip_from(tokens, content, start, last, bg) == gap + token + tail);
    assert(list == styles(gap) + styles(token) + styles(tail));
    lemma_bytes_in_order(content, i, j);
    lemma_three_parts(list, styles(tail), tokens, content, bg, at, i, j);
}

/// Background, then the first token, then what the others make of the rest.
proof fn lemma_three_parts(
    list: Seq<SpanStyle>,
    tail: Seq<SpanStyle>,
    tokens: Seq<Token>,
    content: Seq<char>,
    bg: Paint,
    at: int,
    i: int,
    j: int,
)
    requires
        tokens.len() > 0,
        well_placed(tokens, content),
        0 <= at <= i <= j <= content.len(),
        tokens[0].start <= byte_len(content.take(i)),
        at < i ==> tokens[0].start == byte_len(content.take(i)),
        byte_len(content.take(j)) == min(tokens[0].end as int, byte_len(content) as int),
        list == Seq::new((i - at) as nat, |k: int| SpanStyle::Base(bg)) + Seq::new(
            (j - i) as nat,
            |k: int| SpanStyle::Token(tokens[0].style, bg),
        ) + tail,
        are_styles_of(tail, tokens.drop_first(), content, j, bg),
    ensures
        are_styles_of(list, tokens, content, at, bg),
{
    let end = content.len() as int;
    assert(content.take(end) =~= content);
    assert forall|q: int| 0 <= q < list.len() implies is_style_at(
        #[trigger] list[q],
        tokens,
        content,
        at + q,
        bg,
    ) by {
        let p = at + q;
        lemma_bytes_in_order(content, p, i);
        lemma_bytes_in_order(content, p, j);
        lemma_bytes_in_order(content, p, end);
        if p < i {
            lemma_style_before(tokens, content, p, bg);
        } else if p < j {
            lemma_style_of_first(tokens, content, p, bg);
        } else {
            assert(list[q] == tail[p - j]);
            assert(is_style_at(tail[p - j], tokens.drop_first(), content, j + (p - j), bg));
            lemma_style_without(list[q], tokens, content, p, bg);
        }
    }
}

/// Where tokens are well placed, the spans that are pushed show the visible part
/// of the line, and every character in the style of the token that reaches over
/// it, or as background where none does. Earlier spans stay.
pub proof fn law_every_character_has_the_colour_of_its_token(
    spans: &mut Vec<Span>,
    tokens: Vec<Token>,
    content: &str,
    scrolled: usize,
    bg: Paint,
)
    requires
        call_ensures(push_clipped_spans, (spans, &tokens, content, scrolled, bg), ()),
        well_placed(tokens@, content@),
    ensures
        ({
            let n = old(spans)@.len() as int;
            let all = span_views(final(spans)@);
            let new = all.skip(n);
            let visible = scrolled_text(content@, scrolled as nat);
            &&& n <= all.len()
            &&& all.take(n) == span_views(old(spans)@)
            &&& line_text(new) == visible
            &&& are_styles_of(
                styles(new),
                tokens@,
                content@,
                content@.len() - visible.len(),
                bg,
            )
        }),
{
    let n = old(spans)@.len() as int;
    let all = span_views(final(spans)@);
    let new = clipped_spans(tokens@, content@, scrolled as nat, bg);
    assert(span_views(old(spans)@).len() == n);
    assert(all.take(n) =~= span_views(old(spans)@));
    assert(all.skip(n) =~= new);
    law_highlighting_keeps_the_text(tokens@, content@, scrolled as nat, bg);
    lemma_hidden_chars(content@, scrolled as nat);
    let h = hidden_chars(content@, scrolled as nat) as int;
    let start = visible_start(content@, scrolled as nat);
    assert(starts_char(content@, h, start));
    lemma_clip_styles(tokens@, content@, start, start, bg, h);
}

} // verus!
