//! Styled text: spans, lines, and the highlighting of a scrolled line.
use vstd::prelude::*;

use crate::diff::DiffLineType;
use crate::selection::{greater, smaller};
#[allow(unused_imports)]
use crate::selection::{max, min};
use crate::text::{count_hidden_chars, len_in_bytes, slice_bytes, to_chars, utf8_width};
#[allow(unused_imports)]
use crate::text::{
    byte_len, byte_slice, hidden_chars, lemma_byte_len_take, lemma_byte_slice,
    lemma_hidden_chars, lemma_starts_char_unique, scrolled_text, starts_char,
};

verus! {

/// What a piece of text is painted as. The theme turns it into colours.
#[derive(Clone, Copy, PartialEq, Eq, Debug, Structural)]
pub enum Paint {
    /// No style at all.
    Plain,
    /// Ordinary text: enabled, selected.
    Text(bool, bool),
    /// The bar to the left of a hunk: selected.
    HunkMarker(bool),
    /// A diff line in the colour of its type: type, selected.
    DiffLine(DiffLineType, bool),
    /// The background tint of a highlighted diff line: type, selected.
    Tint(DiffLineType, bool),
    /// The background of a highlighted line that is not tinted: selected.
    HighlightBg(bool),
    /// The frame of a block: focused.
    Block(bool),
}

/// How a span is painted.
#[derive(Clone, Copy, PartialEq, Eq, Debug, Structural)]
pub enum SpanStyle {
    Base(Paint),
    /// The style of a syntax token, patched with a background.
    Token(usize, Paint),
}

/// A piece of text in one style.
#[derive(Debug)]
pub struct Span {
    pub text: String,
    pub style: SpanStyle,
}

/// A line of styled text.
#[derive(Debug)]
pub struct TextLine {
    pub spans: Vec<Span>,
}

/// What a span shows.
pub struct SpanView {
    pub text: Seq<char>,
    pub style: SpanStyle,
}

impl View for Span {
    type V = SpanView;

    open spec fn view(&self) -> SpanView {
        SpanView { text: self.text@, style: self.style }
    }
}

/// What a list of spans shows.
pub open spec fn span_views(spans: Seq<Span>) -> Seq<SpanView> {
    Seq::new(spans.len(), |i: int| spans[i]@)
}

impl View for TextLine {
    type V = Seq<SpanView>;

    open spec fn view(&self) -> Seq<SpanView> {
        span_views(self.spans@)
    }
}

/// What a list of lines shows.
pub open spec fn line_views(lines: Seq<TextLine>) -> Seq<Seq<SpanView>> {
    Seq::new(lines.len(), |i: int| lines[i]@)
}

/// A span of a literal text or of a text in a base style.
pub open spec fn painted(text: Seq<char>, paint: Paint) -> SpanView {
    SpanView { text, style: SpanStyle::Base(paint) }
}

/// The text that a line of spans shows.
pub open spec fn line_text(spans: Seq<SpanView>) -> Seq<char>
    decreases spans.len(),
{
    if spans.len() == 0 {
        Seq::empty()
    } else {
        line_text(spans.drop_last()) + spans.last().text
    }
}

pub proof fn lemma_line_text_add(a: Seq<SpanView>, b: Seq<SpanView>)
    ensures
        line_text(a + b) == line_text(a) + line_text(b),
    decreases b.len(),
{
    if b.len() == 0 {
        assert(a + b =~= a);
        assert(line_text(a) + line_text(b) =~= line_text(a));
    } else {
        assert((a + b).drop_last() =~= a + b.drop_last());
        lemma_line_text_add(a, b.drop_last());
        assert(line_text(a) + line_text(b) =~= line_text(a) + line_text(b.drop_last())
            + b.last().text);
    }
}

/// A run of bytes of a line, with the style of its syntax token.
#[derive(Clone, Copy, PartialEq, Eq, Debug, Structural)]
pub struct Token {
    pub start: usize,
    pub end: usize,
    pub style: usize,
}

/// The tokens of one line, as byte ranges of its tab-expanded content.
pub type LineHighlight = Vec<Token>;

/// Appends one span.
pub fn push_span(spans: &mut Vec<Span>, text: String, style: SpanStyle)
    ensures
        span_views(final(spans)@) == span_views(old(spans)@).push(
            (SpanView { text: text@, style }),
        ),
{
    spans.push(Span { text, style });
    assert(span_views(spans@) =~= span_views(old(spans)@).push(SpanView { text: text@, style }));
}

/// The span of a slice, if the slice exists.
pub open spec fn slice_span(slice: Option<Seq<char>>, style: SpanStyle) -> Seq<SpanView> {
    match slice {
        Some(text) => seq![SpanView { text, style }],
        None => Seq::empty(),
    }
}

/// The spans of the bytes from `last` on: each token that reaches beyond
/// `start` in its own style, what lies between them as background.
pub open spec fn clip_from(
    segments: Seq<Token>,
    content: Seq<char>,
    start: nat,
    last: nat,
    bg: Paint,
) -> Seq<SpanView>
    decreases segments.len(),
{
    let len = byte_len(content);
    if segments.len() == 0 {
        if last < len {
            slice_span(byte_slice(content, last, len), SpanStyle::Base(bg))
        } else {
            Seq::empty()
        }
    } else {
        let from = max(segments[0].start as int, start as int) as nat;
        let to = min(segments[0].end as int, len as int) as nat;
        let rest = segments.drop_first();
        if to <= from {
            clip_from(rest, content, start, last, bg)
        } else {
            let gap = if from > last {
                slice_span(byte_slice(content, last, from), SpanStyle::Base(bg))
            } else {
                Seq::empty()
            };
            gap + slice_span(
                byte_slice(content, from, to),
                SpanStyle::Token(segments[0].style, bg),
            ) + clip_from(rest, content, start, to, bg)
        }
    }
}

/// The byte offset at which the visible part of a scrolled line starts.
pub open spec fn visible_start(content: Seq<char>, scrolled: nat) -> nat {
    byte_len(content.take(hidden_chars(content, scrolled) as int))
}

/// The spans of a highlighted line of which `scrolled` bytes are trimmed from
/// the left.
pub open spec fn clipped_spans(
    segments: Seq<Token>,
    content: Seq<char>,
    scrolled: nat,
    bg: Paint,
) -> Seq<SpanView> {
    let start = visible_start(content, scrolled);
    clip_from(segments, content, start, start, bg)
}

/// Appends the span of the bytes `from..to`, where they form a text.
fn push_slice(
    spans: &mut Vec<Span>,
    chars: &Vec<char>,
    from: usize,
    to: usize,
    style: SpanStyle,
)
    ensures
        span_views(final(spans)@) == span_views(old(spans)@) + slice_span(
            byte_slice(chars@, from as nat, to as nat),
            style,
        ),
{
    match slice_bytes(chars, from, to) {
        Some(text) => {
            push_span(spans, text, style);
        },
        None => {},
    }
    assert(span_views(spans@) =~= span_views(old(spans)@) + slice_span(
        byte_slice(chars@, from as nat, to as nat),
        style,
    ));
}

proof fn lemma_append_three(
    a: Seq<SpanView>,
    b: Seq<SpanView>,
    c: Seq<SpanView>,
    d: Seq<SpanView>,
)
    ensures
        a + (b + c + d) == a + b + c + d,
{
    assert(a + (b + c + d) =~= a + b + c + d);
}

/// Emits the syntax-coloured spans for `content`, clipped to the
/// horizontally scrolled visible window (`scrolled` bytes trimmed from the
/// left). Gaps between tokens are filled with `bg`; tokens get their own
/// style, patched with `bg`.
pub fn push_clipped_spans(
    spans: &mut Vec<Span>,
    segments: &Vec<Token>,
    content: &str,
    scrolled: usize,
    bg: Paint,
)
    ensures
        span_views(final(spans)@) == span_views(old(spans)@) + clipped_spans(
            segments@,
            content@,
            scrolled as nat,
            bg,
        ),
{
    let chars = to_chars(content);
    let len = len_in_bytes(content);
    let hidden = count_hidden_chars(&chars, scrolled);
    let start = prefix_bytes(&chars, hidden, len);
    let ghost want = span_views(spans@) + clipped_spans(segments@, content@, scrolled as nat, bg);

    let mut last: usize = start;
    let mut i: usize = 0;
    assert(segments@.skip(0) =~= segments@);
    while i < segments.len()
        invariant
            i <= segments@.len(),
            chars@ == content@,
            len == byte_len(content@),
            want == span_views(spans@) + clip_from(
                segments@.skip(i as int),
                content@,
                start as nat,
                last as nat,
                bg,
            ),
        decreases segments@.len() - i,
    {
        let segment = segments[i];
        let from = greater(segment.start, start);
        let to = smaller(segment.end, len);
        let ghost before = span_views(spans@);
        let ghost rest = segments@.skip(i + 1);
        proof {
            assert(segments@.skip(i as int)[0] == segment);
            assert(segments@.skip(i as int).drop_first() =~= rest);
        }
        if to > from {
            let ghost gap = if from > last {
                slice_span(byte_slice(content@, last as nat, from as nat), SpanStyle::Base(bg))
            } else {
                Seq::empty()
            };
            let ghost token = slice_span(
                byte_slice(content@, from as nat, to as nat),
                SpanStyle::Token(segment.style, bg),
            );
            let ghost tail = clip_from(rest, content@, start as nat, to as nat, bg);
            if from > last {
                push_slice(spans, &chars, last, from, SpanStyle::Base(bg));
            }
            assert(span_views(spans@) =~= before + gap);
            push_slice(spans, &chars, from, to, SpanStyle::Token(segment.style, bg));
            proof {
                assert(span_views(spans@) == before + gap + token);
                lemma_append_three(before, gap, token, tail);
            }
            last = to;
        }
        i += 1;
    }
    assert(segments@.skip(i as int).len() == 0);
    if last < len {
        push_slice(spans, &chars, last, len, SpanStyle::Base(bg));
    }
    assert(span_views(spans@) =~= want);
}

/// The bytes of the first `n` characters.
fn prefix_bytes(chars: &Vec<char>, n: usize, len: usize) -> (bytes: usize)
    requires
        n <= chars@.len(),
        len == byte_len(chars@),
    ensures
        bytes == byte_len(chars@.take(n as int)),
{
    let mut bytes: usize = 0;
    let mut i: usize = 0;
    assert(chars@.take(0) =~= Seq::<char>::empty());
    while i < n
        invariant
            i <= n <= chars@.len(),
            len == byte_len(chars@),
            bytes == byte_len(chars@.take(i as int)),
        decreases n - i,
    {
        proof {
            assert(chars@.take(i + 1).drop_last() =~= chars@.take(i as int));
            lemma_byte_len_take(chars@, i + 1, i + 1);
        }
        bytes = bytes + utf8_width(chars[i]);
        i += 1;
    }
    bytes
}

/// Whether byte offset `at` of `s` falls between two characters.
pub open spec fn is_boundary(s: Seq<char>, at: nat) -> bool {
    exists|i: int| #[trigger] starts_char(s, i, at)
}

/// Whether byte offset `at` falls between two characters of `s`, or behind
/// them all.
pub open spec fn is_cut(s: Seq<char>, at: nat) -> bool {
    is_boundary(s, at) || at >= byte_len(s)
}

/// Whether tokens stand in order, do not overlap, and start and end between
/// characters. They may reach past the end of the text.
pub open spec fn well_placed(segments: Seq<Token>, content: Seq<char>) -> bool {
    &&& forall|i: int|
        0 <= i < segments.len() ==> {
            let t = #[trigger] segments[i];
            &&& t.start <= t.end
            &&& is_cut(content, t.start as nat)
            &&& is_cut(content, t.end as nat)
        }
    &&& forall|i: int, j: int|
        #![trigger segments[i], segments[j]]
        0 <= i < j < segments.len() ==> segments[i].end <= segments[j].start
}

proof fn lemma_boundary_within(content: Seq<char>, at: nat)
    requires
        is_boundary(content, at),
    ensures
        at <= byte_len(content),
{
    let i = choose|i: int| #[trigger] starts_char(content, i, at);
    lemma_byte_len_take(content, i, i);
}

/// What the bytes `from..to` show, followed by what comes from `to` on, is
/// what comes from `from` on.
proof fn lemma_slice_then_rest(content: Seq<char>, from: nat, to: nat, i: int, j: int)
    requires
        starts_char(content, i, from),
        starts_char(content, j, to),
        from <= to,
    ensures
        i <= j,
        byte_slice(content, from, to) == Some(content.subrange(i, j)),
        content.subrange(i, j) + content.skip(j) == content.skip(i),
{
    if i > j {
        lemma_byte_len_take(content, j, i);
    }
    lemma_byte_slice(content, i, j, from, to);
    assert(content.subrange(i, j) + content.skip(j) =~= content.skip(i));
}

pub proof fn lemma_single_span_text(span: SpanView)
    ensures
        line_text(seq![span]) == span.text,
{
    assert(seq![span].drop_last() =~= Seq::<SpanView>::empty());
    assert(line_text(seq![span].drop_last()) =~= Seq::<char>::empty());
    assert(Seq::<char>::empty() + span.text =~= span.text);
}

/// A gap, a token and what follows show the text from the gap on.
proof fn lemma_clip_step(
    content: Seq<char>,
    last: nat,
    from: nat,
    to: nat,
    style: SpanStyle,
    bg: Paint,
    at: int,
    tail: Seq<SpanView>,
    j: int,
)
    requires
        last <= from < to,
        starts_char(content, at, last),
        is_boundary(content, from),
        starts_char(content, j, to),
        line_text(tail) == content.skip(j),
    ensures
        ({
            let gap = if from > last {
                slice_span(byte_slice(content, last, from), SpanStyle::Base(bg))
            } else {
                Seq::empty()
            };
            line_text(gap + slice_span(byte_slice(content, from, to), style) + tail)
                == content.skip(at)
        }),
{
    let i = choose|i: int| #[trigger] starts_char(content, i, from);
    lemma_slice_then_rest(content, from, to, i, j);
    let token = SpanView { text: content.subrange(i, j), style };
    lemma_single_span_text(token);
    lemma_line_text_add(seq![token], tail);
    assert(line_text(seq![token] + tail) == content.skip(i));
    if from > last {
        lemma_slice_then_rest(content, last, from, at, i);
        let gap = painted(content.subrange(at, i), bg);
        lemma_single_span_text(gap);
        lemma_line_text_add(seq![gap], seq![token] + tail);
        assert(seq![gap] + seq![token] + tail =~= seq![gap] + (seq![token] + tail));
    } else {
        lemma_starts_char_unique(content, at, i, last);
        assert(Seq::<SpanView>::empty() + seq![token] + tail =~= seq![token] + tail);
    }
}

proof fn lemma_well_placed_rest(segments: Seq<Token>, content: Seq<char>)
    requires
        segments.len() > 0,
        well_placed(segments, content),
    ensures
        well_placed(segments.drop_first(), content),
        segments.len() > 1 ==> segments[0].end <= segments.drop_first()[0].start,
        segments[0].start <= segments[0].end,
        is_cut(content, segments[0].start as nat),
        is_boundary(content, min(segments[0].end as int, byte_len(content) as int) as nat),
{
    let rest = segments.drop_first();
    assert(content.take(content.len() as int) =~= content);
    assert(starts_char(content, content.len() as int, byte_len(content)));
    if is_boundary(content, segments[0].end as nat) {
        lemma_boundary_within(content, segments[0].end as nat);
    }
    assert forall|i: int| 0 <= i < rest.len() implies #[trigger] rest[i] == segments[i + 1] by {}
    assert forall|i: int, j: int|
        #![trigger rest[i], rest[j]]
        0 <= i < j < rest.len() implies rest[i].end <= rest[j].start by {
        assert(rest[i] == segments[i + 1]);
        assert(rest[j] == segments[j + 1]);
    }
}

proof fn lemma_clip_text(
    segments: Seq<Token>,
    content: Seq<char>,
    start: nat,
    last: nat,
    bg: Paint,
    at: int,
)
    requires
        well_placed(segments, content),
        start <= last,
        is_boundary(content, start),
        starts_char(content, at, last),
        last == start || segments.len() == 0 || last <= segments[0].start,
    ensures
        line_text(clip_from(segments, content, start, last, bg)) == content.skip(at),
    decreases segments.len(),
{
    let len = byte_len(content);
    if segments.len() == 0 {
        assert(content.take(content.len() as int) =~= content);
        assert(starts_char(content, content.len() as int, len));
        lemma_boundary_within(content, last);
        if last < len {
            lemma_slice_then_rest(content, last, len, at, content.len() as int);
            lemma_single_span_text(painted(content.subrange(at, content.len() as int), bg));
            assert(content.subrange(at, content.len() as int) =~= content.skip(at));
        } else {
            lemma_starts_char_unique(content, at, content.len() as int, last);
            assert(content.skip(at) =~= Seq::<char>::empty());
        }
    } else {
        let t = segments[0];
        let rest = segments.drop_first();
        lemma_well_placed_rest(segments, content);
        let from = max(t.start as int, start as int) as nat;
        let to = min(t.end as int, len as int) as nat;
        if to <= from {
            lemma_clip_text(rest, content, start, last, bg, at);
        } else {
            let j = choose|j: int| #[trigger] starts_char(content, j, to);
            lemma_clip_text(rest, content, start, to, bg, j);
            lemma_clip_step(
                content,
                last,
                from,
                to,
                SpanStyle::Token(t.style, bg),
                bg,
                at,
                clip_from(rest, content, start, to, bg),
                j,
            );
        }
    }
}

/// Highlighting neither drops nor repeats text: where tokens are well placed,
/// the spans of a line show exactly its visible part.
pub proof fn law_highlighting_keeps_the_text(
    segments: Seq<Token>,
    content: Seq<char>,
    scrolled: nat,
    bg: Paint,
)
    requires
        well_placed(segments, content),
    ensures
        line_text(clipped_spans(segments, content, scrolled, bg)) == scrolled_text(
            content,
            scrolled,
        ),
{
    lemma_hidden_chars(content, scrolled);
    let n = hidden_chars(content, scrolled) as int;
    let start = visible_start(content, scrolled);
    assert(starts_char(content, n, start));
    lemma_clip_text(segments, content, start, start, bg, n);
}

} // verus!
