//! Syntax highlighting of a diff: both sides of the file are put together
//! again, highlighted on their own, and mapped back to the diff's lines.
use vstd::prelude::*;

use crate::diff::DiffLineType;
use crate::render::{LineHighlight, Token};
#[allow(unused_imports)]
use crate::render::{is_boundary, well_placed};
use crate::text::{len_in_bytes, tabs_to_spaces, trim_line_end};
#[allow(unused_imports)]
use crate::text::{
    byte_len, expand_tabs, lemma_byte_len_add, line_ends, starts_char,
    strip_end,
};

verus! {

/// Which reconstructed side a diff line is highlighted from.
#[derive(Clone, Copy, PartialEq, Eq, Debug, Structural)]
pub enum Side {
    New(usize),
    Old(usize),
    Skip,
}

/// A piece of a highlighted line, as the highlighter hands it out.
#[derive(Debug)]
pub struct RenderedSpan {
    pub text: String,
    pub style: usize,
}

/// The text of both sides, and where each diff line went.
#[derive(Debug)]
pub struct SideTexts {
    pub new_text: String,
    pub old_text: String,
    pub sides: Vec<Side>,
}

/// The line that a diff line contributes to a side: tabs expanded, no line
/// ends.
pub open spec fn source_line(content: Seq<char>) -> Seq<char> {
    strip_end(expand_tabs(content), line_ends())
}

/// Whether lines of type `t` exist on the new (or else the old) side.
pub open spec fn on_side(t: DiffLineType, new_side: bool) -> bool {
    t == DiffLineType::Context || t == (if new_side {
        DiffLineType::Add
    } else {
        DiffLineType::Delete
    })
}

/// The source lines of one side among the first `n` diff lines.
pub open spec fn side_lines(
    lines: Seq<(String, DiffLineType)>,
    new_side: bool,
    n: int,
) -> Seq<Seq<char>>
    decreases n,
{
    if n <= 0 {
        Seq::empty()
    } else if on_side(lines[n - 1].1, new_side) {
        side_lines(lines, new_side, n - 1).push(source_line(lines[n - 1].0@))
    } else {
        side_lines(lines, new_side, n - 1)
    }
}

/// The number of a diff line on a side: how many lines of that side precede
/// it.
pub open spec fn side_index(
    lines: Seq<(String, DiffLineType)>,
    new_side: bool,
    i: int,
) -> nat {
    side_lines(lines, new_side, i).len()
}

/// Source lines as a text: each is ended by a line feed.
pub open spec fn as_text(lines: Seq<Seq<char>>) -> Seq<char>
    decreases lines.len(),
{
    if lines.len() == 0 {
        Seq::empty()
    } else {
        (as_text(lines.drop_last()) + lines.last()).push('\n')
    }
}

/// Where diff line `i` is highlighted from: additions and context on the new
/// side, deletions on the old side, headers nowhere.
pub open spec fn side_of(lines: Seq<(String, DiffLineType)>, i: int) -> Side {
    match lines[i].1 {
        DiffLineType::Header => Side::Skip,
        DiffLineType::Delete => Side::Old(side_index(lines, false, i) as usize),
        _ => Side::New(side_index(lines, true, i) as usize),
    }
}

/// The tokens of a highlight, if there is one.
pub open spec fn highlight_view(h: Option<LineHighlight>) -> Option<Seq<Token>> {
    match h {
        Some(tokens) => Some(tokens@),
        None => None,
    }
}

/// The tokens of each highlighted line.
pub open spec fn highlight_views(list: Seq<Option<LineHighlight>>) -> Seq<Option<Seq<Token>>> {
    Seq::new(list.len(), |i: int| highlight_view(list[i]))
}

/// The highlight at `i`, if there is one.
pub open spec fn nth_highlight(list: Seq<LineHighlight>, i: int) -> Option<Seq<Token>> {
    if 0 <= i < list.len() {
        Some(list[i]@)
    } else {
        None
    }
}

/// The highlight of each diff line, given those of both sides.
pub open spec fn mapped_highlights(
    lines: Seq<(String, DiffLineType)>,
    new_hl: Seq<LineHighlight>,
    old_hl: Seq<LineHighlight>,
) -> Seq<Option<Seq<Token>>> {
    Seq::new(
        lines.len(),
        |i: int|
            match side_of(lines, i) {
                Side::New(k) => nth_highlight(new_hl, k as int),
                Side::Old(k) => nth_highlight(old_hl, k as int),
                Side::Skip => None,
            },
    )
}

/// Appends the source line of `content` and a line feed.
pub fn push_expanded_line(buf: &mut String, content: &str)
    ensures
        final(buf)@ == (old(buf)@ + source_line(content@)).push('\n'),
{
    let expanded = tabs_to_spaces(content);
    let line = trim_line_end(expanded.as_str());
    buf.append(line.as_str());
    buf.push('\n');
}

proof fn lemma_side_index_bound(lines: Seq<(String, DiffLineType)>, new_side: bool, n: int)
    requires
        0 <= n <= lines.len(),
    ensures
        side_index(lines, new_side, n) <= n,
    decreases n,
{
    if n > 0 {
        lemma_side_index_bound(lines, new_side, n - 1);
    }
}

/// Puts both sides of a diff together again, given its lines in the order in
/// which it shows them.
pub fn reconstruct_sides(lines: &Vec<(String, DiffLineType)>) -> (texts: SideTexts)
    ensures
        texts.new_text@ == as_text(side_lines(lines@, true, lines@.len() as int)),
        texts.old_text@ == as_text(side_lines(lines@, false, lines@.len() as int)),
        texts.sides@ == Seq::new(lines@.len(), |i: int| side_of(lines@, i)),
{
    let mut new_text = String::new();
    let mut old_text = String::new();
    let mut sides: Vec<Side> = Vec::new();
    let mut ni: usize = 0;
    let mut oi: usize = 0;
    let mut i: usize = 0;
    while i < lines.len()
        invariant
            i <= lines@.len(),
            sides@ == Seq::new(i as nat, |k: int| side_of(lines@, k)),
            ni == side_index(lines@, true, i as int),
            oi == side_index(lines@, false, i as int),
            new_text@ == as_text(side_lines(lines@, true, i as int)),
            old_text@ == as_text(side_lines(lines@, false, i as int)),
        decreases lines@.len() - i,
    {
        let content = lines[i].0.as_str();
        let ghost new_before = side_lines(lines@, true, i as int);
        let ghost old_before = side_lines(lines@, false, i as int);
        proof {
            lemma_side_index_bound(lines@, true, i as int);
            lemma_side_index_bound(lines@, false, i as int);
            assert(new_before.push(source_line(content@)).drop_last() =~= new_before);
            assert(old_before.push(source_line(content@)).drop_last() =~= old_before);
        }
        match lines[i].1 {
            DiffLineType::Header => {
                sides.push(Side::Skip);
            },
            DiffLineType::Add => {
                push_expanded_line(&mut new_text, content);
                sides.push(Side::New(ni));
                ni += 1;
            },
            DiffLineType::Delete => {
                push_expanded_line(&mut old_text, content);
                sides.push(Side::Old(oi));
                oi += 1;
            },
            DiffLineType::Context => {
                push_expanded_line(&mut new_text, content);
                push_expanded_line(&mut old_text, content);
                sides.push(Side::New(ni));
                ni += 1;
                oi += 1;
            },
        }
        assert(sides@ =~= Seq::new((i + 1) as nat, |k: int| side_of(lines@, k)));
        i += 1;
    }
    SideTexts { new_text, old_text, sides }
}

/// The tokens of a rendered line: one per span, each behind the one before.
pub open spec fn token_at(spans: Seq<RenderedSpan>, k: int) -> Token {
    Token {
        start: rendered_bytes(spans, k) as usize,
        end: rendered_bytes(spans, k + 1) as usize,
        style: spans[k].style,
    }
}

/// The text of the first `n` spans.
pub open spec fn rendered_text(spans: Seq<RenderedSpan>, n: int) -> Seq<char>
    decreases n,
{
    if n <= 0 {
        Seq::empty()
    } else {
        rendered_text(spans, n - 1) + spans[n - 1].text@
    }
}

/// The bytes of the first `n` spans.
pub open spec fn rendered_bytes(spans: Seq<RenderedSpan>, n: int) -> nat {
    byte_len(rendered_text(spans, n))
}

/// The tokens of a rendered line.
pub open spec fn line_tokens(spans: Seq<RenderedSpan>) -> Seq<Token> {
    Seq::new(spans.len(), |k: int| token_at(spans, k))
}

proof fn lemma_rendered_prefix(spans: Seq<RenderedSpan>, m: int, n: int)
    requires
        0 <= m <= n <= spans.len(),
    ensures
        rendered_bytes(spans, m) <= rendered_bytes(spans, n),
        rendered_text(spans, m).len() <= rendered_text(spans, n).len(),
        rendered_text(spans, n).take(rendered_text(spans, m).len() as int) == rendered_text(
            spans,
            m,
        ),
    decreases n - m,
{
    if m == n {
        assert(rendered_text(spans, n).take(rendered_text(spans, n).len() as int)
            =~= rendered_text(spans, n));
    } else {
        lemma_rendered_prefix(spans, m, n - 1);
        lemma_byte_len_add(rendered_text(spans, n - 1), spans[n - 1].text@);
        let k = rendered_text(spans, m).len() as int;
        assert(rendered_text(spans, n).take(k) =~= rendered_text(spans, n - 1).take(k));
    }
}

/// Turns the spans of one rendered line into byte ranges.
fn tokens_of_line(spans: &Vec<RenderedSpan>) -> (tokens: LineHighlight)
    requires
        rendered_bytes(spans@, spans@.len() as int) <= usize::MAX,
    ensures
        tokens@ == line_tokens(spans@),
{
    let mut tokens: LineHighlight = Vec::new();
    let mut offset: usize = 0;
    let mut k: usize = 0;
    while k < spans.len()
        invariant
            k <= spans@.len(),
            rendered_bytes(spans@, spans@.len() as int) <= usize::MAX,
            offset == rendered_bytes(spans@, k as int),
            tokens@ == Seq::new(k as nat, |j: int| token_at(spans@, j)),
        decreases spans@.len() - k,
    {
        let len = len_in_bytes(spans[k].text.as_str());
        proof {
            lemma_byte_len_add(rendered_text(spans@, k as int), spans@[k as int].text@);
            lemma_rendered_prefix(spans@, k + 1, spans@.len() as int);
        }
        tokens.push(Token { start: offset, end: offset + len, style: spans[k].style });
        offset = offset + len;
        k += 1;
        assert(tokens@ =~= Seq::new(k as nat, |j: int| token_at(spans@, j)));
    }
    assert(tokens@ =~= line_tokens(spans@));
    tokens
}

/// The tokens of each highlight in a list.
pub open spec fn token_lists(list: Seq<LineHighlight>) -> Seq<Seq<Token>> {
    Seq::new(list.len(), |i: int| list[i]@)
}

/// The tokens of a highlighted side: nothing for an empty text or where the
/// highlighter failed.
pub open spec fn side_tokens(
    text: Seq<char>,
    rendered: Option<Vec<Vec<RenderedSpan>>>,
) -> Seq<Seq<Token>> {
    match rendered {
        Some(lines) => if text.len() == 0 {
            Seq::empty()
        } else {
            Seq::new(lines@.len(), |i: int| line_tokens(lines@[i]@))
        },
        None => Seq::empty(),
    }
}

/// Turns what the highlighter made of one reconstructed side (new or old)
/// into per-line byte ranges; `rendered` is `None` where it failed.
pub fn highlight_side(
    text: &str,
    rendered: &Option<Vec<Vec<RenderedSpan>>>,
) -> (highlights: Vec<LineHighlight>)
    requires
        rendered matches Some(lines) ==> forall|i: int|
            0 <= i < lines@.len() ==> rendered_bytes(
                (#[trigger] lines@[i])@,
                lines@[i]@.len() as int,
            ) <= usize::MAX,
    ensures
        token_lists(highlights@) == side_tokens(text@, *rendered),
{
    let mut highlights: Vec<LineHighlight> = Vec::new();
    if text.is_empty() {
        assert(token_lists(highlights@) =~= Seq::<Seq<Token>>::empty());
        return highlights;
    }
    match rendered {
        None => {
            assert(token_lists(highlights@) =~= Seq::<Seq<Token>>::empty());
            highlights
        },
        Some(lines) => {
            let mut i: usize = 0;
            while i < lines.len()
                invariant
                    i <= lines@.len(),
                    forall|j: int|
                        0 <= j < lines@.len() ==> rendered_bytes(
                            (#[trigger] lines@[j])@,
                            lines@[j]@.len() as int,
                        ) <= usize::MAX,
                    token_lists(highlights@) == Seq::new(
                        i as nat,
                        |j: int| line_tokens(lines@[j]@),
                    ),
                decreases lines@.len() - i,
            {
                let ghost before = token_lists(highlights@);
                highlights.push(tokens_of_line(&lines[i]));
                i += 1;
                assert(token_lists(highlights@) =~= before.push(line_tokens(lines@[i - 1]@)));
                assert(token_lists(highlights@) =~= Seq::new(
                    i as nat,
                    |j: int| line_tokens(lines@[j]@),
                ));
            }
            highlights
        },
    }
}

/// A copy of the highlight at `i`, if there is one.
fn nth(list: &Vec<LineHighlight>, i: usize) -> (h: Option<LineHighlight>)
    ensures
        highlight_view(h) == nth_highlight(list@, i as int),
{
    if i < list.len() {
        let copy = list[i].clone();
        assert(copy@ =~= list@[i as int]@);
        Some(copy)
    } else {
        None
    }
}

/// Highlights a diff given its flat, in-order per-line content and type: maps
/// every line back to its highlight on the new or old side, or to `None` for
/// headers and lines that could not be highlighted.
pub fn build_highlight(
    lines: &Vec<(String, DiffLineType)>,
    new_hl: &Vec<LineHighlight>,
    old_hl: &Vec<LineHighlight>,
) -> (highlights: Vec<Option<LineHighlight>>)
    ensures
        highlight_views(highlights@) == mapped_highlights(lines@, new_hl@, old_hl@),
{
    let sides = reconstruct_sides(lines).sides;
    let ghost want = mapped_highlights(lines@, new_hl@, old_hl@);
    let mut highlights: Vec<Option<LineHighlight>> = Vec::new();
    let mut i: usize = 0;
    while i < sides.len()
        invariant
            i <= sides@.len() == lines@.len(),
            sides@ == Seq::new(lines@.len(), |k: int| side_of(lines@, k)),
            want == mapped_highlights(lines@, new_hl@, old_hl@),
            highlight_views(highlights@) == want.take(i as int),
        decreases sides@.len() - i,
    {
        let ghost before = highlight_views(highlights@);
        let highlight = match sides[i] {
            Side::New(k) => nth(new_hl, k),
            Side::Old(k) => nth(old_hl, k),
            Side::Skip => None,
        };
        assert(highlight_view(highlight) == want[i as int]);
        highlights.push(highlight);
        i += 1;
        assert(highlight_views(highlights@) =~= before.push(want[i - 1]));
        assert(highlight_views(highlights@) =~= want.take(i as int));
    }
    assert(want.take(want.len() as int) =~= want);
    highlights
}

/// A highlight job: what is to be highlighted, then what came out.
#[derive(Debug)]
pub enum JobState {
    Request { hash: u64, lines: Vec<(String, DiffLineType)>, path: String, theme: String },
    Response { hash: u64, result: Vec<Option<LineHighlight>> },
}

/// The job that highlights one diff.
#[derive(Debug)]
pub struct AsyncDiffHighlightJob {
    pub state: Option<JobState>,
}

impl Default for AsyncDiffHighlightJob {
    /// A job that holds nothing.
    fn default() -> (job: Self)
        ensures
            job.state is None,
    {
        AsyncDiffHighlightJob { state: None }
    }
}

impl AsyncDiffHighlightJob {
    /// Creates a job for the given diff. `hash` identifies the diff, so that
    /// a result that comes after the user went to another file can be
    /// discarded.
    pub fn new(
        hash: u64,
        lines: Vec<(String, DiffLineType)>,
        path: String,
        theme: String,
    ) -> (job: Self)
        ensures
            job.state == Some(JobState::Request { hash, lines, path, theme }),
    {
        AsyncDiffHighlightJob { state: Some(JobState::Request { hash, lines, path, theme }) }
    }

    /// The texts that a requested job wants to have highlighted.
    pub fn side_texts(&self) -> (texts: Option<SideTexts>)
        ensures
            texts is Some <==> self.state is Some && self.state->0 is Request,
            texts matches Some(t) ==> {
                let lines = self.state->0->lines@;
                &&& t.new_text@ == as_text(side_lines(lines, true, lines.len() as int))
                &&& t.old_text@ == as_text(side_lines(lines, false, lines.len() as int))
                &&& t.sides@ == Seq::new(lines.len(), |i: int| side_of(lines, i))
            },
    {
        match &self.state {
            Some(JobState::Request { hash: _, lines, path: _, theme: _ }) => Some(
                reconstruct_sides(lines),
            ),
            _ => None,
        }
    }

    /// Runs the job, given the highlights of both sides: a request becomes a
    /// response, a response stays.
    pub fn run(&mut self, new_hl: &Vec<LineHighlight>, old_hl: &Vec<LineHighlight>)
        ensures
            match old(self).state {
                Some(JobState::Request { hash, lines, path: _, theme: _ }) => {
                    &&& final(self).state matches Some(JobState::Response { hash: h, result })
                    &&& h == hash
                    &&& highlight_views(result@) == mapped_highlights(
                        lines@,
                        new_hl@,
                        old_hl@,
                    )
                },
                other => final(self).state == other,
            },
    {
        if let Some(state) = self.state.take() {
            self.state = Some(
                match state {
                    JobState::Request { hash, lines, path: _, theme: _ } => JobState::Response {
                        hash,
                        result: build_highlight(&lines, new_hl, old_hl),
                    },
                    JobState::Response { hash, result } => JobState::Response { hash, result },
                },
            );
        }
    }

    /// Takes the finished highlight together with the hash of its diff, or
    /// `None` if the job has not run yet, which it still can.
    pub fn result(&mut self) -> (finished: Option<(u64, Vec<Option<LineHighlight>>)>)
        ensures
            match old(self).state {
                Some(JobState::Response { hash, result }) => finished == Some((hash, result))
                    && final(self).state is None,
                _ => finished is None && final(self).state == old(self).state,
            },
    {
        match self.state.take() {
            Some(JobState::Response { hash, result }) => Some((hash, result)),
            unfinished => {
                self.state = unfinished;
                None
            },
        }
    }
}

/// What `values` holds for those of `lines` whose type is kept.
pub open spec fn kept<V>(
    lines: Seq<(String, DiffLineType)>,
    values: Seq<V>,
    keep: spec_fn(DiffLineType) -> bool,
) -> Seq<V>
    decreases lines.len(),
{
    if lines.len() == 0 {
        Seq::empty()
    } else {
        let before = kept(lines.drop_last(), values.drop_last(), keep);
        if keep(lines.last().1) {
            before.push(values.last())
        } else {
            before
        }
    }
}

/// All line types but `t`.
pub open spec fn all_but(t: DiffLineType) -> spec_fn(DiffLineType) -> bool {
    |other: DiffLineType| other != t
}

/// The line type `t` alone.
pub open spec fn only(t: DiffLineType) -> spec_fn(DiffLineType) -> bool {
    |other: DiffLineType| other == t
}

/// The lines that are not of type `t`.
pub open spec fn without(
    lines: Seq<(String, DiffLineType)>,
    t: DiffLineType,
) -> Seq<(String, DiffLineType)> {
    kept(lines, lines, all_but(t))
}

proof fn lemma_side_lines_prefix(
    a: Seq<(String, DiffLineType)>,
    b: Seq<(String, DiffLineType)>,
    new_side: bool,
    n: int,
)
    requires
        n <= a.len(),
        n <= b.len(),
        forall|i: int| 0 <= i < n ==> a[i] == b[i],
    ensures
        side_lines(a, new_side, n) == side_lines(b, new_side, n),
    decreases n,
{
    if n > 0 {
        lemma_side_lines_prefix(a, b, new_side, n - 1);
    }
}

/// A further line leaves the highlights of the lines before it as they are.
proof fn lemma_mapped_push(
    lines: Seq<(String, DiffLineType)>,
    line: (String, DiffLineType),
    new_hl: Seq<LineHighlight>,
    old_hl: Seq<LineHighlight>,
)
    ensures
        mapped_highlights(lines.push(line), new_hl, old_hl).drop_last() == mapped_highlights(
            lines,
            new_hl,
            old_hl,
        ),
        side_lines(lines.push(line), true, lines.len() as int) == side_lines(
            lines,
            true,
            lines.len() as int,
        ),
        side_lines(lines.push(line), false, lines.len() as int) == side_lines(
            lines,
            false,
            lines.len() as int,
        ),
{
    let all = lines.push(line);
    lemma_side_lines_prefix(all, lines, true, lines.len() as int);
    lemma_side_lines_prefix(all, lines, false, lines.len() as int);
    assert forall|i: int| 0 <= i < lines.len() implies side_of(all, i) == #[trigger] side_of(
        lines,
        i,
    ) by {
        lemma_side_lines_prefix(all, lines, true, i);
        lemma_side_lines_prefix(all, lines, false, i);
    }
    assert(mapped_highlights(all, new_hl, old_hl).drop_last() =~= mapped_highlights(
        lines,
        new_hl,
        old_hl,
    ));
}

/// The new side is highlighted independently of the deletions: without them
/// its text is the same, and every other line, context lines included, keeps
/// its highlight, whatever the old side is highlighted as.
pub proof fn law_new_side_is_independent(
    lines: Seq<(String, DiffLineType)>,
    new_hl: Seq<LineHighlight>,
    old_hl: Seq<LineHighlight>,
    other_hl: Seq<LineHighlight>,
)
    ensures
        ({
            let news = without(lines, DiffLineType::Delete);
            &&& side_lines(news, true, news.len() as int) == side_lines(
                lines,
                true,
                lines.len() as int,
            )
            &&& mapped_highlights(news, new_hl, other_hl) == kept(
                lines,
                mapped_highlights(lines, new_hl, old_hl),
                all_but(DiffLineType::Delete),
            )
        }),
    decreases lines.len(),
{
    let t = DiffLineType::Delete;
    let news = without(lines, t);
    let mapped = mapped_highlights(lines, new_hl, old_hl);
    if lines.len() > 0 {
        let rest = lines.drop_last();
        assert(lines =~= rest.push(lines.last()));
        law_new_side_is_independent(rest, new_hl, old_hl, other_hl);
        lemma_mapped_push(rest, lines.last(), new_hl, old_hl);
        if lines.last().1 != t {
            let before = without(rest, t);
            lemma_mapped_push(before, lines.last(), new_hl, other_hl);
            assert(news == before.push(lines.last()));
            let shown = mapped_highlights(news, new_hl, other_hl);
            assert(shown =~= shown.drop_last().push(shown.last()));
            assert(shown.last() == mapped.last());
        }
    }
    assert(mapped_highlights(news, new_hl, other_hl) =~= kept(lines, mapped, all_but(t)));
}

/// The old side is highlighted independently of the additions: without them
/// its text is the same, and every deletion keeps its highlight, whatever the
/// new side is highlighted as.
pub proof fn law_old_side_is_independent(
    lines: Seq<(String, DiffLineType)>,
    new_hl: Seq<LineHighlight>,
    old_hl: Seq<LineHighlight>,
    other_hl: Seq<LineHighlight>,
)
    ensures
        ({
            let olds = without(lines, DiffLineType::Add);
            &&& side_lines(olds, false, olds.len() as int) == side_lines(
                lines,
                false,
                lines.len() as int,
            )
            &&& kept(
                olds,
                mapped_highlights(olds, other_hl, old_hl),
                only(DiffLineType::Delete),
            ) == kept(
                lines,
                mapped_highlights(lines, new_hl, old_hl),
                only(DiffLineType::Delete),
            )
        }),
    decreases lines.len(),
{
    let t = DiffLineType::Add;
    let olds = without(lines, t);
    if lines.len() > 0 {
        let rest = lines.drop_last();
        assert(lines =~= rest.push(lines.last()));
        law_old_side_is_independent(rest, new_hl, old_hl, other_hl);
        lemma_mapped_push(rest, lines.last(), new_hl, old_hl);
        if lines.last().1 != t {
            let before = without(rest, t);
            lemma_mapped_push(before, lines.last(), other_hl, old_hl);
            assert(olds == before.push(lines.last()));
            assert(olds.drop_last() =~= before);
        }
    }
}

/// Every line has an entry, and that of a header is empty.
pub proof fn law_headers_are_not_highlighted(
    lines: Seq<(String, DiffLineType)>,
    new_hl: Seq<LineHighlight>,
    old_hl: Seq<LineHighlight>,
)
    ensures
        mapped_highlights(lines, new_hl, old_hl).len() == lines.len(),
        forall|i: int|
            0 <= i < lines.len() && lines[i].1 == DiffLineType::Header
                ==> #[trigger] mapped_highlights(lines, new_hl, old_hl)[i] is None,
{
}

/// Every line of a side stands in that side's text under its own number: the
/// highlight that a diff line is mapped to is that of its own source line.
pub proof fn law_line_maps_to_its_own_source(
    lines: Seq<(String, DiffLineType)>,
    new_side: bool,
    i: int,
    n: int,
)
    requires
        0 <= i < n <= lines.len(),
        on_side(lines[i].1, new_side),
    ensures
        side_index(lines, new_side, i) < side_lines(lines, new_side, n).len(),
        side_lines(lines, new_side, n)[side_index(lines, new_side, i) as int] == source_line(
            lines[i].0@,
        ),
    decreases n,
{
    if i < n - 1 {
        law_line_maps_to_its_own_source(lines, new_side, i, n - 1);
    }
}

/// Two lines of one side never share a number on it.
pub proof fn law_lines_have_distinct_numbers(
    lines: Seq<(String, DiffLineType)>,
    new_side: bool,
    i: int,
    j: int,
)
    requires
        0 <= i < j < lines.len(),
        on_side(lines[i].1, new_side),
    ensures
        side_index(lines, new_side, i) < side_index(lines, new_side, j),
{
    law_line_maps_to_its_own_source(lines, new_side, i, j);
}

/// The tokens of a rendered line are well placed in every text that begins
/// with what was rendered.
pub proof fn law_tokens_are_well_placed(spans: Seq<RenderedSpan>, content: Seq<char>)
    requires
        rendered_bytes(spans, spans.len() as int) <= usize::MAX,
        rendered_text(spans, spans.len() as int).len() <= content.len(),
        content.take(rendered_text(spans, spans.len() as int).len() as int) == rendered_text(
            spans,
            spans.len() as int,
        ),
    ensures
        well_placed(line_tokens(spans), content),
{
    let tokens = line_tokens(spans);
    let whole = rendered_text(spans, spans.len() as int);
    assert forall|k: int| 0 <= k <= spans.len() implies is_boundary(
        content,
        #[trigger] rendered_bytes(spans, k),
    ) && rendered_bytes(spans, k) <= usize::MAX by {
        lemma_rendered_prefix(spans, k, spans.len() as int);
        let n = rendered_text(spans, k).len() as int;
        assert(content.take(n) =~= whole.take(n));
        assert(starts_char(content, n, rendered_bytes(spans, k)));
    }
    assert forall|i: int| 0 <= i < tokens.len() implies {
        let t = #[trigger] tokens[i];
        &&& t.start <= t.end
        &&& is_boundary(content, t.start as nat)
        &&& is_boundary(content, t.end as nat)
    } by {
        lemma_rendered_prefix(spans, i, i + 1);
        assert(is_boundary(content, rendered_bytes(spans, i)));
        assert(is_boundary(content, rendered_bytes(spans, i + 1)));
    }
    assert forall|i: int, j: int|
        #![trigger tokens[i], tokens[j]]
        0 <= i < j < tokens.len() implies tokens[i].end <= tokens[j].start by {
        lemma_rendered_prefix(spans, i + 1, j);
        assert(is_boundary(content, rendered_bytes(spans, i + 1)));
        assert(is_boundary(content, rendered_bytes(spans, j)));
    }
}

} // verus!
