//! Highlighting: both sides of a diff, put together and mapped back.
#![allow(unused_imports)]
use vstd::prelude::*;
use vstd::utf8::encode_utf8;

use crate::diff::DiffLineType;
use crate::highlight::{
    as_text, build_highlight, highlight_side, highlight_view, highlight_views, reconstruct_sides,
    rendered_bytes, rendered_text, side_index, side_lines, token_lists, AsyncDiffHighlightJob,
    JobState, RenderedSpan, SideTexts,
};
use crate::laws::lists::{lemma_list_of_none, lemma_list_step, lists};
use crate::render::{LineHighlight, Token};
use crate::text::{expand_tabs, lemma_byte_len_add, lemma_byte_len_encoding, line_ends, strip_end};

verus! {

/// The lines that stand on the new side: additions and context.
pub open spec fn on_new_side(lines: Seq<(String, DiffLineType)>) -> spec_fn(int) -> bool {
    |i: int| lines[i].1 == DiffLineType::Add || lines[i].1 == DiffLineType::Context
}

/// The lines that stand on the old side: deletions and context.
pub open spec fn on_old_side(lines: Seq<(String, DiffLineType)>) -> spec_fn(int) -> bool {
    |i: int| lines[i].1 == DiffLineType::Delete || lines[i].1 == DiffLineType::Context
}

/// The lines at the given numbers as they stand in a file: without tabs and line
/// ends.
pub open spec fn sources(lines: Seq<(String, DiffLineType)>, at: Seq<int>) -> Seq<Seq<char>> {
    Seq::new(at.len(), |j: int| strip_end(expand_tabs(lines[at[j]].0@), line_ends()))
}

proof fn lemma_side(
    lines: Seq<(String, DiffLineType)>,
    new_side: bool,
    at: Seq<int>,
    n: int,
    p: spec_fn(int) -> bool,
)
    requires
        0 <= n <= lines.len(),
        lists(at, n, p),
        p == (if new_side {
            on_new_side(lines)
        } else {
            on_old_side(lines)
        }),
    ensures
        side_lines(lines, new_side, n) == sources(lines, at),
        forall|j: int|
            0 <= j < at.len() ==> side_index(lines, new_side, #[trigger] at[j]) == j,
    decreases n,
{
    if n == 0 {
        lemma_list_of_none(at, p);
    } else {
        lemma_list_step(at, n, p);
        let before = if p(n - 1) {
            at.drop_last()
        } else {
            at
        };
        lemma_side(lines, new_side, before, n - 1, p);
        assert forall|j: int| 0 <= j < at.len() implies side_index(
            lines,
            new_side,
            #[trigger] at[j],
        ) == j by {
            if j < before.len() {
                assert(before[j] == at[j]);
            }
        }
    }
    assert(side_lines(lines, new_side, n) =~= sources(lines, at));
}

/// The text of a side holds, in the order of the diff, exactly the lines that
/// stand on that side, each ended by a line feed: additions and context on the
/// new side, deletions and context on the old one.
pub proof fn law_each_side_is_put_together_from_its_lines(
    lines: Vec<(String, DiffLineType)>,
    texts: SideTexts,
    new_at: Seq<int>,
    old_at: Seq<int>,
)
    requires
        call_ensures(reconstruct_sides, (&lines,), texts),
        lists(new_at, lines@.len() as int, on_new_side(lines@)),
        lists(old_at, lines@.len() as int, on_old_side(lines@)),
    ensures
        texts.new_text@ == as_text(sources(lines@, new_at)),
        texts.old_text@ == as_text(sources(lines@, old_at)),
{
    lemma_side(lines@, true, new_at, lines@.len() as int, on_new_side(lines@));
    lemma_side(lines@, false, old_at, lines@.len() as int, on_old_side(lines@));
}

/// Lines make up a text one behind the other, each ended by a line feed.
pub proof fn law_lines_make_up_a_text(front: Seq<Seq<char>>, back: Seq<Seq<char>>)
    ensures
        as_text(Seq::empty()).len() == 0,
        front.len() == 1 ==> as_text(front) == front[0].push('\n'),
        as_text(front + back) == as_text(front) + as_text(back),
    decreases back.len(),
{
    if front.len() == 1 {
        assert(front.drop_last() =~= Seq::<Seq<char>>::empty());
        assert(as_text(front.drop_last()) =~= Seq::<char>::empty());
        assert(as_text(front) =~= front[0].push('\n'));
    }
    if back.len() == 0 {
        assert(front + back =~= front);
        assert(as_text(front) + as_text(back) =~= as_text(front));
    } else {
        law_lines_make_up_a_text(front, back.drop_last());
        assert((front + back).drop_last() =~= front + back.drop_last());
        assert(as_text(front + back) =~= as_text(front) + as_text(back));
    }
}

/// The tokens of a line of a side, if it has any.
pub open spec fn tokens_of(side: Seq<LineHighlight>, j: int) -> Option<Seq<Token>> {
    if j < side.len() {
        Some(side[j]@)
    } else {
        None
    }
}

/// Every line of the diff gets the highlight of the very line that it became on
/// its side: an addition or a context line that of the new side, a deletion that
/// of the old side, a header none. There is one entry for each line.
pub proof fn law_each_line_gets_the_highlight_of_its_source(
    lines: Vec<(String, DiffLineType)>,
    new_hl: Vec<LineHighlight>,
    old_hl: Vec<LineHighlight>,
    highlights: Vec<Option<LineHighlight>>,
    new_at: Seq<int>,
    old_at: Seq<int>,
)
    requires
        call_ensures(build_highlight, (&lines, &new_hl, &old_hl), highlights),
        lists(new_at, lines@.len() as int, on_new_side(lines@)),
        lists(old_at, lines@.len() as int, on_old_side(lines@)),
    ensures
        highlights@.len() == lines@.len(),
        forall|j: int|
            0 <= j < new_at.len() ==> highlight_view(highlights@[#[trigger] new_at[j]])
                == tokens_of(new_hl@, j),
        forall|j: int|
            0 <= j < old_at.len() && lines@[#[trigger] old_at[j]].1 == DiffLineType::Delete
                ==> highlight_view(highlights@[old_at[j]]) == tokens_of(old_hl@, j),
        forall|i: int|
            0 <= i < lines@.len() && (#[trigger] lines@[i]).1 == DiffLineType::Header
                ==> highlights@[i] is None,
{
    let n = lines@.len() as int;
    assert(lines.len() <= usize::MAX);
    let views = highlight_views(highlights@);
    assert(views.len() == highlights@.len());
    lemma_side(lines@, true, new_at, n, on_new_side(lines@));
    lemma_side(lines@, false, old_at, n, on_old_side(lines@));
    lemma_list_is_short(new_at, n, on_new_side(lines@));
    lemma_list_is_short(old_at, n, on_old_side(lines@));
    assert forall|i: int| 0 <= i < n implies highlight_view(#[trigger] highlights@[i])
        == views[i] by {}
    assert forall|j: int| 0 <= j < new_at.len() implies highlight_view(
        highlights@[#[trigger] new_at[j]],
    ) == tokens_of(new_hl@, j) by {
        assert(on_new_side(lines@)(new_at[j]));
        assert(views[new_at[j]] == highlight_view(highlights@[new_at[j]]));
    }
    assert forall|j: int|
        0 <= j < old_at.len() && lines@[#[trigger] old_at[j]].1
            == DiffLineType::Delete implies highlight_view(highlights@[old_at[j]]) == tokens_of(
        old_hl@,
        j,
    ) by {
        assert(views[old_at[j]] == highlight_view(highlights@[old_at[j]]));
    }
    assert forall|i: int|
        0 <= i < n && (#[trigger] lines@[i]).1
            == DiffLineType::Header implies highlights@[i] is None by {
        assert(views[i] == highlight_view(highlights@[i]));
    }
}

proof fn lemma_list_is_short(at: Seq<int>, n: int, p: spec_fn(int) -> bool)
    requires
        0 <= n,
        lists(at, n, p),
    ensures
        at.len() <= n,
    decreases n,
{
    if n == 0 {
        lemma_list_of_none(at, p);
    } else {
        lemma_list_step(at, n, p);
        if p(n - 1) {
            lemma_list_is_short(at.drop_last(), n - 1, p);
        } else {
            lemma_list_is_short(at, n - 1, p);
        }
    }
}

/// What the highlighter made of a side is taken line by line and span by span:
/// the tokens of a line stand one behind the other from its first byte on, each
/// as long as the text of its span and in its style. There are none for an empty
/// text, or where the highlighter failed.
pub proof fn law_tokens_follow_the_spans(
    text: &str,
    rendered: Option<Vec<Vec<RenderedSpan>>>,
    highlights: Vec<LineHighlight>,
    i: int,
    k: int,
)
    requires
        rendered matches Some(lines) ==> forall|j: int|
            0 <= j < lines@.len() ==> rendered_bytes(
                (#[trigger] lines@[j])@,
                lines@[j]@.len() as int,
            ) <= usize::MAX,
        call_ensures(highlight_side, (text, &rendered), highlights),
    ensures
        text@.len() == 0 || rendered is None ==> highlights@.len() == 0,
        text@.len() > 0 && rendered is Some ==> highlights@.len() == rendered->0@.len(),
        text@.len() > 0 && rendered is Some && 0 <= i < highlights@.len() ==> {
            let spans = rendered->0@[i]@;
            let tokens = highlights@[i]@;
            &&& tokens.len() == spans.len()
            &&& 0 <= k < tokens.len() ==> {
                &&& tokens[k].style == spans[k].style
                &&& tokens[k].end - tokens[k].start == encode_utf8(spans[k].text@).len()
                &&& tokens[k].start == (if k == 0 {
                    0
                } else {
                    tokens[k - 1].end
                })
            }
        },
{
    assert(token_lists(highlights@).len() == highlights@.len());
    if text@.len() > 0 && rendered is Some && 0 <= i < highlights@.len() {
        let spans = rendered->0@[i]@;
        assert(token_lists(highlights@)[i] == highlights@[i]@);
        if 0 <= k < spans.len() {
            lemma_byte_len_encoding(spans[k].text@);
            lemma_byte_len_add(rendered_text(spans, k), spans[k].text@);
            lemma_rendered_bytes(spans, k + 1, spans.len() as int);
        }
    }
}

proof fn lemma_rendered_bytes(spans: Seq<RenderedSpan>, m: int, n: int)
    requires
        0 <= m <= n <= spans.len(),
    ensures
        rendered_bytes(spans, m) <= rendered_bytes(spans, n),
    decreases n - m,
{
    if m < n {
        lemma_rendered_bytes(spans, m, n - 1);
        lemma_byte_len_add(rendered_text(spans, n - 1), spans[n - 1].text@);
    }
}

/// A job asks for the texts of its own lines, and once it has run it holds the
/// highlights of these lines under the hash that it was made for.
pub proof fn law_a_job_answers_for_its_own_diff(
    job: &mut AsyncDiffHighlightJob,
    hash: u64,
    lines: Vec<(String, DiffLineType)>,
    path: String,
    theme: String,
    new_hl: Vec<LineHighlight>,
    old_hl: Vec<LineHighlight>,
    wanted: Option<SideTexts>,
    texts: SideTexts,
    highlights: Vec<Option<LineHighlight>>,
)
    requires
        call_ensures(AsyncDiffHighlightJob::new, (hash, lines, path, theme), *old(job)),
        call_ensures(AsyncDiffHighlightJob::side_texts, (&*old(job),), wanted),
        call_ensures(reconstruct_sides, (&lines,), texts),
        call_ensures(AsyncDiffHighlightJob::run, (job, &new_hl, &old_hl), ()),
        call_ensures(build_highlight, (&lines, &new_hl, &old_hl), highlights),
    ensures
        wanted matches Some(wanted) && wanted.new_text@ == texts.new_text@ && wanted.old_text@
            == texts.old_text@ && wanted.sides@ == texts.sides@,
        final(job).state matches Some(JobState::Response { hash: its_hash, result }) && its_hash
            == hash && highlight_views(result@) == highlight_views(highlights@),
{
}

/// A finished job hands out its result once; any other hands out nothing and
/// stays as it is. A finished job that is run again stays finished.
pub proof fn law_a_result_is_handed_out_once(
    job: &mut AsyncDiffHighlightJob,
    finished: Option<(u64, Vec<Option<LineHighlight>>)>,
    other: &mut AsyncDiffHighlightJob,
    new_hl: Vec<LineHighlight>,
    old_hl: Vec<LineHighlight>,
)
    requires
        call_ensures(AsyncDiffHighlightJob::result, (job,), finished),
        call_ensures(AsyncDiffHighlightJob::run, (other, &new_hl, &old_hl), ()),
        !(old(other).state matches Some(JobState::Request { .. })),
    ensures
        old(job).state matches Some(JobState::Response { hash, result }) ==> finished == Some(
            (hash, result),
        ) && final(job).state is None,
        !(old(job).state matches Some(JobState::Response { .. })) ==> finished is None && final(job).state == old(job).state,
        final(other).state == old(other).state,
{
}

} // verus!
