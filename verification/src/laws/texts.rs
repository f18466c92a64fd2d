//! Texts: tabs, line ends, white space, scrolling and filling up.
#![allow(unused_imports)]
use vstd::prelude::*;
use vstd::utf8::encode_utf8;

use crate::diff_actions::joined_lines;
use crate::text::{
    blanks, byte_len, char_bytes, expand_tabs, hidden_chars, is_white_space, lemma_byte_len_add,
    lemma_byte_len_encoding, line_ends, pad, strip_end, strip_start, tabs_to_spaces, trim,
    trim_line_end, trim_line_ends, trim_offset, white_space,
};

verus! {

proof fn lemma_expand_add(a: Seq<char>, b: Seq<char>)
    ensures
        expand_tabs(a + b) == expand_tabs(a) + expand_tabs(b),
    decreases b.len(),
{
    if b.len() == 0 {
        assert(a + b =~= a);
        assert(expand_tabs(a) + expand_tabs(b) =~= expand_tabs(a));
    } else {
        lemma_expand_add(a, b.drop_last());
        assert((a + b).drop_last() =~= a + b.drop_last());
        assert(expand_tabs(a + b) =~= expand_tabs(a) + expand_tabs(b));
    }
}

/// Tabs are expanded piece by piece, whatever stands around them: each becomes
/// two blanks, and every other character stays.
pub proof fn law_each_tab_becomes_two_blanks(
    whole: &str,
    front: &str,
    back: &str,
    of_whole: String,
    of_front: String,
    of_back: String,
)
    requires
        call_ensures(tabs_to_spaces, (whole,), of_whole),
        call_ensures(tabs_to_spaces, (front,), of_front),
        call_ensures(tabs_to_spaces, (back,), of_back),
        whole@ == front@ + back@,
    ensures
        of_whole@ == of_front@ + of_back@,
        whole@.len() == 0 ==> of_whole@.len() == 0,
        whole@ == seq!['\t'] ==> of_whole@ == seq![' ', ' '],
        whole@.len() == 1 && whole@[0] != '\t' ==> of_whole@ == whole@,
{
    lemma_expand_add(front@, back@);
    if whole@.len() == 1 {
        assert(whole@.drop_last() =~= Seq::<char>::empty());
        assert(expand_tabs(whole@.drop_last()) =~= Seq::<char>::empty());
        if whole@[0] == '\t' {
            assert(of_whole@ =~= seq![' ', ' ']);
        } else {
            assert(of_whole@ =~= whole@);
        }
    }
}

/// Whether `part` is what is left of `s` from character `from` to character
/// `to`, everything outside is in `set`, and what is left neither starts nor
/// ends with anything in `set`, as far as that end was stripped.
pub open spec fn is_stripped(
    s: Seq<char>,
    part: Seq<char>,
    from: int,
    to: int,
    set: spec_fn(char) -> bool,
) -> bool {
    &&& 0 <= from <= to <= s.len()
    &&& part == s.subrange(from, to)
    &&& forall|i: int| (0 <= i < from || to <= i < s.len()) ==> set(#[trigger] s[i])
    &&& part.len() > 0 ==> !set(part.last())
}

proof fn lemma_strip_start(s: Seq<char>, set: spec_fn(char) -> bool) -> (from: int)
    ensures
        0 <= from <= s.len(),
        strip_start(s, set) == s.skip(from),
        forall|i: int| 0 <= i < from ==> set(#[trigger] s[i]),
        from < s.len() ==> !set(s[from]),
    decreases s.len(),
{
    if s.len() > 0 && set(s[0]) {
        let rest = s.drop_first();
        let n = lemma_strip_start(rest, set);
        assert(rest.skip(n) =~= s.skip(n + 1));
        assert forall|i: int| 0 <= i < n + 1 implies set(#[trigger] s[i]) by {
            if i > 0 {
                assert(rest[i - 1] == s[i]);
            }
        }
        n + 1
    } else {
        assert(s.skip(0) =~= s);
        0
    }
}

proof fn lemma_strip_end(s: Seq<char>, set: spec_fn(char) -> bool) -> (to: int)
    ensures
        0 <= to <= s.len(),
        strip_end(s, set) == s.take(to),
        forall|i: int| to <= i < s.len() ==> set(#[trigger] s[i]),
        to > 0 ==> !set(s[to - 1]),
    decreases s.len(),
{
    if s.len() > 0 && set(s.last()) {
        let rest = s.drop_last();
        let n = lemma_strip_end(rest, set);
        assert(rest.take(n) =~= s.take(n));
        assert forall|i: int| n <= i < s.len() implies set(#[trigger] s[i]) by {
            if i < s.len() - 1 {
                assert(rest[i] == s[i]);
            }
        }
        n
    } else {
        assert(s.take(s.len() as int) =~= s);
        s.len() as int
    }
}

/// Where the text between the stripped ends lies.
pub proof fn lemma_strip_both(s: Seq<char>, set: spec_fn(char) -> bool) -> (ends: (int, int))
    ensures
        is_stripped(s, strip_end(strip_start(s, set), set), ends.0, ends.1, set),
        ends.0 < ends.1 ==> !set(s[ends.0]),
{
    let from = lemma_strip_start(s, set);
    let rest = s.skip(from);
    let n = lemma_strip_end(rest, set);
    assert(rest.take(n) =~= s.subrange(from, from + n));
    assert forall|i: int| from + n <= i < s.len() implies set(#[trigger] s[i]) by {
        assert(rest[i - from] == s[i]);
    }
    (from, from + n)
}

/// Line feeds and carriage returns.
pub open spec fn is_line_end() -> spec_fn(char) -> bool {
    |c: char| c == '\n' || c == '\r'
}

proof fn lemma_line_ends()
    ensures
        forall|c: char| #[trigger] line_ends()(c) == is_line_end()(c),
{
}

/// Trimming line ends takes line feeds and carriage returns from both ends,
/// all of them, and nothing else.
pub proof fn law_line_ends_are_trimmed_and_no_more(s: &str, text: String)
    requires
        call_ensures(trim_line_ends, (s,), text),
    ensures
        exists|from: int, to: int|
            #[trigger] is_stripped(s@, text@, from, to, is_line_end()) && (text@.len() > 0
                ==> !is_line_end()(text@[0])),
{
    let (from, to) = lemma_strip_both(s@, line_ends());
    lemma_line_ends();
    assert(is_stripped(s@, text@, from, to, is_line_end()));
}

/// Trimming the line end takes line feeds and carriage returns from the end
/// alone, all of them, and nothing else.
pub proof fn law_the_line_end_is_trimmed_and_no_more(s: &str, text: String)
    requires
        call_ensures(trim_line_end, (s,), text),
    ensures
        exists|to: int| #[trigger] is_stripped(s@, text@, 0, to, is_line_end()),
{
    let to = lemma_strip_end(s@, line_ends());
    lemma_line_ends();
    assert(text@ =~= s@.subrange(0, to));
    assert(is_stripped(s@, text@, 0, to, is_line_end()));
}

/// The white-space characters.
pub open spec fn is_white() -> spec_fn(char) -> bool {
    |c: char| is_white_space(c)
}

/// Trimming takes white space from both ends, all of it, and nothing else.
pub proof fn law_white_space_is_trimmed_and_no_more(s: &str, text: String)
    requires
        call_ensures(trim, (s,), text),
    ensures
        exists|from: int, to: int|
            #[trigger] is_stripped(s@, text@, from, to, is_white()) && (
            text@.len() > 0 ==> !is_white_space(text@[0])),
{
    let (from, to) = lemma_strip_both(s@, white_space());
    assert(is_stripped(s@, text@, from, to, is_white()));
}

proof fn lemma_hidden_most(s: Seq<char>, offset: nat)
    ensures
        hidden_chars(s, offset) <= s.len(),
        byte_len(s.take(hidden_chars(s, offset) as int)) <= offset,
        hidden_chars(s, offset) < s.len() ==> byte_len(s.take(hidden_chars(s, offset) as int + 1))
            > offset,
    decreases s.len(),
{
    let n = hidden_chars(s, offset) as int;
    assert(s.take(0) =~= Seq::<char>::empty());
    if s.len() > 0 {
        let first = seq![s[0]];
        assert(first.drop_last() =~= Seq::<char>::empty());
        assert(byte_len(first) == char_bytes(s[0])) by {
            assert(byte_len(first.drop_last()) == 0);
            assert(first.last() == s[0]);
        }
        if char_bytes(s[0]) <= offset {
            let rest = s.drop_first();
            let left = (offset - char_bytes(s[0])) as nat;
            lemma_hidden_most(rest, left);
            assert(s.take(n) =~= first + rest.take(n - 1));
            lemma_byte_len_add(first, rest.take(n - 1));
            if n < s.len() {
                assert(s.take(n + 1) =~= first + rest.take(n));
                lemma_byte_len_add(first, rest.take(n));
            }
        } else {
            assert(s.take(1) =~= first);
        }
    }
}

/// Scrolling takes leading characters away, as many as fit into the given
/// number of bytes.
pub proof fn law_scrolling_hides_the_most_that_fits(s: &str, offset: usize, text: String)
    requires
        call_ensures(trim_offset, (s, offset), text),
    ensures
        text@.len() <= s@.len(),
        ({
            let n = s@.len() - text@.len();
            &&& text@ == s@.skip(n)
            &&& encode_utf8(s@.take(n)).len() <= offset
            &&& n < s@.len() ==> encode_utf8(s@.take(n + 1)).len() > offset
        }),
{
    lemma_hidden_most(s@, offset as nat);
    let n = hidden_chars(s@, offset as nat) as int;
    lemma_byte_len_encoding(s@.take(n));
    if n < s@.len() {
        lemma_byte_len_encoding(s@.take(n + 1));
    }
}

/// Filling up keeps the text, puts blanks behind it, and no more than it takes
/// to reach the width.
pub proof fn law_filling_up_adds_blanks_up_to_the_width(s: &str, width: usize, text: String)
    requires
        call_ensures(pad, (s, width), text),
    ensures
        text@.len() == (if s@.len() < width {
            width as nat
        } else {
            s@.len()
        }),
        text@.take(s@.len() as int) == s@,
        forall|i: int| s@.len() <= i < text@.len() ==> #[trigger] text@[i] == ' ',
{
    assert(text@.take(s@.len() as int) =~= s@);
}

/// Lines are joined in their order, with a line feed between each two and
/// nowhere else.
pub proof fn law_lines_are_joined_by_line_feeds(front: Seq<Seq<char>>, back: Seq<Seq<char>>)
    ensures
        joined_lines(Seq::empty()).len() == 0,
        front.len() == 1 ==> joined_lines(front) == front[0],
        front.len() > 0 && back.len() > 0 ==> joined_lines(front + back) == joined_lines(front)
            + seq!['\n'] + joined_lines(back),
    decreases back.len(),
{
    if front.len() > 0 && back.len() > 0 {
        let all = front + back;
        assert(all.drop_last() =~= front + back.drop_last());
        law_lines_are_joined_by_line_feeds(front, back.drop_last());
        if back.len() == 1 {
            assert(front + back.drop_last() =~= front);
        }
        assert(joined_lines(all) =~= joined_lines(front) + seq!['\n'] + joined_lines(back));
    }
}

} // verus!
