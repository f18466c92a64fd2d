//! Text helpers: byte offsets, tab expansion, trimming, padding.
use vstd::prelude::*;
use vstd::utf8::*;

verus! {

/// `String::push` appends the character to the string.
pub assume_specification[ String::push ](s: &mut String, c: char)
    ensures
        final(s)@ == old(s)@.push(c),
;

/// `char::is_whitespace` tells whether the character has the Unicode
/// property `White_Space`; [`is_white_space`] lists those characters.
pub assume_specification[ char::is_whitespace ](c: char) -> (b: bool)
    ensures
        b == is_white_space(c),
;

/// The characters with the Unicode property `White_Space`.
pub open spec fn is_white_space(c: char) -> bool {
    let u = c as u32;
    ||| 0x09 <= u <= 0x0D
    ||| u == 0x20
    ||| u == 0x85
    ||| u == 0xA0
    ||| u == 0x1680
    ||| 0x2000 <= u <= 0x200A
    ||| u == 0x2028
    ||| u == 0x2029
    ||| u == 0x202F
    ||| u == 0x205F
    ||| u == 0x3000
}

/// How many bytes a character takes in UTF-8.
pub open spec fn char_bytes(c: char) -> nat {
    let u = c as u32;
    if u < 0x80 {
        1
    } else if u < 0x800 {
        2
    } else if u < 0x10000 {
        3
    } else {
        4
    }
}

/// How many bytes a text takes in UTF-8.
pub open spec fn byte_len(s: Seq<char>) -> nat
    decreases s.len(),
{
    if s.len() == 0 {
        0
    } else {
        byte_len(s.drop_last()) + char_bytes(s.last())
    }
}

pub proof fn lemma_byte_len_add(a: Seq<char>, b: Seq<char>)
    ensures
        byte_len(a + b) == byte_len(a) + byte_len(b),
    decreases b.len(),
{
    if b.len() == 0 {
        assert(a + b =~= a);
    } else {
        assert((a + b).drop_last() =~= a + b.drop_last());
        lemma_byte_len_add(a, b.drop_last());
    }
}

/// The byte length is that of the UTF-8 encoding.
pub proof fn lemma_byte_len_encoding(s: Seq<char>)
    ensures
        byte_len(s) == encode_utf8(s).len(),
    decreases s.len(),
{
    if s.len() > 0 {
        char_is_scalar(s[0]);
        lemma_byte_len_encoding(s.drop_first());
        assert(s =~= seq![s[0]] + s.drop_first());
        lemma_byte_len_add(seq![s[0]], s.drop_first());
        assert(seq![s[0]].drop_last() =~= Seq::<char>::empty());
        assert(byte_len(seq![s[0]]) == char_bytes(s[0])) by {
            assert(byte_len(seq![s[0]].drop_last()) == 0);
            assert(seq![s[0]].last() == s[0]);
        }
    }
}

/// A longer prefix takes more bytes.
pub proof fn lemma_byte_len_take(s: Seq<char>, i: int, j: int)
    requires
        0 <= i <= j <= s.len(),
    ensures
        byte_len(s.take(i)) + (j - i) <= byte_len(s.take(j)) <= byte_len(s),
        byte_len(s.take(j)) - byte_len(s.take(i)) == byte_len(s.subrange(i, j)),
    decreases j - i + s.len() - j,
{
    assert(s.take(i) + s.subrange(i, j) =~= s.take(j));
    lemma_byte_len_add(s.take(i), s.subrange(i, j));
    assert(s.take(j) + s.skip(j) =~= s);
    lemma_byte_len_add(s.take(j), s.skip(j));
    lemma_byte_len_at_least(s.subrange(i, j));
}

pub proof fn lemma_byte_len_at_least(s: Seq<char>)
    ensures
        s.len() <= byte_len(s),
    decreases s.len(),
{
    if s.len() > 0 {
        lemma_byte_len_at_least(s.drop_last());
    }
}

/// How many bytes `c` takes in UTF-8.
pub fn utf8_width(c: char) -> (n: usize)
    ensures
        n == char_bytes(c),
{
    let u: u32 = c as u32;
    if u < 0x80 {
        1
    } else if u < 0x800 {
        2
    } else if u < 0x10000 {
        3
    } else {
        4
    }
}

/// The characters of `s`.
pub fn to_chars(s: &str) -> (chars: Vec<char>)
    ensures
        chars@ == s@,
{
    let mut chars: Vec<char> = Vec::new();
    for c in it: s.chars()
        invariant
            chars@ == s@.take(it.index() as int),
            it.seq() == s@,
    {
        chars.push(c);
        assert(chars@ =~= s@.take(it.index() + 1));
    }
    assert(s@.take(s@.len() as int) =~= s@);
    chars
}

/// The text of the characters `from..to` of `chars`.
pub fn text_of(chars: &Vec<char>, from: usize, to: usize) -> (text: String)
    requires
        from <= to <= chars@.len(),
    ensures
        text@ == chars@.subrange(from as int, to as int),
{
    let mut text = String::new();
    let mut i: usize = from;
    assert(text@ =~= chars@.subrange(from as int, from as int));
    while i < to
        invariant
            from <= i <= to <= chars@.len(),
            text@ == chars@.subrange(from as int, i as int),
        decreases to - i,
    {
        text.push(chars[i]);
        assert(text@ =~= chars@.subrange(from as int, i + 1));
        i += 1;
    }
    text
}

/// How many bytes `s` takes in UTF-8.
pub fn len_in_bytes(s: &str) -> (n: usize)
    ensures
        n == byte_len(s@),
{
    proof {
        lemma_byte_len_encoding(s@);
    }
    s.as_bytes().len()
}

/// `n` blanks.
pub open spec fn blanks(n: nat) -> Seq<char> {
    Seq::new(n, |i: int| ' ')
}

/// `s` with every tab replaced by two blanks.
pub open spec fn expand_tabs(s: Seq<char>) -> Seq<char>
    decreases s.len(),
{
    if s.len() == 0 {
        Seq::empty()
    } else if s.last() == '\t' {
        expand_tabs(s.drop_last()) + blanks(2)
    } else {
        expand_tabs(s.drop_last()).push(s.last())
    }
}

/// Replaces every tab by two blanks.
pub fn tabs_to_spaces(s: &str) -> (text: String)
    ensures
        text@ == expand_tabs(s@),
{
    let mut text = String::new();
    for c in it: s.chars()
        invariant
            text@ == expand_tabs(s@.take(it.index() as int)),
            it.seq() == s@,
    {
        let ghost before = text@;
        assert(s@.take(it.index() + 1).drop_last() =~= s@.take(it.index() as int));
        if c == '\t' {
            text.push(' ');
            text.push(' ');
            assert(text@ =~= before + blanks(2));
        } else {
            text.push(c);
        }
    }
    assert(s@.take(s@.len() as int) =~= s@);
    text
}

/// How many leading characters of `s` fit into `offset` bytes.
pub open spec fn hidden_chars(s: Seq<char>, offset: nat) -> nat
    decreases s.len(),
{
    if s.len() > 0 && char_bytes(s[0]) <= offset {
        1 + hidden_chars(s.drop_first(), (offset - char_bytes(s[0])) as nat)
    } else {
        0
    }
}

/// What is left of `s` once `offset` bytes were scrolled out to the left. A
/// character that is scrolled out in part stays.
pub open spec fn scrolled_text(s: Seq<char>, offset: nat) -> Seq<char> {
    s.skip(hidden_chars(s, offset) as int)
}

pub proof fn lemma_hidden_chars(s: Seq<char>, offset: nat)
    ensures
        hidden_chars(s, offset) <= s.len(),
        byte_len(s.take(hidden_chars(s, offset) as int)) <= offset,
    decreases s.len(),
{
    if s.len() > 0 && char_bytes(s[0]) <= offset {
        let rest = s.drop_first();
        let left = (offset - char_bytes(s[0])) as nat;
        lemma_hidden_chars(rest, left);
        let n = hidden_chars(rest, left) as int;
        assert(s.take(n + 1) =~= seq![s[0]] + rest.take(n));
        lemma_byte_len_add(seq![s[0]], rest.take(n));
        assert(byte_len(seq![s[0]]) == char_bytes(s[0])) by {
            assert(seq![s[0]].drop_last() =~= Seq::<char>::empty());
            assert(byte_len(seq![s[0]].drop_last()) == 0);
            assert(seq![s[0]].last() == s[0]);
        }
    } else {
        assert(s.take(0) =~= Seq::<char>::empty());
    }
}

/// How many leading characters are scrolled out at `offset`.
pub fn count_hidden_chars(chars: &Vec<char>, offset: usize) -> (n: usize)
    ensures
        n == hidden_chars(chars@, offset as nat),
        n <= chars@.len(),
{
    let mut n: usize = 0;
    let mut left: usize = offset;
    assert(chars@.skip(0) =~= chars@);
    while n < chars.len() && utf8_width(chars[n]) <= left
        invariant
            n <= chars@.len(),
            hidden_chars(chars@, offset as nat) == n + hidden_chars(
                chars@.skip(n as int),
                left as nat,
            ),
        decreases chars@.len() - n,
    {
        assert(chars@.skip(n as int).drop_first() =~= chars@.skip(n + 1));
        left = left - utf8_width(chars[n]);
        n += 1;
    }
    n
}

/// Trims `offset` bytes from the left.
pub fn trim_offset(s: &str, offset: usize) -> (text: String)
    ensures
        text@ == scrolled_text(s@, offset as nat),
{
    let chars = to_chars(s);
    let n = count_hidden_chars(&chars, offset);
    let text = text_of(&chars, n, chars.len());
    assert(text@ =~= scrolled_text(s@, offset as nat));
    text
}

/// `s` without the leading characters in `set`.
pub open spec fn strip_start(s: Seq<char>, set: spec_fn(char) -> bool) -> Seq<char>
    decreases s.len(),
{
    if s.len() > 0 && set(s[0]) {
        strip_start(s.drop_first(), set)
    } else {
        s
    }
}

/// `s` without the trailing characters in `set`.
pub open spec fn strip_end(s: Seq<char>, set: spec_fn(char) -> bool) -> Seq<char>
    decreases s.len(),
{
    if s.len() > 0 && set(s.last()) {
        strip_end(s.drop_last(), set)
    } else {
        s
    }
}

/// Line feed and carriage return.
pub open spec fn line_ends() -> spec_fn(char) -> bool {
    |c: char| c == '\n' || c == '\r'
}

/// The white-space characters.
pub open spec fn white_space() -> spec_fn(char) -> bool {
    |c: char| is_white_space(c)
}

/// `s` without white space at its ends.
pub open spec fn trimmed(s: Seq<char>) -> Seq<char> {
    strip_end(strip_start(s, white_space()), white_space())
}

/// `s` without line ends at its ends.
pub open spec fn without_line_ends(s: Seq<char>) -> Seq<char> {
    strip_end(strip_start(s, line_ends()), line_ends())
}

/// Removes line feeds and carriage returns from the end of `s`.
pub fn trim_line_end(s: &str) -> (text: String)
    ensures
        text@ == strip_end(s@, line_ends()),
{
    let chars = to_chars(s);
    let mut n: usize = chars.len();
    assert(s@.take(n as int) =~= s@);
    while n > 0 && (chars[n - 1] == '\n' || chars[n - 1] == '\r')
        invariant
            n <= chars@.len(),
            chars@ == s@,
            strip_end(s@.take(n as int), line_ends()) == strip_end(s@, line_ends()),
        decreases n,
    {
        assert(s@.take(n as int).drop_last() =~= s@.take(n - 1));
        n -= 1;
    }
    let text = text_of(&chars, 0, n);
    assert(text@ =~= s@.take(n as int));
    text
}

/// Removes line feeds and carriage returns from both ends of `s`.
pub fn trim_line_ends(s: &str) -> (text: String)
    ensures
        text@ == without_line_ends(s@),
{
    let chars = to_chars(s);
    let mut n: usize = 0;
    assert(s@.skip(0) =~= s@);
    while n < chars.len() && (chars[n] == '\n' || chars[n] == '\r')
        invariant
            n <= chars@.len(),
            chars@ == s@,
            strip_start(s@.skip(n as int), line_ends()) == strip_start(s@, line_ends()),
        decreases chars@.len() - n,
    {
        assert(s@.skip(n as int).drop_first() =~= s@.skip(n + 1));
        n += 1;
    }
    let rest = text_of(&chars, n, chars.len());
    assert(rest@ =~= s@.skip(n as int));
    trim_line_end(rest.as_str())
}

/// Removes white space from both ends of `s`.
pub fn trim(s: &str) -> (text: String)
    ensures
        text@ == trimmed(s@),
{
    let chars = to_chars(s);
    let mut from: usize = 0;
    assert(s@.skip(0) =~= s@);
    while from < chars.len() && chars[from].is_whitespace()
        invariant
            from <= chars@.len(),
            chars@ == s@,
            strip_start(s@.skip(from as int), white_space()) == strip_start(s@, white_space()),
        decreases chars@.len() - from,
    {
        assert(s@.skip(from as int).drop_first() =~= s@.skip(from + 1));
        from += 1;
    }
    let ghost rest = s@.skip(from as int);
    let mut to: usize = chars.len();
    assert(rest.take(to - from) =~= rest);
    while to > from && chars[to - 1].is_whitespace()
        invariant
            from <= to <= chars@.len(),
            chars@ == s@,
            rest == s@.skip(from as int),
            strip_end(rest.take(to - from), white_space()) == strip_end(rest, white_space()),
        decreases to,
    {
        assert(rest.take(to - from).drop_last() =~= rest.take(to - from - 1));
        to -= 1;
    }
    let text = text_of(&chars, from, to);
    assert(text@ =~= rest.take(to - from));
    text
}

/// `s`, filled up with blanks to `width` characters.
pub open spec fn padded(s: Seq<char>, width: nat) -> Seq<char> {
    s + blanks((if s.len() < width { width - s.len() } else { 0 }) as nat)
}

/// Appends `n` blanks.
pub fn push_blanks(text: &mut String, n: usize)
    ensures
        final(text)@ == old(text)@ + blanks(n as nat),
{
    let mut i: usize = 0;
    assert(text@ + blanks(0) =~= text@);
    while i < n
        invariant
            i <= n,
            text@ == old(text)@ + blanks(i as nat),
        decreases n - i,
    {
        text.push(' ');
        assert(text@ =~= old(text)@ + blanks((i + 1) as nat));
        i += 1;
    }
}

/// Fills `s` up with blanks to `width` characters.
pub fn pad(s: &str, width: usize) -> (text: String)
    ensures
        text@ == padded(s@, width as nat),
{
    let len: usize = s.unicode_len();
    let mut text = s.to_owned();
    push_blanks(&mut text, width.saturating_sub(len));
    text
}

/// `n` blanks as a string.
pub fn blank_text(n: usize) -> (text: String)
    ensures
        text@ == blanks(n as nat),
{
    let mut text = String::new();
    push_blanks(&mut text, n);
    assert(text@ =~= blanks(n as nat));
    text
}

/// Whether byte offset `at` of `s` lies between two characters, and which
/// character starts there.
pub open spec fn starts_char(s: Seq<char>, i: int, at: nat) -> bool {
    0 <= i <= s.len() && byte_len(s.take(i)) == at
}

/// The text of the bytes `from..to` of `s`, where both are character
/// boundaries in order.
pub open spec fn byte_slice(s: Seq<char>, from: nat, to: nat) -> Option<Seq<char>> {
    if exists|i: int, j: int|
        i <= j && #[trigger] starts_char(s, i, from) && #[trigger] starts_char(s, j, to) {
        let (i, j) = choose|i: int, j: int|
            i <= j && #[trigger] starts_char(s, i, from) && #[trigger] starts_char(s, j, to);
        Some(s.subrange(i, j))
    } else {
        None
    }
}

pub proof fn lemma_starts_char_unique(s: Seq<char>, i: int, j: int, at: nat)
    requires
        starts_char(s, i, at),
        starts_char(s, j, at),
    ensures
        i == j,
{
    if i < j {
        lemma_byte_len_take(s, i, j);
    } else if j < i {
        lemma_byte_len_take(s, j, i);
    }
}

pub proof fn lemma_byte_slice(s: Seq<char>, i: int, j: int, from: nat, to: nat)
    requires
        i <= j,
        starts_char(s, i, from),
        starts_char(s, j, to),
    ensures
        byte_slice(s, from, to) == Some(s.subrange(i, j)),
{
    let (a, b) = choose|a: int, b: int|
        a <= b && #[trigger] starts_char(s, a, from) && #[trigger] starts_char(s, b, to);
    lemma_starts_char_unique(s, i, a, from);
    lemma_starts_char_unique(s, j, b, to);
}

/// The character that starts at byte offset `at`.
pub fn char_at_byte(chars: &Vec<char>, at: usize) -> (found: Option<usize>)
    ensures
        found matches Some(i) ==> starts_char(chars@, i as int, at as nat),
        found is None ==> forall|i: int| !#[trigger] starts_char(chars@, i, at as nat),
{
    let mut i: usize = 0;
    let mut pos: usize = 0;
    assert(chars@.take(0) =~= Seq::<char>::empty());
    loop
        invariant
            i <= chars@.len(),
            pos <= at,
            pos == byte_len(chars@.take(i as int)),
            forall|k: int| 0 <= k < i ==> !#[trigger] starts_char(chars@, k, at as nat),
        decreases chars@.len() - i,
    {
        if pos == at {
            return Some(i);
        }
        if i == chars.len() {
            return None;
        }
        let w = utf8_width(chars[i]);
        proof {
            assert(chars@.take(i + 1).drop_last() =~= chars@.take(i as int));
        }
        if w > at - pos {
            proof {
                assert forall|k: int| !#[trigger] starts_char(chars@, k, at as nat) by {
                    if i < k <= chars@.len() {
                        lemma_byte_len_take(chars@, i + 1, k);
                    }
                }
            }
            return None;
        }
        pos = pos + w;
        i += 1;
    }
}

/// The text of the bytes `from..to`, or `None` where an end does not fall
/// between two characters or the ends are out of order.
pub fn slice_bytes(chars: &Vec<char>, from: usize, to: usize) -> (text: Option<String>)
    ensures
        text is Some <==> byte_slice(chars@, from as nat, to as nat) is Some,
        text matches Some(t) ==> Some(t@) == byte_slice(chars@, from as nat, to as nat),
{
    match (char_at_byte(chars, from), char_at_byte(chars, to)) {
        (Some(i), Some(j)) => {
            if i <= j {
                proof {
                    lemma_byte_slice(chars@, i as int, j as int, from as nat, to as nat);
                }
                Some(text_of(chars, i, j))
            } else {
                proof {
                    assert forall|a: int, b: int|
                        #[trigger] starts_char(chars@, a, from as nat) && #[trigger] starts_char(
                            chars@,
                            b,
                            to as nat,
                        ) implies a > b by {
                        lemma_starts_char_unique(chars@, a, i as int, from as nat);
                        lemma_starts_char_unique(chars@, b, j as int, to as nat);
                    }
                }
                None
            }
        },
        _ => None,
    }
}

} // verus!
