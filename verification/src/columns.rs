//! Text measured in terminal columns.
use unicode_segmentation::UnicodeSegmentation;
use unicode_truncate::UnicodeTruncateStr;
use unicode_width::UnicodeWidthStr;
use vstd::prelude::*;

verus! {

/// How many terminal columns a text takes, as `unicode_width` measures it.
pub uninterp spec fn display_columns(s: Seq<char>) -> usize;

/// The extended grapheme clusters of a text, as `unicode_segmentation` finds
/// them.
pub uninterp spec fn grapheme_clusters(s: Seq<char>) -> Seq<Seq<char>>;

/// The views of a list of strings.
pub open spec fn texts(list: Seq<String>) -> Seq<Seq<char>> {
    Seq::new(list.len(), |i: int| list[i]@)
}

/// The texts of `parts`, one behind the other.
pub open spec fn joined(parts: Seq<Seq<char>>) -> Seq<char>
    decreases parts.len(),
{
    if parts.len() == 0 {
        Seq::empty()
    } else {
        joined(parts.drop_last()) + parts.last()
    }
}

/// The columns of `parts`, each measured on its own.
pub open spec fn sum_of_columns(parts: Seq<Seq<char>>) -> nat
    decreases parts.len(),
{
    if parts.len() == 0 {
        0
    } else {
        sum_of_columns(parts.drop_last()) + display_columns(parts.last()) as nat
    }
}

/// How many leading `parts` fit into `max` columns.
pub open spec fn fitting(parts: Seq<Seq<char>>, max: nat) -> nat
    decreases parts.len(),
{
    if parts.len() > 0 && display_columns(parts[0]) <= max {
        1 + fitting(parts.drop_first(), (max - display_columns(parts[0])) as nat)
    } else {
        0
    }
}

/// The longest run of leading grapheme clusters of `s` that fits into `max`
/// columns.
pub open spec fn cut_to_columns(s: Seq<char>, max: nat) -> Seq<char> {
    let clusters = grapheme_clusters(s);
    joined(clusters.take(fitting(clusters, max) as int))
}

/// Whether the columns of every leading part of `s` are those of its
/// clusters. They are not where neighbouring clusters share a glyph.
pub open spec fn columns_add_up(s: Seq<char>) -> bool {
    let clusters = grapheme_clusters(s);
    forall|k: int|
        0 < k <= clusters.len() ==> display_columns(#[trigger] joined(clusters.take(k)))
            == sum_of_columns(clusters.take(k))
}

/// `UnicodeWidthStr::width`: the columns that the text takes. The widths of
/// single characters are tables of the Unicode standard and stay unstated.
#[verifier::external_body]
pub(crate) fn columns(s: &str) -> (n: usize)
    ensures
        n == display_columns(s@),
{
    UnicodeWidthStr::width(s)
}

/// `UnicodeSegmentation::graphemes`, extended: cuts the text into its
/// grapheme clusters, which make up the text. Where it cuts is left to the
/// Unicode standard.
#[verifier::external_body]
fn clusters_of(s: &str) -> (list: Vec<String>)
    ensures
        texts(list@) == grapheme_clusters(s@),
        joined(texts(list@)) == s@,
{
    UnicodeSegmentation::graphemes(s, true).map(String::from).collect()
}

/// `UnicodeTruncateStr::unicode_truncate`: keeps the leading clusters that
/// fit into `max` columns. Builds with debug assertions also assert that the
/// columns of what is kept add up from its clusters, hence the condition.
#[verifier::external_body]
fn truncate(s: &str, max: usize) -> (text: String)
    requires
        columns_add_up(s@),
    ensures
        text@ == cut_to_columns(s@, max as nat),
{
    s.unicode_truncate(max).0.to_string()
}

/// Whether the columns of every leading run of `clusters` add up.
fn add_up(clusters: &Vec<String>) -> (sums: bool)
    ensures
        sums == forall|k: int|
            0 < k <= clusters@.len() ==> display_columns(
                #[trigger] joined(texts(clusters@).take(k)),
            ) == sum_of_columns(texts(clusters@).take(k)),
{
    let ghost parts = texts(clusters@);
    let mut prefix = String::new();
    let mut sum: usize = 0;
    let mut k: usize = 0;
    assert(parts.take(0) =~= Seq::<Seq<char>>::empty());
    while k < clusters.len()
        invariant
            k <= clusters@.len(),
            parts == texts(clusters@),
            prefix@ == joined(parts.take(k as int)),
            sum == sum_of_columns(parts.take(k as int)),
            forall|j: int|
                0 < j <= k ==> display_columns(#[trigger] joined(parts.take(j)))
                    == sum_of_columns(parts.take(j)),
        decreases clusters@.len() - k,
    {
        prefix.append(clusters[k].as_str());
        let all = columns(prefix.as_str());
        let own = columns(clusters[k].as_str());
        proof {
            assert(parts.take(k + 1).drop_last() =~= parts.take(k as int));
            assert(parts.take(k + 1).last() == clusters@[k as int]@);
        }
        if all < sum || all - sum != own {
            assert(display_columns(joined(parts.take(k + 1))) != sum_of_columns(
                parts.take(k + 1),
            ));
            return false;
        }
        sum = all;
        k += 1;
    }
    true
}

/// Keeps the leading clusters that fit into `max` columns.
fn take_fitting(clusters: &Vec<String>, max: usize) -> (text: String)
    ensures
        text@ == joined(texts(clusters@).take(fitting(texts(clusters@), max as nat) as int)),
{
    let ghost parts = texts(clusters@);
    let mut text = String::new();
    let mut left: usize = max;
    let mut k: usize = 0;
    assert(parts.take(0) =~= Seq::<Seq<char>>::empty());
    assert(parts.skip(0) =~= parts);
    while k < clusters.len() && columns(clusters[k].as_str()) <= left
        invariant
            k <= clusters@.len(),
            parts == texts(clusters@),
            text@ == joined(parts.take(k as int)),
            fitting(parts, max as nat) == k + fitting(parts.skip(k as int), left as nat),
        decreases clusters@.len() - k,
    {
        proof {
            assert(parts.take(k + 1).drop_last() =~= parts.take(k as int));
            assert(parts.take(k + 1).last() == clusters@[k as int]@);
            assert(parts.skip(k as int).drop_first() =~= parts.skip(k + 1));
        }
        text.append(clusters[k].as_str());
        left = left - columns(clusters[k].as_str());
        k += 1;
    }
    text
}

/// Shortens `s` to at most `max` columns by dropping clusters from its end.
/// Text whose clusters share glyphs, such as the Arabic lam-alef, is cut
/// cluster by cluster here: `unicode_truncate` takes it in release builds
/// only.
pub fn truncate_to_columns(s: &str, max: usize) -> (text: String)
    ensures
        text@ == cut_to_columns(s@, max as nat),
{
    let clusters = clusters_of(s);
    if add_up(&clusters) {
        truncate(s, max)
    } else {
        take_fitting(&clusters, max)
    }
}

/// The kept clusters fit.
pub proof fn lemma_fitting(parts: Seq<Seq<char>>, max: nat)
    ensures
        fitting(parts, max) <= parts.len(),
        sum_of_columns(parts.take(fitting(parts, max) as int)) <= max,
        fitting(parts, max) < parts.len() ==> sum_of_columns(
            parts.take(fitting(parts, max) as int + 1),
        ) > max,
    decreases parts.len(),
{
    if parts.len() > 0 && display_columns(parts[0]) <= max {
        let rest = parts.drop_first();
        let left = (max - display_columns(parts[0])) as nat;
        lemma_fitting(rest, left);
        let n = fitting(rest, left) as int;
        lemma_sum_first(parts.take(n + 1));
        assert(parts.take(n + 1).drop_first() =~= rest.take(n));
        if n < rest.len() {
            lemma_sum_first(parts.take(n + 2));
            assert(parts.take(n + 2).drop_first() =~= rest.take(n + 1));
        }
    } else {
        assert(parts.take(0) =~= Seq::<Seq<char>>::empty());
        if parts.len() > 0 {
            lemma_sum_first(parts.take(1));
            assert(parts.take(1).drop_first() =~= Seq::<Seq<char>>::empty());
        }
    }
}

proof fn lemma_sum_first(parts: Seq<Seq<char>>)
    requires
        parts.len() > 0,
    ensures
        sum_of_columns(parts) == display_columns(parts[0]) as nat + sum_of_columns(
            parts.drop_first(),
        ),
    decreases parts.len(),
{
    if parts.len() == 1 {
        assert(parts.drop_last() =~= Seq::<Seq<char>>::empty());
        assert(parts.drop_first() =~= Seq::<Seq<char>>::empty());
    } else {
        lemma_sum_first(parts.drop_last());
        assert(parts.drop_last().drop_first() =~= parts.drop_first().drop_last());
    }
}

/// Shortened text takes at most `max` columns, its clusters measured one by
/// one, and one cluster more would take more than that.
pub proof fn law_truncation_fits_and_is_longest(s: Seq<char>, max: nat)
    ensures
        ({
            let clusters = grapheme_clusters(s);
            let n = fitting(clusters, max) as int;
            &&& n <= clusters.len()
            &&& cut_to_columns(s, max) == joined(clusters.take(n))
            &&& sum_of_columns(clusters.take(n)) <= max
            &&& n < clusters.len() ==> sum_of_columns(clusters.take(n + 1)) > max
        }),
{
    lemma_fitting(grapheme_clusters(s), max);
}

} // verus!
