//! Text that is cut to a number of columns.
#![allow(unused_imports)]
use vstd::prelude::*;

use crate::columns::{
    display_columns, fitting, grapheme_clusters, joined, law_truncation_fits_and_is_longest,
    sum_of_columns, truncate_to_columns,
};

verus! {

/// The columns of the first `n` of some parts.
pub open spec fn columns_of(parts: Seq<Seq<char>>, n: int) -> int
    decreases n,
{
    if n <= 0 {
        0
    } else {
        columns_of(parts, n - 1) + display_columns(parts[n - 1])
    }
}

/// The first `n` of some parts, one behind the other.
pub open spec fn text_of_parts(parts: Seq<Seq<char>>, n: int) -> Seq<char>
    decreases n,
{
    if n <= 0 {
        Seq::empty()
    } else {
        text_of_parts(parts, n - 1) + parts[n - 1]
    }
}

proof fn lemma_parts(parts: Seq<Seq<char>>, n: int)
    requires
        0 <= n <= parts.len(),
    ensures
        sum_of_columns(parts.take(n)) == columns_of(parts, n),
        joined(parts.take(n)) == text_of_parts(parts, n),
    decreases n,
{
    if n > 0 {
        lemma_parts(parts, n - 1);
        assert(parts.take(n).drop_last() =~= parts.take(n - 1));
    } else {
        assert(parts.take(0) =~= Seq::<Seq<char>>::empty());
    }
}

/// Truncation keeps whole clusters from the start of the text on, as many as fit:
/// those that are kept take no more columns than there are, and one more would.
pub proof fn law_as_many_clusters_are_kept_as_fit(s: &str, width: usize, text: String)
    requires
        call_ensures(truncate_to_columns, (s, width), text),
    ensures
        exists|n: int|
            {
                &&& 0 <= n <= grapheme_clusters(s@).len()
                &&& text@ == #[trigger] text_of_parts(grapheme_clusters(s@), n)
                &&& columns_of(grapheme_clusters(s@), n) <= width
                &&& n < grapheme_clusters(s@).len() ==> columns_of(grapheme_clusters(s@), n + 1)
                    > width
            },
{
    let parts = grapheme_clusters(s@);
    law_truncation_fits_and_is_longest(s@, width as nat);
    let n = fitting(parts, width as nat) as int;
    lemma_parts(parts, n);
    if n < parts.len() {
        lemma_parts(parts, n + 1);
    }
    assert(text@ == text_of_parts(parts, n));
}

} // verus!
