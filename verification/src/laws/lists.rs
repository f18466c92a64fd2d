//! Lists of numbers that share a property.
#![allow(unused_imports)]
use vstd::prelude::*;

use crate::selection::Selection;

verus! {

/// Whether `at` lists exactly the numbers below `n` that `p` holds of, from the
/// smallest to the greatest.
pub open spec fn lists(at: Seq<int>, n: int, p: spec_fn(int) -> bool) -> bool {
    &&& forall|j: int| 0 <= j < at.len() ==> 0 <= #[trigger] at[j] < n && p(at[j])
    &&& forall|j: int, k: int| 0 <= j < k < at.len() ==> at[j] < at[k]
    &&& forall|i: int| 0 <= i < n && #[trigger] p(i) ==> at.contains(i)
}

/// There is such a list.
pub proof fn law_there_is_a_list(n: nat, p: spec_fn(int) -> bool) -> (at: Seq<int>)
    ensures
        lists(at, n as int, p),
    decreases n,
{
    if n == 0 {
        Seq::empty()
    } else {
        let before = law_there_is_a_list((n - 1) as nat, p);
        if p(n - 1) {
            let at = before.push(n - 1);
            assert forall|i: int| 0 <= i < n && #[trigger] p(i) implies at.contains(i) by {
                if i < n - 1 {
                    let j = choose|j: int| 0 <= j < before.len() && before[j] == i;
                    assert(at[j] == i);
                } else {
                    assert(at[before.len() as int] == i);
                }
            }
            at
        } else {
            assert forall|i: int| 0 <= i < n && #[trigger] p(i) implies before.contains(i) by {
                assert(i < n - 1);
            }
            before
        }
    }
}

/// No number lies below zero.
pub proof fn lemma_list_of_none(at: Seq<int>, p: spec_fn(int) -> bool)
    requires
        lists(at, 0, p),
    ensures
        at.len() == 0,
{
    if at.len() > 0 {
        let first = at[0];
        assert(0 <= first && first < 0);
    }
}

/// A list that reaches one number further ends with it, if it belongs in the
/// list.
pub proof fn lemma_list_step(at: Seq<int>, n: int, p: spec_fn(int) -> bool)
    requires
        n > 0,
        lists(at, n, p),
    ensures
        p(n - 1) ==> at.len() > 0 && at.last() == n - 1 && lists(at.drop_last(), n - 1, p),
        !p(n - 1) ==> lists(at, n - 1, p),
{
    if p(n - 1) {
        assert(at.contains(n - 1));
        let j = choose|j: int| 0 <= j < at.len() && at[j] == n - 1;
        if j < at.len() - 1 {
            assert(at[j] < at[at.len() - 1]);
        }
        let rest = at.drop_last();
        assert forall|i: int| 0 <= i < rest.len() implies 0 <= #[trigger] rest[i] < n - 1 && p(
            rest[i],
        ) by {
            assert(rest[i] == at[i]);
            assert(at[i] < at[at.len() - 1]);
        }
        assert forall|i: int| 0 <= i < n - 1 && #[trigger] p(i) implies rest.contains(i) by {
            let k = choose|k: int| 0 <= k < at.len() && at[k] == i;
            assert(rest[k] == i);
        }
    } else {
        assert forall|j: int| 0 <= j < at.len() implies 0 <= #[trigger] at[j] < n - 1 && p(
            at[j],
        ) by {
            assert(at[j] != n - 1);
        }
    }
}

/// The rows of a selection: the one that is selected, or those between the two
/// ends, whichever end comes first.
pub open spec fn selected(selection: Selection) -> spec_fn(int) -> bool {
    |i: int|
        match selection {
            Selection::Single(row) => i == row,
            Selection::Multiple(a, b) => a <= i <= b || b <= i <= a,
        }
}

/// A selection contains the rows that are selected, and no others.
pub proof fn law_a_selection_contains_its_rows(selection: Selection, row: usize, inside: bool)
    requires
        call_ensures(Selection::contains, (&selection, row), inside),
    ensures
        inside == selected(selection)(row as int),
{
}

} // verus!
