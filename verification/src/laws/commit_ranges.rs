//! Commit ranges: what a search asks for, and where it ends.
#![allow(unused_imports)]
use vstd::prelude::*;

use crate::branch_diff::{
    diff_range, diff_range_vs_base, diff_range_vs_ref, resolve_base_branch, BaseStep, CommitId,
    RangeFacts, RangeStep,
};
use crate::error::Error;

verus! {

/// Where the tip is known, the merge base that is asked for is that of the base
/// and of the tip, in this order.
pub proof fn law_the_merge_base_is_that_of_base_and_tip(
    revision: &str,
    from: CommitId,
    tip: CommitId,
    facts: RangeFacts,
    step: RangeStep,
)
    requires
        call_ensures(diff_range, (revision, from, &facts), step),
        facts.tip == Some(Ok::<CommitId, String>(tip)),
        facts.merge_base is None,
    ensures
        step matches RangeStep::MergeBase(one, two) && one == from && two == tip,
{
}

/// A search among revisions that resolve as `tip_of` says, in a history where
/// two commits have the merge base `fork_of`: from the given base, it asks for
/// the tip of the revision, then for the merge base, and ends with the range
/// from the fork of the base and the tip to the tip.
pub proof fn law_a_range_runs_from_the_fork_to_the_tip(
    revision: &str,
    from: CommitId,
    tip_of: spec_fn(Seq<char>) -> CommitId,
    fork_of: spec_fn(CommitId, CommitId) -> CommitId,
    facts: RangeFacts,
    step: RangeStep,
)
    requires
        call_ensures(diff_range, (revision, from, &facts), step),
        facts.tip matches Some(answer) ==> answer == Ok::<CommitId, String>(tip_of(revision@)),
        facts.merge_base matches Some(answer) ==> answer == Ok::<CommitId, String>(
            fork_of(from, tip_of(revision@)),
        ),
    ensures
        facts.tip is None <==> step is ResolveTip,
        step matches RangeStep::ResolveTip(asked) ==> tip_of(asked@) == tip_of(revision@) && asked@
            == revision@,
        facts.tip is Some && facts.merge_base is None <==> step is MergeBase,
        step matches RangeStep::MergeBase(one, two) ==> fork_of(one, two) == fork_of(
            from,
            tip_of(revision@),
        ),
        facts.tip is Some && facts.merge_base is Some <==> step is Done,
        step matches RangeStep::Done(range) ==> range.old == fork_of(from, tip_of(revision@))
            && range.new == tip_of(revision@),
{
}

/// A tip that could not be resolved, and then a merge base that could not be
/// found, is the error of the search.
pub proof fn law_a_missing_answer_is_the_error(
    revision: &str,
    from: CommitId,
    facts: RangeFacts,
    step: RangeStep,
)
    requires
        call_ensures(diff_range, (revision, from, &facts), step),
    ensures
        facts.tip matches Some(Err(msg)) ==> (step matches RangeStep::Failed(Error::Service(said))
            && said@ == msg@),
        facts.tip matches Some(Ok(_)) ==> (facts.merge_base matches Some(Err(msg)) ==> (
        step matches RangeStep::Failed(Error::Service(said)) && said@ == msg@)),
        facts.tip is None ==> (step matches RangeStep::ResolveTip(asked) && asked@ == revision@),
        step is Failed ==> {
            ||| facts.tip matches Some(Err(_))
            ||| facts.merge_base matches Some(Err(_))
        },
{
}

/// What two steps have in common: they ask for the same, or end the same way.
pub open spec fn same_step(a: RangeStep, b: RangeStep) -> bool {
    match (a, b) {
        (RangeStep::ResolveBase(x), RangeStep::ResolveBase(y)) => x@ == y@,
        (RangeStep::ResolveTip(x), RangeStep::ResolveTip(y)) => x@ == y@,
        (RangeStep::MergeBase(x, y), RangeStep::MergeBase(z, w)) => x == z && y == w,
        (RangeStep::Done(x), RangeStep::Done(y)) => x == y,
        (RangeStep::Failed(x), RangeStep::Failed(y)) => x@ == y@,
        _ => false,
    }
}

/// The range against another revision is the range against the commit that
/// this revision resolves to, which is asked for first.
pub proof fn law_a_revision_stands_for_its_commit(
    revision: &str,
    against: &str,
    resolved: Option<Result<CommitId, String>>,
    facts: RangeFacts,
    step: RangeStep,
    direct: RangeStep,
)
    requires
        call_ensures(diff_range_vs_ref, (revision, against, &resolved, &facts), step),
        resolved matches Some(Ok(from)) ==> call_ensures(
            diff_range,
            (revision, from, &facts),
            direct,
        ),
    ensures
        resolved is None ==> (step matches RangeStep::ResolveBase(asked) && asked@ == against@),
        resolved matches Some(Err(msg)) ==> (step matches RangeStep::Failed(Error::Service(said))
            && said@ == msg@),
        resolved matches Some(Ok(_)) ==> same_step(step, direct),
{
}

/// The range against the base branch is the range against the commit of the
/// first candidate that resolves; until there is one, the next candidate is
/// asked for, and once none is left the search fails.
pub proof fn law_the_base_branch_is_the_first_that_resolves(
    revision: &str,
    tried: Vec<Option<CommitId>>,
    facts: RangeFacts,
    step: RangeStep,
    first: int,
    direct: RangeStep,
)
    requires
        call_ensures(diff_range_vs_base, (revision, &tried, &facts), step),
        0 <= first <= tried@.len(),
        forall|j: int| 0 <= j < first ==> (#[trigger] tried@[j]) is None,
        first < tried@.len() ==> tried@[first] is Some && call_ensures(
            diff_range,
            (revision, tried@[first]->0, &facts),
            direct,
        ),
    ensures
        first < tried@.len() ==> same_step(step, direct),
        first == tried@.len() && tried@.len() < 5 ==> (step matches RangeStep::ResolveBase(asked)
            && asked@ == seq![
            "main"@,
            "master"@,
            "origin/main"@,
            "origin/master"@,
            "origin/HEAD"@,
        ][tried@.len() as int]),
        first == tried@.len() && tried@.len() >= 5 ==> (step matches RangeStep::Failed(
            Error::Generic(msg),
        ) && msg@ == "no base branch (main/master) found"@),
{
    if first < tried@.len() {
        assert(crate::branch_diff::first_resolved(tried@, first));
    }
}

/// Resolving the base branch gives the commit of the first candidate that
/// resolves, and asks for the candidates one by one until then.
pub proof fn law_candidates_are_tried_in_turn(
    tried: Vec<Option<CommitId>>,
    step: BaseStep,
    first: int,
)
    requires
        call_ensures(resolve_base_branch, (&tried,), step),
        0 <= first <= tried@.len(),
        forall|j: int| 0 <= j < first ==> (#[trigger] tried@[j]) is None,
        first < tried@.len() ==> tried@[first] is Some,
    ensures
        first < tried@.len() <==> step is Found,
        step matches BaseStep::Found(id) ==> tried@[first] == Some(id),
        step matches BaseStep::Resolve(asked) ==> tried@.len() < 5 && asked@ == seq![
            "main"@,
            "master"@,
            "origin/main"@,
            "origin/master"@,
            "origin/HEAD"@,
        ][tried@.len() as int],
        step is Failed <==> first == tried@.len() && tried@.len() >= 5,
        step matches BaseStep::Failed(err) ==> (err matches Error::Generic(msg) && msg@
            == "no base branch (main/master) found"@),
{
    match step {
        BaseStep::Found(id) => {
            let i = choose|i: int| #[trigger]
                crate::branch_diff::first_resolved(tried@, i) && tried@[i] == Some(id);
            if first < i {
                assert(tried@[first] is None);
            }
            if i < first {
                assert(tried@[i] is None);
            }
        },
        _ => {
            if first < tried@.len() {
                assert(tried@[first] is None);
            }
        },
    }
}

} // verus!
