//! The commit range of a branch or worktree revision against a base branch.
use vstd::prelude::*;

use crate::error::Error;
#[allow(unused_imports)]
use crate::error::ErrorView;

verus! {

/// The id of a commit.
#[derive(Clone, Copy, Debug)]
pub struct CommitId {
    pub bytes: [u8; 20],
}

/// An old and a new value.
#[derive(Debug)]
pub struct OldNew<T> {
    pub old: T,
    pub new: T,
}

/// How many base-branch revisions are tried.
pub const BASE_BRANCH_COUNT: usize = 5;

/// The base-branch revisions, in the order in which they are tried.
pub open spec fn base_branches() -> Seq<Seq<char>> {
    seq!["main"@, "master"@, "origin/main"@, "origin/master"@, "origin/HEAD"@]
}

/// The base-branch revision that is tried at position `i`.
pub fn base_branch_candidate(i: usize) -> (name: &'static str)
    requires
        i < BASE_BRANCH_COUNT,
    ensures
        name@ == base_branches()[i as int],
{
    match i {
        0 => "main",
        1 => "master",
        2 => "origin/main",
        3 => "origin/master",
        _ => "origin/HEAD",
    }
}

/// What comes next in the search for the base branch.
#[derive(Debug)]
pub enum BaseStep {
    /// Resolve this revision.
    Resolve(&'static str),
    Found(CommitId),
    Failed(Error),
}

/// Whether position `i` is the first at which a revision was resolved.
pub open spec fn first_resolved(tried: Seq<Option<CommitId>>, i: int) -> bool {
    &&& 0 <= i < tried.len()
    &&& tried[i] is Some
    &&& forall|j: int| 0 <= j < i ==> (#[trigger] tried[j]) is None
}

/// Resolves the repository's base branch to a commit, trying `main`, `master`
/// and their `origin/` counterparts in order. `tried` holds what each revision
/// tried so far resolved to.
pub fn resolve_base_branch(tried: &Vec<Option<CommitId>>) -> (step: BaseStep)
    ensures
        match step {
            BaseStep::Found(id) => exists|i: int| #[trigger]
                first_resolved(tried@, i) && tried@[i] == Some(id),
            BaseStep::Resolve(name) => {
                &&& forall|i: int| 0 <= i < tried@.len() ==> (#[trigger] tried@[i]) is None
                &&& tried@.len() < base_branches().len()
                &&& name@ == base_branches()[tried@.len() as int]
            },
            BaseStep::Failed(err) => {
                &&& forall|i: int| 0 <= i < tried@.len() ==> (#[trigger] tried@[i]) is None
                &&& tried@.len() >= base_branches().len()
                &&& err@ == ErrorView::Generic("no base branch (main/master) found"@)
            },
        },
{
    let mut i: usize = 0;
    while i < tried.len()
        invariant
            i <= tried@.len(),
            forall|j: int| 0 <= j < i ==> (#[trigger] tried@[j]) is None,
        decreases tried@.len() - i,
    {
        if let Some(id) = tried[i] {
            assert(first_resolved(tried@, i as int));
            return BaseStep::Found(id);
        }
        i += 1;
    }
    if tried.len() < BASE_BRANCH_COUNT {
        BaseStep::Resolve(base_branch_candidate(tried.len()))
    } else {
        BaseStep::Failed(Error::Generic("no base branch (main/master) found".to_owned()))
    }
}

/// What is known so far of a commit range. An answer that was not asked for
/// yet is `None`; a question that could not be answered is an error message.
#[derive(Debug)]
pub struct RangeFacts {
    /// The tip of the revision.
    pub tip: Option<Result<CommitId, String>>,
    /// The most recent common ancestor of the base and the tip.
    pub merge_base: Option<Result<CommitId, String>>,
}

/// What comes next in the search for a commit range.
#[derive(Debug)]
pub enum RangeStep {
    /// Resolve this revision, which the base may be.
    ResolveBase(String),
    /// Resolve this revision, whose tip the range ends at.
    ResolveTip(String),
    /// Find the merge base of these two commits.
    MergeBase(CommitId, CommitId),
    Done(OldNew<CommitId>),
    Failed(Error),
}

/// What a range step says.
pub enum RangeStepView {
    ResolveBase(Seq<char>),
    ResolveTip(Seq<char>),
    MergeBase(CommitId, CommitId),
    Done(OldNew<CommitId>),
    Failed(ErrorView),
}

impl View for RangeStep {
    type V = RangeStepView;

    open spec fn view(&self) -> RangeStepView {
        match *self {
            RangeStep::ResolveBase(revision) => RangeStepView::ResolveBase(revision@),
            RangeStep::ResolveTip(revision) => RangeStepView::ResolveTip(revision@),
            RangeStep::MergeBase(one, two) => RangeStepView::MergeBase(one, two),
            RangeStep::Done(range) => RangeStepView::Done(range),
            RangeStep::Failed(err) => RangeStepView::Failed(err@),
        }
    }
}

/// The next step towards the range from the merge base of `base` and the tip
/// of `revision` to that tip.
pub open spec fn range_step(
    revision: Seq<char>,
    base: CommitId,
    facts: RangeFacts,
) -> RangeStepView {
    match facts.tip {
        None => RangeStepView::ResolveTip(revision),
        Some(Err(err)) => RangeStepView::Failed(ErrorView::Service(err@)),
        Some(Ok(new)) => match facts.merge_base {
            None => RangeStepView::MergeBase(base, new),
            Some(Err(err)) => RangeStepView::Failed(ErrorView::Service(err@)),
            Some(Ok(old)) => RangeStepView::Done(OldNew { old, new }),
        },
    }
}

/// The commit range for reviewing `revision` (a branch name or "HEAD") against
/// `base`: `old` is the merge base of `base` and the tip of `revision`, `new`
/// is that tip.
pub fn diff_range(revision: &str, base: CommitId, facts: &RangeFacts) -> (step: RangeStep)
    ensures
        step@ == range_step(revision@, base, *facts),
{
    let new = match &facts.tip {
        None => {
            return RangeStep::ResolveTip(revision.to_owned());
        },
        Some(Err(err)) => {
            return RangeStep::Failed(Error::Service(err.clone()));
        },
        Some(Ok(new)) => *new,
    };
    match &facts.merge_base {
        None => RangeStep::MergeBase(base, new),
        Some(Err(err)) => RangeStep::Failed(Error::Service(err.clone())),
        Some(Ok(old)) => RangeStep::Done(OldNew { old: *old, new }),
    }
}

/// The commit range for reviewing `revision` against the base branch
/// (main/master), which is resolved first.
pub fn diff_range_vs_base(
    revision: &str,
    tried: &Vec<Option<CommitId>>,
    facts: &RangeFacts,
) -> (step: RangeStep)
    ensures
        forall|i: int| #[trigger]
            first_resolved(tried@, i) ==> step@ == range_step(
                revision@,
                tried@[i]->0,
                *facts,
            ),
        (forall|i: int| 0 <= i < tried@.len() ==> (#[trigger] tried@[i]) is None) ==> step@
            == (if tried@.len() < base_branches().len() {
            RangeStepView::ResolveBase(base_branches()[tried@.len() as int])
        } else {
            RangeStepView::Failed(ErrorView::Generic("no base branch (main/master) found"@))
        }),
{
    match resolve_base_branch(tried) {
        BaseStep::Found(base) => {
            proof {
                let i = choose|i: int| #[trigger]
                    first_resolved(tried@, i) && tried@[i] == Some(base);
                assert forall|j: int| #[trigger] first_resolved(tried@, j) implies j == i by {
                    if j < i {
                        assert(tried@[j] is None);
                    } else if i < j {
                        assert(tried@[i] is None);
                    }
                }
            }
            diff_range(revision, base, facts)
        },
        BaseStep::Resolve(name) => RangeStep::ResolveBase(name.to_owned()),
        BaseStep::Failed(err) => RangeStep::Failed(err),
    }
}

/// The commit range for reviewing `revision` against an explicit
/// `base_revision` (a branch name, tag, or revspec), which is resolved first.
pub fn diff_range_vs_ref(
    revision: &str,
    base_revision: &str,
    base: &Option<Result<CommitId, String>>,
    facts: &RangeFacts,
) -> (step: RangeStep)
    ensures
        step@ == (match *base {
            None => RangeStepView::ResolveBase(base_revision@),
            Some(Err(err)) => RangeStepView::Failed(ErrorView::Service(err@)),
            Some(Ok(base)) => range_step(revision@, base, *facts),
        }),
{
    match base {
        None => RangeStep::ResolveBase(base_revision.to_owned()),
        Some(Err(err)) => RangeStep::Failed(Error::Service(err.clone())),
        Some(Ok(base)) => diff_range(revision, *base, facts),
    }
}

/// A range that is found ends at the tip of the revision, and starts at what
/// was found to be the merge base; it is found once both are known.
pub proof fn law_range_runs_from_merge_base_to_tip(
    revision: Seq<char>,
    base: CommitId,
    facts: RangeFacts,
    range: OldNew<CommitId>,
)
    ensures
        range_step(revision, base, facts) == RangeStepView::Done(range) <==> (facts.tip
            == Some(Ok::<CommitId, String>(range.new)) && facts.merge_base
            == Some(Ok::<CommitId, String>(range.old))),
{
}

/// The base branch is the first candidate that resolves: where each revision
/// tried so far was resolved as `resolves` says, what was found first is what
/// the first resolving candidate resolves to.
pub proof fn law_first_resolving_candidate_wins(
    resolves: spec_fn(Seq<char>) -> Option<CommitId>,
    tried: Seq<Option<CommitId>>,
    i: int,
)
    requires
        tried.len() <= base_branches().len(),
        forall|j: int|
            0 <= j < tried.len() ==> #[trigger] tried[j] == resolves(base_branches()[j]),
        first_resolved(tried, i),
    ensures
        resolves(base_branches()[i]) == tried[i],
        tried[i] is Some,
        forall|j: int| 0 <= j < i ==> resolves(#[trigger] base_branches()[j]) is None,
{
    assert forall|j: int| 0 <= j < i implies resolves(#[trigger] base_branches()[j]) is None by {
        assert(tried[j] is None);
    }
}

} // verus!
