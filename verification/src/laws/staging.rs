//! Staging, unstaging and reverting, asked for directly.
#![allow(unused_imports)]
use vstd::prelude::*;

use crate::diff_component::{request_views, DiffComponent, DiffRequest};
use crate::laws::diff_keys::{are_selected_changes, asked_once, is_selected_hunk, lemma_changes};

verus! {

proof fn lemma_requests(before: DiffComponent, after: DiffComponent)
    requires
        after.requests@.len() >= before.requests@.len(),
    ensures
        request_views(before.requests@).len() == before.requests@.len(),
        request_views(after.requests@).len() == after.requests@.len(),
        after.requests@.len() > before.requests@.len() ==> request_views(
            after.requests@,
        )[before.requests@.len() as int] == after.requests@[before.requests@.len() as int]@,
{
}

/// Staging asks for the selected hunk of the shown file, or for the whole file
/// where it is untracked; without a selected hunk it asks for nothing.
pub proof fn law_staging_a_hunk_asks_for_that_hunk(c: &mut DiffComponent)
    requires
        call_ensures(DiffComponent::stage_hunk, (c,), ()),
        old(c).wf(),
    ensures
        old(c).diff is None || old(c).selected_hunk is None ==> *final(c) == (DiffComponent {
            requests: final(c).requests,
            ..*old(c)
        }) && request_views(final(c).requests@) == request_views(old(c).requests@),
        old(c).diff is Some && old(c).selected_hunk is Some ==> {
            &&& asked_once(*old(c), *final(c))
            &&& old(c).diff->0.untracked ==> (final(c).requests@.last() matches DiffRequest::StageFile { path } && path@ == old(c).current.path@)
            &&& !old(c).diff->0.untracked ==> (final(c).requests@.last() matches DiffRequest::StageHunk { path, hash } && path@ == old(c).current.path@ && is_selected_hunk(*old(c), hash))
        },
{
    assert(request_views(final(c).requests@).len() == final(c).requests@.len());
    assert(request_views(old(c).requests@).len() == old(c).requests@.len());
    lemma_requests(*old(c), *final(c));
}

/// Unstaging asks for the selected hunk of the shown file; without one it asks for
/// nothing.
pub proof fn law_unstaging_a_hunk_asks_for_that_hunk(c: &mut DiffComponent)
    requires
        call_ensures(DiffComponent::unstage_hunk, (c,), ()),
        old(c).wf(),
    ensures
        old(c).diff is None || old(c).selected_hunk is None ==> request_views(final(c).requests@)
            == request_views(old(c).requests@),
        old(c).diff is Some && old(c).selected_hunk is Some ==> {
            &&& asked_once(*old(c), *final(c))
            &&& final(c).requests@.last() matches DiffRequest::UnstageHunk { path, hash } && path@
                == old(c).current.path@ && is_selected_hunk(*old(c), hash)
        },
{
    assert(request_views(final(c).requests@).len() == final(c).requests@.len());
    assert(request_views(old(c).requests@).len() == old(c).requests@.len());
    lemma_requests(*old(c), *final(c));
}

/// The side that is shown decides whether a hunk is staged or unstaged.
pub proof fn law_the_side_decides_what_becomes_of_a_hunk(
    c: &mut DiffComponent,
    d: &mut DiffComponent,
    e: &mut DiffComponent,
)
    requires
        old(c).wf(),
        *old(c) == *old(d),
        *old(c) == *old(e),
        call_ensures(DiffComponent::stage_unstage_hunk, (c,), ()),
        call_ensures(DiffComponent::unstage_hunk, (d,), ()),
        call_ensures(DiffComponent::stage_hunk, (e,), ()),
    ensures
        old(c).current.is_stage ==> request_views(final(c).requests@) == request_views(
            final(d).requests@,
        ),
        !old(c).current.is_stage ==> request_views(final(c).requests@) == request_views(
            final(e).requests@,
        ),
        *final(c) == (DiffComponent { requests: final(c).requests, ..*old(c) }),
{
}

/// Reverting asks for the selected hunk of the shown file, or for the whole file
/// where that is asked for.
pub proof fn law_reverting_asks_for_what_is_selected(c: &mut DiffComponent, d: &mut DiffComponent)
    requires
        call_ensures(DiffComponent::reset_hunk, (c,), ()),
        old(c).wf(),
        call_ensures(DiffComponent::reset_untracked, (d,), ()),
    ensures
        old(c).diff is None || old(c).selected_hunk is None ==> request_views(final(c).requests@)
            == request_views(old(c).requests@),
        old(c).diff is Some && old(c).selected_hunk is Some ==> {
            &&& asked_once(*old(c), *final(c))
            &&& final(c).requests@.last() matches DiffRequest::ConfirmResetHunk { path, hash }
                && path@ == old(c).current.path@ && is_selected_hunk(*old(c), hash)
        },
        asked_once(*old(d), *final(d)),
        final(d).requests@.last() matches DiffRequest::ConfirmReset { path } && path@ == old(d).current.path@,
{
    assert(request_views(final(c).requests@).len() == final(c).requests@.len());
    assert(request_views(old(c).requests@).len() == old(c).requests@.len());
    lemma_requests(*old(c), *final(c));
    assert(request_views(final(d).requests@).len() == final(d).requests@.len());
    assert(request_views(old(d).requests@).len() == old(d).requests@.len());
    lemma_requests(*old(d), *final(d));
}

/// Staging lines asks for the selected changes of a tracked file, to be unstaged
/// where the stage is shown and staged where the working directory is; reverting
/// them asks for the same changes.
pub proof fn law_lines_are_staged_on_the_shown_side(c: &mut DiffComponent, d: &mut DiffComponent)
    requires
        call_ensures(DiffComponent::stage_lines, (c,), ()),
        call_ensures(DiffComponent::reset_lines, (d,), ()),
        old(d).diff is Some,
    ensures
        old(c).diff is None || old(c).diff->0.untracked ==> request_views(final(c).requests@)
            == request_views(old(c).requests@),
        old(c).diff is Some && !old(c).diff->0.untracked ==> {
            &&& asked_once(*old(c), *final(c))
            &&& final(c).requests@.last() matches DiffRequest::StageLines {
                path,
                is_stage: taken_out,
                lines,
            } && path@ == old(c).current.path@ && (taken_out <==> old(c).current.is_stage)
                && are_selected_changes(*old(c), lines@)
        },
        asked_once(*old(d), *final(d)),
        final(d).requests@.last() matches DiffRequest::ConfirmResetLines { path, lines } && path@
            == old(d).current.path@ && are_selected_changes(*old(d), lines@),
{
    assert(request_views(final(c).requests@).len() == final(c).requests@.len());
    assert(request_views(old(c).requests@).len() == old(c).requests@.len());
    lemma_requests(*old(c), *final(c));
    assert(request_views(final(d).requests@).len() == final(d).requests@.len());
    assert(request_views(old(d).requests@).len() == old(d).requests@.len());
    lemma_requests(*old(d), *final(d));
    if old(c).diff is Some {
        lemma_changes(*old(c));
    }
    lemma_changes(*old(d));
}

} // verus!
