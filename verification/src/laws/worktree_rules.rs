//! The rules for worktrees: removal, locks, listing and creation.
#![allow(unused_imports)]
use std::path::PathBuf;
use vstd::prelude::*;
use vstd::utf8::encode_utf8;

use crate::error::Error;
use crate::laws::lists::{lemma_list_of_none, lemma_list_step, lists};
use crate::paths::{
    path_bytes, path_is_absolute, path_join, path_name, path_parent, path_view, paths_are_equal,
    text_view,
};
use crate::worktree::{
    create_worktree, get_worktrees, head_branch, linked_worktree_info, main_workdir,
    main_worktree_info, readable, readable_names, remove_worktree, same_workdir,
    toggle_worktree_lock, LockAction, RemovalFacts, RemovalStep, RepoFacts, WorktreeInfo,
    WorktreePlan,
};

verus! {

/// Whether what is known so far of a worktree is how it is.
pub open spec fn is_true_of(
    facts: RemovalFacts,
    locked: bool,
    valid: bool,
    staged: usize,
    changed: usize,
) -> bool {
    &&& facts.locked matches Some(answer) ==> answer == Ok::<bool, String>(locked)
    &&& facts.valid matches Some(answer) ==> answer == valid
    &&& facts.staged matches Some(answer) ==> answer == Ok::<usize, String>(staged)
    &&& facts.changed matches Some(answer) ==> answer == Ok::<usize, String>(changed)
}

/// However the questions about a worktree are answered, as long as they are
/// answered truly: it is pruned if it is not the current one, is not locked, and
/// has neither staged nor changed files in a working directory that exists, and
/// refused, for the first of these reasons, if not; until that is known, a
/// question is asked that has no answer yet.
pub proof fn law_a_worktree_is_removed_if_nothing_is_lost(
    facts: RemovalFacts,
    step: RemovalStep,
    locked: bool,
    valid: bool,
    staged: usize,
    changed: usize,
)
    requires
        call_ensures(remove_worktree, (&facts,), step),
        is_true_of(facts, locked, valid, staged, changed),
    ensures
        ({
            let may_go = !facts.is_current && !locked && (!valid || (staged == 0 && changed == 0));
            let all_known = facts.locked is Some && facts.valid is Some && facts.staged is Some
                && facts.changed is Some;
            &&& step is Prune ==> may_go
            &&& step is Refuse ==> !may_go
            &&& all_known ==> step is Prune || step is Refuse
            &&& facts.is_current ==> step is Refuse
            &&& facts.locked is Some && locked ==> step is Refuse
            &&& !facts.is_current && facts.locked is Some && !locked && facts.valid is Some
                && !valid ==> step is Prune
            &&& step is ReadLock <==> !facts.is_current && facts.locked is None
            &&& step is Validate <==> !facts.is_current && facts.locked is Some && !locked
                && facts.valid is None
            &&& step is ReadStaged <==> !facts.is_current && facts.locked is Some && !locked
                && facts.valid is Some && valid && facts.staged is None
            &&& step is ReadChanged <==> !facts.is_current && facts.locked is Some && !locked
                && facts.valid is Some && valid && facts.staged is Some && staged == 0
                && facts.changed is None
            &&& step matches RemovalStep::Refuse(err) ==> (err matches Error::Generic(msg) && msg@
                == (if facts.is_current {
                "cannot remove the current worktree"@
            } else if locked {
                "worktree is locked; unlock it before removing"@
            } else {
                "worktree has uncommitted changes; commit or discard them first"@
            }))
        }),
{
}

/// A question that could not be answered, of those that come up before the
/// removal is decided, is the error; one that does not come up is of no account.
pub proof fn law_a_failed_question_stops_the_removal(facts: RemovalFacts, step: RemovalStep)
    requires
        call_ensures(remove_worktree, (&facts,), step),
        !facts.is_current,
    ensures
        facts.locked matches Some(Err(msg)) ==> (step matches RemovalStep::Refuse(Error::Service(
            said,
        )) && said@ == msg@),
        facts.locked == Some(Ok::<bool, String>(true)) ==> (step matches RemovalStep::Refuse(
            Error::Generic(msg),
        ) && msg@ == "worktree is locked; unlock it before removing"@),
        facts.locked == Some(Ok::<bool, String>(false)) && facts.valid == Some(false)
            ==> step is Prune,
        facts.locked == Some(Ok::<bool, String>(false)) && facts.valid == Some(true) ==> {
            &&& (facts.staged matches Some(Ok(staged)) && staged > 0) ==> (
            step matches RemovalStep::Refuse(Error::Generic(msg)) && msg@
                == "worktree has uncommitted changes; commit or discard them first"@)
            &&& facts.staged matches Some(Err(msg)) ==> (step matches RemovalStep::Refuse(
                Error::Service(said),
            ) && said@ == msg@)
            &&& facts.staged == Some(Ok::<usize, String>(0)) ==> (facts.changed matches Some(
                Err(msg),
            ) ==> (step matches RemovalStep::Refuse(Error::Service(said)) && said@ == msg@))
        },
{
}

/// Toggling locks what is not locked, and unlocks what is.
pub proof fn law_toggling_changes_the_lock(locked: bool, action: LockAction)
    requires
        call_ensures(toggle_worktree_lock, (locked,), action),
    ensures
        action == LockAction::Lock <==> !locked,
        action == LockAction::Unlock <==> locked,
{
}

/// The list holds the primary worktree first, if there is one, then every linked
/// one in its order; one that could not be read is the error, the first of them
/// if there are several.
pub proof fn law_all_worktrees_are_listed(
    main: Option<WorktreeInfo>,
    linked: Vec<Result<WorktreeInfo, Error>>,
    list: Result<Vec<WorktreeInfo>, Error>,
    failed: int,
)
    requires
        call_ensures(get_worktrees, (main, linked), list),
        0 <= failed <= linked@.len(),
        forall|j: int| 0 <= j < failed ==> (#[trigger] linked@[j]) is Ok,
        failed < linked@.len() ==> linked@[failed] is Err,
    ensures
        failed < linked@.len() ==> (list matches Err(err) && linked@[failed] == Err::<
            WorktreeInfo,
            Error,
        >(err)),
        failed == linked@.len() ==> (list matches Ok(list) && {
            let n = if main is Some {
                1int
            } else {
                0int
            };
            &&& list@.len() == linked@.len() + n
            &&& main matches Some(first) ==> list@[0] == first
            &&& forall|j: int|
                0 <= j < linked@.len() ==> #[trigger] linked@[j] == Ok::<WorktreeInfo, Error>(
                    list@[n + j],
                )
        }),
{
    if failed < linked@.len() {
        assert(linked@[failed] is Err);
        if let Err(err) = list {
            let i = choose|i: int|
                {
                    &&& 0 <= i < linked@.len()
                    &&& #[trigger] linked@[i] == Err::<WorktreeInfo, Error>(err)
                    &&& forall|j: int| 0 <= j < i ==> (#[trigger] linked@[j]) is Ok
                };
            assert(i == failed);
        }
    } else {
        assert(list is Ok);
    }
}

/// The entry of the primary worktree says so, and is never locked nor missing;
/// that of a linked one never says so, and is locked only where it is known to
/// be. Both say what they were made from.
pub proof fn law_entries_say_what_they_are_made_from(
    workdir: PathBuf,
    branch: Option<String>,
    is_current: bool,
    main: WorktreeInfo,
    name: String,
    path: PathBuf,
    locked: Option<bool>,
    is_valid: bool,
    linked: WorktreeInfo,
)
    requires
        call_ensures(main_worktree_info, (workdir, branch, is_current), main),
        call_ensures(
            linked_worktree_info,
            (name, path, branch, locked, is_valid, is_current),
            linked,
        ),
    ensures
        main.name@ == "(main)"@ && main.is_main && main.is_valid && !main.is_locked,
        path_bytes(main.path) == path_bytes(workdir),
        text_view(main.branch) == text_view(branch) && main.is_current == is_current,
        linked.name@ == name@ && !linked.is_main && linked.is_valid == is_valid,
        linked.is_locked <==> locked == Some(true),
        path_bytes(linked.path) == path_bytes(path),
        text_view(linked.branch) == text_view(branch) && linked.is_current == is_current,
{
    assert(main@.name == main.name@ && main@.path == path_bytes(main.path) && main@.branch
        == text_view(main.branch));
    assert(linked@.name == linked.name@ && linked@.path == path_bytes(linked.path)
        && linked@.branch == text_view(linked.branch));
}

/// A bare repository has no primary working directory; seen from a linked
/// worktree it lies beside the shared git directory, else it is the working
/// directory of the repository itself.
pub proof fn law_the_primary_tree_lies_beside_the_git_directory(
    repo: RepoFacts,
    workdir: Option<PathBuf>,
)
    requires
        call_ensures(main_workdir, (&repo,), workdir),
    ensures
        repo.is_bare ==> workdir is None,
        !repo.is_bare && repo.is_worktree ==> path_view(workdir) == path_parent(
            path_bytes(repo.commondir),
        ),
        !repo.is_bare && !repo.is_worktree ==> path_view(workdir) == path_view(repo.workdir),
{
}

/// Two directories are the same where their canonical paths are, if both have
/// one, else where their paths are; what is not known is the same as nothing.
pub proof fn law_directories_are_compared_by_canonical_paths(
    path: PathBuf,
    current: Option<&PathBuf>,
    canonical_path: Option<&PathBuf>,
    canonical_current: Option<&PathBuf>,
    same: bool,
)
    requires
        call_ensures(same_workdir, (&path, current, canonical_path, canonical_current), same),
    ensures
        current is None ==> !same,
        current is Some && canonical_path is Some && canonical_current is Some ==> same
            == paths_are_equal(path_bytes(*canonical_path->0), path_bytes(*canonical_current->0)),
        current is Some && (canonical_path is None || canonical_current is None) ==> same
            == paths_are_equal(path_bytes(path), path_bytes(*current->0)),
{
}

/// HEAD names a branch unless it is known to be detached.
pub proof fn law_a_detached_head_names_no_branch(
    detached: Option<bool>,
    shorthand: Option<String>,
    branch: Option<String>,
)
    requires
        call_ensures(head_branch, (detached, shorthand), branch),
    ensures
        detached == Some(true) ==> branch is None,
        detached != Some(true) ==> branch == shorthand,
{
}

/// A new worktree goes where it was asked for, from the working directory on
/// where the path is relative, and is named after its final component. Without a
/// working directory or a name there is no plan.
pub proof fn law_a_worktree_goes_where_it_was_asked_for(
    workdir: Option<&PathBuf>,
    requested: &str,
    plan: Result<WorktreePlan, Error>,
    target: Seq<u8>,
)
    requires
        call_ensures(create_worktree, (workdir, requested), plan),
        path_is_absolute(encode_utf8(requested@)) ==> target == encode_utf8(requested@),
        !path_is_absolute(encode_utf8(requested@)) && workdir is Some ==> target == path_join(
            path_bytes(*workdir->0),
            encode_utf8(requested@),
        ),
    ensures
        !path_is_absolute(encode_utf8(requested@)) && workdir is None ==> plan matches Err(
            Error::NoWorkDir,
        ),
        path_is_absolute(encode_utf8(requested@)) || workdir is Some ==> {
            &&& path_name(target) is None ==> (plan matches Err(Error::Generic(msg)) && msg@
                == "invalid worktree path: no final component"@)
            &&& path_name(target) matches Some(name) ==> (plan matches Ok(plan) && plan.name@
                == name && path_bytes(plan.target) == target && path_view(plan.parent)
                == path_parent(target))
        },
{
}

/// Which of some names could be read.
pub open spec fn is_readable(names: Seq<Option<String>>) -> spec_fn(int) -> bool {
    |i: int| names[i] is Some
}

proof fn lemma_readable(names: Seq<Option<String>>, at: Seq<int>, p: spec_fn(int) -> bool)
    requires
        lists(at, names.len() as int, p),
        forall|i: int| 0 <= i < names.len() ==> #[trigger] p(i) == (names[i] is Some),
    ensures
        readable(names).len() == at.len(),
        forall|j: int| 0 <= j < at.len() ==> Some(#[trigger] readable(names)[j]) == names[at[j]],
    decreases names.len(),
{
    let n = names.len() as int;
    if n == 0 {
        lemma_list_of_none(at, p);
    } else {
        let front = names.drop_last();
        lemma_list_step(at, n, p);
        let before = if p(n - 1) {
            at.drop_last()
        } else {
            at
        };
        assert forall|i: int| 0 <= i < front.len() implies #[trigger] p(i) == (
        front[i] is Some) by {}
        lemma_readable(front, before, p);
        assert forall|j: int| 0 <= j < at.len() implies Some(#[trigger] readable(names)[j])
            == names[at[j]] by {
            if j < before.len() {
                assert(before[j] == at[j]);
                assert(Some(readable(front)[j]) == front[before[j]]);
            }
        }
    }
}

/// The names that could be read are listed in their order, all of them, and no
/// others.
pub proof fn law_readable_names_are_listed(
    names: Vec<Option<String>>,
    list: Vec<String>,
    at: Seq<int>,
)
    requires
        call_ensures(readable_names, (&names,), list),
        lists(at, names@.len() as int, is_readable(names@)),
    ensures
        list@.len() == at.len(),
        forall|j: int| 0 <= j < at.len() ==> Some(#[trigger] list@[j]) == names@[at[j]],
{
    lemma_readable(names@, at, is_readable(names@));
}

} // verus!
