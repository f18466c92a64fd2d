//! The rules for git worktrees: what is known of each, where a new one goes,
//! and when one may be removed.
use std::path::PathBuf;
use vstd::prelude::*;
#[allow(unused_imports)]
use vstd::utf8::encode_utf8;

use crate::error::Error;
#[allow(unused_imports)]
use crate::error::ErrorView;
use crate::paths::{copy_path, is_absolute, join, name_of_path, parent, path_of, same_path};
#[allow(unused_imports)]
use crate::paths::{
    may_name_drive, path_bytes, path_is_absolute, path_join, path_name, path_parent, path_ref_view,
    path_view, paths_are_equal, text_view,
};

verus! {

/// The name of the primary working tree.
pub const MAIN_WORKTREE_NAME: &'static str = "(main)";

/// Information about one git worktree (the primary tree or a linked one).
#[derive(Debug)]
pub struct WorktreeInfo {
    /// Linked-worktree name; "(main)" for the primary working tree.
    pub name: String,
    /// Absolute path to the worktree's working directory.
    pub path: PathBuf,
    /// Short name of the checked-out branch (HEAD), or `None` if detached or
    /// unborn.
    pub branch: Option<String>,
    /// Whether the worktree's working directory is present and valid.
    pub is_valid: bool,
    /// Whether the worktree is locked.
    pub is_locked: bool,
    /// Whether this is the worktree that is currently operated in.
    pub is_current: bool,
    /// Whether this is the primary ("(main)") working tree, which cannot be
    /// removed or locked.
    pub is_main: bool,
}

/// What a worktree entry says.
pub struct WorktreeView {
    pub name: Seq<char>,
    pub path: Seq<u8>,
    pub branch: Option<Seq<char>>,
    pub is_valid: bool,
    pub is_locked: bool,
    pub is_current: bool,
    pub is_main: bool,
}

impl View for WorktreeInfo {
    type V = WorktreeView;

    open spec fn view(&self) -> WorktreeView {
        WorktreeView {
            name: self.name@,
            path: path_bytes(self.path),
            branch: text_view(self.branch),
            is_valid: self.is_valid,
            is_locked: self.is_locked,
            is_current: self.is_current,
            is_main: self.is_main,
        }
    }
}

impl Clone for WorktreeInfo {
    fn clone(&self) -> (copy: Self)
        ensures
            copy@ == self@,
    {
        WorktreeInfo {
            name: self.name.clone(),
            path: copy_path(&self.path),
            branch: match &self.branch {
                Some(branch) => Some(branch.clone()),
                None => None,
            },
            is_valid: self.is_valid,
            is_locked: self.is_locked,
            is_current: self.is_current,
            is_main: self.is_main,
        }
    }
}

/// Whether `path` and `current` are the same directory: by their canonical
/// paths where both have one, else by the paths themselves.
pub open spec fn is_same_workdir(
    path: Seq<u8>,
    current: Option<Seq<u8>>,
    canonical_path: Option<Seq<u8>>,
    canonical_current: Option<Seq<u8>>,
) -> bool {
    match current {
        Some(current) => match (canonical_path, canonical_current) {
            (Some(a), Some(b)) => paths_are_equal(a, b),
            _ => paths_are_equal(path, current),
        },
        None => false,
    }
}

/// Whether `path` and `current` refer to the same working directory,
/// comparing canonical paths and falling back to the paths themselves where
/// there are none. A path is the same directory as itself, whether it exists
/// or not, and the two may be swapped.
pub fn same_workdir(
    path: &PathBuf,
    current: Option<&PathBuf>,
    canonical_path: Option<&PathBuf>,
    canonical_current: Option<&PathBuf>,
) -> (same: bool)
    ensures
        same == is_same_workdir(
            path_bytes(*path),
            path_ref_view(current),
            path_ref_view(canonical_path),
            path_ref_view(canonical_current),
        ),
        path_ref_view(current) == Some(path_bytes(*path)) && path_ref_view(canonical_path) == path_ref_view(
            canonical_current,
        ) ==> same,
        current matches Some(current) ==> same == is_same_workdir(
            path_bytes(*current),
            Some(path_bytes(*path)),
            path_ref_view(canonical_current),
            path_ref_view(canonical_path),
        ),
{
    match current {
        Some(current) => match (canonical_path, canonical_current) {
            (Some(a), Some(b)) => same_path(a, b),
            _ => same_path(path, current),
        },
        None => false,
    }
}

/// The branch that HEAD points at: none where HEAD is known to be detached,
/// as its short name is then "HEAD" rather than the name of a branch.
pub fn head_branch(head_detached: Option<bool>, shorthand: Option<String>) -> (branch: Option<
    String,
>)
    ensures
        branch == (if head_detached == Some(true) {
            None
        } else {
            shorthand
        }),
{
    match head_detached {
        Some(true) => None,
        _ => shorthand,
    }
}

/// What is known of a repository.
#[derive(Debug)]
pub struct RepoFacts {
    pub is_bare: bool,
    /// Whether the repository was opened in a linked worktree.
    pub is_worktree: bool,
    /// The git directory that all worktrees share.
    pub commondir: PathBuf,
    pub workdir: Option<PathBuf>,
}

/// The working directory of the primary tree.
pub open spec fn primary_workdir(repo: RepoFacts) -> Option<Seq<u8>> {
    if repo.is_bare {
        None
    } else if repo.is_worktree {
        path_parent(path_bytes(repo.commondir))
    } else {
        path_view(repo.workdir)
    }
}

/// The working directory of the primary tree: none for a bare repository. Seen
/// from a linked worktree, the primary tree sits next to the shared git
/// directory.
pub fn main_workdir(repo: &RepoFacts) -> (workdir: Option<PathBuf>)
    ensures
        path_view(workdir) == primary_workdir(*repo),
{
    if repo.is_bare {
        return None;
    }
    if repo.is_worktree {
        parent(&repo.commondir)
    } else {
        match &repo.workdir {
            Some(workdir) => Some(copy_path(workdir)),
            None => None,
        }
    }
}

/// The entry for the primary working tree.
pub fn main_worktree_info(workdir: PathBuf, branch: Option<String>, is_current: bool) -> (info:
    WorktreeInfo)
    ensures
        info@ == (WorktreeView {
            name: MAIN_WORKTREE_NAME@,
            path: path_bytes(workdir),
            branch: text_view(branch),
            is_valid: true,
            is_locked: false,
            is_current,
            is_main: true,
        }),
{
    WorktreeInfo {
        is_current,
        name: MAIN_WORKTREE_NAME.to_owned(),
        path: workdir,
        branch,
        is_valid: true,
        is_locked: false,
        is_main: true,
    }
}

/// What the entry for a linked worktree says: it is locked where it is known to
/// be, and never the primary one.
pub open spec fn linked_entry(
    name: Seq<char>,
    path: Seq<u8>,
    branch: Option<Seq<char>>,
    locked: Option<bool>,
    is_valid: bool,
    is_current: bool,
) -> WorktreeView {
    WorktreeView {
        name,
        path,
        branch,
        is_valid,
        is_locked: locked == Some(true),
        is_current,
        is_main: false,
    }
}

/// The entry for a linked worktree. Whether it is locked may be unknown.
pub fn linked_worktree_info(
    name: String,
    path: PathBuf,
    branch: Option<String>,
    locked: Option<bool>,
    is_valid: bool,
    is_current: bool,
) -> (info: WorktreeInfo)
    ensures
        info@ == linked_entry(
            name@,
            path_bytes(path),
            text_view(branch),
            locked,
            is_valid,
            is_current,
        ),
{
    let is_locked = match locked {
        Some(locked) => locked,
        None => false,
    };
    WorktreeInfo { is_current, name, path, branch, is_valid, is_locked, is_main: false }
}

/// A list of worktrees: the primary one first, if there is one, then the
/// linked ones.
pub open spec fn worktree_list(
    main: Option<WorktreeInfo>,
    linked: Seq<WorktreeInfo>,
) -> Seq<WorktreeInfo> {
    match main {
        Some(main) => seq![main] + linked,
        None => linked,
    }
}

/// The worktrees of a repository: the primary one first, if there is one,
/// then the linked ones in their order. The first linked one that could not be
/// read is the error.
pub fn get_worktrees(
    main: Option<WorktreeInfo>,
    linked: Vec<Result<WorktreeInfo, Error>>,
) -> (list: Result<Vec<WorktreeInfo>, Error>)
    ensures
        match list {
            Ok(list) => {
                &&& forall|i: int| 0 <= i < linked@.len() ==> (#[trigger] linked@[i]) is Ok
                &&& list@ == worktree_list(
                    main,
                    Seq::new(linked@.len(), |i: int| linked@[i]->Ok_0),
                )
            },
            Err(err) => exists|i: int|
                {
                    &&& 0 <= i < linked@.len()
                    &&& #[trigger] linked@[i] == Err::<WorktreeInfo, Error>(err)
                    &&& forall|j: int| 0 <= j < i ==> (#[trigger] linked@[j]) is Ok
                },
        },
{
    let mut worktrees: Vec<WorktreeInfo> = Vec::new();
    if let Some(main) = main {
        worktrees.push(main);
    }
    let ghost first = worktrees@;
    let ghost all = linked@;
    let mut rest = linked;
    let ghost mut taken: int = 0;
    assert(all.skip(0) =~= all);
    while rest.len() > 0
        invariant
            all == linked@,
            0 <= taken <= all.len(),
            rest@ == all.skip(taken),
            forall|i: int| 0 <= i < taken ==> (#[trigger] all[i]) is Ok,
            worktrees@ == first + Seq::new(taken as nat, |i: int| all[i]->Ok_0),
        decreases rest@.len(),
    {
        assert(rest@[0] == all[taken]);
        let entry = rest.remove(0);
        match entry {
            Ok(info) => {
                worktrees.push(info);
            },
            Err(err) => {
                assert(all[taken] == Err::<WorktreeInfo, Error>(err));
                return Err(err);
            },
        }
        assert(rest@ =~= all.skip(taken + 1));
        assert(worktrees@ =~= first + Seq::new((taken + 1) as nat, |i: int| all[i]->Ok_0));
        proof {
            taken = taken + 1;
        }
    }
    assert(taken == all.len());
    assert(worktrees@ =~= worktree_list(main, Seq::new(all.len(), |i: int| all[i]->Ok_0)));
    Ok(worktrees)
}

/// The names among `names` that could be read.
pub open spec fn readable(names: Seq<Option<String>>) -> Seq<String>
    decreases names.len(),
{
    if names.len() == 0 {
        Seq::empty()
    } else {
        match names.last() {
            Some(name) => readable(names.drop_last()).push(name),
            None => readable(names.drop_last()),
        }
    }
}

/// The names of the linked worktrees; those that could not be read are left
/// out.
pub fn readable_names(names: &Vec<Option<String>>) -> (list: Vec<String>)
    ensures
        list@ == readable(names@),
{
    let mut list: Vec<String> = Vec::new();
    let mut i: usize = 0;
    assert(names@.take(0) =~= Seq::<Option<String>>::empty());
    while i < names.len()
        invariant
            i <= names@.len(),
            list@ == readable(names@.take(i as int)),
        decreases names@.len() - i,
    {
        assert(names@.take(i + 1).drop_last() =~= names@.take(i as int));
        if let Some(name) = &names[i] {
            list.push(name.clone());
        }
        i += 1;
    }
    assert(names@.take(i as int) =~= names@);
    list
}

/// Where a new worktree goes.
#[derive(Debug)]
pub struct WorktreePlan {
    /// Its name, and that of its new branch.
    pub name: String,
    /// Its working directory.
    pub target: PathBuf,
    /// The directory that has to exist for it, if any.
    pub parent: Option<PathBuf>,
}

/// The working directory of a new worktree: an absolute path as it is, a
/// relative one from the repository's working directory.
pub open spec fn worktree_target(workdir: Option<Seq<u8>>, requested: Seq<u8>) -> Option<
    Seq<u8>,
> {
    if path_is_absolute(requested) {
        Some(requested)
    } else {
        match workdir {
            Some(workdir) => Some(path_join(workdir, requested)),
            None => None,
        }
    }
}

/// Plans a new linked worktree, given its working directory, if it is known,
/// and the final component and the parent of that directory.
pub fn plan_worktree(
    target: Option<PathBuf>,
    name: Option<String>,
    parent: Option<PathBuf>,
) -> (plan: Result<WorktreePlan, Error>)
    ensures
        match (target, name) {
            (None, _) => plan matches Err(err) && err@ == ErrorView::NoWorkDir,
            (Some(_), None) => plan matches Err(err) && err@ == ErrorView::Generic(
                "invalid worktree path: no final component"@,
            ),
            (Some(target), Some(name)) => plan == Ok::<WorktreePlan, Error>(
                WorktreePlan { name, target, parent },
            ),
        },
{
    match (target, name) {
        (None, _) => Err(Error::NoWorkDir),
        (Some(_), None) => Err(
            Error::Generic("invalid worktree path: no final component".to_owned()),
        ),
        (Some(target), Some(name)) => Ok(WorktreePlan { name, target, parent }),
    }
}

/// Plans a new linked worktree at `worktree_path`, named after the final path
/// component. `worktree_path` may be absolute or relative to the repository's
/// working directory.
pub fn create_worktree(workdir: Option<&PathBuf>, worktree_path: &str) -> (plan: Result<
    WorktreePlan,
    Error,
>)
    ensures
        match worktree_target(path_ref_view(workdir), encode_utf8(worktree_path@)) {
            None => plan matches Err(err) && err@ == ErrorView::NoWorkDir,
            Some(target) => match path_name(target) {
                None => plan matches Err(err) && err@ == ErrorView::Generic(
                    "invalid worktree path: no final component"@,
                ),
                Some(name) => plan matches Ok(plan) && plan.name@ == name && path_bytes(
                    plan.target,
                ) == target && path_view(plan.parent) == path_parent(target),
            },
        },
        plan is Ok && (path_is_absolute(encode_utf8(worktree_path@)) || (!may_name_drive(
            encode_utf8(worktree_path@),
        ) && (workdir matches Some(workdir) && path_is_absolute(path_bytes(*workdir)))))
            ==> path_is_absolute(path_bytes(plan->Ok_0.target)),
{
    let requested = path_of(worktree_path);
    let target = if is_absolute(&requested) {
        requested
    } else {
        match workdir {
            Some(workdir) => join(workdir, &requested),
            None => {
                return plan_worktree(None, None, None);
            },
        }
    };
    let name = name_of_path(&target);
    let parent = parent(&target);
    plan_worktree(Some(target), name, parent)
}

/// What is known so far of a worktree that is to be removed. An answer that
/// was not asked for yet is `None`; a question that could not be answered is an
/// error message.
#[derive(Debug)]
pub struct RemovalFacts {
    /// Whether it is the worktree that is currently operated in.
    pub is_current: bool,
    pub locked: Option<Result<bool, String>>,
    /// Whether its working directory still exists.
    pub valid: Option<bool>,
    /// How many changes are staged in it.
    pub staged: Option<Result<usize, String>>,
    /// How many files of its working directory differ from the index or are
    /// untracked.
    pub changed: Option<Result<usize, String>>,
}

/// What comes next in the removal of a worktree.
#[derive(Debug)]
pub enum RemovalStep {
    ReadLock,
    Validate,
    ReadStaged,
    ReadChanged,
    /// Prune it and delete its working directory, even if that still exists.
    Prune,
    /// Leave it as it is.
    Refuse(Error),
}

/// What a removal step says.
pub enum RemovalStepView {
    ReadLock,
    Validate,
    ReadStaged,
    ReadChanged,
    Prune,
    Refuse(ErrorView),
}

impl View for RemovalStep {
    type V = RemovalStepView;

    open spec fn view(&self) -> RemovalStepView {
        match *self {
            RemovalStep::ReadLock => RemovalStepView::ReadLock,
            RemovalStep::Validate => RemovalStepView::Validate,
            RemovalStep::ReadStaged => RemovalStepView::ReadStaged,
            RemovalStep::ReadChanged => RemovalStepView::ReadChanged,
            RemovalStep::Prune => RemovalStepView::Prune,
            RemovalStep::Refuse(err) => RemovalStepView::Refuse(err@),
        }
    }
}

/// The next step of a removal. It is refused for the current worktree, a
/// locked one, and one with staged, changed or untracked files, in this order;
/// changes can only be looked for where the working directory still exists.
pub open spec fn removal_step(facts: RemovalFacts) -> RemovalStepView {
    let dirty = RemovalStepView::Refuse(
        ErrorView::Generic("worktree has uncommitted changes; commit or discard them first"@),
    );
    if facts.is_current {
        RemovalStepView::Refuse(ErrorView::Generic("cannot remove the current worktree"@))
    } else {
        match facts.locked {
            None => RemovalStepView::ReadLock,
            Some(Err(err)) => RemovalStepView::Refuse(ErrorView::Service(err@)),
            Some(Ok(true)) => RemovalStepView::Refuse(
                ErrorView::Generic("worktree is locked; unlock it before removing"@),
            ),
            Some(Ok(false)) => match facts.valid {
                None => RemovalStepView::Validate,
                Some(false) => RemovalStepView::Prune,
                Some(true) => match facts.staged {
                    None => RemovalStepView::ReadStaged,
                    Some(Err(err)) => RemovalStepView::Refuse(ErrorView::Service(err@)),
                    Some(Ok(staged)) => if staged > 0 {
                        dirty
                    } else {
                        match facts.changed {
                            None => RemovalStepView::ReadChanged,
                            Some(Err(err)) => RemovalStepView::Refuse(ErrorView::Service(err@)),
                            Some(Ok(changed)) => if changed > 0 {
                                dirty
                            } else {
                                RemovalStepView::Prune
                            },
                        }
                    },
                },
            },
        }
    }
}

fn refuse(reason: &str) -> (step: RemovalStep)
    ensures
        step@ == RemovalStepView::Refuse(ErrorView::Generic(reason@)),
{
    RemovalStep::Refuse(Error::Generic(reason.to_owned()))
}

/// The next step in the removal of a linked worktree, which deletes its
/// working directory and prunes its administrative files.
pub fn remove_worktree(facts: &RemovalFacts) -> (step: RemovalStep)
    ensures
        step@ == removal_step(*facts),
{
    // never remove the worktree that is operated in
    if facts.is_current {
        return refuse("cannot remove the current worktree");
    }
    // a locked worktree is deliberately protected; require unlock

    match &facts.locked {
        None => {
            return RemovalStep::ReadLock;
        },
        Some(Err(err)) => {
            return RemovalStep::Refuse(Error::Service(err.clone()));
        },
        Some(Ok(locked)) => {
            if *locked {
                return refuse("worktree is locked; unlock it before removing");
            }
        },
    }
    match facts.valid {
        None => {
            return RemovalStep::Validate;
        },
        Some(false) => {
            return RemovalStep::Prune;
        },
        Some(true) => {},
    }
    // the working directory alone may match the index while changes are
    // staged, so both are looked at
    match &facts.staged {
        None => {
            return RemovalStep::ReadStaged;
        },
        Some(Err(err)) => {
            return RemovalStep::Refuse(Error::Service(err.clone()));
        },
        Some(Ok(staged)) => {
            if *staged > 0 {
                return refuse("worktree has uncommitted changes; commit or discard them first");
            }
        },
    }
    match &facts.changed {
        None => RemovalStep::ReadChanged,
        Some(Err(err)) => RemovalStep::Refuse(Error::Service(err.clone())),
        Some(Ok(changed)) => if *changed > 0 {
            refuse("worktree has uncommitted changes; commit or discard them first")
        } else {
            RemovalStep::Prune
        },
    }
}

/// What toggling does to a lock.
#[derive(Clone, Copy, PartialEq, Eq, Debug, Structural)]
pub enum LockAction {
    Lock,
    Unlock,
}

impl LockAction {
    /// Whether a worktree is locked after the action.
    pub open spec fn leaves_locked(self) -> bool {
        self == LockAction::Lock
    }
}

/// What toggling does to a worktree that is locked or not.
pub open spec fn toggle(locked: bool) -> LockAction {
    if locked {
        LockAction::Unlock
    } else {
        LockAction::Lock
    }
}

/// Locks an unlocked worktree (with no reason), unlocks a locked one.
pub fn toggle_worktree_lock(locked: bool) -> (action: LockAction)
    ensures
        action == toggle(locked),
{
    if locked {
        LockAction::Unlock
    } else {
        LockAction::Lock
    }
}

/// A worktree is only removed if it is not the current one, is not locked, and
/// has no staged, changed or untracked files, as far as its working directory
/// still exists.
pub proof fn law_removal_needs_a_clean_worktree(facts: RemovalFacts)
    requires
        removal_step(facts) == RemovalStepView::Prune,
    ensures
        !facts.is_current,
        facts.locked == Some(Ok::<bool, String>(false)),
        facts.valid == Some(false) || (facts.staged == Some(Ok::<usize, String>(0))
            && facts.changed == Some(Ok::<usize, String>(0))),
{
}

/// A worktree that is the current one, is locked, or has changes is refused,
/// whatever else is known of it.
pub proof fn law_protected_worktrees_are_refused(facts: RemovalFacts)
    requires
        ({
            ||| facts.is_current
            ||| facts.locked == Some(Ok::<bool, String>(true))
            ||| {
                &&& facts.locked == Some(Ok::<bool, String>(false))
                &&& facts.valid == Some(true)
                &&& facts.staged matches Some(Ok(staged)) && (staged > 0 || (facts.changed matches Some(
                    Ok(changed),
                ) && changed > 0))
            }
        }),
    ensures
        removal_step(facts) is Refuse,
{
}

/// A step never asks what is known already, so that a removal ends after at
/// most four answers.
pub proof fn law_removal_asks_nothing_twice(facts: RemovalFacts)
    ensures
        removal_step(facts) is ReadLock ==> facts.locked is None,
        removal_step(facts) is Validate ==> facts.valid is None,
        removal_step(facts) is ReadStaged ==> facts.staged is None,
        removal_step(facts) is ReadChanged ==> facts.changed is None,
{
}

/// Toggling twice leaves a lock as it was.
pub proof fn law_toggling_twice_restores_the_lock(locked: bool)
    ensures
        toggle(locked).leaves_locked() == !locked,
        toggle(toggle(locked).leaves_locked()).leaves_locked() == locked,
{
}

/// A worktree that was created as planned is listed once more than before:
/// where the repository has it among its linked worktrees at place `k`, on a
/// branch of its own name, all earlier entries stay in their order, and the new
/// one, neither the current nor the primary one, stands between them.
pub proof fn law_a_created_worktree_is_listed(
    main: Option<WorktreeInfo>,
    linked: Seq<WorktreeInfo>,
    plan: WorktreePlan,
    created: WorktreeInfo,
    k: int,
)
    requires
        0 <= k <= linked.len(),
        created@ == linked_entry(
            plan.name@,
            path_bytes(plan.target),
            Some(plan.name@),
            Some(false),
            true,
            false,
        ),
    ensures
        ({
            let before = worktree_list(main, linked);
            let after = worktree_list(main, linked.insert(k, created));
            let at = before.len() - linked.len() + k;
            &&& after == before.insert(at, created)
            &&& after[at]@.name == plan.name@
            &&& after[at]@.path == path_bytes(plan.target)
            &&& after[at]@.branch == Some(plan.name@)
            &&& !after[at]@.is_current && !after[at]@.is_main
        }),
{
    let before = worktree_list(main, linked);
    let at = before.len() - linked.len() + k;
    assert(worktree_list(main, linked.insert(k, created)) =~= before.insert(at, created));
}

} // verus!
