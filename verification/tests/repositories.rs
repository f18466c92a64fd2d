use git2::{
    Oid, Repository, RepositoryInitOptions, Signature, StatusOptions, WorktreeLockStatus,
    WorktreePruneOptions,
};
use gitui::branch_diff::{
    base_branch_candidate, diff_range, diff_range_vs_base, diff_range_vs_ref, resolve_base_branch,
    BaseStep, CommitId, OldNew, RangeFacts, RangeStep,
};
use gitui::error::Error;
use gitui::paths::expand_path_from;
use gitui::worktree::{
    self, create_worktree, head_branch, plan_worktree, readable_names, LockAction, RemovalFacts, RemovalStep,
    RepoFacts, WorktreeInfo,
};
use gitui::worktrees::worktree_row;
use std::path::{Path, PathBuf};
use tempfile::TempDir;

fn repo_init() -> (TempDir, Repository) {
    let td = TempDir::new().unwrap();
    let mut opts = RepositoryInitOptions::new();
    opts.initial_head("master");
    let repo = Repository::init_opts(td.path(), &opts).unwrap();
    {
        let mut config = repo.config().unwrap();
        config.set_str("user.name", "name").unwrap();
        config.set_str("user.email", "email").unwrap();
        let id = repo.index().unwrap().write_tree().unwrap();
        let tree = repo.find_tree(id).unwrap();
        let sig = Signature::now("name", "email").unwrap();
        repo.commit(Some("HEAD"), &sig, &sig, "initial", &tree, &[]).unwrap();
    }
    (td, repo)
}

fn write_file(dir: &Path, name: &str) {
    tempfile::Builder::new()
        .prefix(name)
        .rand_bytes(0)
        .tempfile_in(dir)
        .unwrap()
        .keep()
        .unwrap();
}

fn write_commit_file(repo: &Repository, name: &str, msg: &str) -> Oid {
    write_file(repo.workdir().unwrap(), name);
    let mut index = repo.index().unwrap();
    index.add_path(Path::new(name)).unwrap();
    index.write().unwrap();
    let id = index.write_tree().unwrap();
    let tree = repo.find_tree(id).unwrap();
    let sig = repo.signature().unwrap();
    let parent = repo.head().unwrap().peel_to_commit().unwrap();
    repo.commit(Some("HEAD"), &sig, &sig, msg, &tree, &[&parent]).unwrap()
}

fn same_workdir(path: &Path, current: Option<&Path>) -> bool {
    let canonical_path = path.canonicalize().ok();
    let canonical_current = current.and_then(|p| p.canonicalize().ok());
    worktree::same_workdir(
        &path.to_path_buf(),
        current.map(Path::to_path_buf).as_ref(),
        canonical_path.as_ref(),
        canonical_current.as_ref(),
    )
}

fn branch_of(repo: &Repository) -> Option<String> {
    head_branch(
        repo.head_detached().ok(),
        repo.head().ok().and_then(|head| head.shorthand().ok().map(String::from)),
    )
}

fn get_worktrees(repo: &Repository) -> Result<Vec<WorktreeInfo>, Error> {
    let current = repo.workdir();
    let facts = RepoFacts {
        is_bare: repo.is_bare(),
        is_worktree: repo.is_worktree(),
        commondir: repo.commondir().to_path_buf(),
        workdir: current.map(Path::to_path_buf),
    };
    let main = worktree::main_workdir(&facts).map(|workdir| {
        let branch = if facts.is_worktree {
            Repository::open(&workdir).ok().and_then(|r| branch_of(&r))
        } else {
            branch_of(repo)
        };
        let is_current = same_workdir(&workdir, current);
        worktree::main_worktree_info(workdir, branch, is_current)
    });
    let names: Vec<Option<String>> = repo
        .worktrees()
        .unwrap()
        .iter()
        .map(|name| name.ok().flatten().map(String::from))
        .collect();
    let linked = readable_names(&names)
        .into_iter()
        .map(|name| {
            let wt = repo.find_worktree(&name).map_err(|e| Error::Service(e.to_string()))?;
            let branch = Repository::open_from_worktree(&wt).ok().and_then(|r| branch_of(&r));
            let locked =
                wt.is_locked().ok().map(|status| matches!(status, WorktreeLockStatus::Locked(_)));
            Ok(worktree::linked_worktree_info(
                name,
                wt.path().to_path_buf(),
                branch,
                locked,
                wt.validate().is_ok(),
                same_workdir(wt.path(), current),
            ))
        })
        .collect();
    worktree::get_worktrees(main, linked)
}

fn add_worktree(repo: &Repository, path: &str) -> Result<PathBuf, Error> {
    let plan = create_worktree(repo.workdir().map(Path::to_path_buf).as_ref(), path)?;
    if let Some(parent) = &plan.parent {
        let mut opts = RepositoryInitOptions::new();
        opts.bare(true).mkpath(true);
        Repository::init_opts(parent.join(".seed"), &opts).unwrap();
    }
    repo.worktree(&plan.name, &plan.target, None)
        .map(|wt| wt.path().to_path_buf())
        .map_err(|e| Error::Service(e.to_string()))
}

fn statuses(path: &Path, staged: bool) -> Result<usize, String> {
    let repo = Repository::open(path).map_err(|e| e.to_string())?;
    let mut opts = StatusOptions::new();
    opts.show(if staged { git2::StatusShow::Index } else { git2::StatusShow::Workdir });
    opts.include_untracked(true);
    let list = repo.statuses(Some(&mut opts)).map_err(|e| e.to_string())?;
    Ok(list.len())
}

fn remove_worktree(repo: &Repository, name: &str) -> Result<(), Error> {
    let wt = repo.find_worktree(name).map_err(|e| Error::Service(e.to_string()))?;
    let mut facts = RemovalFacts {
        is_current: same_workdir(wt.path(), repo.workdir()),
        locked: None,
        valid: None,
        staged: None,
        changed: None,
    };
    loop {
        match worktree::remove_worktree(&facts) {
            RemovalStep::ReadLock => {
                facts.locked = Some(
                    wt.is_locked()
                        .map(|status| matches!(status, WorktreeLockStatus::Locked(_)))
                        .map_err(|e| e.to_string()),
                );
            }
            RemovalStep::Validate => facts.valid = Some(wt.validate().is_ok()),
            RemovalStep::ReadStaged => {
                facts.staged = Some(statuses(wt.path(), true));
            }
            RemovalStep::ReadChanged => {
                facts.changed = Some(statuses(wt.path(), false));
            }
            RemovalStep::Prune => {
                let mut opts = WorktreePruneOptions::new();
                opts.valid(true).working_tree(true);
                return wt.prune(Some(&mut opts)).map_err(|e| Error::Service(e.to_string()));
            }
            RemovalStep::Refuse(err) => return Err(err),
        }
    }
}

fn toggle_worktree_lock(repo: &Repository, name: &str) {
    let wt = repo.find_worktree(name).unwrap();
    let locked = matches!(wt.is_locked().unwrap(), WorktreeLockStatus::Locked(_));
    match worktree::toggle_worktree_lock(locked) {
        LockAction::Lock => wt.lock(None).unwrap(),
        LockAction::Unlock => wt.unlock().unwrap(),
    }
}

fn find<'a>(list: &'a [WorktreeInfo], name: &str) -> &'a WorktreeInfo {
    list.iter().find(|w| w.name == name).unwrap()
}

fn commit_id(oid: Oid) -> CommitId {
    let mut bytes = [0; 20];
    bytes.copy_from_slice(oid.as_bytes());
    CommitId { bytes }
}

fn oid(id: CommitId) -> Oid {
    Oid::from_bytes(&id.bytes).unwrap()
}

fn from_revision(repo: &Repository, revision: &str) -> Result<CommitId, String> {
    repo.revparse_single(revision)
        .and_then(|object| object.peel_to_commit())
        .map(|commit| commit_id(commit.id()))
        .map_err(|e| e.to_string())
}

fn merge_base(repo: &Repository, one: CommitId, two: CommitId) -> Result<CommitId, String> {
    repo.merge_base(oid(one), oid(two)).map(commit_id).map_err(|e| e.to_string())
}

fn run_range(
    repo: &Repository,
    revision: &str,
    base_revision: Option<&str>,
) -> Result<OldNew<CommitId>, Error> {
    let mut tried = Vec::new();
    let mut base = None;
    let mut facts = RangeFacts { tip: None, merge_base: None };
    loop {
        let step = match base_revision {
            Some(base_revision) => diff_range_vs_ref(revision, base_revision, &base, &facts),
            None => diff_range_vs_base(revision, &tried, &facts),
        };
        match step {
            RangeStep::ResolveBase(name) => {
                let id = from_revision(repo, &name);
                match base_revision {
                    Some(_) => base = Some(id),
                    None => tried.push(id.ok()),
                }
            }
            RangeStep::ResolveTip(name) => facts.tip = Some(from_revision(repo, &name)),
            RangeStep::MergeBase(one, two) => {
                facts.merge_base = Some(merge_base(repo, one, two));
            }
            RangeStep::Done(range) => return Ok(range),
            RangeStep::Failed(err) => return Err(err),
        }
    }
}

fn checkout_new_branch(repo: &Repository, name: &str) {
    let head = repo.head().unwrap().peel_to_commit().unwrap();
    repo.branch(name, &head, false).unwrap();
    repo.set_head(&format!("refs/heads/{name}")).unwrap();
}

#[test]
fn test_merge_base_linear_history() {
    let (_td, repo) = repo_init();
    let commit_a = write_commit_file(&repo, "a.txt", "commit a");
    let commit_b = write_commit_file(&repo, "b.txt", "commit b");

    let facts = RangeFacts { tip: Some(Ok(commit_id(commit_b))), merge_base: None };
    match diff_range("HEAD", commit_id(commit_a), &facts) {
        RangeStep::MergeBase(one, two) => {
            let base = merge_base(&repo, one, two).unwrap();
            assert_eq!(oid(base), commit_a);
        }
        step => panic!("{step:?}"),
    }
}

#[test]
fn test_resolve_base_branch_finds_master() {
    let (_td, repo) = repo_init();
    let mut tried = Vec::new();
    let found = loop {
        match resolve_base_branch(&tried) {
            BaseStep::Resolve(name) => tried.push(from_revision(&repo, name).ok()),
            BaseStep::Found(id) => break Ok(id),
            BaseStep::Failed(err) => break Err(err),
        }
    };
    assert!(found.is_ok());
    assert_eq!(tried.len(), 2);
}

#[test]
fn base_branches_are_tried_in_order() {
    let names: Vec<&str> = (0..5).map(base_branch_candidate).collect();
    assert_eq!(names, vec!["main", "master", "origin/main", "origin/master", "origin/HEAD"]);
    let id = |n: u8| CommitId { bytes: [n; 20] };
    match resolve_base_branch(&vec![None, Some(id(1)), Some(id(2))]) {
        BaseStep::Found(found) => assert_eq!(found.bytes, [1; 20]),
        step => panic!("{step:?}"),
    }
    match resolve_base_branch(&vec![None, None, None, None, None]) {
        BaseStep::Failed(Error::Generic(msg)) => {
            assert_eq!(msg, "no base branch (main/master) found");
        }
        step => panic!("{step:?}"),
    }
}

#[test]
fn test_diff_range_vs_base() {
    let (_td, repo) = repo_init();
    let base_commit = write_commit_file(&repo, "base.txt", "base commit");

    checkout_new_branch(&repo, "feature");
    let feature_commit = write_commit_file(&repo, "feature.txt", "feature commit");

    let range = run_range(&repo, "feature", None).unwrap();

    assert_eq!(oid(range.old), base_commit);
    assert_eq!(oid(range.new), feature_commit);

    let tree = |id: CommitId| repo.find_commit(oid(id)).unwrap().tree().unwrap();
    let diff = repo
        .diff_tree_to_tree(Some(&tree(range.old)), Some(&tree(range.new)), None)
        .unwrap();
    let files: Vec<_> = diff.deltas().map(|d| d.new_file().path().unwrap().to_owned()).collect();
    assert_eq!(files.len(), 1);
    assert_eq!(files[0].to_str().unwrap(), "feature.txt");
}

#[test]
fn test_diff_range_vs_ref_explicit_base() {
    let (_td, repo) = repo_init();
    let base_commit = write_commit_file(&repo, "base.txt", "base commit");

    checkout_new_branch(&repo, "feature");
    let feature_commit = write_commit_file(&repo, "feature.txt", "feature commit");

    // HEAD (feature) diffed against an explicit base branch
    let range = run_range(&repo, "HEAD", Some("master")).unwrap();

    assert_eq!(oid(range.old), base_commit);
    assert_eq!(oid(range.new), feature_commit);
}

#[test]
fn unknown_revisions_fail() {
    let (_td, repo) = repo_init();
    assert!(matches!(run_range(&repo, "nowhere", None), Err(Error::Service(_))));
    assert!(matches!(run_range(&repo, "HEAD", Some("nowhere")), Err(Error::Service(_))));
}

#[test]
fn test_lists_primary_and_linked() {
    let (_td, repo) = repo_init();

    // linked worktree kept outside the main workdir to avoid nesting;
    // `wt_dir` must stay alive for the whole test.
    let wt_dir = TempDir::new().unwrap();
    let wt_path = wt_dir.path().join("wt1");
    repo.worktree("wt1", &wt_path, None).unwrap();

    let list = get_worktrees(&repo).unwrap();

    assert_eq!(list.len(), 2);

    let linked = find(&list, "wt1");
    assert!(linked.path.is_absolute());
    assert!(linked.path.ends_with("wt1"));
    // git names the branch after the worktree by default.
    assert!(linked.branch.is_some());
    assert!(!linked.is_current);

    let primary = find(&list, "(main)");
    assert!(primary.is_current);
    assert_eq!(list[0].name, "(main)");
}

#[test]
fn the_primary_tree_is_seen_from_a_linked_one() {
    let (td, repo) = repo_init();
    let wt_dir = TempDir::new().unwrap();
    let wt_path = wt_dir.path().join("wt1");
    repo.worktree("wt1", &wt_path, None).unwrap();

    let linked = Repository::open(&wt_path).unwrap();
    let list = get_worktrees(&linked).unwrap();
    let primary = find(&list, "(main)");
    assert!(!primary.is_current && primary.is_main);
    assert_eq!(primary.branch.as_deref(), Some("master"));
    assert_eq!(
        primary.path.canonicalize().unwrap(),
        td.path().canonicalize().unwrap()
    );
    assert!(find(&list, "wt1").is_current);
}

#[test]
fn a_bare_repository_has_no_primary_tree() {
    let td = TempDir::new().unwrap();
    let repo = Repository::init_bare(td.path()).unwrap();
    assert!(get_worktrees(&repo).unwrap().is_empty());
}

#[test]
fn test_primary_only() {
    let (_td, repo) = repo_init();

    let list = get_worktrees(&repo).unwrap();

    assert_eq!(list.len(), 1);
    assert_eq!(list[0].name, "(main)");
    assert!(list[0].is_current);
    assert!(list[0].is_valid);
    assert!(!list[0].is_locked);
}

#[test]
fn test_detached_head_has_no_branch() {
    let (_td, repo) = repo_init();

    let oid = repo.head().unwrap().target().unwrap();
    repo.set_head_detached(oid).unwrap();

    let list = get_worktrees(&repo).unwrap();

    assert_eq!(list.len(), 1);
    assert_eq!(list[0].name, "(main)");
    assert!(list[0].branch.is_none());
}

#[test]
fn test_create_worktree_new_branch() {
    let (_td, repo) = repo_init();

    // keep the linked worktree outside the main workdir; wt_dir must
    // stay alive for the whole test.
    let wt_dir = TempDir::new().unwrap();
    let wt_path = wt_dir.path().join("feature-x");

    let created = add_worktree(&repo, wt_path.to_str().unwrap()).unwrap();

    assert!(created.ends_with("feature-x"));

    let list = get_worktrees(&repo).unwrap();
    let wt = find(&list, "feature-x");
    assert!(wt.path.is_absolute());
    // libgit2 names the new branch after the worktree.
    assert_eq!(wt.branch.as_deref(), Some("feature-x"));
    assert!(!wt.is_current);
}

#[test]
fn test_create_worktree_creates_missing_parents() {
    let (_td, repo) = repo_init();

    // nested path whose parent dirs do not exist yet; libgit2 would
    // fail to mkdir the leaf without this being handled.
    let wt_dir = TempDir::new().unwrap();
    let nested = wt_dir.path().join("a").join("b").join("wt");

    let created = add_worktree(&repo, nested.to_str().unwrap()).unwrap();

    assert!(created.ends_with("wt"));
    let list = get_worktrees(&repo).unwrap();
    let wt = find(&list, "wt");
    assert_eq!(wt.branch.as_deref(), Some("wt"));
}

#[test]
fn test_create_worktree_rejects_pathless_name() {
    let (_td, repo) = repo_init();

    // a path ending in ".." has no usable final component
    let res = add_worktree(&repo, "..");
    assert!(res.is_err());
    assert!(matches!(
        create_worktree(Some(&PathBuf::from("/repo")), ".."),
        Err(Error::Generic(msg)) if msg == "invalid worktree path: no final component"
    ));
}

#[test]
fn worktree_paths_are_relative_to_the_working_directory() {
    let plan = create_worktree(Some(&PathBuf::from("/repo")), "worktrees/foo").unwrap();
    assert_eq!(plan.name, "foo");
    assert_eq!(plan.target, PathBuf::from("/repo/worktrees/foo"));
    assert_eq!(plan.parent, Some(PathBuf::from("/repo/worktrees")));
    let plan = create_worktree(None, "/elsewhere/bar").unwrap();
    assert_eq!(plan.name, "bar");
    assert_eq!(plan.target, PathBuf::from("/elsewhere/bar"));
    assert!(matches!(create_worktree(None, "bar"), Err(Error::NoWorkDir)));
    assert!(matches!(create_worktree(None, "/"), Err(Error::Generic(_))));
}

#[test]
fn a_plan_needs_a_target_and_a_name() {
    let some = |text: &str| Some(text.to_string());
    let path = |text: &str| Some(PathBuf::from(text));
    let plan = plan_worktree(path("/a/b"), some("b"), path("/a")).unwrap();
    assert_eq!((plan.target, plan.name), (PathBuf::from("/a/b"), "b".to_string()));
    assert_eq!(plan.parent, path("/a"));
    assert!(plan_worktree(path("b"), some("b"), None).unwrap().parent.is_none());
    assert!(matches!(plan_worktree(None, some("b"), None), Err(Error::NoWorkDir)));
    assert!(matches!(
        plan_worktree(path("/"), None, path("/")),
        Err(Error::Generic(msg)) if msg == "invalid worktree path: no final component"
    ));
}

#[test]
fn a_created_worktree_is_one_more_entry() {
    let (_td, repo) = repo_init();
    let wt_dir = TempDir::new().unwrap();
    for name in ["m", "z"] {
        add_worktree(&repo, wt_dir.path().join(name).to_str().unwrap()).unwrap();
    }
    let before = get_worktrees(&repo).unwrap();
    let created = add_worktree(&repo, wt_dir.path().join("q").to_str().unwrap()).unwrap();
    assert!(created.is_absolute());
    let mut after = get_worktrees(&repo).unwrap();
    let at = after.iter().position(|w| w.name == "q").unwrap();
    let new = after.remove(at);
    assert_eq!(new.branch.as_deref(), Some("q"));
    assert!(!new.is_current && !new.is_main && !new.is_locked && new.is_valid);
    let names = |list: &[WorktreeInfo]| -> Vec<String> {
        list.iter().map(|w| w.name.clone()).collect()
    };
    assert_eq!(names(&after), names(&before));
}

#[test]
fn test_remove_worktree() {
    let (_td, repo) = repo_init();

    let wt_dir = TempDir::new().unwrap();
    let wt_path = wt_dir.path().join("gone");
    add_worktree(&repo, wt_path.to_str().unwrap()).unwrap();
    assert_eq!(get_worktrees(&repo).unwrap().len(), 2);

    remove_worktree(&repo, "gone").unwrap();

    let list = get_worktrees(&repo).unwrap();
    assert_eq!(list.len(), 1);
    assert_eq!(list[0].name, "(main)");
    assert!(!wt_path.exists());
}

#[test]
fn test_remove_worktree_refuses_dirty() {
    let (_td, repo) = repo_init();

    let wt_dir = TempDir::new().unwrap();
    let wt_path = wt_dir.path().join("dirty");
    add_worktree(&repo, wt_path.to_str().unwrap()).unwrap();

    // introduce an untracked file inside the worktree
    write_file(&wt_path, "scratch.txt");

    assert!(remove_worktree(&repo, "dirty").is_err());
    // still present because removal was refused
    assert_eq!(get_worktrees(&repo).unwrap().len(), 2);
}

#[test]
fn test_remove_worktree_refuses_staged() {
    let (_td, repo) = repo_init();

    let wt_dir = TempDir::new().unwrap();
    let wt_path = wt_dir.path().join("staged");
    add_worktree(&repo, wt_path.to_str().unwrap()).unwrap();

    // stage a new file inside the worktree: it matches the index, so
    // only the HEAD-vs-index (staged) check can catch it — the
    // working-dir check alone would see this as clean.
    write_file(&wt_path, "new.txt");
    let wt_repo = Repository::open(&wt_path).unwrap();
    let mut index = wt_repo.index().unwrap();
    index.add_path(Path::new("new.txt")).unwrap();
    index.write().unwrap();

    assert!(matches!(
        remove_worktree(&repo, "staged"),
        Err(Error::Generic(msg))
            if msg == "worktree has uncommitted changes; commit or discard them first"
    ));
    assert_eq!(get_worktrees(&repo).unwrap().len(), 2);
}

#[test]
fn test_toggle_worktree_lock() {
    let (_td, repo) = repo_init();

    let wt_dir = TempDir::new().unwrap();
    let wt_path = wt_dir.path().join("lockme");
    add_worktree(&repo, wt_path.to_str().unwrap()).unwrap();

    let locked = |repo: &Repository| find(&get_worktrees(repo).unwrap(), "lockme").is_locked;

    assert!(!locked(&repo));
    toggle_worktree_lock(&repo, "lockme");
    assert!(locked(&repo));
    // a locked worktree is protected
    assert!(matches!(
        remove_worktree(&repo, "lockme"),
        Err(Error::Generic(msg)) if msg == "worktree is locked; unlock it before removing"
    ));
    toggle_worktree_lock(&repo, "lockme");
    assert!(!locked(&repo));
}

#[test]
fn the_current_worktree_is_not_removed() {
    let (_td, repo) = repo_init();
    let wt_dir = TempDir::new().unwrap();
    let wt_path = wt_dir.path().join("here");
    add_worktree(&repo, wt_path.to_str().unwrap()).unwrap();
    let linked = Repository::open(&wt_path).unwrap();
    assert!(matches!(
        remove_worktree(&linked, "here"),
        Err(Error::Generic(msg)) if msg == "cannot remove the current worktree"
    ));
}

fn facts() -> RemovalFacts {
    RemovalFacts {
        is_current: false,
        locked: Some(Ok(false)),
        valid: Some(true),
        staged: Some(Ok(0)),
        changed: Some(Ok(0)),
    }
}

#[test]
fn removal_goes_by_what_is_known() {
    assert!(matches!(worktree::remove_worktree(&facts()), RemovalStep::Prune));
    let gone = RemovalFacts { valid: Some(false), staged: None, changed: None, ..facts() };
    assert!(matches!(worktree::remove_worktree(&gone), RemovalStep::Prune));
    let broken = RemovalFacts { locked: Some(Err("io".to_string())), ..facts() };
    assert!(matches!(
        worktree::remove_worktree(&broken),
        RemovalStep::Refuse(Error::Service(msg)) if msg == "io"
    ));
    let broken = RemovalFacts { staged: Some(Err("io".to_string())), ..facts() };
    assert!(matches!(
        worktree::remove_worktree(&broken),
        RemovalStep::Refuse(Error::Service(_))
    ));
    let broken = RemovalFacts { changed: Some(Err("io".to_string())), ..facts() };
    assert!(matches!(
        worktree::remove_worktree(&broken),
        RemovalStep::Refuse(Error::Service(_))
    ));
    let changed = RemovalFacts { changed: Some(Ok(1)), ..facts() };
    assert!(matches!(
        worktree::remove_worktree(&changed),
        RemovalStep::Refuse(Error::Generic(_))
    ));
    let staged = RemovalFacts { staged: Some(Ok(2)), changed: None, ..facts() };
    assert!(matches!(
        worktree::remove_worktree(&staged),
        RemovalStep::Refuse(Error::Generic(_))
    ));
}

fn same(path: &str, current: Option<&str>, a: Option<&str>, b: Option<&str>) -> bool {
    worktree::same_workdir(
        &PathBuf::from(path),
        current.map(PathBuf::from).as_ref(),
        a.map(PathBuf::from).as_ref(),
        b.map(PathBuf::from).as_ref(),
    )
}

#[test]
fn canonical_paths_decide_where_both_are_known() {
    assert!(same("/x", Some("/x"), None, None));
    assert!(same("/x", Some("/x"), Some("/y"), None));
    assert!(!same("/x", Some("/x"), Some("/y"), Some("/z")));
    assert!(same("/x", Some("/w"), Some("/r"), Some("/r")));
    assert!(!same("/x", None, Some("/r"), Some("/r")));
    // paths are compared by their components, whichever comes first
    assert!(same("/x/", Some("/x"), None, None));
    assert!(same("/x", Some("/x/"), None, None));
    assert!(!same("/x", Some("/y"), None, None));
    assert!(!same("/y", Some("/x"), None, None));
}

/// A path that is no text, from a file name in a git tree.
fn raw_path(repo: &Repository, name: &[u8]) -> PathBuf {
    let blob = repo.blob(b"").unwrap();
    let mut builder = repo.treebuilder(None).unwrap();
    builder.insert(name, blob, 0o100644).unwrap();
    let tree = repo.find_tree(builder.write().unwrap()).unwrap();
    let diff = repo.diff_tree_to_tree(None, Some(&tree), None).unwrap();
    let path = diff.deltas().next().unwrap().new_file().path().unwrap().to_path_buf();
    path
}

#[test]
fn paths_need_not_be_text() {
    let (_td, repo) = repo_init();
    let odd = raw_path(&repo, b"w\xff");
    assert!(odd.to_str().is_none());
    let workdir = Path::new("/r").join(&odd);

    // a worktree goes there, but is not named after it
    let plan = create_worktree(Some(&workdir), "x").unwrap();
    assert_eq!(plan.target, workdir.join("x"));
    assert_eq!(plan.parent, Some(workdir.clone()));
    assert!(matches!(create_worktree(Some(&workdir), ""), Err(Error::Generic(_))));

    // it is told from its look-alike, and listed as it is
    let shown = PathBuf::from("/r/w\u{fffd}");
    assert!(!worktree::same_workdir(&workdir, Some(&shown), None, None));
    assert!(worktree::same_workdir(&workdir, Some(&workdir), None, None));
    let info = worktree::linked_worktree_info(
        "w".to_string(),
        workdir.clone(),
        None,
        None,
        true,
        false,
    );
    assert_eq!(info.path, workdir);
    assert_eq!(info.clone().path, workdir);
    assert!(worktree_row(&info, 80).ends_with("/r/w\u{fffd}"));

    // and it can be a home directory
    assert_eq!(expand_path_from("~/x", Some(workdir.clone())), workdir.join("x"));
    assert_eq!(expand_path_from("~", Some(workdir.clone())), workdir);
}

#[test]
fn the_first_unreadable_worktree_is_the_error() {
    let info = |name: &str| {
        worktree::linked_worktree_info(name.to_string(), PathBuf::new(), None, None, true, false)
    };
    assert!(!info("a").is_locked);
    let list = worktree::get_worktrees(None, vec![Ok(info("a")), Ok(info("b"))]).unwrap();
    assert_eq!(list.iter().map(|w| w.name.as_str()).collect::<Vec<_>>(), vec!["a", "b"]);
    let err = worktree::get_worktrees(
        Some(info("m")),
        vec![
            Ok(info("a")),
            Err(Error::Service("first".to_string())),
            Err(Error::Service("second".to_string())),
        ],
    );
    assert!(matches!(err, Err(Error::Service(msg)) if msg == "first"));
}

#[test]
fn unreadable_names_are_left_out() {
    let names = vec![Some("a".to_string()), None, Some("b".to_string())];
    assert_eq!(readable_names(&names), vec!["a", "b"]);
}
