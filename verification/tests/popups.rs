use gitui::area::Area;
use gitui::create_worktree::{needs_warning, place_warning, CreateWorktreePopup};
use gitui::event::{CommandBlocking, EventState};
use gitui::error::Error;
use gitui::open_repo::OpenRepoPopup;
use gitui::paths::{expand_home, expand_path, expand_path_from, name_of_path, settle_path};
use gitui::popup::{PopupCommand, PopupCommandInfo, PopupRequest};
use gitui::render::{Paint, SpanStyle};
use gitui::selection::ScrollType;
use gitui::worktree::WorktreeInfo;
use gitui::worktrees::{row_with_path, worktree_row, WorktreesKeys, WorktreesPopup};
use std::path::{Path, PathBuf};

#[test]
fn a_blank_path_only_hides_the_popup() {
    let mut popup = CreateWorktreePopup::new();
    assert!(!popup.is_visible());
    popup.open().unwrap();
    popup.input.text = " \t".to_string();
    popup.create_worktree();
    assert!(!popup.is_visible());
    assert_eq!(popup.input.text, " \t");
    assert!(popup.take_requests().is_empty());
}

#[test]
fn a_path_becomes_a_worktree() {
    let mut popup = CreateWorktreePopup::new();
    popup.open().unwrap();
    popup.input.text = " worktrees/foo".to_string();
    assert_eq!(popup.event(false, true, true), EventState::Consumed);
    assert!(!popup.is_visible());
    assert_eq!(popup.input.text, "");
    assert!(matches!(
        popup.take_requests().as_slice(),
        [PopupRequest::CreateWorktreeAt(path)] if path == " worktrees/foo"
    ));
    popup.worktree_created(Ok(()));
    popup.worktree_created(Err("exists".to_string()));
    assert!(matches!(
        popup.take_requests().as_slice(),
        [PopupRequest::UpdateAll, PopupRequest::ShowErrorMsg(msg)]
            if msg == "create worktree error:\nexists"
    ));
}

#[test]
fn popups_use_up_keys_while_they_are_shown() {
    let mut popup = CreateWorktreePopup::new();
    assert_eq!(popup.event(false, true, true), EventState::NotConsumed);
    popup.show().unwrap();
    popup.input.text = "x".to_string();
    assert_eq!(popup.event(true, true, true), EventState::Consumed);
    assert_eq!(popup.event(false, true, false), EventState::Consumed);
    assert_eq!(popup.event(false, false, false), EventState::NotConsumed);
    assert!(popup.is_visible());
    assert!(popup.take_requests().is_empty());
    popup.close();
    assert!(!popup.is_visible());
}

#[test]
fn input_popups_offer_to_confirm() {
    let mut popup = CreateWorktreePopup::new();
    let mut out = Vec::new();
    assert_eq!(popup.commands(&mut out, false), CommandBlocking::PassingOn);
    assert!(out.is_empty());
    assert_eq!(popup.commands(&mut out, true), CommandBlocking::PassingOn);
    assert_eq!(out.len(), 2);
    popup.open().unwrap();
    assert_eq!(popup.commands(&mut out, false), CommandBlocking::Blocking);
    assert_eq!(
        out[3],
        PopupCommandInfo { command: PopupCommand::CreateWorktree, enabled: true, available: true }
    );
    let mut open_repo = OpenRepoPopup::new();
    let mut out = Vec::new();
    assert_eq!(open_repo.commands(&mut out, false), CommandBlocking::PassingOn);
    open_repo.open().unwrap();
    assert_eq!(open_repo.commands(&mut out, false), CommandBlocking::Blocking);
    assert_eq!(out[1].command, PopupCommand::OpenRepo);
}

#[test]
fn invalid_branch_names_are_warned_of() {
    let area = Area { x: 2, y: 3, width: 40, height: 5 };
    let mut popup = CreateWorktreePopup::new();
    popup.input.text = "../feature-x".to_string();
    assert_eq!(popup.draw_warnings("branch name invalid", area), None);
    popup.input.text = "../no..good".to_string();
    assert_eq!(
        popup.draw_warnings("branch name invalid", area),
        Some(Area { x: 22, y: 7, width: 19, height: 1 })
    );
    popup.input.text = "nul\0".to_string();
    assert!(popup.draw_warnings("branch name invalid", area).is_some());
    // no final component, no warning
    popup.input.text = "..".to_string();
    assert_eq!(popup.draw_warnings("branch name invalid", area), None);
    assert!(!popup.has_warning());
    popup.input.text = "../no..good".to_string();
    assert!(popup.has_warning());
    assert!(needs_warning(None) && needs_warning(Some(false)) && !needs_warning(Some(true)));
}

#[test]
fn warnings_are_cut_to_a_narrow_area() {
    let area = Area { x: 1, y: 0, width: 10, height: 0 };
    assert_eq!(place_warning(area, 19), Area { x: 1, y: 0, width: 9, height: 1 });
}

#[test]
fn a_blank_repository_only_hides_the_popup() {
    let mut popup = OpenRepoPopup::new();
    popup.open().unwrap();
    popup.input.text = "  ".to_string();
    popup.confirm();
    assert!(!popup.is_visible());
    assert_eq!(popup.input.text, "  ");
    assert!(popup.take_requests().is_empty());
}

#[test]
fn a_repository_is_validated_and_opened() {
    let mut popup = OpenRepoPopup::new();
    popup.open().unwrap();
    popup.input.text = " /srv/./repo \n".to_string();
    assert_eq!(popup.event(false, true, true), EventState::Consumed);
    assert!(matches!(
        popup.take_requests().as_slice(),
        [PopupRequest::ValidateRepo(path)] if path.to_str() == Some("/srv/./repo")
    ));
    popup.repo_validated(PathBuf::from("/srv/./repo"), None);
    assert!(!popup.is_visible());
    assert_eq!(popup.input.text, "");
    assert!(matches!(
        popup.take_requests().as_slice(),
        [PopupRequest::OpenRepo { path }] if path.to_str() == Some("/srv/./repo")
    ));
}

#[test]
fn an_invalid_repository_is_an_error() {
    let mut popup = OpenRepoPopup::new();
    popup.open().unwrap();
    popup.input.text = "/nowhere".to_string();
    popup.confirm_path(PathBuf::from("/nowhere"));
    assert!(popup.is_visible());
    popup.take_requests();
    popup.repo_validated(PathBuf::from("/nowhere"), Some("gone".to_string()));
    assert!(!popup.is_visible());
    assert!(matches!(
        popup.take_requests().as_slice(),
        [PopupRequest::ShowErrorMsg(msg)] if msg == "not a valid repository:\ngone"
    ));
}

fn text(path: PathBuf) -> String {
    path.to_str().unwrap().to_string()
}

#[test]
fn paths_are_named_by_their_final_component() {
    let name = |path: &str| name_of_path(&PathBuf::from(path));
    assert_eq!(name("/a/b.txt").as_deref(), Some("b.txt"));
    assert_eq!(name("a/b/").as_deref(), Some("b"));
    assert_eq!(name("a/.."), None);
    assert_eq!(name("/"), None);
}

#[test]
fn a_tilde_is_the_home_directory() {
    let expand = |raw: &str| text(expand_home(raw, Some(PathBuf::from("/home/me"))));
    assert_eq!(expand("~"), "/home/me");
    assert_eq!(expand("~/src/x"), "/home/me/src/x");
    assert_eq!(expand("~/"), "/home/me/");
    // further slashes do not lead out of the home directory
    assert_eq!(expand("~//etc"), "/home/me/etc");
    assert_eq!(expand("~///"), "/home/me/");
    assert_eq!(expand("~you"), "~you");
    assert_eq!(expand("a~"), "a~");
    assert_eq!(expand(""), "");
    assert_eq!(text(expand_home("~/src", None)), "~/src");
    assert_eq!(text(expand_home("~", None)), "~");
}

#[test]
fn paths_expand_from_a_given_home() {
    let expand = |raw: &str| text(expand_path_from(raw, Some(PathBuf::from("/home/me"))));
    assert_eq!(expand("~"), "/home/me");
    assert_eq!(expand("~/x"), "/home/me/x");
    assert_eq!(expand("~//x"), "/home/me/x");
    // what is expanded is normalised, absolute input is not
    assert_eq!(expand("~/a/./b"), "/home/me/a/b");
    assert_eq!(expand("~/a//b"), "/home/me/a/b");
    assert_eq!(expand("~/c:x"), "/home/me/c:x");
    assert_eq!(expand("/a/./b"), "/a/./b");
    assert!(expand("x").starts_with('/') && expand("x").ends_with("/x"));
    // a home directory that is not absolute is made so
    let odd = text(expand_path_from("~/x", Some(PathBuf::from("me"))));
    assert!(odd.starts_with('/') && odd.ends_with("/me/x"));
    assert!(text(expand_path_from("~/x", None)).ends_with("/~/x"));
}

#[test]
fn relative_paths_become_absolute_and_absolute_ones_stay() {
    let expand = |raw: &str| text(expand_path(raw));
    assert_eq!(expand("/a/./b//c/"), "/a/./b//c/");
    let expanded = expand("some/dir");
    assert!(expanded.starts_with('/') && expanded.ends_with("/some/dir"));
    if let Some(home) = dirs::home_dir() {
        assert_eq!(expand_path("~/x"), home.join("x"));
        assert_eq!(expand_path("~//x"), home.join("x"));
        assert_eq!(expand_path("~"), home);
    }
    // a user's name is no home directory here
    assert!(expand("~bob/x").ends_with("/~bob/x"));
    assert_eq!(expand(""), "");
    // expanding again changes nothing
    for raw in ["~", "~/x", "~//x", "some/./dir", "~bob", "/a//b"] {
        let once = expand(raw);
        assert!(once.starts_with('/'));
        assert_eq!(expand(&once), once);
    }
}

#[test]
fn a_path_that_cannot_be_made_absolute_stays_expanded() {
    let settle = |raw: &str, expanded: &str, absolute: Option<&str>| {
        text(settle_path(raw, PathBuf::from(expanded), absolute.map(PathBuf::from)))
    };
    assert_eq!(settle("/raw", "expanded", Some("/absolute")), "/raw");
    assert_eq!(settle("raw", "expanded", Some("/absolute")), "/absolute");
    assert_eq!(settle("raw", "expanded", None), "expanded");
    assert_eq!(settle("~", "/home/me", Some("/absolute")), "/absolute");
    assert_eq!(settle("~", "/home/me", None), "/home/me");
}

fn worktree(name: &str, current: bool, main: bool) -> WorktreeInfo {
    WorktreeInfo {
        name: name.to_string(),
        path: PathBuf::from(format!("/trees/{name}")),
        branch: Some(name.to_string()),
        is_valid: true,
        is_locked: false,
        is_current: current,
        is_main: main,
    }
}

fn popup() -> WorktreesPopup {
    let mut popup = WorktreesPopup::new();
    popup.open().unwrap();
    assert!(matches!(popup.take_requests().as_slice(), [PopupRequest::ListWorktrees]));
    popup
        .worktrees_listed(Ok(vec![
            worktree("(main)", false, true),
            worktree("here", true, false),
            worktree("other", false, false),
        ]))
        .unwrap();
    popup
}

fn press(popup: &mut WorktreesPopup, keys: WorktreesKeys) -> EventState {
    popup.event(Some(&keys)).unwrap()
}

#[test]
fn moving_stays_in_the_list() {
    let mut popup = popup();
    popup.current_height = 2;
    let key = WorktreesKeys::default();
    let mut go = |keys: WorktreesKeys, expected: u16| {
        assert_eq!(press(&mut popup, keys), EventState::Consumed);
        assert_eq!(popup.selection, expected);
    };
    go(WorktreesKeys { move_up: true, ..key }, 0);
    go(WorktreesKeys { move_down: true, ..key }, 1);
    go(WorktreesKeys { page_down: true, ..key }, 2);
    go(WorktreesKeys { page_up: true, ..key }, 0);
    go(WorktreesKeys { end: true, ..key }, 2);
    go(WorktreesKeys { move_down: true, ..key }, 2);
    go(WorktreesKeys { home: true, ..key }, 0);
}

#[test]
fn switching_opens_any_but_the_current_worktree() {
    let enter = WorktreesKeys { enter: true, ..WorktreesKeys::default() };
    let mut list = popup();
    list.selection = 2;
    assert_eq!(press(&mut list, enter), EventState::Consumed);
    assert!(!list.is_visible());
    assert!(matches!(
        list.take_requests().as_slice(),
        [PopupRequest::OpenRepo { path }] if path == Path::new("/trees/other")
    ));
    let mut list = popup();
    list.selection = 1;
    press(&mut list, enter);
    assert!(!list.is_visible());
    assert!(list.take_requests().is_empty());
}

#[test]
fn primary_and_current_worktrees_are_protected() {
    let key = WorktreesKeys::default();
    let remove = WorktreesKeys { delete_branch: true, ..key };
    let lock = WorktreesKeys { lock_worktree: true, ..key };
    let mut list = popup();
    press(&mut list, remove);
    press(&mut list, lock);
    assert!(list.take_requests().is_empty());
    list.selection = 1;
    press(&mut list, remove);
    press(&mut list, lock);
    assert!(matches!(
        list.take_requests().as_slice(),
        [PopupRequest::ToggleWorktreeLock(name)] if name == "here"
    ));
    list.selection = 2;
    press(&mut list, remove);
    assert!(matches!(
        list.take_requests().as_slice(),
        [PopupRequest::ConfirmDeleteWorktree(name)] if name == "other"
    ));
    assert!(list.is_visible());
}

#[test]
fn toggling_a_lock_lists_the_worktrees_again() {
    let mut list = popup();
    list.lock_toggled(Ok(()));
    assert!(matches!(list.take_requests().as_slice(), [PopupRequest::ListWorktrees]));
    list.lock_toggled(Err("no".to_string()));
    assert!(matches!(
        list.take_requests().as_slice(),
        [PopupRequest::ShowErrorMsg(msg), PopupRequest::ListWorktrees] if msg == "no"
    ));
    list.close();
    list.lock_toggled(Ok(()));
    list.update_worktrees();
    assert!(list.take_requests().is_empty());
}

#[test]
fn creating_opens_the_other_popup() {
    let mut list = popup();
    press(&mut list, WorktreesKeys { create_branch: true, ..WorktreesKeys::default() });
    assert!(!list.is_visible());
    assert!(matches!(list.take_requests().as_slice(), [PopupRequest::CreateWorktree]));
}

#[test]
fn the_list_uses_up_all_but_the_command_bar_key() {
    let key = WorktreesKeys::default();
    let mut list = popup();
    assert_eq!(press(&mut list, key), EventState::Consumed);
    assert!(matches!(list.event(None), Ok(EventState::Consumed)));
    let more = WorktreesKeys { cmd_bar_toggle: true, ..key };
    assert_eq!(press(&mut list, more), EventState::NotConsumed);
    press(&mut list, WorktreesKeys { exit_popup: true, ..key });
    assert!(!list.is_visible());
    assert_eq!(press(&mut list, key), EventState::NotConsumed);
}

#[test]
fn a_shorter_list_keeps_the_selection_in_it() {
    let mut list = popup();
    list.selection = 2;
    list.worktrees_listed(Ok(vec![worktree("(main)", true, true)])).unwrap();
    assert_eq!(list.selection, 0);
    list.worktrees_listed(Ok(vec![])).unwrap();
    assert_eq!(list.selection, 0);
    assert!(list.selected_entry().is_none());
    let failed = list.worktrees_listed(Err(Error::Service("io".to_string())));
    assert!(matches!(failed, Err(Error::Service(_))));
}

#[test]
fn more_entries_than_can_be_selected_are_an_error() {
    let mut list = WorktreesPopup::new();
    let many: Vec<WorktreeInfo> = (0..65_536).map(|_| worktree("w", false, false)).collect();
    assert!(matches!(list.worktrees_listed(Ok(many)), Err(Error::OutOfRange)));
    assert_eq!(list.worktrees.len(), 65_536);
    assert!(matches!(list.move_selection(ScrollType::End), Err(Error::OutOfRange)));
    assert!(matches!(list.set_selection(3), Err(Error::OutOfRange)));
    assert_eq!(list.selection, 0);
}

#[test]
fn commands_are_enabled_where_keys_work() {
    let mut list = popup();
    let mut out =
        vec![PopupCommandInfo { command: PopupCommand::Input, enabled: true, available: true }];
    assert!(list.replaces_commands(false) && !list.replaces_commands(true));
    assert_eq!(list.commands(&mut out, false), CommandBlocking::Blocking);
    let enabled: Vec<bool> = out.iter().map(|c| c.enabled).collect();
    assert_eq!(enabled, vec![true, true, true, true, false, false]);
    list.selection = 1;
    list.commands(&mut out, false);
    let enabled: Vec<bool> = out.iter().map(|c| c.enabled).collect();
    assert_eq!(enabled, vec![true, true, false, true, false, true]);
    list.close();
    assert_eq!(list.commands(&mut out, true), CommandBlocking::PassingOn);
    assert_eq!(out.len(), 12);
    assert_eq!(list.commands(&mut out, false), CommandBlocking::PassingOn);
    assert_eq!(out.len(), 12);
}

#[test]
fn rows_show_name_branch_and_path() {
    let mut tree = worktree("other", false, false);
    assert_eq!(
        worktree_row(&tree, 80),
        "  other            other                /trees/other"
    );
    assert_eq!(
        row_with_path(&tree, "elsewhere", 80),
        "  other            other                elsewhere"
    );
    tree.is_current = true;
    tree.is_locked = true;
    tree.is_valid = false;
    tree.branch = None;
    assert_eq!(
        worktree_row(&tree, 80),
        "* other            (detached)           /trees/other 🔒 (invalid)"
    );
    // forty columns are taken before the path, thirteen behind it
    assert_eq!(
        worktree_row(&tree, 61),
        "* other            (detached)           /tree... 🔒 (invalid)"
    );
    assert_eq!(
        worktree_row(&tree, 0),
        "* other            (detached)           ... 🔒 (invalid)"
    );
}

#[test]
fn the_list_shows_the_selected_row() {
    let mut list = popup();
    list.selection = 1;
    let lines = list.get_text(80, 10, 1);
    assert_eq!(lines.len(), 2);
    assert_eq!(lines[0].spans[0].style, SpanStyle::Base(Paint::Text(true, true)));
    assert_eq!(lines[1].spans[0].style, SpanStyle::Base(Paint::Text(true, false)));
    assert!(lines[0].spans[0].text.starts_with("* here"));
    assert_eq!(list.get_text(80, 1, 0).len(), 1);
    assert!(list.get_text(80, 0, 0).is_empty());
    assert!(list.get_text(80, 5, 9).is_empty());
}

#[test]
fn the_list_is_drawn_inside_its_frame() {
    let screen = Area { x: 0, y: 0, width: 50, height: 30 };
    let placed = Area { x: 10, y: 5, width: 60, height: 20 };
    let (frame, inner) = WorktreesPopup::popup_areas(placed, screen);
    assert_eq!(frame, Area { x: 10, y: 5, width: 40, height: 20 });
    assert_eq!(inner, Area { x: 11, y: 6, width: 38, height: 18 });
    let far = Area { x: 60, y: 5, width: 5, height: 5 };
    let (frame, inner) = WorktreesPopup::popup_areas(far, screen);
    assert_eq!(frame, Area { x: 60, y: 5, width: 0, height: 5 });
    assert_eq!(inner, Area { x: 0, y: 0, width: 0, height: 0 });

    let mut list = popup();
    let update = list.begin_draw_list(Area { x: 11, y: 6, width: 38, height: 18 });
    assert_eq!((update.selection, update.rows, update.height), (0, 3, 18));
    assert_eq!(list.current_height, 18);
    assert_eq!(
        WorktreesPopup::scroll_area(Area { x: 11, y: 6, width: 38, height: 18 }),
        Area { x: 11, y: 5, width: 38, height: 20 }
    );
}
