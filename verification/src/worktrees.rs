//! The popup that lists the worktrees.
use vstd::prelude::*;

use crate::area::{inner_margin, intersection, Area};
use crate::columns::{columns, truncate_to_columns};
#[allow(unused_imports)]
use crate::columns::{cut_to_columns, display_columns};
use crate::diff_view::ScrollUpdate;
use crate::error::Error;
use crate::event::{CommandBlocking, EventState};
use crate::paths::{copy_path, show_path};
#[allow(unused_imports)]
use crate::paths::path_shown;
use crate::popup::{
    offer, push_request, visibility_blocking, PopupCommand, PopupCommandInfo,
    PopupRequest,
};
#[allow(unused_imports)]
use crate::popup::{offered, popup_request_views, PopupRequestView};
use crate::render::{push_span, Paint, Span, SpanStyle, TextLine};
#[allow(unused_imports)]
use crate::render::{line_views, painted, span_views, SpanView};
use crate::selection::ScrollType;
#[allow(unused_imports)]
use crate::selection::{min, minus};
use crate::text::pad;
#[allow(unused_imports)]
use crate::text::padded;
use crate::worktree::WorktreeInfo;
#[allow(unused_imports)]
use crate::worktree::WorktreeView;

verus! {

/// The popup.
#[derive(Debug)]
pub struct WorktreesPopup {
    pub worktrees: Vec<WorktreeInfo>,
    pub visible: bool,
    /// How many rows the list had when it was last drawn.
    pub current_height: u16,
    pub selection: u16,
    /// What was asked of the application and not taken yet, oldest first.
    pub requests: Vec<PopupRequest>,
}

/// The keys of the popup: which of its bindings a key event matches.
#[derive(Clone, Copy, PartialEq, Eq, Debug, Structural)]
pub struct WorktreesKeys {
    pub exit_popup: bool,
    pub move_down: bool,
    pub move_up: bool,
    pub page_down: bool,
    pub page_up: bool,
    pub home: bool,
    pub end: bool,
    pub enter: bool,
    pub create_branch: bool,
    pub delete_branch: bool,
    pub lock_worktree: bool,
    pub cmd_bar_toggle: bool,
}

impl Default for WorktreesKeys {
    /// No binding matches.
    fn default() -> (keys: Self)
        ensures
            keys == (WorktreesKeys {
                exit_popup: false,
                move_down: false,
                move_up: false,
                page_down: false,
                page_up: false,
                home: false,
                end: false,
                enter: false,
                create_branch: false,
                delete_branch: false,
                lock_worktree: false,
                cmd_bar_toggle: false,
            }),
    {
        WorktreesKeys {
            exit_popup: false,
            move_down: false,
            move_up: false,
            page_down: false,
            page_up: false,
            home: false,
            end: false,
            enter: false,
            create_branch: false,
            delete_branch: false,
            lock_worktree: false,
            cmd_bar_toggle: false,
        }
    }
}

/// What a key makes the popup do.
#[derive(Clone, Copy, PartialEq, Eq, Debug, Structural)]
pub enum WorktreesAction {
    Exit,
    Move(ScrollType),
    Switch,
    Create,
    Remove,
    Lock,
    /// Leave the key to the command bar.
    PassOn,
    Ignore,
}

/// What a key event does: the first binding that it matches. Moving down the
/// list raises the selection.
pub open spec fn worktrees_action(keys: WorktreesKeys) -> WorktreesAction {
    if keys.exit_popup {
        WorktreesAction::Exit
    } else if keys.move_down {
        WorktreesAction::Move(ScrollType::Up)
    } else if keys.move_up {
        WorktreesAction::Move(ScrollType::Down)
    } else if keys.page_down {
        WorktreesAction::Move(ScrollType::PageDown)
    } else if keys.page_up {
        WorktreesAction::Move(ScrollType::PageUp)
    } else if keys.home {
        WorktreesAction::Move(ScrollType::Home)
    } else if keys.end {
        WorktreesAction::Move(ScrollType::End)
    } else if keys.enter {
        WorktreesAction::Switch
    } else if keys.create_branch {
        WorktreesAction::Create
    } else if keys.delete_branch {
        WorktreesAction::Remove
    } else if keys.lock_worktree {
        WorktreesAction::Lock
    } else if keys.cmd_bar_toggle {
        WorktreesAction::PassOn
    } else {
        WorktreesAction::Ignore
    }
}

fn action_of(keys: &WorktreesKeys) -> (action: WorktreesAction)
    ensures
        action == worktrees_action(*keys),
{
    if keys.exit_popup {
        WorktreesAction::Exit
    } else if keys.move_down {
        WorktreesAction::Move(ScrollType::Up)
    } else if keys.move_up {
        WorktreesAction::Move(ScrollType::Down)
    } else if keys.page_down {
        WorktreesAction::Move(ScrollType::PageDown)
    } else if keys.page_up {
        WorktreesAction::Move(ScrollType::PageUp)
    } else if keys.home {
        WorktreesAction::Move(ScrollType::Home)
    } else if keys.end {
        WorktreesAction::Move(ScrollType::End)
    } else if keys.enter {
        WorktreesAction::Switch
    } else if keys.create_branch {
        WorktreesAction::Create
    } else if keys.delete_branch {
        WorktreesAction::Remove
    } else if keys.lock_worktree {
        WorktreesAction::Lock
    } else if keys.cmd_bar_toggle {
        WorktreesAction::PassOn
    } else {
        WorktreesAction::Ignore
    }
}

/// How large the popup is, in percent of the screen.
pub const PERCENT_SIZE: u16 = 80;

/// How large the popup is at least, in cells.
pub const MIN_WIDTH: u16 = 60;

pub const MIN_HEIGHT: u16 = 20;

/// How wide the names and the branches of the list are at least.
pub const NAME_WIDTH: usize = 16;

pub const BRANCH_WIDTH: usize = 20;

/// What stands before the path in a row.
pub open spec fn row_prefix(worktree: WorktreeView) -> Seq<char> {
    let marker = if worktree.is_current {
        '*'
    } else {
        ' '
    };
    let branch = match worktree.branch {
        Some(branch) => branch,
        None => "(detached)"@,
    };
    seq![marker, ' '] + padded(worktree.name, NAME_WIDTH as nat) + seq![' '] + padded(
        branch,
        BRANCH_WIDTH as nat,
    ) + seq![' ']
}

/// What stands behind the path in a row.
pub open spec fn row_suffix(worktree: WorktreeView) -> Seq<char> {
    let lock = if worktree.is_locked {
        " 🔒"@
    } else {
        Seq::empty()
    };
    let invalid = if !worktree.is_valid {
        " (invalid)"@
    } else {
        Seq::empty()
    };
    lock + invalid
}

/// The path of a row: cut off, with three dots behind, where it is wider than
/// `width`.
pub open spec fn row_path(path: Seq<char>, width: int) -> Seq<char> {
    if display_columns(path) > width {
        cut_to_columns(path, minus(width, 3) as nat) + "..."@
    } else {
        path
    }
}

/// A row of the list, `width` columns wide, which shows `path`.
pub open spec fn row_text(worktree: WorktreeView, path: Seq<char>, width: int) -> Seq<char> {
    let prefix = row_prefix(worktree);
    let suffix = row_suffix(worktree);
    let used = min(display_columns(prefix) + display_columns(suffix), usize::MAX as int);
    prefix + row_path(path, minus(width, used)) + suffix
}

/// Builds a row of the list, which shows the path as text.
pub fn worktree_row(worktree: &WorktreeInfo, width_available: u16) -> (text: String)
    ensures
        text@ == row_text(worktree@, path_shown(worktree@.path), width_available as int),
{
    let path = show_path(&worktree.path);
    row_with_path(worktree, path.as_str(), width_available)
}

/// Builds a row of the list, which shows `path`.
pub fn row_with_path(worktree: &WorktreeInfo, path: &str, width_available: u16) -> (text: String)
    ensures
        text@ == row_text(worktree@, path@, width_available as int),
{
    let mut prefix = String::new();
    prefix.push(
        if worktree.is_current {
            '*'
        } else {
            ' '
        },
    );
    prefix.push(' ');
    prefix.append(pad(worktree.name.as_str(), NAME_WIDTH).as_str());
    prefix.push(' ');
    match &worktree.branch {
        Some(branch) => {
            prefix.append(pad(branch.as_str(), BRANCH_WIDTH).as_str());
        },
        None => {
            prefix.append(pad("(detached)", BRANCH_WIDTH).as_str());
        },
    }
    prefix.push(' ');
    assert(prefix@ =~= row_prefix(worktree@));
    let mut suffix = String::new();
    if worktree.is_locked {
        suffix.append(" 🔒");
    }
    if !worktree.is_valid {
        suffix.append(" (invalid)");
    }
    assert(suffix@ =~= row_suffix(worktree@));
    let used = columns(prefix.as_str()).saturating_add(columns(suffix.as_str()));
    let path_width: usize = (width_available as usize).saturating_sub(used);
    let mut text = prefix;
    if columns(path) > path_width {
        let trunc = truncate_to_columns(path, path_width.saturating_sub(3));
        text.append(trunc.as_str());
        text.append("...");
    } else {
        text.append(path);
    }
    text.append(suffix.as_str());
    assert(text@ =~= row_text(worktree@, path@, width_available as int));
    text
}

impl WorktreesPopup {
    /// Whether `after` is `state`, with `new` requests behind those of `self`.
    pub open spec fn asks(
        self,
        state: WorktreesPopup,
        new: Seq<PopupRequestView>,
        after: WorktreesPopup,
    ) -> bool {
        &&& after == WorktreesPopup { requests: after.requests, ..state }
        &&& popup_request_views(after.requests@) == popup_request_views(self.requests@) + new
    }

    /// The selected worktree, if there is one.
    pub open spec fn entry(&self) -> Option<WorktreeInfo> {
        if self.selection < self.worktrees@.len() {
            Some(self.worktrees@[self.selection as int])
        } else {
            None
        }
    }

    /// The state with entry `n` selected, or the last one where there are
    /// fewer.
    pub open spec fn selecting(self, n: int) -> WorktreesPopup {
        WorktreesPopup {
            selection: min(n, minus(self.worktrees@.len() as int, 1)) as u16,
            ..self
        }
    }

    /// The entry that a move leads to.
    pub open spec fn move_target(&self, scroll: ScrollType) -> int {
        match scroll {
            ScrollType::Up => min(self.selection + 1, u16::MAX as int),
            ScrollType::Down => minus(self.selection as int, 1),
            ScrollType::PageDown => min(self.selection + self.current_height, u16::MAX as int),
            ScrollType::PageUp => minus(self.selection as int, self.current_height as int),
            ScrollType::Home => 0,
            ScrollType::End => minus(self.worktrees@.len() as int, 1),
        }
    }

    /// What confirming asks for: to open the selected worktree, unless it is
    /// the current one.
    pub open spec fn switch_requests(&self) -> Seq<PopupRequestView> {
        match self.entry() {
            Some(worktree) => if worktree.is_current {
                Seq::empty()
            } else {
                seq![PopupRequestView::OpenRepo { path: worktree@.path }]
            },
            None => Seq::empty(),
        }
    }

    /// What removing asks for: neither the primary nor the current worktree
    /// is removed.
    pub open spec fn remove_requests(&self) -> Seq<PopupRequestView> {
        match self.entry() {
            Some(worktree) => if worktree.is_main || worktree.is_current {
                Seq::empty()
            } else {
                seq![PopupRequestView::ConfirmDeleteWorktree(worktree.name@)]
            },
            None => Seq::empty(),
        }
    }

    /// What toggling the lock asks for: the primary worktree is not locked.
    pub open spec fn lock_requests(&self) -> Seq<PopupRequestView> {
        match self.entry() {
            Some(worktree) => if worktree.is_main {
                Seq::empty()
            } else {
                seq![PopupRequestView::ToggleWorktreeLock(worktree.name@)]
            },
            None => Seq::empty(),
        }
    }

    /// The commands that the popup offers.
    pub open spec fn command_list(&self) -> Seq<PopupCommandInfo> {
        seq![
            offered(PopupCommand::Scroll, true),
            offered(PopupCommand::ClosePopup, true),
            offered(
                PopupCommand::OpenWorktree,
                self.entry() matches Some(w) && !w.is_current,
            ),
            offered(PopupCommand::CreateWorktree, true),
            offered(
                PopupCommand::RemoveWorktree,
                self.entry() matches Some(w) && !w.is_main && !w.is_current,
            ),
            offered(PopupCommand::LockWorktree, self.entry() matches Some(w) && !w.is_main),
        ]
    }

    /// A popup that is not shown.
    pub fn new() -> (popup: Self)
        ensures
            popup.worktrees@.len() == 0,
            popup.selection == 0,
            !popup.visible,
            popup.current_height == 0,
            popup.requests@.len() == 0,
    {
        WorktreesPopup {
            worktrees: Vec::new(),
            selection: 0,
            visible: false,
            current_height: 0,
            requests: Vec::new(),
        }
    }

    fn ask(&mut self, request: PopupRequest)
        ensures
            old(self).asks(*old(self), seq![request@], *final(self)),
    {
        push_request(&mut self.requests, request);
        assert(popup_request_views(self.requests@) =~= popup_request_views(old(self).requests@)
            + seq![request@]);
    }

    /// Takes what was asked of the application.
    pub fn take_requests(&mut self) -> (requests: Vec<PopupRequest>)
        ensures
            requests@ == old(self).requests@,
            final(self).requests@.len() == 0,
            *final(self) == (WorktreesPopup { requests: final(self).requests, ..*old(self) }),
    {
        let mut requests: Vec<PopupRequest> = Vec::new();
        requests.append(&mut self.requests);
        assert(requests@ =~= old(self).requests@);
        requests
    }

    pub fn is_visible(&self) -> (yes: bool)
        ensures
            yes == self.visible,
    {
        self.visible
    }

    pub fn close(&mut self)
        ensures
            *final(self) == (WorktreesPopup { visible: false, ..*old(self) }),
    {
        self.visible = false;
    }

    pub fn show(&mut self) -> (outcome: Result<(), Error>)
        ensures
            outcome is Ok,
            *final(self) == (WorktreesPopup { visible: true, ..*old(self) }),
    {
        self.visible = true;
        Ok(())
    }

    /// Shows the popup and asks for the worktrees.
    pub fn open(&mut self) -> (outcome: Result<(), Error>)
        ensures
            outcome is Ok,
            old(self).asks(
                (WorktreesPopup { visible: true, ..*old(self) }),
                seq![PopupRequestView::ListWorktrees],
                *final(self),
            ),
    {
        self.visible = true;
        self.update_worktrees();
        Ok(())
    }

    /// Asks for the worktrees where the popup is shown.
    pub fn update_worktrees(&mut self)
        ensures
            old(self).asks(
                *old(self),
                if old(self).visible {
                    seq![PopupRequestView::ListWorktrees]
                } else {
                    Seq::empty()
                },
                *final(self),
            ),
    {
        assert(popup_request_views(self.requests@) + Seq::<PopupRequestView>::empty()
            =~= popup_request_views(self.requests@));
        if self.is_visible() {
            self.ask(PopupRequest::ListWorktrees);
        }
    }

    /// Takes the worktrees that were asked for, and keeps the selection among
    /// them. Where they could not be listed, nothing changes; where they are
    /// too many to select from, the selection stays.
    pub fn worktrees_listed(&mut self, listed: Result<Vec<WorktreeInfo>, Error>) -> (outcome: Result<
        (),
        Error,
    >)
        ensures
            match listed {
                Ok(list) => {
                    let taken = WorktreesPopup { worktrees: list, ..*old(self) };
                    if list@.len() <= u16::MAX {
                        outcome is Ok && *final(self) == taken.selecting(
                            old(self).selection as int,
                        )
                    } else {
                        outcome == Err::<(), Error>(Error::OutOfRange) && *final(self) == taken
                    }
                },
                Err(err) => outcome == Err::<(), Error>(err) && *final(self) == *old(self),
            },
    {
        match listed {
            Ok(list) => {
                self.worktrees = list;
                let selection = self.selection;
                self.set_selection(selection)
            },
            Err(err) => Err(err),
        }
    }

    /// The selected worktree, if there is one.
    pub fn selected_entry(&self) -> (entry: Option<&WorktreeInfo>)
        ensures
            match entry {
                Some(worktree) => self.entry() == Some(*worktree),
                None => self.entry() is None,
            },
    {
        let i: usize = self.selection as usize;
        if i < self.worktrees.len() {
            Some(&self.worktrees[i])
        } else {
            None
        }
    }

    /// Whether the selected worktree can be switched to.
    pub fn can_switch_worktree(&self) -> (yes: bool)
        ensures
            yes == (self.entry() matches Some(w) && !w.is_current),
    {
        match self.selected_entry() {
            Some(w) => !w.is_current,
            None => false,
        }
    }

    /// Whether the selected worktree can be removed.
    pub fn can_remove_worktree(&self) -> (yes: bool)
        ensures
            yes == (self.entry() matches Some(w) && !w.is_main && !w.is_current),
    {
        match self.selected_entry() {
            Some(w) => !w.is_main && !w.is_current,
            None => false,
        }
    }

    /// Whether the selected worktree can be locked.
    pub fn can_lock_worktree(&self) -> (yes: bool)
        ensures
            yes == (self.entry() matches Some(w) && !w.is_main),
    {
        match self.selected_entry() {
            Some(w) => !w.is_main,
            None => false,
        }
    }

    /// Moves the selection.
    pub fn move_selection(&mut self, scroll: ScrollType) -> (outcome: Result<bool, Error>)
        ensures
            if old(self).worktrees@.len() <= u16::MAX {
                outcome == Ok::<bool, Error>(true) && *final(self) == old(self).selecting(
                    old(self).move_target(scroll),
                )
            } else {
                outcome == Err::<bool, Error>(Error::OutOfRange) && *final(self) == *old(self)
            },
    {
        let new_selection: u16 = match scroll {
            ScrollType::Up => self.selection.saturating_add(1),
            ScrollType::Down => self.selection.saturating_sub(1),
            ScrollType::PageDown => self.selection.saturating_add(self.current_height),
            ScrollType::PageUp => self.selection.saturating_sub(self.current_height),
            ScrollType::Home => 0,
            ScrollType::End => {
                if self.worktrees.len() > u16::MAX as usize {
                    return Err(Error::OutOfRange);
                }
                (self.worktrees.len() as u16).saturating_sub(1)
            },
        };
        match self.set_selection(new_selection) {
            Ok(_) => Ok(true),
            Err(err) => Err(err),
        }
    }

    /// Selects an entry, or the last one where there are fewer.
    pub fn set_selection(&mut self, selection: u16) -> (outcome: Result<(), Error>)
        ensures
            if old(self).worktrees@.len() <= u16::MAX {
                outcome is Ok && *final(self) == old(self).selecting(selection as int)
            } else {
                outcome == Err::<(), Error>(Error::OutOfRange) && *final(self) == *old(self)
            },
    {
        if self.worktrees.len() > u16::MAX as usize {
            return Err(Error::OutOfRange);
        }
        let num_entries: u16 = (self.worktrees.len() as u16).saturating_sub(1);
        self.selection = if selection > num_entries {
            num_entries
        } else {
            selection
        };
        Ok(())
    }
}

/// What the outcome of a service asks for: to show its error.
pub open spec fn error_requests(outcome: Result<(), String>) -> Seq<PopupRequestView> {
    match outcome {
        Ok(_) => Seq::empty(),
        Err(err) => seq![PopupRequestView::ShowErrorMsg(err@)],
    }
}

impl WorktreesPopup {
    /// Whether `after` is what a key makes of the popup, and `state` what it
    /// says of the key.
    pub open spec fn performs(
        self,
        action: WorktreesAction,
        state: Result<EventState, Error>,
        after: WorktreesPopup,
    ) -> bool {
        let hidden = WorktreesPopup { visible: false, ..self };
        match action {
            WorktreesAction::Exit => {
                &&& state == Ok::<EventState, Error>(EventState::Consumed)
                &&& after == hidden
            },
            WorktreesAction::Move(scroll) => if self.worktrees@.len() <= u16::MAX {
                &&& state == Ok::<EventState, Error>(EventState::Consumed)
                &&& after == self.selecting(self.move_target(scroll))
            } else {
                &&& state == Err::<EventState, Error>(Error::OutOfRange)
                &&& after == self
            },
            WorktreesAction::Switch => {
                &&& state == Ok::<EventState, Error>(EventState::Consumed)
                &&& self.asks(hidden, self.switch_requests(), after)
            },
            WorktreesAction::Create => {
                &&& state == Ok::<EventState, Error>(EventState::Consumed)
                &&& self.asks(hidden, seq![PopupRequestView::CreateWorktree], after)
            },
            WorktreesAction::Remove => {
                &&& state == Ok::<EventState, Error>(EventState::Consumed)
                &&& self.asks(self, self.remove_requests(), after)
            },
            WorktreesAction::Lock => {
                &&& state == Ok::<EventState, Error>(EventState::Consumed)
                &&& self.asks(self, self.lock_requests(), after)
            },
            WorktreesAction::PassOn => {
                &&& state == Ok::<EventState, Error>(EventState::NotConsumed)
                &&& after == self
            },
            WorktreesAction::Ignore => {
                &&& state == Ok::<EventState, Error>(EventState::Consumed)
                &&& after == self
            },
        }
    }

    /// Handles an event: the bindings that it matches if it is a key event, or
    /// else nothing. While the popup is hidden it handles nothing; while it is
    /// shown it uses up every event but the key of the command bar.
    pub fn event(&mut self, ev: Option<&WorktreesKeys>) -> (state: Result<EventState, Error>)
        ensures
            if !old(self).visible {
                state == Ok::<EventState, Error>(EventState::NotConsumed) && *final(self) == *old(
                    self,
                )
            } else {
                match ev {
                    Some(keys) => old(self).performs(
                        worktrees_action(*keys),
                        state,
                        *final(self),
                    ),
                    None => state == Ok::<EventState, Error>(EventState::Consumed) && *final(self)
                        == *old(self),
                }
            },
    {
        if !self.visible {
            return Ok(EventState::NotConsumed);
        }
        assert(popup_request_views(self.requests@) + Seq::<PopupRequestView>::empty()
            =~= popup_request_views(self.requests@));
        if let Some(keys) = ev {
            match action_of(keys) {
                WorktreesAction::Exit => self.close(),
                WorktreesAction::Move(scroll) => {
                    return match self.move_selection(scroll) {
                        Ok(_) => Ok(EventState::Consumed),
                        Err(err) => Err(err),
                    };
                },
                WorktreesAction::Switch => {
                    let path = match self.selected_entry() {
                        Some(worktree) => if worktree.is_current {
                            None
                        } else {
                            Some(copy_path(&worktree.path))
                        },
                        None => None,
                    };
                    if let Some(path) = path {
                        self.ask(PopupRequest::OpenRepo { path });
                    }
                    self.close();
                },
                WorktreesAction::Create => {
                    self.ask(PopupRequest::CreateWorktree);
                    self.close();
                },
                WorktreesAction::Remove => {
                    let name = match self.selected_entry() {
                        Some(worktree) => if worktree.is_main || worktree.is_current {
                            None
                        } else {
                            Some(worktree.name.clone())
                        },
                        None => None,
                    };
                    if let Some(name) = name {
                        self.ask(PopupRequest::ConfirmDeleteWorktree(name));
                    }
                },
                WorktreesAction::Lock => {
                    let name = match self.selected_entry() {
                        Some(worktree) => if worktree.is_main {
                            None
                        } else {
                            Some(worktree.name.clone())
                        },
                        None => None,
                    };
                    if let Some(name) = name {
                        self.ask(PopupRequest::ToggleWorktreeLock(name));
                    }
                },
                WorktreesAction::PassOn => {
                    return Ok(EventState::NotConsumed);
                },
                WorktreesAction::Ignore => {},
            }
        }
        Ok(EventState::Consumed)
    }

    /// Takes the outcome of toggling a lock: an error is shown, and the
    /// worktrees are asked for again either way.
    pub fn lock_toggled(&mut self, outcome: Result<(), String>)
        ensures
            old(self).asks(
                *old(self),
                error_requests(outcome) + (if old(self).visible {
                    seq![PopupRequestView::ListWorktrees]
                } else {
                    Seq::empty()
                }),
                *final(self),
            ),
    {
        let ghost shown = error_requests(outcome);
        if let Err(err) = outcome {
            self.ask(PopupRequest::ShowErrorMsg(err));
        }
        assert(popup_request_views(self.requests@) =~= popup_request_views(old(self).requests@)
            + shown);
        self.update_worktrees();
        assert(popup_request_views(self.requests@) =~= popup_request_views(old(self).requests@) + (
        shown + (if old(self).visible {
            seq![PopupRequestView::ListWorktrees]
        } else {
            Seq::empty()
        })));
    }

    /// Whether the commands of the popup take the place of all others.
    pub fn replaces_commands(&self, force_all: bool) -> (yes: bool)
        ensures
            yes == (self.visible && !force_all),
    {
        self.visible && !force_all
    }

    /// The commands that the popup offers: in place of what is in `out`, or
    /// behind it where all commands are asked for.
    pub fn commands(&self, out: &mut Vec<PopupCommandInfo>, force_all: bool) -> (blocking:
        CommandBlocking)
        ensures
            final(out)@ == (if force_all {
                old(out)@ + self.command_list()
            } else if self.visible {
                self.command_list()
            } else {
                old(out)@
            }),
            blocking == (if self.visible {
                CommandBlocking::Blocking
            } else {
                CommandBlocking::PassingOn
            }),
    {
        if self.visible || force_all {
            if self.replaces_commands(force_all) {
                out.clear();
            }
            out.push(offer(PopupCommand::Scroll, true));
            out.push(offer(PopupCommand::ClosePopup, true));
            out.push(offer(PopupCommand::OpenWorktree, self.can_switch_worktree()));
            out.push(offer(PopupCommand::CreateWorktree, true));
            out.push(offer(PopupCommand::RemoveWorktree, self.can_remove_worktree()));
            out.push(offer(PopupCommand::LockWorktree, self.can_lock_worktree()));
            assert(force_all ==> out@ =~= old(out)@ + self.command_list());
            assert(!force_all ==> out@ =~= self.command_list());
        }
        visibility_blocking(self.is_visible())
    }

    /// Where the rows end that the list shows.
    pub open spec fn rows_end(&self, top: int, height: int) -> int {
        min(self.worktrees@.len() as int, top + height)
    }

    /// The rows of entries `from..to`.
    pub open spec fn rows(&self, from: int, to: int, width: int) -> Seq<Seq<SpanView>> {
        Seq::new(
            minus(to, from) as nat,
            |k: int|
                seq![
                    painted(
                        row_text(
                            self.worktrees@[from + k]@,
                            path_shown(self.worktrees@[from + k]@.path),
                            width,
                        ),
                        Paint::Text(true, from + k == self.selection),
                    ),
                ],
        )
    }

    /// The rows of the list, scrolled down by `top` entries, which must not
    /// hide the selected one.
    pub fn get_text(&self, width_available: u16, height: usize, top: usize) -> (lines: Vec<
        TextLine,
    >)
        requires
            top < self.worktrees@.len() && height > 0 ==> top <= self.selection,
        ensures
            line_views(lines@) == self.rows(
                top as int,
                self.rows_end(top as int, height as int),
                width_available as int,
            ),
    {
        let mut txt: Vec<TextLine> = Vec::new();
        let mut i: usize = 0;
        assert(line_views(txt@) =~= self.rows(top as int, top as int, width_available as int));
        while i < height && top < self.worktrees.len() && i < self.worktrees.len() - top
            invariant
                i <= height,
                i > 0 ==> top + i <= self.worktrees@.len(),
                top < self.worktrees@.len() && height > 0 ==> top <= self.selection,
                line_views(txt@) == self.rows(top as int, top + i, width_available as int),
            decreases height - i,
        {
            let ghost before = line_views(txt@);
            let worktree = &self.worktrees[top + i];
            let selected = (self.selection as usize - top) == i;
            let mut spans: Vec<Span> = Vec::new();
            let text = worktree_row(worktree, width_available);
            push_span(&mut spans, text, SpanStyle::Base(Paint::Text(true, selected)));
            let ghost row = seq![
                painted(
                    row_text(
                        worktree@,
                        path_shown(worktree@.path),
                        width_available as int,
                    ),
                    Paint::Text(true, top + i == self.selection),
                ),
            ];
            assert(span_views(spans@) =~= row);
            txt.push(TextLine { spans });
            assert(line_views(txt@) =~= before.push(row));
            i += 1;
            assert(line_views(txt@) =~= self.rows(top as int, top + i, width_available as int));
        }
        assert(line_views(txt@) =~= self.rows(
            top as int,
            self.rows_end(top as int, height as int),
            width_available as int,
        ));
        txt
    }

    /// Starts to draw the list in `r`: keeps its height, and says what the
    /// scroll position is brought up to date with.
    pub fn begin_draw_list(&mut self, r: Area) -> (update: ScrollUpdate)
        ensures
            *final(self) == (WorktreesPopup { current_height: r.height, ..*old(self) }),
            update.selection == old(self).selection,
            update.rows == old(self).worktrees@.len(),
            update.height == r.height,
    {
        self.current_height = r.height;
        ScrollUpdate {
            selection: self.selection as usize,
            rows: self.worktrees.len(),
            height: r.height as usize,
        }
    }

    /// Where the scroll bar of a list in `r` goes: over the frame, a row above
    /// the list and a row below it.
    pub fn scroll_area(r: Area) -> (area: Area)
        requires
            r.height <= u16::MAX - 2,
        ensures
            area == (Area {
                height: (r.height + 2) as u16,
                y: minus(r.y as int, 1) as u16,
                ..r
            }),
    {
        let mut area = r;
        area.height = area.height + 2;
        area.y = area.y.saturating_sub(1);
        area
    }

    /// The frame of the popup, which is placed at `placed` on a screen `rect`,
    /// and the list inside the frame.
    pub fn popup_areas(placed: Area, rect: Area) -> (areas: (Area, Area))
        ensures
            areas.0 == placed.common(rect),
            areas.1 == placed.common(rect).within_margin(),
    {
        let area = intersection(placed, rect);
        (area, inner_margin(area))
    }
}

/// Wherever a move leads, the selection is an entry of the list, or the first
/// one of an empty list.
pub proof fn law_selection_stays_in_the_list(popup: WorktreesPopup, scroll: ScrollType)
    requires
        popup.worktrees@.len() <= u16::MAX,
    ensures
        popup.worktrees@.len() > 0 ==> popup.selecting(popup.move_target(scroll)).entry() is Some,
        popup.worktrees@.len() == 0 ==> popup.selecting(popup.move_target(scroll)).selection == 0,
{
}

/// The primary worktree is never asked to be removed or locked, and the current
/// one is never asked to be opened or removed.
pub proof fn law_primary_and_current_worktrees_are_protected(popup: WorktreesPopup)
    ensures
        popup.entry() matches Some(w) && w.is_main ==> popup.remove_requests().len() == 0
            && popup.lock_requests().len() == 0,
        popup.entry() matches Some(w) && w.is_current ==> popup.switch_requests().len() == 0
            && popup.remove_requests().len() == 0,
{
}

/// A command is offered exactly where its key would ask for something.
pub proof fn law_commands_say_what_keys_do(popup: WorktreesPopup)
    ensures
        popup.command_list()[2].enabled <==> popup.switch_requests().len() > 0,
        popup.command_list()[4].enabled <==> popup.remove_requests().len() > 0,
        popup.command_list()[5].enabled <==> popup.lock_requests().len() > 0,
{
}

} // verus!
