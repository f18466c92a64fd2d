//! What the popups have in common: a text input, the requests that they make,
//! and the commands that they offer.
use std::path::PathBuf;
use vstd::prelude::*;

use crate::event::CommandBlocking;
#[allow(unused_imports)]
use crate::paths::path_bytes;

verus! {

/// A text input of one line.
#[derive(Debug)]
pub struct TextInput {
    pub text: String,
    pub visible: bool,
}

/// What a text input shows.
pub struct TextInputView {
    pub text: Seq<char>,
    pub visible: bool,
}

impl View for TextInput {
    type V = TextInputView;

    open spec fn view(&self) -> TextInputView {
        TextInputView { text: self.text@, visible: self.visible }
    }
}

impl TextInput {
    /// An empty input that is not shown.
    pub fn new() -> (input: Self)
        ensures
            input@ == (TextInputView { text: Seq::empty(), visible: false }),
    {
        TextInput { text: String::new(), visible: false }
    }

    pub fn show(&mut self)
        ensures
            final(self)@ == (TextInputView { visible: true, ..old(self)@ }),
    {
        self.visible = true;
    }

    pub fn close(&mut self)
        ensures
            final(self)@ == (TextInputView { visible: false, ..old(self)@ }),
    {
        self.visible = false;
    }

    /// Empties the input.
    pub fn clear(&mut self)
        ensures
            final(self)@ == (TextInputView { text: Seq::empty(), ..old(self)@ }),
    {
        self.text = String::new();
    }
}

/// What a popup asks of the application.
#[derive(Debug)]
pub enum PopupRequest {
    /// Refresh everything.
    UpdateAll,
    ShowErrorMsg(String),
    /// Create a worktree at this path.
    CreateWorktreeAt(String),
    /// Open the popup that creates a worktree.
    CreateWorktree,
    /// Say why no repository can be opened at this path, if it cannot.
    ValidateRepo(PathBuf),
    /// Open the repository at this path.
    OpenRepo { path: PathBuf },
    /// Ask for confirmation, then remove the worktree of this name.
    ConfirmDeleteWorktree(String),
    /// Toggle the lock of the worktree of this name.
    ToggleWorktreeLock(String),
    /// List the worktrees.
    ListWorktrees,
}

/// What a request says.
pub enum PopupRequestView {
    UpdateAll,
    ShowErrorMsg(Seq<char>),
    CreateWorktreeAt(Seq<char>),
    CreateWorktree,
    ValidateRepo(Seq<u8>),
    OpenRepo { path: Seq<u8> },
    ConfirmDeleteWorktree(Seq<char>),
    ToggleWorktreeLock(Seq<char>),
    ListWorktrees,
}

impl View for PopupRequest {
    type V = PopupRequestView;

    open spec fn view(&self) -> PopupRequestView {
        match *self {
            PopupRequest::UpdateAll => PopupRequestView::UpdateAll,
            PopupRequest::ShowErrorMsg(msg) => PopupRequestView::ShowErrorMsg(msg@),
            PopupRequest::CreateWorktreeAt(path) => PopupRequestView::CreateWorktreeAt(path@),
            PopupRequest::CreateWorktree => PopupRequestView::CreateWorktree,
            PopupRequest::ValidateRepo(path) => PopupRequestView::ValidateRepo(path_bytes(path)),
            PopupRequest::OpenRepo { path } => PopupRequestView::OpenRepo {
                path: path_bytes(path),
            },
            PopupRequest::ConfirmDeleteWorktree(name) => PopupRequestView::ConfirmDeleteWorktree(
                name@,
            ),
            PopupRequest::ToggleWorktreeLock(name) => PopupRequestView::ToggleWorktreeLock(name@),
            PopupRequest::ListWorktrees => PopupRequestView::ListWorktrees,
        }
    }
}

/// What a list of requests says.
pub open spec fn popup_request_views(requests: Seq<PopupRequest>) -> Seq<PopupRequestView> {
    Seq::new(requests.len(), |i: int| requests[i]@)
}

/// Appends a request.
pub fn push_request(requests: &mut Vec<PopupRequest>, request: PopupRequest)
    ensures
        popup_request_views(final(requests)@) == popup_request_views(old(requests)@).push(
            request@,
        ),
{
    requests.push(request);
    assert(popup_request_views(requests@) =~= popup_request_views(old(requests)@).push(
        request@,
    ));
}

/// A visible popup hides the commands of what lies below.
pub fn visibility_blocking(visible: bool) -> (blocking: CommandBlocking)
    ensures
        blocking == (if visible {
            CommandBlocking::Blocking
        } else {
            CommandBlocking::PassingOn
        }),
{
    if visible {
        CommandBlocking::Blocking
    } else {
        CommandBlocking::PassingOn
    }
}

/// What a command of a popup does.
#[derive(Clone, Copy, PartialEq, Eq, Debug, Structural)]
pub enum PopupCommand {
    /// The commands of the text input, in this place.
    Input,
    Scroll,
    ClosePopup,
    OpenWorktree,
    CreateWorktree,
    RemoveWorktree,
    LockWorktree,
    OpenRepo,
}

/// A command in the command bar.
#[derive(Clone, Copy, PartialEq, Eq, Debug, Structural)]
pub struct PopupCommandInfo {
    pub command: PopupCommand,
    /// Whether the command can be run.
    pub enabled: bool,
    /// Whether the command is offered.
    pub available: bool,
}

/// A command that is offered.
pub open spec fn offered(command: PopupCommand, enabled: bool) -> PopupCommandInfo {
    PopupCommandInfo { command, enabled, available: true }
}

/// A command that is offered.
pub fn offer(command: PopupCommand, enabled: bool) -> (info: PopupCommandInfo)
    ensures
        info == offered(command, enabled),
{
    PopupCommandInfo { command, enabled, available: true }
}

} // verus!
