//! The popup that asks for the path of a new worktree.
use vstd::prelude::*;
#[allow(unused_imports)]
use vstd::utf8::encode_utf8;

use crate::area::Area;
use crate::error::{error_message, Error};
#[allow(unused_imports)]
use crate::error::error_text;
use crate::event::{CommandBlocking, EventState};
use crate::paths::{name_of_path, path_of};
#[allow(unused_imports)]
use crate::paths::path_name;
use crate::popup::{
    offer, push_request, visibility_blocking, PopupCommand, PopupCommandInfo,
    PopupRequest, TextInput,
};
#[allow(unused_imports)]
use crate::popup::{offered, popup_request_views, PopupRequestView, TextInputView};
#[allow(unused_imports)]
use crate::selection::minus;
use crate::text::{len_in_bytes, trim};
#[allow(unused_imports)]
use crate::text::{byte_len, trimmed};

verus! {

/// The popup.
#[derive(Debug)]
pub struct CreateWorktreePopup {
    pub input: TextInput,
    /// What was asked of the application and not taken yet, oldest first.
    pub requests: Vec<PopupRequest>,
}

/// What the popup shows, and what it asked for.
pub struct CreateWorktreeView {
    pub input: TextInputView,
    pub requests: Seq<PopupRequestView>,
}

impl View for CreateWorktreePopup {
    type V = CreateWorktreeView;

    open spec fn view(&self) -> CreateWorktreeView {
        CreateWorktreeView {
            input: self.input@,
            requests: popup_request_views(self.requests@),
        }
    }
}

impl CreateWorktreeView {
    /// What confirming makes of the popup: a blank path only hides it; any
    /// other is asked to become a worktree, and the input is emptied.
    pub open spec fn confirmed(self) -> CreateWorktreeView {
        if trimmed(self.input.text).len() == 0 {
            CreateWorktreeView {
                input: TextInputView { visible: false, ..self.input },
                ..self
            }
        } else {
            CreateWorktreeView {
                input: TextInputView { text: Seq::empty(), visible: false },
                requests: self.requests.push(
                    PopupRequestView::CreateWorktreeAt(self.input.text),
                ),
            }
        }
    }
}

/// Whether a name is valid for a branch, by `git2`'s `Branch::name_is_valid`;
/// none where that fails.
pub uninterp spec fn branch_name_validity(name: Seq<char>) -> Option<bool>;

/// Whether `name` is valid for a branch, by `git2`'s `Branch::name_is_valid`:
/// whether it is a valid reference name behind `refs/heads/` that git accepts
/// for a branch. The answer depends on the name alone; none is given where the
/// call fails.
#[verifier::external_body]
fn validate_branch_name(name: &str) -> (valid: Option<bool>)
    ensures
        valid == branch_name_validity(name@),
{
    git2::Branch::name_is_valid(name).ok()
}

/// Whether a derived branch name gets a warning, given what is known of its
/// validity: one that is not known to be valid does.
pub fn needs_warning(validity: Option<bool>) -> (yes: bool)
    ensures
        yes == (validity != Some(true)),
{
    match validity {
        Some(true) => false,
        _ => true,
    }
}

/// The length of a message as a number of cells, by `easy_cast`'s `Cast`: the
/// same number, which has to fit.
#[verifier::external_body]
fn cast_length(len: usize) -> (cells: u16)
    requires
        len <= u16::MAX,
    ensures
        cells == len,
{
    easy_cast::Cast::cast(len)
}

/// Where a warning of `len` cells goes: flush with the right border in the
/// last row of `area`, cut to its width.
pub open spec fn warning_area(area: Area, len: int) -> Area {
    let offset = minus(area.width as int, len + 1);
    Area {
        x: (area.x + offset) as u16,
        y: (area.y + minus(area.height as int, 1)) as u16,
        width: minus(area.width as int, offset + 1) as u16,
        height: 1,
    }
}

/// Places a warning of `msg_length` cells in the last row of `area`.
pub fn place_warning(area: Area, msg_length: u16) -> (placed: Area)
    requires
        msg_length < u16::MAX,
        area.x + minus(area.width as int, msg_length + 1) <= u16::MAX,
        area.y + minus(area.height as int, 1) <= u16::MAX,
    ensures
        placed == warning_area(area, msg_length as int),
{
    let mut rect = area;
    rect.y = rect.y + rect.height.saturating_sub(1);
    rect.height = 1;
    let offset: u16 = rect.width.saturating_sub(msg_length + 1);
    rect.width = rect.width.saturating_sub(offset + 1);
    rect.x = rect.x + offset;
    rect
}

impl CreateWorktreePopup {
    /// A popup that is not shown.
    pub fn new() -> (popup: Self)
        ensures
            popup@ == (CreateWorktreeView {
                input: TextInputView { text: Seq::empty(), visible: false },
                requests: Seq::empty(),
            }),
    {
        let popup = CreateWorktreePopup { input: TextInput::new(), requests: Vec::new() };
        assert(popup_request_views(popup.requests@) =~= Seq::empty());
        popup
    }

    /// Shows the popup.
    pub fn open(&mut self) -> (outcome: Result<(), Error>)
        ensures
            outcome is Ok,
            final(self)@ == (CreateWorktreeView {
                input: TextInputView { visible: true, ..old(self)@.input },
                ..old(self)@
            }),
    {
        self.show()
    }

    pub fn is_visible(&self) -> (yes: bool)
        ensures
            yes == self@.input.visible,
    {
        self.input.visible
    }

    pub fn close(&mut self)
        ensures
            final(self)@ == (CreateWorktreeView {
                input: TextInputView { visible: false, ..old(self)@.input },
                ..old(self)@
            }),
    {
        self.input.close();
    }

    pub fn show(&mut self) -> (outcome: Result<(), Error>)
        ensures
            outcome is Ok,
            final(self)@ == (CreateWorktreeView {
                input: TextInputView { visible: true, ..old(self)@.input },
                ..old(self)@
            }),
    {
        self.input.show();
        Ok(())
    }

    /// Takes what was asked of the application.
    pub fn take_requests(&mut self) -> (requests: Vec<PopupRequest>)
        ensures
            requests@ == old(self).requests@,
            final(self)@ == (CreateWorktreeView { requests: Seq::empty(), ..old(self)@ }),
    {
        let mut requests: Vec<PopupRequest> = Vec::new();
        requests.append(&mut self.requests);
        assert(requests@ =~= old(self).requests@);
        assert(popup_request_views(self.requests@) =~= Seq::empty());
        requests
    }

    /// Asks for a worktree at the path that was entered.
    pub fn create_worktree(&mut self)
        ensures
            final(self)@ == old(self)@.confirmed(),
    {
        let path = self.input.text.clone();
        if trim(path.as_str()).as_str().is_empty() {
            self.close();
            return ;
        }
        push_request(&mut self.requests, PopupRequest::CreateWorktreeAt(path));
        self.input.clear();
        self.close();
    }

    /// Takes the outcome of creating a worktree: a refresh, or an error
    /// message.
    pub fn worktree_created(&mut self, outcome: Result<(), String>)
        ensures
            final(self)@ == (CreateWorktreeView {
                requests: old(self)@.requests.push(
                    match outcome {
                        Ok(_) => PopupRequestView::UpdateAll,
                        Err(err) => PopupRequestView::ShowErrorMsg(
                            error_text("create worktree error:"@, err@),
                        ),
                    },
                ),
                ..old(self)@
            }),
    {
        match outcome {
            Ok(_) => push_request(&mut self.requests, PopupRequest::UpdateAll),
            Err(err) => {
                let msg = error_message("create worktree error:", err.as_str());
                push_request(&mut self.requests, PopupRequest::ShowErrorMsg(msg));
            },
        }
    }

    /// Handles an event that the input may have used up, and that may be a
    /// key (`key`), that for confirming (`enter`).
    pub fn event(&mut self, input_consumed: bool, key: bool, enter: bool) -> (state: EventState)
        ensures
            state == (if old(self)@.input.visible && (input_consumed || key) {
                EventState::Consumed
            } else {
                EventState::NotConsumed
            }),
            final(self)@ == (if old(self)@.input.visible && !input_consumed && key && enter {
                old(self)@.confirmed()
            } else {
                old(self)@
            }),
    {
        if self.is_visible() {
            if input_consumed {
                return EventState::Consumed;
            }
            if key {
                if enter {
                    self.create_worktree();
                }
                return EventState::Consumed;
            }
        }
        EventState::NotConsumed
    }

    /// The commands that the popup offers, appended to `out`.
    pub fn commands(&self, out: &mut Vec<PopupCommandInfo>, force_all: bool) -> (blocking:
        CommandBlocking)
        ensures
            final(out)@ == (if self@.input.visible || force_all {
                old(out)@ + seq![
                    offered(PopupCommand::Input, true),
                    offered(PopupCommand::CreateWorktree, true),
                ]
            } else {
                old(out)@
            }),
            blocking == (if self@.input.visible {
                CommandBlocking::Blocking
            } else {
                CommandBlocking::PassingOn
            }),
    {
        if self.is_visible() || force_all {
            out.push(offer(PopupCommand::Input, true));
            out.push(offer(PopupCommand::CreateWorktree, true));
            assert(out@ =~= old(out)@ + seq![
                offered(PopupCommand::Input, true),
                offered(PopupCommand::CreateWorktree, true),
            ]);
        }
        visibility_blocking(self.is_visible())
    }

    /// Whether the final component of the path that was entered is no valid
    /// branch name.
    pub open spec fn warns(&self) -> bool {
        match path_name(encode_utf8(self@.input.text)) {
            Some(name) => branch_name_validity(name) != Some(true),
            None => false,
        }
    }

    /// Whether the final component of the path that was entered is no valid
    /// branch name.
    pub fn has_warning(&self) -> (yes: bool)
        ensures
            yes == self.warns(),
    {
        match name_of_path(&path_of(self.input.text.as_str())) {
            Some(derived_name) => needs_warning(validate_branch_name(derived_name.as_str())),
            None => false,
        }
    }

    /// Where the warning `msg` is drawn in the input's area, if the final
    /// component of the path that was entered is no valid branch name.
    pub fn draw_warnings(&self, msg: &str, area: Area) -> (placed: Option<Area>)
        requires
            byte_len(msg@) < u16::MAX,
            area.x + minus(area.width as int, byte_len(msg@) as int + 1) <= u16::MAX,
            area.y + minus(area.height as int, 1) <= u16::MAX,
        ensures
            placed == (if self.warns() {
                Some(warning_area(area, byte_len(msg@) as int))
            } else {
                None
            }),
    {
        if self.has_warning() {
            let msg_length = cast_length(len_in_bytes(msg));
            return Some(place_warning(area, msg_length));
        }
        None
    }
}

} // verus!
