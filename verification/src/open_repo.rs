//! The popup that asks for a path and opens the repository there.
use std::path::PathBuf;
use vstd::prelude::*;
#[allow(unused_imports)]
use vstd::utf8::encode_utf8;

use crate::error::{error_message, Error};
#[allow(unused_imports)]
use crate::error::error_text;
use crate::event::{CommandBlocking, EventState};
use crate::paths::expand_path;
#[allow(unused_imports)]
use crate::paths::{path_bytes, path_is_absolute, path_leads_to};
use crate::popup::{
    offer, push_request, visibility_blocking, PopupCommand, PopupCommandInfo,
    PopupRequest, TextInput,
};
#[allow(unused_imports)]
use crate::popup::{offered, popup_request_views, PopupRequestView, TextInputView};
use crate::text::trim;
#[allow(unused_imports)]
use crate::text::trimmed;

verus! {

/// Prompts for a filesystem path and has the application opened anew against
/// the repository there.
#[derive(Debug)]
pub struct OpenRepoPopup {
    pub input: TextInput,
    /// What was asked of the application and not taken yet, oldest first.
    pub requests: Vec<PopupRequest>,
}

/// What the popup shows, and what it asked for.
pub struct OpenRepoView {
    pub input: TextInputView,
    pub requests: Seq<PopupRequestView>,
}

impl View for OpenRepoPopup {
    type V = OpenRepoView;

    open spec fn view(&self) -> OpenRepoView {
        OpenRepoView { input: self.input@, requests: popup_request_views(self.requests@) }
    }
}

impl OpenRepoView {
    /// What confirming makes of the popup, where the path that was entered
    /// leads to `path`: a blank path only hides it; any other is asked to be
    /// validated.
    pub open spec fn confirmed(self, path: Seq<u8>) -> OpenRepoView {
        if trimmed(self.input.text).len() == 0 {
            OpenRepoView { input: TextInputView { visible: false, ..self.input }, ..self }
        } else {
            OpenRepoView {
                requests: self.requests.push(PopupRequestView::ValidateRepo(path)),
                ..self
            }
        }
    }

    /// Whether `after` is what confirming makes of the popup.
    pub open spec fn confirms(self, after: OpenRepoView) -> bool {
        let entered = trimmed(self.input.text);
        if entered.len() == 0 {
            after == self.confirmed(Seq::empty())
        } else {
            exists|path: Seq<u8>|
                {
                    &&& #[trigger] path_leads_to(entered, path)
                    &&& after == self.confirmed(path)
                    &&& path_is_absolute(encode_utf8(entered)) ==> path == encode_utf8(entered)
                }
        }
    }

    /// What the validation of `path` makes of the popup: it is emptied and
    /// hidden, and the repository is opened, or the error is shown.
    pub open spec fn validated(self, path: Seq<u8>, error: Option<Seq<char>>) -> OpenRepoView {
        OpenRepoView {
            input: TextInputView { text: Seq::empty(), visible: false },
            requests: self.requests.push(
                match error {
                    Some(err) => PopupRequestView::ShowErrorMsg(
                        error_text("not a valid repository:"@, err),
                    ),
                    None => PopupRequestView::OpenRepo { path },
                },
            ),
        }
    }
}

impl OpenRepoPopup {
    /// A popup that is not shown.
    pub fn new() -> (popup: Self)
        ensures
            popup@ == (OpenRepoView {
                input: TextInputView { text: Seq::empty(), visible: false },
                requests: Seq::empty(),
            }),
    {
        let popup = OpenRepoPopup { input: TextInput::new(), requests: Vec::new() };
        assert(popup_request_views(popup.requests@) =~= Seq::empty());
        popup
    }

    /// Shows the popup.
    pub fn open(&mut self) -> (outcome: Result<(), Error>)
        ensures
            outcome is Ok,
            final(self)@ == (OpenRepoView {
                input: TextInputView { visible: true, ..old(self)@.input },
                ..old(self)@
            }),
    {
        self.show()
    }

    pub fn is_visible(&self) -> (yes: bool)
        ensures
            yes == self@.input.visible,
    {
        self.input.visible
    }

    pub fn close(&mut self)
        ensures
            final(self)@ == (OpenRepoView {
                input: TextInputView { visible: false, ..old(self)@.input },
                ..old(self)@
            }),
    {
        self.input.close();
    }

    pub fn show(&mut self) -> (outcome: Result<(), Error>)
        ensures
            outcome is Ok,
            final(self)@ == (OpenRepoView {
                input: TextInputView { visible: true, ..old(self)@.input },
                ..old(self)@
            }),
    {
        self.input.show();
        Ok(())
    }

    /// Takes what was asked of the application.
    pub fn take_requests(&mut self) -> (requests: Vec<PopupRequest>)
        ensures
            requests@ == old(self).requests@,
            final(self)@ == (OpenRepoView { requests: Seq::empty(), ..old(self)@ }),
    {
        let mut requests: Vec<PopupRequest> = Vec::new();
        requests.append(&mut self.requests);
        assert(requests@ =~= old(self).requests@);
        assert(popup_request_views(self.requests@) =~= Seq::empty());
        requests
    }

    /// Asks to validate `path`, which the path that was entered leads to, or
    /// hides the popup where nothing was entered.
    pub fn confirm_path(&mut self, path: PathBuf)
        ensures
            final(self)@ == old(self)@.confirmed(path_bytes(path)),
    {
        if trim(self.input.text.as_str()).as_str().is_empty() {
            self.close();
            return ;
        }
        push_request(&mut self.requests, PopupRequest::ValidateRepo(path));
    }

    /// Asks to validate the path that was entered, with a leading `~` or `~/`
    /// expanded and made absolute.
    pub fn confirm(&mut self)
        ensures
            old(self)@.confirms(final(self)@),
    {
        let raw = trim(self.input.text.as_str());
        if raw.as_str().is_empty() {
            self.close();
            return ;
        }
        let path = expand_path(raw.as_str());
        assert(path_leads_to(raw@, path_bytes(path)));
        self.confirm_path(path);
    }

    /// Takes the outcome of the validation of `path`: why no repository can be
    /// opened there, if it cannot.
    pub fn repo_validated(&mut self, path: PathBuf, error: Option<String>)
        ensures
            final(self)@ == old(self)@.validated(
                path_bytes(path),
                match error {
                    Some(err) => Some(err@),
                    None => None,
                },
            ),
    {
        self.input.clear();
        self.close();
        match error {
            Some(err) => {
                let msg = error_message("not a valid repository:", err.as_str());
                push_request(&mut self.requests, PopupRequest::ShowErrorMsg(msg));
            },
            None => {
                push_request(&mut self.requests, PopupRequest::OpenRepo { path });
            },
        }
    }

    /// Handles an event that the input may have used up, and that may be a
    /// key (`key`), that for confirming (`enter`).
    pub fn event(&mut self, input_consumed: bool, key: bool, enter: bool) -> (state: EventState)
        ensures
            state == (if old(self)@.input.visible && (input_consumed || key) {
                EventState::Consumed
            } else {
                EventState::NotConsumed
            }),
            if old(self)@.input.visible && !input_consumed && key && enter {
                old(self)@.confirms(final(self)@)
            } else {
                final(self)@ == old(self)@
            },
    {
        if self.is_visible() {
            if input_consumed {
                return EventState::Consumed;
            }
            if key {
                if enter {
                    self.confirm();
                }
                return EventState::Consumed;
            }
        }
        EventState::NotConsumed
    }

    /// The commands that the popup offers, appended to `out`.
    pub fn commands(&self, out: &mut Vec<PopupCommandInfo>, force_all: bool) -> (blocking:
        CommandBlocking)
        ensures
            final(out)@ == (if self@.input.visible || force_all {
                old(out)@ + seq![
                    offered(PopupCommand::Input, true),
                    offered(PopupCommand::OpenRepo, true),
                ]
            } else {
                old(out)@
            }),
            blocking == (if self@.input.visible {
                CommandBlocking::Blocking
            } else {
                CommandBlocking::PassingOn
            }),
    {
        if self.is_visible() || force_all {
            out.push(offer(PopupCommand::Input, true));
            out.push(offer(PopupCommand::OpenRepo, true));
            assert(out@ =~= old(out)@ + seq![
                offered(PopupCommand::Input, true),
                offered(PopupCommand::OpenRepo, true),
            ]);
        }
        visibility_blocking(self.is_visible())
    }
}

/// Confirming a path and getting an answer always ends with an empty, hidden
/// popup and one more request: the repository, or the reason why not.
pub proof fn law_confirming_ends_with_an_answer(
    popup: OpenRepoView,
    path: Seq<u8>,
    error: Option<Seq<char>>,
)
    requires
        trimmed(popup.input.text).len() > 0,
    ensures
        ({
            let after = popup.confirmed(path).validated(path, error);
            &&& !after.input.visible
            &&& after.input.text.len() == 0
            &&& after.requests.last() is OpenRepo <==> error is None
            &&& after.requests.last() is ShowErrorMsg <==> error is Some
        }),
{
}

} // verus!
