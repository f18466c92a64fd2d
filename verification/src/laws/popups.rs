//! The popups with a text input: what they ask for, and when.
#![allow(unused_imports)]
use std::path::PathBuf;
use vstd::prelude::*;
use vstd::utf8::encode_utf8;

use crate::area::Area;
use crate::create_worktree::{branch_name_validity, CreateWorktreePopup};
use crate::error::Error;
use crate::event::{CommandBlocking, EventState};
use crate::laws::texts::lemma_strip_both;
use crate::open_repo::OpenRepoPopup;
use crate::paths::{path_bytes, path_leads_to, path_name};
use crate::popup::{popup_request_views, PopupCommand, PopupCommandInfo, PopupRequest};
use crate::text::{is_white_space, lemma_byte_len_encoding, trimmed, white_space};

verus! {

/// Whether a text holds nothing but white space.
pub open spec fn is_blank(text: Seq<char>) -> bool {
    forall|i: int| 0 <= i < text.len() ==> is_white_space(#[trigger] text[i])
}

proof fn lemma_blank(text: Seq<char>)
    ensures
        is_blank(text) <==> trimmed(text).len() == 0,
{
    let (from, to) = lemma_strip_both(text, white_space());
    let rest = trimmed(text);
    if rest.len() > 0 {
        assert(rest.last() == text[to - 1]);
    } else {
        assert forall|i: int| 0 <= i < text.len() implies is_white_space(#[trigger] text[i]) by {
            assert(white_space()(text[i]));
        }
    }
}

/// Confirming a blank path hides the popup and keeps the path; confirming any
/// other asks for a worktree there, with the path as it was entered, and leaves
/// an empty, hidden popup.
pub proof fn law_a_confirmed_path_becomes_a_worktree(popup: &mut CreateWorktreePopup)
    requires
        call_ensures(CreateWorktreePopup::create_worktree, (popup,), ()),
    ensures
        ({
            let entered = old(popup).input.text@;
            let n = old(popup).requests@.len() as int;
            &&& !final(popup).input.visible
            &&& is_blank(entered) ==> final(popup).input.text@ == entered && final(popup).requests@.len() == n
            &&& !is_blank(entered) ==> {
                &&& final(popup).input.text@.len() == 0
                &&& final(popup).requests@.len() == n + 1
                &&& final(popup).requests@[n] matches PopupRequest::CreateWorktreeAt(path) && path@
                    == entered
            }
        }),
{
    let n = old(popup).requests@.len() as int;
    lemma_blank(old(popup).input.text@);
    let views = popup_request_views(final(popup).requests@);
    assert(views == final(popup)@.requests);
    assert(views.len() == final(popup).requests@.len());
    assert(popup_request_views(old(popup).requests@).len() == n);
    assert(old(popup)@.requests == popup_request_views(old(popup).requests@));
    assert(final(popup)@.input == final(popup).input@);
    assert(old(popup)@.input == old(popup).input@);
    if final(popup).requests@.len() > n {
        assert(views[n] == final(popup).requests@[n]@);
    }
}

/// While the popup is shown, a key that the input has not used up is used up, and
/// the key for confirming confirms; nothing else changes it.
pub proof fn law_only_the_enter_key_creates(
    popup: &mut CreateWorktreePopup,
    input_consumed: bool,
    key: bool,
    enter: bool,
    state: EventState,
    other: &mut CreateWorktreePopup,
)
    requires
        *old(popup) == *old(other),
        call_ensures(CreateWorktreePopup::event, (popup, input_consumed, key, enter), state),
        call_ensures(CreateWorktreePopup::create_worktree, (other,), ()),
    ensures
        state == EventState::Consumed <==> old(popup).input.visible && (input_consumed || key),
        old(popup).input.visible && !input_consumed && key && enter ==> final(popup)@ == final(other)@,
        !(old(popup).input.visible && !input_consumed && key && enter) ==> final(popup)@ == old(popup)@,
{
    assert(old(popup)@.input == old(popup).input@);
}

/// What came of creating a worktree: a refresh, or the reason why not.
pub proof fn law_the_outcome_of_a_worktree_is_reported(
    popup: &mut CreateWorktreePopup,
    outcome: Result<(), String>,
)
    requires
        call_ensures(CreateWorktreePopup::worktree_created, (popup, outcome), ()),
    ensures
        final(popup).input@ == old(popup).input@,
        final(popup).requests@.len() == old(popup).requests@.len() + 1,
        outcome is Ok ==> final(popup).requests@.last() is UpdateAll,
        outcome matches Err(err) ==> (final(popup).requests@.last() matches PopupRequest::ShowErrorMsg(msg) && msg@
            == "create worktree error:"@ + seq!['\n'] + err@),
{
    let n = old(popup).requests@.len() as int;
    let views = popup_request_views(final(popup).requests@);
    assert(views == final(popup)@.requests);
    assert(views.len() == final(popup).requests@.len());
    assert(old(popup)@.requests == popup_request_views(old(popup).requests@));
    assert(popup_request_views(old(popup).requests@).len() == n);
    assert(final(popup)@.input == final(popup).input@);
    assert(old(popup)@.input == old(popup).input@);
    assert(views[n] == final(popup).requests@[n]@);
    if let Err(err) = outcome {
        assert("create worktree error:"@.push('\n') + err@ =~= "create worktree error:"@ + seq![
            '\n',
        ] + err@);
    }
}

/// A warning is drawn where the final component of the path is no valid branch
/// name: one row high, in the last row of the area, one cell before its right
/// border, as wide as the message or what the area leaves it.
pub proof fn law_a_warning_stands_at_the_right_of_the_last_row(
    popup: CreateWorktreePopup,
    msg: &str,
    area: Area,
    placed: Option<Area>,
    warns: bool,
)
    requires
        encode_utf8(msg@).len() < 65535,
        area.width <= encode_utf8(msg@).len() || area.x + area.width - encode_utf8(msg@).len() - 1
            <= 65535,
        area.height == 0 || area.y + area.height - 1 <= 65535,
        call_ensures(CreateWorktreePopup::draw_warnings, (&popup, msg, area), placed),
        call_ensures(CreateWorktreePopup::has_warning, (&popup,), warns),
    ensures
        placed is Some <==> (path_name(encode_utf8(popup.input.text@)) matches Some(name)
            && branch_name_validity(name) != Some(true)),
        warns <==> placed is Some,
        placed matches Some(at) ==> {
            &&& at.height == 1
            &&& area.height > 0 ==> at.y + 1 == area.y + area.height
            &&& area.height == 0 ==> at.y == area.y
            &&& area.width > 0 ==> at.x + at.width + 1 == area.x + area.width
            &&& area.width == 0 ==> at.x == area.x && at.width == 0
            &&& area.x <= at.x
            &&& area.width > 0 ==> at.width == (if encode_utf8(msg@).len() < area.width {
                encode_utf8(msg@).len() as int
            } else {
                area.width - 1
            })
        },
{
    lemma_byte_len_encoding(msg@);
    assert(popup@.input.text == popup.input.text@);
}

/// Both popups offer the commands of their input and their own, while they are
/// shown or all commands are asked for, behind those that are there already, and
/// hide those of what lies below while they are shown.
pub proof fn law_popups_offer_their_own_command(
    create: CreateWorktreePopup,
    out: &mut Vec<PopupCommandInfo>,
    blocking: CommandBlocking,
    open: OpenRepoPopup,
    other: &mut Vec<PopupCommandInfo>,
    blocking_too: CommandBlocking,
    force_all: bool,
)
    requires
        call_ensures(CreateWorktreePopup::commands, (&create, out, force_all), blocking),
        call_ensures(OpenRepoPopup::commands, (&open, other, force_all), blocking_too),
    ensures
        blocking == CommandBlocking::Blocking <==> create.input.visible,
        blocking_too == CommandBlocking::Blocking <==> open.input.visible,
        !create.input.visible && !force_all ==> final(out)@ == old(out)@,
        !open.input.visible && !force_all ==> final(other)@ == old(other)@,
        create.input.visible || force_all ==> final(out)@ == old(out)@ + seq![
            PopupCommandInfo { command: PopupCommand::Input, enabled: true, available: true },
            PopupCommandInfo {
                command: PopupCommand::CreateWorktree,
                enabled: true,
                available: true,
            },
        ],
        open.input.visible || force_all ==> final(other)@ == old(other)@ + seq![
            PopupCommandInfo { command: PopupCommand::Input, enabled: true, available: true },
            PopupCommandInfo { command: PopupCommand::OpenRepo, enabled: true, available: true },
        ],
{
    assert(create@.input == create.input@);
    assert(open@.input == open.input@);
}

/// Both popups are shown on demand, with what was entered before.
pub proof fn law_popups_are_shown(
    create: &mut CreateWorktreePopup,
    outcome: Result<(), Error>,
    open: &mut OpenRepoPopup,
    outcome_too: Result<(), Error>,
)
    requires
        call_ensures(CreateWorktreePopup::open, (create,), outcome),
        call_ensures(OpenRepoPopup::open, (open,), outcome_too),
    ensures
        outcome is Ok && outcome_too is Ok,
        final(create).input.visible && final(create).input.text@ == old(create).input.text@,
        final(open).input.visible && final(open).input.text@ == old(open).input.text@,
        popup_request_views(final(create).requests@) == popup_request_views(
            old(create).requests@,
        ),
        popup_request_views(final(open).requests@) == popup_request_views(old(open).requests@),
{
    assert(final(create)@.input == final(create).input@);
    assert(old(create)@.input == old(create).input@);
    assert(final(open)@.input == final(open).input@);
    assert(old(open)@.input == old(open).input@);
    assert(final(create)@.requests == popup_request_views(final(create).requests@));
    assert(old(create)@.requests == popup_request_views(old(create).requests@));
    assert(final(open)@.requests == popup_request_views(final(open).requests@));
    assert(old(open)@.requests == popup_request_views(old(open).requests@));
}

/// Confirming a blank path hides the popup and keeps the path; confirming any
/// other asks to validate what the path leads to, without the white space around
/// it, and leaves the popup as it is until the answer comes.
pub proof fn law_a_confirmed_path_is_validated(popup: &mut OpenRepoPopup)
    requires
        call_ensures(OpenRepoPopup::confirm, (popup,), ()),
    ensures
        ({
            let entered = old(popup).input.text@;
            let n = old(popup).requests@.len() as int;
            &&& final(popup).input.text@ == entered
            &&& is_blank(entered) ==> !final(popup).input.visible && final(popup).requests@.len()
                == n
            &&& !is_blank(entered) ==> {
                &&& final(popup).input.visible == old(popup).input.visible
                &&& final(popup).requests@.len() == n + 1
                &&& final(popup).requests@[n] matches PopupRequest::ValidateRepo(path)
                    && path_leads_to(trimmed(entered), path_bytes(path))
            }
        }),
{
    let n = old(popup).requests@.len() as int;
    lemma_blank(old(popup).input.text@);
    let views = popup_request_views(final(popup).requests@);
    assert(views == final(popup)@.requests);
    assert(views.len() == final(popup).requests@.len());
    assert(old(popup)@.requests == popup_request_views(old(popup).requests@));
    assert(popup_request_views(old(popup).requests@).len() == n);
    assert(final(popup)@.input == final(popup).input@);
    assert(old(popup)@.input == old(popup).input@);
    if final(popup).requests@.len() > n {
        assert(views[n] == final(popup).requests@[n]@);
    }
}

/// While the popup is shown, a key that the input has not used up is used up; only
/// the key for confirming changes the popup.
pub proof fn law_only_the_enter_key_confirms(
    popup: &mut OpenRepoPopup,
    input_consumed: bool,
    key: bool,
    enter: bool,
    state: EventState,
)
    requires
        call_ensures(OpenRepoPopup::event, (popup, input_consumed, key, enter), state),
    ensures
        state == EventState::Consumed <==> old(popup).input.visible && (input_consumed || key),
        !(old(popup).input.visible && !input_consumed && key && enter) ==> final(popup)@ == old(popup)@,
        old(popup).input.visible && !input_consumed && key && enter && is_blank(
            old(popup).input.text@,
        ) ==> !final(popup).input.visible && final(popup).requests@.len() == old(popup).requests@.len(),
        old(popup).input.visible && !input_consumed && key && enter && !is_blank(
            old(popup).input.text@,
        ) ==> final(popup).requests@.len() == old(popup).requests@.len() + 1 && final(popup).requests@.last() is ValidateRepo,
{
    let n = old(popup).requests@.len() as int;
    lemma_blank(old(popup).input.text@);
    let views = popup_request_views(final(popup).requests@);
    assert(views == final(popup)@.requests);
    assert(views.len() == final(popup).requests@.len());
    assert(old(popup)@.requests == popup_request_views(old(popup).requests@));
    assert(popup_request_views(old(popup).requests@).len() == n);
    assert(final(popup)@.input == final(popup).input@);
    assert(old(popup)@.input == old(popup).input@);
    if final(popup).requests@.len() > n {
        assert(views[n] == final(popup).requests@[n]@);
    }
}

/// The answer leaves an empty, hidden popup: a path that can be opened is opened,
/// for any other the reason is shown.
pub proof fn law_a_validated_path_is_opened(
    popup: &mut OpenRepoPopup,
    path: PathBuf,
    error: Option<String>,
)
    requires
        call_ensures(OpenRepoPopup::repo_validated, (popup, path, error), ()),
    ensures
        !final(popup).input.visible && final(popup).input.text@.len() == 0,
        final(popup).requests@.len() == old(popup).requests@.len() + 1,
        error is None ==> (final(popup).requests@.last() matches PopupRequest::OpenRepo {
            path: opened,
        } && path_bytes(opened) == path_bytes(path)),
        error matches Some(err) ==> (final(popup).requests@.last() matches PopupRequest::ShowErrorMsg(msg) && msg@
            == "not a valid repository:"@ + seq!['\n'] + err@),
{
    let n = old(popup).requests@.len() as int;
    let views = popup_request_views(final(popup).requests@);
    assert(views == final(popup)@.requests);
    assert(views.len() == final(popup).requests@.len());
    assert(old(popup)@.requests == popup_request_views(old(popup).requests@));
    assert(popup_request_views(old(popup).requests@).len() == n);
    assert(final(popup)@.input == final(popup).input@);
    assert(views[n] == final(popup).requests@[n]@);
    if let Some(err) = error {
        assert("not a valid repository:"@.push('\n') + err@ =~= "not a valid repository:"@ + seq![
            '\n',
        ] + err@);
    }
}

} // verus!
