//! The popup that lists the worktrees: its rows, its selection, its keys.
#![allow(unused_imports)]
use vstd::prelude::*;

use crate::area::Area;
use crate::columns::{cut_to_columns, display_columns};
use crate::diff_view::ScrollUpdate;
use crate::error::Error;
use crate::event::{CommandBlocking, EventState};
use crate::laws::moving::nearest;
use crate::laws::unified_view::room;
use crate::paths::{path_bytes, path_shown};
use crate::popup::{popup_request_views, PopupCommand, PopupCommandInfo, PopupRequest};
use crate::render::{line_views, painted, Paint, TextLine};
use crate::text::blanks;
use crate::worktree::WorktreeInfo;
use crate::worktrees::{row_with_path, worktree_row, WorktreesKeys, WorktreesPopup};

verus! {

/// No key.
pub open spec fn no_key() -> WorktreesKeys {
    WorktreesKeys {
        exit_popup: false,
        move_down: false,
        move_up: false,
        page_down: false,
        page_up: false,
        home: false,
        end: false,
        enter: false,
        create_branch: false,
        delete_branch: false,
        lock_worktree: false,
        cmd_bar_toggle: false,
    }
}

/// A text in a field of the given width, which a longer one widens.
pub open spec fn field(text: Seq<char>, width: int) -> Seq<char> {
    text + blanks(room(width, text.len() as int))
}

/// What a row says behind the path: whether the worktree is locked, and whether
/// it is invalid.
pub open spec fn remarks(worktree: WorktreeInfo) -> Seq<char> {
    let lock = if worktree.is_locked {
        " 🔒"@
    } else {
        Seq::empty()
    };
    if worktree.is_valid {
        lock
    } else {
        lock + " (invalid)"@
    }
}

/// A row marks the current worktree, names it and its branch in fields of their
/// own, shows its path, and remarks on it. The path is shown whole where the rest
/// of the row leaves it room, else cut, with three dots behind.
pub proof fn law_a_row_says_all_of_its_worktree(
    worktree: WorktreeInfo,
    path: &str,
    width: u16,
    text: String,
)
    requires
        call_ensures(row_with_path, (&worktree, path, width), text),
    ensures
        ({
            let mark = if worktree.is_current {
                '*'
            } else {
                ' '
            };
            let branch = match worktree.branch {
                Some(branch) => branch@,
                None => "(detached)"@,
            };
            let front = seq![mark, ' '] + field(worktree.name@, 16) + seq![' '] + field(branch, 20)
                + seq![' '];
            let back = remarks(worktree);
            let left = room(
                width as int,
                display_columns(front) + display_columns(back),
            ) as int;
            text@ == front + (if display_columns(path@) <= left {
                path@
            } else {
                cut_to_columns(path@, room(left, 3)) + "..."@
            }) + back
        }),
{
    let branch = match worktree.branch {
        Some(branch) => branch@,
        None => "(detached)"@,
    };
    assert(worktree@.branch == crate::paths::text_view(worktree.branch));
    let mark = if worktree.is_current {
        '*'
    } else {
        ' '
    };
    let front = seq![mark, ' '] + field(worktree.name@, 16) + seq![' '] + field(branch, 20) + seq![
        ' ',
    ];
    assert(crate::worktrees::row_prefix(worktree@) =~= front);
    assert(crate::worktrees::row_suffix(worktree@) =~= remarks(worktree));
}

/// The list shows as many worktrees from the top on as there are, up to the
/// height, each in its own row with its own path, and marks the selected one.
pub proof fn law_each_worktree_has_its_row(
    popup: WorktreesPopup,
    width: u16,
    height: usize,
    top: usize,
    lines: Vec<TextLine>,
    k: int,
    text: String,
)
    requires
        top < popup.worktrees@.len() && height > 0 ==> top <= popup.selection,
        call_ensures(WorktreesPopup::get_text, (&popup, width, height, top), lines),
        0 <= k < lines@.len() ==> call_ensures(
            worktree_row,
            (&popup.worktrees@[top + k], width),
            text,
        ),
    ensures
        lines@.len() == (if popup.worktrees@.len() <= top {
            0int
        } else if popup.worktrees@.len() <= top + height {
            popup.worktrees@.len() - top
        } else {
            height as int
        }),
        0 <= k < lines@.len() ==> lines@[k]@ == seq![
            painted(text@, Paint::Text(true, top + k == popup.selection)),
        ],
{
    assert(line_views(lines@).len() == lines@.len());
    if 0 <= k < lines@.len() {
        assert(line_views(lines@)[k] == lines@[k]@);
    }
}

/// A row that shows the path of its worktree shows it as that path is shown.
pub proof fn law_a_row_shows_its_own_path(
    worktree: WorktreeInfo,
    width: u16,
    text: String,
    path: &str,
    with_path: String,
)
    requires
        call_ensures(worktree_row, (&worktree, width), text),
        call_ensures(row_with_path, (&worktree, path, width), with_path),
        path@ == path_shown(path_bytes(worktree.path)),
    ensures
        text@ == with_path@,
{
}

/// Where a move is meant to lead: one entry or one page down or up the list, or
/// to an end of it. Moving down the list raises the selection.
pub open spec fn aim(popup: WorktreesPopup, keys: WorktreesKeys) -> int {
    if keys.move_down {
        popup.selection + 1
    } else if keys.move_up {
        popup.selection - 1
    } else if keys.page_down {
        popup.selection + popup.current_height
    } else if keys.page_up {
        popup.selection - popup.current_height
    } else if keys.home {
        0
    } else {
        popup.worktrees@.len() - 1
    }
}

/// A movement key selects the entry of the list that is nearest to where it is
/// meant to lead, and changes nothing else. Where the list is longer than can be
/// counted, nothing moves.
pub proof fn law_movement_keys_select_the_nearest_entry(
    popup: &mut WorktreesPopup,
    keys: WorktreesKeys,
    state: Result<EventState, Error>,
)
    requires
        call_ensures(WorktreesPopup::event, (popup, Some(&keys)), state),
        old(popup).visible,
        ({
            ||| keys == (WorktreesKeys { move_down: true, ..no_key() })
            ||| keys == (WorktreesKeys { move_up: true, ..no_key() })
            ||| keys == (WorktreesKeys { page_down: true, ..no_key() })
            ||| keys == (WorktreesKeys { page_up: true, ..no_key() })
            ||| keys == (WorktreesKeys { home: true, ..no_key() })
            ||| keys == (WorktreesKeys { end: true, ..no_key() })
        }),
    ensures
        *final(popup) == (WorktreesPopup { selection: final(popup).selection, ..*old(popup) }),
        old(popup).worktrees@.len() <= 65535 ==> {
            let last = if old(popup).worktrees@.len() > 0 {
                old(popup).worktrees@.len() - 1
            } else {
                0
            };
            &&& final(popup).selection == nearest(aim(*old(popup), keys), last)
            &&& state == Ok::<EventState, Error>(EventState::Consumed)
        },
        old(popup).worktrees@.len() > 65535 ==> final(popup).selection == old(popup).selection
            && state == Err::<EventState, Error>(Error::OutOfRange),
{
}

/// Whether a request is about the selected worktree, and may be made of it: the
/// current one is neither opened nor removed, the primary one neither removed
/// nor locked.
pub open spec fn is_about_the_selection(popup: WorktreesPopup, request: PopupRequest) -> bool {
    let worktree = popup.worktrees@[popup.selection as int];
    match request {
        PopupRequest::OpenRepo { path } => {
            &&& popup.selection < popup.worktrees@.len()
            &&& path_bytes(path) == path_bytes(worktree.path)
            &&& !worktree.is_current
        },
        PopupRequest::ConfirmDeleteWorktree(name) => {
            &&& popup.selection < popup.worktrees@.len()
            &&& name@ == worktree.name@
            &&& !worktree.is_current && !worktree.is_main
        },
        PopupRequest::ToggleWorktreeLock(name) => {
            &&& popup.selection < popup.worktrees@.len()
            &&& name@ == worktree.name@
            &&& !worktree.is_main
        },
        PopupRequest::CreateWorktree => true,
        _ => false,
    }
}

/// Whatever key is pressed, every request that it adds is about the selected
/// worktree, and one that may be made of it.
pub proof fn law_keys_ask_about_the_selected_worktree(
    popup: &mut WorktreesPopup,
    keys: WorktreesKeys,
    state: Result<EventState, Error>,
    j: int,
)
    requires
        call_ensures(WorktreesPopup::event, (popup, Some(&keys)), state),
        old(popup).requests@.len() <= j < final(popup).requests@.len(),
    ensures
        is_about_the_selection(*old(popup), final(popup).requests@[j]),
{
    let n = old(popup).requests@.len() as int;
    let views = popup_request_views(final(popup).requests@);
    assert(views.len() == final(popup).requests@.len());
    assert(popup_request_views(old(popup).requests@).len() == n);
    assert(views[j] == final(popup).requests@[j]@);
}

/// Whether a request is what one of the keys is there for.
pub open spec fn is_meant_by(keys: WorktreesKeys, request: PopupRequest) -> bool {
    match request {
        PopupRequest::OpenRepo { .. } => keys.enter,
        PopupRequest::ConfirmDeleteWorktree(_) => keys.delete_branch,
        PopupRequest::ToggleWorktreeLock(_) => keys.lock_worktree,
        PopupRequest::CreateWorktree => keys.create_branch,
        _ => false,
    }
}

/// A key asks for one thing at most, and for nothing but what it is there for.
pub proof fn law_a_key_asks_for_nothing_else(
    popup: &mut WorktreesPopup,
    keys: WorktreesKeys,
    state: Result<EventState, Error>,
)
    requires
        call_ensures(WorktreesPopup::event, (popup, Some(&keys)), state),
    ensures
        old(popup).requests@.len() <= final(popup).requests@.len() <= old(popup).requests@.len()
            + 1,
        final(popup).requests@.len() > old(popup).requests@.len() ==> is_meant_by(
            keys,
            final(popup).requests@.last(),
        ),
        final(popup).selection != old(popup).selection ==> keys.move_down || keys.move_up
            || keys.page_down || keys.page_up || keys.home || keys.end,
        final(popup).visible != old(popup).visible ==> keys.exit_popup || keys.enter
            || keys.create_branch,
{
    let n = old(popup).requests@.len() as int;
    let views = popup_request_views(final(popup).requests@);
    assert(views.len() == final(popup).requests@.len());
    assert(popup_request_views(old(popup).requests@).len() == n);
    if final(popup).requests@.len() > n {
        assert(views[n] == final(popup).requests@[n]@);
    }
}

/// The key among those that an event matches that is in effect: the first in the
/// order in which they are listed.
pub open spec fn key_in_effect(keys: WorktreesKeys) -> WorktreesKeys {
    if keys.exit_popup {
        WorktreesKeys { exit_popup: true, ..no_key() }
    } else if keys.move_down {
        WorktreesKeys { move_down: true, ..no_key() }
    } else if keys.move_up {
        WorktreesKeys { move_up: true, ..no_key() }
    } else if keys.page_down {
        WorktreesKeys { page_down: true, ..no_key() }
    } else if keys.page_up {
        WorktreesKeys { page_up: true, ..no_key() }
    } else if keys.home {
        WorktreesKeys { home: true, ..no_key() }
    } else if keys.end {
        WorktreesKeys { end: true, ..no_key() }
    } else if keys.enter {
        WorktreesKeys { enter: true, ..no_key() }
    } else if keys.create_branch {
        WorktreesKeys { create_branch: true, ..no_key() }
    } else if keys.delete_branch {
        WorktreesKeys { delete_branch: true, ..no_key() }
    } else if keys.lock_worktree {
        WorktreesKeys { lock_worktree: true, ..no_key() }
    } else if keys.cmd_bar_toggle {
        WorktreesKeys { cmd_bar_toggle: true, ..no_key() }
    } else {
        no_key()
    }
}

/// An event that matches several keys does what the one that is in effect does
/// alone.
pub proof fn law_one_key_is_in_effect(
    popup: &mut WorktreesPopup,
    keys: WorktreesKeys,
    state: Result<EventState, Error>,
    twin: &mut WorktreesPopup,
    alone: WorktreesKeys,
    other: Result<EventState, Error>,
)
    requires
        *old(popup) == *old(twin),
        alone == key_in_effect(keys),
        call_ensures(WorktreesPopup::event, (popup, Some(&keys)), state),
        call_ensures(WorktreesPopup::event, (twin, Some(&alone)), other),
    ensures
        state == other,
        *final(popup) == (WorktreesPopup { requests: final(popup).requests, ..*final(twin) }),
        popup_request_views(final(popup).requests@) == popup_request_views(
            final(twin).requests@,
        ),
{
}

/// The popup is shown and hidden on demand, and nothing else changes.
pub proof fn law_a_popup_is_shown_and_hidden(
    popup: &mut WorktreesPopup,
    outcome: Result<(), Error>,
    twin: &mut WorktreesPopup,
    visible: bool,
)
    requires
        call_ensures(WorktreesPopup::show, (popup,), outcome),
        call_ensures(WorktreesPopup::close, (twin,), ()),
        call_ensures(WorktreesPopup::is_visible, (&*final(popup),), visible),
    ensures
        outcome is Ok && visible,
        *final(popup) == (WorktreesPopup { visible: true, ..*old(popup) }),
        *final(twin) == (WorktreesPopup { visible: false, ..*old(twin) }),
{
}

/// The frame lies on the screen and where it was placed, and the list inside it,
/// with a cell left on every side; the scroll bar reaches a row above and a row
/// below the list.
pub proof fn law_the_list_lies_inside_its_frame(
    placed: Area,
    screen: Area,
    areas: (Area, Area),
    bar: Area,
)
    requires
        placed.x + placed.width <= 65535 && placed.y + placed.height <= 65535,
        screen.x + screen.width <= 65535 && screen.y + screen.height <= 65535,
        call_ensures(WorktreesPopup::popup_areas, (placed, screen), areas),
        areas.1.height <= 65533,
        call_ensures(WorktreesPopup::scroll_area, (areas.1,), bar),
    ensures
        ({
            let (frame, list) = areas;
            &&& placed.x <= frame.x && screen.x <= frame.x && placed.y <= frame.y && screen.y
                <= frame.y
            &&& frame.width > 0 ==> frame.x + frame.width <= placed.x + placed.width && frame.x
                + frame.width <= screen.x + screen.width
            &&& frame.height > 0 ==> frame.y + frame.height <= placed.y + placed.height && frame.y
                + frame.height <= screen.y + screen.height
            &&& frame.width >= 2 && frame.height >= 2 ==> {
                &&& list.x == frame.x + 1 && list.y == frame.y + 1
                &&& list.width == frame.width - 2 && list.height == frame.height - 2
            }
            &&& frame.width < 2 || frame.height < 2 ==> list.width == 0 && list.height == 0
            &&& bar.x == list.x && bar.width == list.width && bar.height == list.height + 2
            &&& list.y > 0 ==> bar.y + 1 == list.y
            &&& list.y == 0 ==> bar.y == 0
        }),
{
}

/// Whether one request more was made, and nothing changed but that and whether
/// the popup is shown.
pub open spec fn asked_once(before: WorktreesPopup, after: WorktreesPopup, shown: bool) -> bool {
    &&& after.requests@.len() == before.requests@.len() + 1
    &&& after == WorktreesPopup { requests: after.requests, visible: shown, ..before }
}

/// Every key of a popup that is shown does its own, where that may be done: to
/// open the selected worktree and to create one hides the popup; to remove and to
/// lock leaves it. All keys are used up but that of the command bar.
pub proof fn law_each_key_does_its_own(
    popup: &mut WorktreesPopup,
    keys: WorktreesKeys,
    state: Result<EventState, Error>,
)
    requires
        call_ensures(WorktreesPopup::event, (popup, Some(&keys)), state),
        old(popup).visible,
    ensures
        ({
            let (before, after) = (*old(popup), *final(popup));
            let last = after.requests@.last();
            let worktree = before.worktrees@[before.selection as int];
            let there = before.selection < before.worktrees@.len();
            let hidden = WorktreesPopup { visible: false, ..before };
            &&& keys == (WorktreesKeys { exit_popup: true, ..no_key() }) ==> after == hidden
            &&& keys == (WorktreesKeys { enter: true, ..no_key() }) && there
                && !worktree.is_current ==> asked_once(before, after, false) && last is OpenRepo
            &&& keys == (WorktreesKeys { enter: true, ..no_key() }) && (!there
                || worktree.is_current) ==> after.requests@.len() == before.requests@.len()
                && !after.visible
            &&& keys == (WorktreesKeys { create_branch: true, ..no_key() }) ==> asked_once(
                before,
                after,
                false,
            ) && last is CreateWorktree
            &&& keys == (WorktreesKeys { delete_branch: true, ..no_key() }) && there
                && !worktree.is_current && !worktree.is_main ==> asked_once(before, after, true)
                && last is ConfirmDeleteWorktree
            &&& keys == (WorktreesKeys { lock_worktree: true, ..no_key() }) && there
                && !worktree.is_main ==> asked_once(before, after, true)
                && last is ToggleWorktreeLock
            &&& keys == (WorktreesKeys { cmd_bar_toggle: true, ..no_key() }) ==> after == before
                && state == Ok::<EventState, Error>(EventState::NotConsumed)
            &&& keys == no_key() ==> after == before
            &&& !keys.cmd_bar_toggle && state is Ok ==> state == Ok::<EventState, Error>(
                EventState::Consumed,
            )
            &&& after.worktrees == before.worktrees && after.current_height
                == before.current_height
        }),
{
    let n = old(popup).requests@.len() as int;
    let views = popup_request_views(final(popup).requests@);
    assert(views.len() == final(popup).requests@.len());
    assert(popup_request_views(old(popup).requests@).len() == n);
    if final(popup).requests@.len() > n {
        assert(views[n] == final(popup).requests@[n]@);
    }
}

/// A hidden popup leaves every event alone, and one that is shown uses up what is
/// no key.
pub proof fn law_a_hidden_popup_leaves_events_alone(
    popup: &mut WorktreesPopup,
    ev: Option<&WorktreesKeys>,
    state: Result<EventState, Error>,
)
    requires
        call_ensures(WorktreesPopup::event, (popup, ev), state),
        !old(popup).visible || ev is None,
    ensures
        *final(popup) == *old(popup),
        state == Ok::<EventState, Error>(
            if old(popup).visible {
                EventState::Consumed
            } else {
                EventState::NotConsumed
            },
        ),
{
}

/// A list that was asked for is taken over, and the selection goes to its nearest
/// entry; one that could not be had changes nothing and is the error.
pub proof fn law_a_list_is_taken_over(
    popup: &mut WorktreesPopup,
    listed: Result<Vec<WorktreeInfo>, Error>,
    outcome: Result<(), Error>,
)
    requires
        call_ensures(WorktreesPopup::worktrees_listed, (popup, listed), outcome),
    ensures
        listed matches Ok(list) ==> {
            &&& final(popup).worktrees == list
            &&& *final(popup) == (WorktreesPopup {
                worktrees: final(popup).worktrees,
                selection: final(popup).selection,
                ..*old(popup)
            })
            &&& list@.len() <= 65535 ==> outcome is Ok && final(popup).selection == nearest(
                old(popup).selection as int,
                if list@.len() > 0 {
                    list@.len() - 1
                } else {
                    0
                },
            )
            &&& list@.len() > 65535 ==> outcome == Err::<(), Error>(Error::OutOfRange) && final(popup).selection == old(popup).selection
        },
        listed matches Err(err) ==> outcome == Err::<(), Error>(err) && *final(popup) == *old(popup),
{
}

/// The popup is shown with a request for the worktrees, asks for them again after
/// a lock was toggled, and shows why it was not, if so.
pub proof fn law_worktrees_are_asked_for(
    popup: &mut WorktreesPopup,
    opened: Result<(), Error>,
    other: &mut WorktreesPopup,
    outcome: Result<(), String>,
)
    requires
        call_ensures(WorktreesPopup::open, (popup,), opened),
        call_ensures(WorktreesPopup::lock_toggled, (other, outcome), ()),
        old(other).visible,
    ensures
        opened is Ok,
        asked_once(*old(popup), *final(popup), true) && final(popup).requests@.last() is ListWorktrees,
        final(other).requests@.len() == old(other).requests@.len() + (if outcome is Ok {
            1int
        } else {
            2int
        }),
        final(other).requests@.last() is ListWorktrees,
        outcome matches Err(err) ==> (final(other).requests@[old(other).requests@.len() as int] matches PopupRequest::ShowErrorMsg(msg) && msg@ == err@),
{
    let n = old(popup).requests@.len() as int;
    let views = popup_request_views(final(popup).requests@);
    assert(views.len() == final(popup).requests@.len());
    assert(popup_request_views(old(popup).requests@).len() == n);
    assert(views[n] == final(popup).requests@[n]@);
    let m = old(other).requests@.len() as int;
    let others = popup_request_views(final(other).requests@);
    assert(others.len() == final(other).requests@.len());
    assert(popup_request_views(old(other).requests@).len() == m);
    assert(others[m] == final(other).requests@[m]@);
    if outcome is Err {
        assert(others[m + 1] == final(other).requests@[m + 1]@);
    }
}

/// Drawing keeps the height of the list, and has the scroll position follow the
/// selection.
pub proof fn law_the_scroll_position_follows_the_selection(
    popup: &mut WorktreesPopup,
    r: Area,
    update: ScrollUpdate,
)
    requires
        call_ensures(WorktreesPopup::begin_draw_list, (popup, r), update),
    ensures
        *final(popup) == (WorktreesPopup { current_height: r.height, ..*old(popup) }),
        update.selection == old(popup).selection,
        update.rows == old(popup).worktrees@.len(),
        update.height == r.height,
{
}

/// The commands stand in the order of the bar, each of them enabled where its key
/// would do something. They take the place of all others while the popup is
/// shown, unless all commands are asked for.
pub proof fn law_commands_are_enabled_where_they_may_be_run(
    popup: WorktreesPopup,
    out: &mut Vec<PopupCommandInfo>,
    force_all: bool,
    blocking: CommandBlocking,
)
    requires
        call_ensures(WorktreesPopup::commands, (&popup, out, force_all), blocking),
    ensures
        blocking == CommandBlocking::Blocking <==> popup.visible,
        !popup.visible && !force_all ==> final(out)@ == old(out)@,
        popup.visible || force_all ==> {
            let n = if force_all {
                old(out)@.len() as int
            } else {
                0
            };
            let worktree = popup.worktrees@[popup.selection as int];
            let there = popup.selection < popup.worktrees@.len();
            let new = final(out)@.skip(n);
            &&& final(out)@.len() == n + 6
            &&& force_all ==> final(out)@.take(n) == old(out)@
            &&& forall|j: int| 0 <= j < new.len() ==> (#[trigger] new[j]).available
            &&& new[0].command == PopupCommand::Scroll && new[0].enabled
            &&& new[1].command == PopupCommand::ClosePopup && new[1].enabled
            &&& new[2].command == PopupCommand::OpenWorktree && new[2].enabled == (there
                && !worktree.is_current)
            &&& new[3].command == PopupCommand::CreateWorktree && new[3].enabled
            &&& new[4].command == PopupCommand::RemoveWorktree && new[4].enabled == (there
                && !worktree.is_current && !worktree.is_main)
            &&& new[5].command == PopupCommand::LockWorktree && new[5].enabled == (there
                && !worktree.is_main)
        },
{
    if force_all {
        assert(final(out)@.take(old(out)@.len() as int) =~= old(out)@);
        assert(final(out)@.skip(old(out)@.len() as int) =~= popup.command_list());
    } else if popup.visible {
        assert(final(out)@.skip(0) =~= popup.command_list());
    }
}

} // verus!
